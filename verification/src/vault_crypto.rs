//! The encrypted file format of the vault.
//!
//! A file in the current format begins with a header: the magic `SLV2`, a
//! 12-byte base nonce and the plaintext size as a little-endian `u64`.
//! Frames follow until the end of the file; each is the length of a
//! ciphertext as a little-endian `u32` and then the ciphertext, the
//! AES-256-GCM encryption of at most 1 MiB of plaintext. Chunk `i` is
//! encrypted under the base nonce with its first 8 bytes XOR-ed with the
//! little-endian form of `i`.
//!
//! A file that does not begin with the magic is in the legacy format: a
//! 12-byte nonce and one ciphertext for the whole plaintext.
use vstd::prelude::*;
use vstd::bytes::*;
use vstd::slice::slice_subrange;
use vstd::assert_by_contradiction;
use crate::text::{push_decimal, push_str, spec_decimal, string_of};
use aes_gcm::aead::{Aead, KeyInit};
use argon2::password_hash::{PasswordHasher, PasswordVerifier};
use rand::RngCore;

verus! {

/// Length of a nonce in bytes.
pub const NONCE_SIZE: usize = 12;

/// Length of a key in bytes.
pub const KEY_SIZE: usize = 32;

/// Length of the authentication tag that ends every ciphertext.
pub const TAG_SIZE: usize = 16;

/// Most plaintext bytes in one chunk.
pub const CHUNK_SIZE: usize = 1048576;

/// Length of the header of the current format.
pub const HEADER_SIZE: usize = 24;

/// Most plaintext bytes that one AES-GCM encryption takes.
pub const MAX_SEAL_LEN: u64 = 68719476736;

/// What can go wrong in the vault.
#[derive(Debug, Clone, Copy, PartialEq, Eq, Structural)]
pub enum VaultError {
    /// The file ends before its first four bytes.
    HeaderTooShort,
    /// The file ends inside the base nonce.
    MissingNonce,
    /// The file ends inside the plaintext size.
    MissingSize,
    /// The frame of this chunk announces more bytes than the file holds.
    TruncatedChunk(u64),
    /// The ciphertext of this chunk was rejected: the PIN is wrong or the
    /// file is damaged.
    ChunkRejected(u64),
    /// The plaintext is not as long as the header says.
    SizeMismatch { expected: u64, got: u64 },
    /// A legacy file ends inside its nonce.
    LegacyNonceTooShort,
    /// The ciphertext of a legacy file was rejected: the PIN is wrong or
    /// the file is damaged.
    LegacyRejected,
    /// A chunk of more than `CHUNK_SIZE` bytes was handed in.
    ChunkTooLarge,
    /// The cipher refused to encrypt this chunk.
    EncryptionFailed(u64),
    /// The system has no random bytes to give.
    NoRandomness,
    /// The PIN has fewer than four characters.
    PinTooShort,
    /// The vault has been set up before.
    AlreadySetUp,
    /// The vault has not been set up.
    NotSetUp,
    /// The vault is locked.
    Locked,
    /// The stored PIN hash cannot be read.
    InvalidStoredHash,
    /// The PIN is not the vault's PIN.
    InvalidPin,
    /// The PIN could not be hashed.
    HashingFailed,
    /// No key could be derived from PIN and salt.
    KeyDerivationFailed,
}

/// What AES-256-GCM makes of a plaintext under a key and a nonce: the
/// ciphertext followed by the tag.
pub uninterp spec fn spec_aes_gcm_seal(key: Seq<u8>, nonce: Seq<u8>, plaintext: Seq<u8>) -> Seq<u8>;

/// The plaintext that AES-256-GCM accepts a ciphertext for; `None` where
/// the tag does not match.
pub uninterp spec fn spec_aes_gcm_open(key: Seq<u8>, nonce: Seq<u8>, ciphertext: Seq<u8>) -> Option<
    Seq<u8>,
>;

/// The 32-byte Argon2 key of a password and a salt; `None` where Argon2
/// refuses its input.
pub uninterp spec fn spec_argon2_key(password: Seq<u8>, salt: Seq<u8>) -> Option<Seq<u8>>;

/// The PHC string that Argon2 makes of a PIN and a salt in B64; `None`
/// where the salt is no salt.
pub uninterp spec fn spec_pin_hash(pin: Seq<u8>, salt: Seq<char>) -> Option<Seq<char>>;

/// Whether a PIN matches a PHC string; `None` where the string is no PHC
/// string.
pub uninterp spec fn spec_pin_verify(pin: Seq<u8>, phc: Seq<char>) -> Option<bool>;

/// The B64 text of 16 salt bytes.
pub uninterp spec fn spec_salt_text(bytes: Seq<u8>) -> Option<Seq<char>>;

/// `Aes256Gcm::encrypt` under a key made by `Aes256Gcm::new_from_slice` and
/// a nonce made by `Nonce::from_slice`.
///
/// The contract claims of the cipher: it encrypts whatever is not longer
/// than `MAX_SEAL_LEN`; its result is a function of key, nonce and
/// plaintext, is 16 bytes longer than the plaintext, and decrypts to the
/// plaintext under the same key and nonce.
#[verifier::external_body]
pub(crate) fn aes_gcm_seal(key: &[u8; 32], nonce: &[u8; 12], plaintext: &[u8]) -> (out: Option<
    Vec<u8>,
>)
    ensures
        plaintext@.len() <= MAX_SEAL_LEN ==> out is Some,
        out is Some ==> {
            &&& out->0@ == spec_aes_gcm_seal(key@, nonce@, plaintext@)
            &&& out->0@.len() == plaintext@.len() + TAG_SIZE
            &&& spec_aes_gcm_open(key@, nonce@, out->0@) == Some(plaintext@)
        },
{
    let cipher = aes_gcm::Aes256Gcm::new_from_slice(key).ok()?;
    cipher.encrypt(aes_gcm::Nonce::from_slice(nonce), plaintext).ok()
}

/// `Aes256Gcm::decrypt` under a key made by `Aes256Gcm::new_from_slice` and
/// a nonce made by `Nonce::from_slice`.
///
/// The contract claims of the cipher: whether it accepts, and what it
/// returns, is a function of key, nonce and ciphertext; what it returns is
/// 16 bytes shorter than the ciphertext.
#[verifier::external_body]
pub(crate) fn aes_gcm_open(key: &[u8; 32], nonce: &[u8; 12], ciphertext: &[u8]) -> (out: Option<
    Vec<u8>,
>)
    ensures
        out is Some == spec_aes_gcm_open(key@, nonce@, ciphertext@) is Some,
        out is Some ==> {
            &&& out->0@ == spec_aes_gcm_open(key@, nonce@, ciphertext@)->0
            &&& out->0@.len() + TAG_SIZE == ciphertext@.len()
        },
{
    let cipher = aes_gcm::Aes256Gcm::new_from_slice(key).ok()?;
    cipher.decrypt(aes_gcm::Nonce::from_slice(nonce), ciphertext).ok()
}

/// `OsRng::try_fill_bytes` on `N` bytes. Nothing is claimed of the bytes;
/// there are none where the system's random source fails.
#[verifier::external_body]
pub(crate) fn random_bytes<const N: usize>() -> (out: Option<[u8; N]>) {
    let mut bytes = [0u8; N];
    rand::rngs::OsRng.try_fill_bytes(&mut bytes).ok()?;
    Some(bytes)
}

/// `SaltString::encode_b64`: salt bytes as the B64 text that PHC strings
/// hold. The contract names the result and claims nothing more of it.
#[verifier::external_body]
pub(crate) fn encode_salt(bytes: &[u8; 16]) -> (out: Option<String>)
    ensures
        out is Some == spec_salt_text(bytes@) is Some,
        out is Some ==> out->0@ == spec_salt_text(bytes@)->0,
{
    let salt = argon2::password_hash::SaltString::encode_b64(bytes).ok()?;
    Some(salt.as_str().to_string())
}

/// `Argon2::default().hash_password` with a salt read by
/// `SaltString::from_b64`, as a PHC string.
///
/// The contract claims: the result is a function of PIN and salt, and the
/// PIN matches the string made of it.
#[verifier::external_body]
pub(crate) fn hash_pin(pin: &[u8], salt: &str) -> (out: Option<String>)
    ensures
        out is Some == spec_pin_hash(pin@, salt@) is Some,
        out is Some ==> {
            &&& out->0@ == spec_pin_hash(pin@, salt@)->0
            &&& spec_pin_verify(pin@, out->0@) == Some(true)
        },
{
    let salt = argon2::password_hash::SaltString::from_b64(salt).ok()?;
    let hash = argon2::Argon2::default().hash_password(pin, &salt).ok()?;
    Some(hash.to_string())
}

/// `Argon2::default().verify_password` against a PHC string read by
/// `PasswordHash::new`: `None` where the string cannot be read, else
/// whether the PIN matches. The contract names the result.
#[verifier::external_body]
pub(crate) fn verify_pin(pin: &[u8], phc: &str) -> (out: Option<bool>)
    ensures
        out == spec_pin_verify(pin@, phc@),
{
    let parsed = argon2::password_hash::PasswordHash::new(phc).ok()?;
    Some(argon2::Argon2::default().verify_password(pin, &parsed).is_ok())
}

/// `Argon2::default().hash_password_into` with an output of 32 bytes. The
/// contract names the result; a salt of fewer than 8 bytes is refused.
#[verifier::external_body]
pub(crate) fn argon2_key(password: &[u8], salt: &[u8]) -> (out: Option<[u8; 32]>)
    ensures
        out is Some == spec_argon2_key(password@, salt@) is Some,
        out is Some ==> out->0@ == spec_argon2_key(password@, salt@)->0,
        salt@.len() < 8 ==> out is None,
{
    let mut key = [0u8; 32];
    argon2::Argon2::default().hash_password_into(password, salt, &mut key).ok()?;
    Some(key)
}

/// The magic that begins a file of the current format: `SLV2`.
pub open spec fn spec_magic() -> Seq<u8> {
    seq![0x53u8, 0x4cu8, 0x56u8, 0x32u8]
}

/// The nonce of chunk `index`: the base nonce with its first 8 bytes
/// XOR-ed with the little-endian bytes of the index.
pub open spec fn spec_chunk_nonce(base: Seq<u8>, index: u64) -> Seq<u8> {
    Seq::new(
        NONCE_SIZE as nat,
        |i: int|
            if i < 8 {
                base[i] ^ spec_u64_to_le_bytes(index)[i]
            } else {
                base[i]
            },
    )
}

/// The header of a file: magic, base nonce, plaintext size.
pub open spec fn spec_header(base: Seq<u8>, size: u64) -> Seq<u8> {
    spec_magic() + base + spec_u64_to_le_bytes(size)
}

/// A frame: the length of the ciphertext, then the ciphertext.
pub open spec fn spec_frame(ciphertext: Seq<u8>) -> Seq<u8> {
    spec_u32_to_le_bytes(ciphertext.len() as u32) + ciphertext
}

/// Number of chunks of a plaintext of `len` bytes.
pub open spec fn spec_chunk_count(len: int) -> int {
    (len + CHUNK_SIZE - 1) / (CHUNK_SIZE as int)
}

/// Chunk `i` of a plaintext.
pub open spec fn spec_chunk(plaintext: Seq<u8>, i: int) -> Seq<u8> {
    plaintext.subrange(
        i * CHUNK_SIZE,
        if (i + 1) * CHUNK_SIZE <= plaintext.len() {
            (i + 1) * CHUNK_SIZE
        } else {
            plaintext.len() as int
        },
    )
}

/// The ciphertext of chunk `i`.
pub open spec fn spec_sealed_chunk(key: Seq<u8>, base: Seq<u8>, plaintext: Seq<u8>, i: int) -> Seq<
    u8,
> {
    spec_aes_gcm_seal(key, spec_chunk_nonce(base, i as u64), spec_chunk(plaintext, i))
}

/// The frames of chunks `from` up to, not including, `to`.
pub open spec fn spec_frames(
    key: Seq<u8>,
    base: Seq<u8>,
    plaintext: Seq<u8>,
    from: int,
    to: int,
) -> Seq<u8>
    decreases to - from,
{
    if from >= to {
        Seq::empty()
    } else {
        spec_frame(spec_sealed_chunk(key, base, plaintext, from)) + spec_frames(
            key,
            base,
            plaintext,
            from + 1,
            to,
        )
    }
}

/// A plaintext in the current format: the header and the frames of all its
/// chunks.
pub open spec fn spec_encrypt_v2(key: Seq<u8>, base: Seq<u8>, plaintext: Seq<u8>) -> Seq<u8> {
    spec_header(base, plaintext.len() as u64) + spec_frames(
        key,
        base,
        plaintext,
        0,
        spec_chunk_count(plaintext.len() as int),
    )
}

/// A plaintext in the legacy format: the nonce and one ciphertext.
pub open spec fn spec_encrypt_v1(key: Seq<u8>, nonce: Seq<u8>, plaintext: Seq<u8>) -> Seq<u8> {
    nonce + spec_aes_gcm_seal(key, nonce, plaintext)
}

/// What the frames in `rest` decrypt to, appended to `acc`, the first frame
/// being that of chunk `index`. Reading stops where fewer than 4 bytes are
/// left and at a frame of length 0.
pub open spec fn spec_open_frames(
    key: Seq<u8>,
    base: Seq<u8>,
    rest: Seq<u8>,
    index: u64,
    acc: Seq<u8>,
) -> Result<Seq<u8>, VaultError>
    decreases rest.len(),
{
    if rest.len() < 4 {
        Ok(acc)
    } else {
        let n = spec_u32_from_le_bytes(rest.take(4)) as int;
        if n == 0 {
            Ok(acc)
        } else if rest.len() < 4 + n {
            Err(VaultError::TruncatedChunk(index))
        } else {
            match spec_aes_gcm_open(key, spec_chunk_nonce(base, index), rest.subrange(4, 4 + n)) {
                None => Err(VaultError::ChunkRejected(index)),
                Some(chunk) => spec_open_frames(
                    key,
                    base,
                    rest.skip(4 + n),
                    (index + 1) as u64,
                    acc + chunk,
                ),
            }
        }
    }
}

/// The plaintext size that the header of `data` states.
pub open spec fn spec_stored_size(data: Seq<u8>) -> u64 {
    spec_u64_from_le_bytes(data.subrange(16, 24))
}

/// What a file of the current format decrypts to: the frames are opened in
/// order, and their plaintext must be as long as the header says.
pub open spec fn spec_decrypt_v2(key: Seq<u8>, data: Seq<u8>) -> Result<Seq<u8>, VaultError> {
    if data.len() < 16 {
        Err(VaultError::MissingNonce)
    } else if data.len() < 24 {
        Err(VaultError::MissingSize)
    } else {
        match spec_open_frames(key, data.subrange(4, 16), data.skip(24), 0, Seq::empty()) {
            Err(e) => Err(e),
            Ok(plaintext) => if plaintext.len() == spec_stored_size(data) {
                Ok(plaintext)
            } else {
                Err(
                    VaultError::SizeMismatch {
                        expected: spec_stored_size(data),
                        got: plaintext.len() as u64,
                    },
                )
            },
        }
    }
}

/// What a file of the legacy format decrypts to.
pub open spec fn spec_decrypt_v1(key: Seq<u8>, data: Seq<u8>) -> Result<Seq<u8>, VaultError> {
    if data.len() < 12 {
        Err(VaultError::LegacyNonceTooShort)
    } else {
        match spec_aes_gcm_open(key, data.take(12), data.skip(12)) {
            Some(plaintext) => Ok(plaintext),
            None => Err(VaultError::LegacyRejected),
        }
    }
}

/// What a vault file decrypts to: by the current format where it begins
/// with the magic, by the legacy format otherwise.
pub open spec fn spec_decrypt(key: Seq<u8>, data: Seq<u8>) -> Result<Seq<u8>, VaultError> {
    if data.len() < 4 {
        Err(VaultError::HeaderTooShort)
    } else if data.take(4) == spec_magic() {
        spec_decrypt_v2(key, data)
    } else {
        spec_decrypt_v1(key, data)
    }
}

/// The cipher gave chunk `i` a ciphertext that is 16 bytes longer and that
/// opens to the chunk.
pub open spec fn chunk_sealed_well(key: Seq<u8>, base: Seq<u8>, plaintext: Seq<u8>, i: int) -> bool {
    &&& spec_sealed_chunk(key, base, plaintext, i).len() == spec_chunk(plaintext, i).len()
        + TAG_SIZE
    &&& spec_aes_gcm_open(
        key,
        spec_chunk_nonce(base, i as u64),
        spec_sealed_chunk(key, base, plaintext, i),
    ) == Some(spec_chunk(plaintext, i))
}

/// Bytes of the plaintext that lie in its first `k` chunks.
pub open spec fn spec_covered(len: int, k: int) -> int {
    if k * CHUNK_SIZE <= len {
        k * CHUNK_SIZE
    } else {
        len
    }
}

/// The number of chunks is the plaintext length divided by the chunk size,
/// rounded up: the chunks before the last are full, the last is not empty.
pub proof fn lemma_chunk_count(len: int)
    requires
        len >= 0,
    ensures
        spec_chunk_count(len) >= 0,
        spec_chunk_count(len) * CHUNK_SIZE >= len,
        spec_chunk_count(len) > 0 ==> (spec_chunk_count(len) - 1) * CHUNK_SIZE < len,
        len == 0 <==> spec_chunk_count(len) == 0,
        spec_chunk_count(len) <= len,
{
}

/// Opening what was sealed: the frames of chunks `from` to `to`, followed
/// by anything, open to those chunks, and reading goes on behind them.
pub proof fn lemma_open_sealed_frames(
    key: Seq<u8>,
    base: Seq<u8>,
    plaintext: Seq<u8>,
    from: int,
    to: int,
    tail: Seq<u8>,
    acc: Seq<u8>,
)
    requires
        0 <= from <= to <= spec_chunk_count(plaintext.len() as int),
        plaintext.len() <= u64::MAX,
        forall|i: int| from <= i < to ==> chunk_sealed_well(key, base, plaintext, i),
    ensures
        spec_open_frames(
            key,
            base,
            spec_frames(key, base, plaintext, from, to) + tail,
            from as u64,
            acc,
        ) == spec_open_frames(
            key,
            base,
            tail,
            to as u64,
            acc + plaintext.subrange(
                spec_covered(plaintext.len() as int, from),
                spec_covered(plaintext.len() as int, to),
            ),
        ),
    decreases to - from,
{
    let len = plaintext.len() as int;
    lemma_chunk_count(len);
    if from >= to {
        assert(spec_frames(key, base, plaintext, from, to) + tail =~= tail);
        assert(acc + plaintext.subrange(spec_covered(len, from), spec_covered(len, to)) =~= acc);
    } else {
        let chunk = spec_chunk(plaintext, from);
        let ct = spec_sealed_chunk(key, base, plaintext, from);
        let later = spec_frames(key, base, plaintext, from + 1, to);
        let rest = spec_frames(key, base, plaintext, from, to) + tail;
        assert(chunk_sealed_well(key, base, plaintext, from));
        assert(from * CHUNK_SIZE < len);
        assert(1 <= chunk.len() <= CHUNK_SIZE);
        lemma_auto_spec_u32_to_from_le_bytes();
        let n = ct.len() as int;
        assert(spec_u32_to_le_bytes(n as u32).len() == 4);
        assert(rest =~= spec_u32_to_le_bytes(n as u32) + ct + (later + tail));
        assert(rest.take(4) =~= spec_u32_to_le_bytes(n as u32));
        assert(spec_u32_from_le_bytes(rest.take(4)) == n);
        assert(rest.subrange(4, 4 + n) =~= ct);
        assert(rest.skip(4 + n) =~= later + tail);
        lemma_open_sealed_frames(key, base, plaintext, from + 1, to, tail, acc + chunk);
        assert(spec_covered(len, from) == from * CHUNK_SIZE);
        assert(chunk == plaintext.subrange(spec_covered(len, from), spec_covered(len, from + 1)));
        assert(spec_covered(len, from + 1) <= spec_covered(len, to));
        assert(acc + chunk + plaintext.subrange(spec_covered(len, from + 1), spec_covered(len, to))
            =~= acc + plaintext.subrange(spec_covered(len, from), spec_covered(len, to)));
    }
}

/// The parts of a file made of a header and a body are where decryption
/// looks for them.
proof fn lemma_header_parts(base: Seq<u8>, size: u64, body: Seq<u8>)
    requires
        base.len() == NONCE_SIZE,
    ensures
        (spec_header(base, size) + body).len() == HEADER_SIZE + body.len(),
        (spec_header(base, size) + body).take(4) == spec_magic(),
        (spec_header(base, size) + body).subrange(4, 16) == base,
        spec_stored_size(spec_header(base, size) + body) == size,
        (spec_header(base, size) + body).skip(24) == body,
{
    lemma_auto_spec_u64_to_from_le_bytes();
    let data = spec_header(base, size) + body;
    assert(spec_u64_to_le_bytes(size).len() == 8);
    assert(data.take(4) =~= spec_magic());
    assert(data.subrange(4, 16) =~= base);
    assert(data.subrange(16, 24) =~= spec_u64_to_le_bytes(size));
    assert(data.skip(24) =~= body);
}

/// Round-trip encryption: a plaintext written in the current format
/// decrypts, under the key it was written with, to itself, provided the
/// cipher sealed every chunk well.
pub proof fn lemma_roundtrip_v2(key: Seq<u8>, base: Seq<u8>, plaintext: Seq<u8>)
    requires
        base.len() == NONCE_SIZE,
        plaintext.len() <= u64::MAX,
        forall|i: int|
            0 <= i < spec_chunk_count(plaintext.len() as int) ==> chunk_sealed_well(
                key,
                base,
                plaintext,
                i,
            ),
    ensures
        spec_decrypt(key, spec_encrypt_v2(key, base, plaintext)) == Ok::<Seq<u8>, VaultError>(
            plaintext,
        ),
{
    let len = plaintext.len() as int;
    let count = spec_chunk_count(len);
    let body = spec_frames(key, base, plaintext, 0, count);
    lemma_chunk_count(len);
    lemma_header_parts(base, len as u64, body);
    lemma_open_sealed_frames(key, base, plaintext, 0, count, Seq::empty(), Seq::empty());
    assert(body + Seq::<u8>::empty() =~= body);
    assert(Seq::<u8>::empty() + plaintext.subrange(0, len) =~= plaintext);
}

/// Size verification: a file cut off after `k` of its frames is refused,
/// because the plaintext of the frames that are left is shorter than the
/// header says.
pub proof fn lemma_truncation_detected(key: Seq<u8>, base: Seq<u8>, plaintext: Seq<u8>, k: int)
    requires
        base.len() == NONCE_SIZE,
        plaintext.len() <= u64::MAX,
        0 <= k < spec_chunk_count(plaintext.len() as int),
        forall|i: int| 0 <= i < k ==> chunk_sealed_well(key, base, plaintext, i),
    ensures
        spec_decrypt(
            key,
            spec_header(base, plaintext.len() as u64) + spec_frames(key, base, plaintext, 0, k),
        ) == Err::<Seq<u8>, VaultError>(
            VaultError::SizeMismatch {
                expected: plaintext.len() as u64,
                got: (k * CHUNK_SIZE) as u64,
            },
        ),
{
    let len = plaintext.len() as int;
    let body = spec_frames(key, base, plaintext, 0, k);
    lemma_chunk_count(len);
    lemma_header_parts(base, len as u64, body);
    lemma_open_sealed_frames(key, base, plaintext, 0, k, Seq::empty(), Seq::empty());
    assert(body + Seq::<u8>::empty() =~= body);
    assert(Seq::<u8>::empty() + plaintext.subrange(0, k * CHUNK_SIZE) =~= plaintext.subrange(
        0,
        k * CHUNK_SIZE,
    ));
}

/// Size verification, in general: whatever a file of the current format
/// decrypts to is exactly as long as its header says. A file whose frames
/// open to more or to less is refused with `SizeMismatch`.
pub proof fn lemma_size_checked(key: Seq<u8>, data: Seq<u8>)
    requires
        data.len() >= HEADER_SIZE,
    ensures
        spec_decrypt_v2(key, data) is Ok ==> spec_decrypt_v2(key, data)->Ok_0.len()
            == spec_stored_size(data),
        match spec_open_frames(key, data.subrange(4, 16), data.skip(24), 0, Seq::empty()) {
            Ok(p) => p.len() != spec_stored_size(data) ==> spec_decrypt_v2(key, data) == Err::<
                Seq<u8>,
                VaultError,
            >(
                VaultError::SizeMismatch {
                    expected: spec_stored_size(data),
                    got: p.len() as u64,
                },
            ),
            Err(e) => spec_decrypt_v2(key, data) == Err::<Seq<u8>, VaultError>(e),
        },
{
}

/// A file written under one key and read under another is refused at its
/// first chunk, wherever the cipher rejects that chunk under the other
/// key.
pub proof fn lemma_wrong_key_rejected(
    key: Seq<u8>,
    other: Seq<u8>,
    base: Seq<u8>,
    plaintext: Seq<u8>,
)
    requires
        base.len() == NONCE_SIZE,
        0 < plaintext.len() <= u64::MAX,
        spec_sealed_chunk(key, base, plaintext, 0).len() == spec_chunk(plaintext, 0).len()
            + TAG_SIZE,
        spec_aes_gcm_open(other, spec_chunk_nonce(base, 0), spec_sealed_chunk(key, base, plaintext, 0))
            is None,
    ensures
        spec_decrypt(other, spec_encrypt_v2(key, base, plaintext)) == Err::<Seq<u8>, VaultError>(
            VaultError::ChunkRejected(0),
        ),
{
    let len = plaintext.len() as int;
    let count = spec_chunk_count(len);
    let body = spec_frames(key, base, plaintext, 0, count);
    lemma_chunk_count(len);
    lemma_header_parts(base, len as u64, body);
    let ct = spec_sealed_chunk(key, base, plaintext, 0);
    let later = spec_frames(key, base, plaintext, 1, count);
    let n = ct.len() as int;
    lemma_auto_spec_u32_to_from_le_bytes();
    assert(1 <= spec_chunk(plaintext, 0).len() <= CHUNK_SIZE);
    assert(spec_u32_to_le_bytes(n as u32).len() == 4);
    assert(body =~= spec_u32_to_le_bytes(n as u32) + ct + later);
    assert(body.take(4) =~= spec_u32_to_le_bytes(n as u32));
    assert(body.subrange(4, 4 + n) =~= ct);
}

/// Legacy read: a plaintext written in the legacy format decrypts to
/// itself, provided the cipher opens what it sealed. A legacy nonce that
/// begins with `SLV2` cannot be told from the current format and is left
/// out.
pub proof fn lemma_roundtrip_v1(key: Seq<u8>, nonce: Seq<u8>, plaintext: Seq<u8>)
    requires
        nonce.len() == NONCE_SIZE,
        nonce.take(4) != spec_magic(),
        spec_aes_gcm_open(key, nonce, spec_aes_gcm_seal(key, nonce, plaintext)) == Some(plaintext),
    ensures
        spec_decrypt(key, spec_encrypt_v1(key, nonce, plaintext)) == Ok::<Seq<u8>, VaultError>(
            plaintext,
        ),
{
    let data = spec_encrypt_v1(key, nonce, plaintext);
    assert(data.take(4) =~= nonce.take(4));
    assert(data.take(12) =~= nonce);
    assert(data.skip(12) =~= spec_aes_gcm_seal(key, nonce, plaintext));
}

/// Nonce uniqueness: under one base nonce, two chunks of different index
/// have different nonces.
pub proof fn lemma_nonces_distinct(base: Seq<u8>, i: u64, j: u64)
    requires
        i != j,
    ensures
        spec_chunk_nonce(base, i) != spec_chunk_nonce(base, j),
{
    lemma_auto_spec_u64_to_from_le_bytes();
    let a = spec_u64_to_le_bytes(i);
    let b = spec_u64_to_le_bytes(j);
    assert(a.len() == 8 && b.len() == 8);
    assert_by_contradiction!(exists|k: int| 0 <= k < 8 && a[k] != b[k], {
        assert(a =~= b);
        assert(spec_u64_from_le_bytes(a) == i);
        assert(spec_u64_from_le_bytes(b) == j);
    });
    let k = choose|k: int| 0 <= k < 8 && a[k] != b[k];
    let x = base[k];
    let ak = a[k];
    let bk = b[k];
    assert((x ^ ak) != (x ^ bk)) by (bit_vector)
        requires
            ak != bk,
    ;
    assert(spec_chunk_nonce(base, i)[k] == x ^ ak);
    assert(spec_chunk_nonce(base, j)[k] == x ^ bk);
}

/// The view of a result that holds bytes.
pub open spec fn bytes_result(r: Result<Vec<u8>, VaultError>) -> Result<Seq<u8>, VaultError> {
    match r {
        Ok(v) => Ok(v@),
        Err(e) => Err(e),
    }
}

/// Appends the bytes `src` to `out`.
pub fn push_bytes(out: &mut Vec<u8>, src: &[u8])
    ensures
        final(out)@ == old(out)@ + src@,
{
    let ghost before = out@;
    let mut i: usize = 0;
    while i < src.len()
        invariant
            i <= src.len(),
            out@ == before + src@.take(i as int),
        decreases src.len() - i,
    {
        out.push(src[i]);
        proof {
            assert(src@.take(i + 1) =~= src@.take(i as int).push(src@[i as int]));
        }
        i += 1;
    }
    proof {
        assert(src@.take(src@.len() as int) =~= src@);
    }
}

/// The nonce of chunk `index` under the base nonce `base`.
pub fn chunk_nonce(base: &[u8; 12], index: u64) -> (nonce: [u8; 12])
    ensures
        nonce@ == spec_chunk_nonce(base@, index),
{
    let idx = u64_to_le_bytes(index);
    let mut nonce: [u8; 12] = *base;
    let mut i: usize = 0;
    while i < 8
        invariant
            i <= 8,
            idx@ == spec_u64_to_le_bytes(index),
            idx@.len() == 8,
            nonce@.len() == 12,
            base@.len() == 12,
            forall|k: int| 0 <= k < i ==> nonce@[k] == base@[k] ^ idx@[k],
            forall|k: int| i <= k < 12 ==> nonce@[k] == base@[k],
        decreases 8 - i,
    {
        nonce.set(i, base[i] ^ idx[i]);
        i += 1;
    }
    proof {
        assert(nonce@ =~= spec_chunk_nonce(base@, index));
    }
    nonce
}

/// The header of a file with base nonce `base` and `size` bytes of
/// plaintext.
pub fn encode_header(base: &[u8; 12], size: u64) -> (out: Vec<u8>)
    ensures
        out@ == spec_header(base@, size),
        out@.len() == HEADER_SIZE,
{
    let mut out: Vec<u8> = Vec::new();
    out.push(0x53);
    out.push(0x4c);
    out.push(0x56);
    out.push(0x32);
    proof {
        assert(out@ =~= spec_magic());
    }
    push_bytes(&mut out, base.as_slice());
    let size_bytes = u64_to_le_bytes(size);
    push_bytes(&mut out, size_bytes.as_slice());
    proof {
        assert(out@ =~= spec_header(base@, size));
    }
    out
}

/// The frame of one chunk: the chunk is encrypted under the nonce of its
/// index and written behind the length of its ciphertext.
pub fn seal_chunk(key: &[u8; 32], base: &[u8; 12], index: u64, chunk: &[u8]) -> (out: Result<
    Vec<u8>,
    VaultError,
>)
    ensures
        chunk@.len() > CHUNK_SIZE ==> out == Err::<Vec<u8>, VaultError>(VaultError::ChunkTooLarge),
        chunk@.len() <= CHUNK_SIZE ==> {
            &&& out is Ok
            &&& out->Ok_0@ == spec_frame(
                spec_aes_gcm_seal(key@, spec_chunk_nonce(base@, index), chunk@),
            )
            &&& spec_aes_gcm_seal(key@, spec_chunk_nonce(base@, index), chunk@).len()
                == chunk@.len() + TAG_SIZE
            &&& spec_aes_gcm_open(
                key@,
                spec_chunk_nonce(base@, index),
                spec_aes_gcm_seal(key@, spec_chunk_nonce(base@, index), chunk@),
            ) == Some(chunk@)
        },
{
    if chunk.len() > CHUNK_SIZE {
        return Err(VaultError::ChunkTooLarge);
    }
    let nonce = chunk_nonce(base, index);
    match aes_gcm_seal(key, &nonce, chunk) {
        Some(ct) => {
            let mut out = u32_to_le_bytes(ct.len() as u32);
            push_bytes(&mut out, ct.as_slice());
            Ok(out)
        },
        None => Err(VaultError::EncryptionFailed(index)),
    }
}

/// Writes `plaintext` in the current format under `key`, with the base
/// nonce `base`. What comes out decrypts to `plaintext` under `key`.
pub fn encrypt_v2(key: &[u8; 32], base: &[u8; 12], plaintext: &[u8]) -> (out: Result<
    Vec<u8>,
    VaultError,
>)
    ensures
        out is Ok,
        out->Ok_0@ == spec_encrypt_v2(key@, base@, plaintext@),
        spec_decrypt(key@, out->Ok_0@) == Ok::<Seq<u8>, VaultError>(plaintext@),
{
    let len = plaintext.len();
    let ghost count = spec_chunk_count(len as int);
    let mut out = encode_header(base, len as u64);
    let mut pos: usize = 0;
    let mut index: u64 = 0;
    proof {
        lemma_chunk_count(len as int);
    }
    while pos < len
        invariant
            len == plaintext@.len(),
            pos <= len,
            count == spec_chunk_count(len as int),
            0 <= index <= count,
            pos == spec_covered(len as int, index as int),
            pos < len ==> pos == index * CHUNK_SIZE,
            pos == len ==> index == count,
            out@ + spec_frames(key@, base@, plaintext@, index as int, count) == spec_encrypt_v2(
                key@,
                base@,
                plaintext@,
            ),
            forall|i: int| 0 <= i < index ==> chunk_sealed_well(key@, base@, plaintext@, i),
        decreases len - pos,
    {
        let end: usize = if len - pos > CHUNK_SIZE {
            pos + CHUNK_SIZE
        } else {
            len
        };
        let chunk = slice_subrange(plaintext, pos, end);
        proof {
            lemma_chunk_count(len as int);
            assert(chunk@ == spec_chunk(plaintext@, index as int));
        }
        let frame = match seal_chunk(key, base, index, chunk) {
            Ok(f) => f,
            Err(e) => {
                return Err(e);
            },
        };
        let ghost before = out@;
        push_bytes(&mut out, frame.as_slice());
        proof {
            let later = spec_frames(key@, base@, plaintext@, index + 1, count);
            assert(spec_frames(key@, base@, plaintext@, index as int, count) == frame@ + later);
            assert(out@ + later =~= before + (frame@ + later));
            assert(chunk_sealed_well(key@, base@, plaintext@, index as int));
        }
        pos = end;
        index = index + 1;
    }
    proof {
        assert(out@ + Seq::<u8>::empty() =~= out@);
        lemma_roundtrip_v2(key@, base@, plaintext@);
    }
    Ok(out)
}

/// Writes `plaintext` in the current format under `key`, with a base nonce
/// drawn at random. Fails only where the system has no random bytes.
pub fn encrypt(key: &[u8; 32], plaintext: &[u8]) -> (out: Result<Vec<u8>, VaultError>)
    ensures
        match out {
            Ok(data) => {
                &&& spec_decrypt(key@, data@) == Ok::<Seq<u8>, VaultError>(plaintext@)
                &&& exists|base: Seq<u8>|
                    base.len() == NONCE_SIZE && data@ == #[trigger] spec_encrypt_v2(
                        key@,
                        base,
                        plaintext@,
                    )
            },
            Err(e) => e == VaultError::NoRandomness,
        },
{
    match random_bytes::<12>() {
        Some(base) => {
            let out = encrypt_v2(key, &base, plaintext);
            proof {
                assert(out->Ok_0@ == spec_encrypt_v2(key@, base@, plaintext@));
            }
            out
        },
        None => Err(VaultError::NoRandomness),
    }
}

/// A base nonce for a new file, drawn at random. Fails only where the
/// system has no random bytes.
pub fn random_nonce_for_file() -> (out: Result<[u8; 12], VaultError>)
    ensures
        out is Err ==> out->Err_0 == VaultError::NoRandomness,
{
    match random_bytes::<12>() {
        Some(n) => Ok(n),
        None => Err(VaultError::NoRandomness),
    }
}

/// Whether a file that begins with `first` is in the current format: it
/// has at least four bytes, and they are the magic.
pub fn is_current_format(first: &[u8]) -> (b: bool)
    ensures
        b == (first@.len() >= 4 && first@.take(4) == spec_magic()),
{
    if first.len() < 4 {
        return false;
    }
    let b = first[0] == 0x53 && first[1] == 0x4c && first[2] == 0x56 && first[3] == 0x32;
    proof {
        if b {
            assert(first@.take(4) =~= spec_magic());
        } else {
            assert(first@.take(4)[0] == first@[0]);
            assert(first@.take(4)[1] == first@[1]);
            assert(first@.take(4)[2] == first@[2]);
            assert(first@.take(4)[3] == first@[3]);
        }
    }
    b
}

/// A copy of 12 bytes of `data`, from `from` on.
pub fn nonce_at(data: &[u8], from: usize) -> (nonce: [u8; 12])
    requires
        from + 12 <= data@.len(),
    ensures
        nonce@ == data@.subrange(from as int, from + 12),
{
    let mut nonce: [u8; 12] = [0u8;12];
    let len = data.len();
    let mut i: usize = 0;
    while i < 12
        invariant
            i <= 12,
            len == data@.len(),
            from + 12 <= len,
            nonce@.len() == 12,
            forall|k: int| 0 <= k < i ==> nonce@[k] == data@[from + k],
        decreases 12 - i,
    {
        nonce.set(i, data[from + i]);
        i += 1;
    }
    proof {
        assert(nonce@ =~= data@.subrange(from as int, from + 12));
    }
    nonce
}

/// Opens the ciphertext of chunk `index`.
pub fn open_chunk(key: &[u8; 32], base: &[u8; 12], index: u64, ciphertext: &[u8]) -> (out: Result<
    Vec<u8>,
    VaultError,
>)
    ensures
        bytes_result(out) == (match spec_aes_gcm_open(
            key@,
            spec_chunk_nonce(base@, index),
            ciphertext@,
        ) {
            Some(p) => Ok::<Seq<u8>, VaultError>(p),
            None => Err::<Seq<u8>, VaultError>(VaultError::ChunkRejected(index)),
        }),
{
    let nonce = chunk_nonce(base, index);
    match aes_gcm_open(key, &nonce, ciphertext) {
        Some(p) => Ok(p),
        None => Err(VaultError::ChunkRejected(index)),
    }
}

/// Compares the plaintext length reached with the length that the header
/// states.
pub fn check_size(expected: u64, got: u64) -> (out: Result<(), VaultError>)
    ensures
        expected == got ==> out is Ok,
        expected != got ==> out == Err::<(), VaultError>(
            VaultError::SizeMismatch { expected, got },
        ),
{
    if expected == got {
        Ok(())
    } else {
        Err(VaultError::SizeMismatch { expected, got })
    }
}

/// Decrypts a vault file of either format.
///
/// A file that does not decrypt names the reason: a header cut short, a
/// frame cut short, a ciphertext that the cipher rejects, or a plaintext
/// whose length is not the length in the header.
pub fn decrypt(key: &[u8; 32], data: &[u8]) -> (out: Result<Vec<u8>, VaultError>)
    ensures
        bytes_result(out) == spec_decrypt(key@, data@),
{
    if data.len() < 4 {
        return Err(VaultError::HeaderTooShort);
    }
    if !is_current_format(data) {
        if data.len() < 12 {
            return Err(VaultError::LegacyNonceTooShort);
        }
        let nonce = nonce_at(data, 0);
        let ciphertext = slice_subrange(data, 12, data.len());
        proof {
            assert(data@.take(12) =~= data@.subrange(0, 12));
            assert(data@.skip(12) =~= data@.subrange(12, data@.len() as int));
        }
        return match aes_gcm_open(key, &nonce, ciphertext) {
            Some(p) => Ok(p),
            None => Err(VaultError::LegacyRejected),
        };
    }
    if data.len() < 16 {
        return Err(VaultError::MissingNonce);
    }
    if data.len() < 24 {
        return Err(VaultError::MissingSize);
    }
    let base = nonce_at(data, 4);
    let expected = u64_from_le_bytes(slice_subrange(data, 16, 24));
    let mut plaintext: Vec<u8> = Vec::new();
    let mut pos: usize = 24;
    let mut index: u64 = 0;
    let len = data.len();
    loop
        invariant
            len == data@.len(),
            24 <= pos <= len,
            index <= pos,
            base@ == data@.subrange(4, 16),
            spec_decrypt(key@, data@) == spec_decrypt_v2(key@, data@),
            spec_open_frames(key@, base@, data@.skip(24), 0, Seq::empty()) == spec_open_frames(
                key@,
                base@,
                data@.skip(pos as int),
                index,
                plaintext@,
            ),
        ensures
            spec_open_frames(key@, base@, data@.skip(24), 0, Seq::empty()) == Ok::<
                Seq<u8>,
                VaultError,
            >(plaintext@),
        decreases len - pos,
    {
        let ghost rest = data@.skip(pos as int);
        if len - pos < 4 {
            break ;
        }
        let n = u32_from_le_bytes(slice_subrange(data, pos, pos + 4)) as usize;
        proof {
            assert(rest.take(4) =~= data@.subrange(pos as int, pos + 4));
        }
        if n == 0 {
            break ;
        }
        if len - pos - 4 < n {
            return Err(VaultError::TruncatedChunk(index));
        }
        let ciphertext = slice_subrange(data, pos + 4, pos + 4 + n);
        proof {
            assert(rest.subrange(4, 4 + n) =~= data@.subrange(pos + 4, pos + 4 + n));
            assert(rest.skip(4 + n) =~= data@.skip(pos + 4 + n));
        }
        match open_chunk(key, &base, index, ciphertext) {
            Ok(chunk) => {
                push_bytes(&mut plaintext, chunk.as_slice());
            },
            Err(e) => {
                return Err(e);
            },
        }
        pos = pos + 4 + n;
        index = index + 1;
    }
    let got = plaintext.len() as u64;
    match check_size(expected, got) {
        Ok(()) => Ok(plaintext),
        Err(e) => Err(e),
    }
}

impl VaultError {
    /// The error in words. A rejected ciphertext reads the same whether the
    /// PIN was wrong or the file damaged.
    pub open spec fn spec_message(self) -> Seq<char> {
        match self {
            VaultError::HeaderTooShort => "Failed to read file header"@,
            VaultError::MissingNonce => "Failed to read nonce"@,
            VaultError::MissingSize => "Failed to read file size"@,
            VaultError::TruncatedChunk(i) => "Failed to read encrypted chunk "@ + spec_decimal(
                i as nat,
            ),
            VaultError::ChunkRejected(i) => "Decryption failed at chunk "@ + spec_decimal(i as nat)
                + " - invalid PIN or corrupted file"@,
            VaultError::SizeMismatch { expected, got } => "File size mismatch: expected "@
                + spec_decimal(expected as nat) + " bytes, got "@ + spec_decimal(got as nat)
                + " bytes"@,
            VaultError::LegacyNonceTooShort => "Failed to read legacy nonce"@,
            VaultError::LegacyRejected => "Decryption failed - invalid PIN or corrupted file"@,
            VaultError::ChunkTooLarge => "Chunk is larger than the format allows"@,
            VaultError::EncryptionFailed(i) => "Encryption failed at chunk "@ + spec_decimal(
                i as nat,
            ),
            VaultError::NoRandomness => "No random bytes available"@,
            VaultError::PinTooShort => "PIN must be at least 4 digits"@,
            VaultError::AlreadySetUp => "Vault is already set up. Reset it first to change PIN."@,
            VaultError::NotSetUp => "Vault is not set up"@,
            VaultError::Locked => "Vault is locked. Unlock it first."@,
            VaultError::InvalidStoredHash => "Invalid stored hash"@,
            VaultError::InvalidPin => "Invalid PIN"@,
            VaultError::HashingFailed => "Failed to hash PIN"@,
            VaultError::KeyDerivationFailed => "Failed to derive key from PIN"@,
        }
    }

    /// The error in words.
    pub fn message(&self) -> (text: String)
        ensures
            text@ == self.spec_message(),
    {
        let mut out: Vec<char> = Vec::new();
        match self {
            VaultError::HeaderTooShort => push_str(&mut out, "Failed to read file header"),
            VaultError::MissingNonce => push_str(&mut out, "Failed to read nonce"),
            VaultError::MissingSize => push_str(&mut out, "Failed to read file size"),
            VaultError::TruncatedChunk(i) => {
                push_str(&mut out, "Failed to read encrypted chunk ");
                push_decimal(&mut out, *i as u128);
            },
            VaultError::ChunkRejected(i) => {
                push_str(&mut out, "Decryption failed at chunk ");
                push_decimal(&mut out, *i as u128);
                push_str(&mut out, " - invalid PIN or corrupted file");
            },
            VaultError::SizeMismatch { expected, got } => {
                push_str(&mut out, "File size mismatch: expected ");
                push_decimal(&mut out, *expected as u128);
                push_str(&mut out, " bytes, got ");
                push_decimal(&mut out, *got as u128);
                push_str(&mut out, " bytes");
            },
            VaultError::LegacyNonceTooShort => push_str(&mut out, "Failed to read legacy nonce"),
            VaultError::LegacyRejected => push_str(
                &mut out,
                "Decryption failed - invalid PIN or corrupted file",
            ),
            VaultError::ChunkTooLarge => push_str(
                &mut out,
                "Chunk is larger than the format allows",
            ),
            VaultError::EncryptionFailed(i) => {
                push_str(&mut out, "Encryption failed at chunk ");
                push_decimal(&mut out, *i as u128);
            },
            VaultError::NoRandomness => push_str(&mut out, "No random bytes available"),
            VaultError::PinTooShort => push_str(&mut out, "PIN must be at least 4 digits"),
            VaultError::AlreadySetUp => push_str(
                &mut out,
                "Vault is already set up. Reset it first to change PIN.",
            ),
            VaultError::NotSetUp => push_str(&mut out, "Vault is not set up"),
            VaultError::Locked => push_str(&mut out, "Vault is locked. Unlock it first."),
            VaultError::InvalidStoredHash => push_str(&mut out, "Invalid stored hash"),
            VaultError::InvalidPin => push_str(&mut out, "Invalid PIN"),
            VaultError::HashingFailed => push_str(&mut out, "Failed to hash PIN"),
            VaultError::KeyDerivationFailed => push_str(&mut out, "Failed to derive key from PIN"),
        }
        proof {
            assert(out@ =~= self.spec_message());
        }
        string_of(&out)
    }
}

} // verus!
