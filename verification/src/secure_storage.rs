//! Settings kept encrypted: a value is sealed under a key bound to the
//! machine and stored as hexadecimal text.
use vstd::prelude::*;
use vstd::slice::slice_subrange;
use vstd::utf8::{decode_utf8, encode_utf8, valid_utf8};
use crate::text::{digit_char, string_from_utf8, string_of};
use crate::vault_crypto::{
    aes_gcm_open, aes_gcm_seal, argon2_key, nonce_at, push_bytes, random_bytes, spec_aes_gcm_open,
    spec_aes_gcm_seal, spec_argon2_key, MAX_SEAL_LEN, NONCE_SIZE,
};

verus! {

/// What can go wrong with a stored setting.
#[derive(Debug, Clone, Copy, PartialEq, Eq, Structural)]
pub enum SecureStorageError {
    /// The text has an odd number of characters.
    InvalidHexLength,
    /// The text holds something that is no hexadecimal digit.
    InvalidHexCharacter,
    /// The stored data is shorter than a nonce.
    Corrupted,
    /// The cipher rejects the stored data: it comes from another machine,
    /// or it is damaged.
    DecryptionFailed,
    /// The decrypted data is no UTF-8 text.
    InvalidUtf8,
    /// The cipher refused to encrypt.
    EncryptionFailed,
    /// The system has no random bytes to give.
    NoRandomness,
}

/// The hexadecimal digit of `v`, in lower case.
pub open spec fn spec_hex_digit(v: int) -> char {
    if v == 10 {
        'a'
    } else if v == 11 {
        'b'
    } else if v == 12 {
        'c'
    } else if v == 13 {
        'd'
    } else if v == 14 {
        'e'
    } else if v == 15 {
        'f'
    } else {
        crate::text::spec_digit_char(v)
    }
}

/// The value of a hexadecimal digit of either case; `None` for any other
/// byte.
pub open spec fn spec_hex_value(c: u8) -> Option<u8> {
    if 0x30 <= c <= 0x39 {
        Some((c - 0x30) as u8)
    } else if 0x61 <= c <= 0x66 {
        Some((c - 0x61 + 10) as u8)
    } else if 0x41 <= c <= 0x46 {
        Some((c - 0x41 + 10) as u8)
    } else {
        None
    }
}

/// Bytes in hexadecimal: two digits in lower case for each byte.
pub open spec fn spec_to_hex(bytes: Seq<u8>) -> Seq<char> {
    Seq::new(
        2 * bytes.len(),
        |i: int|
            if i % 2 == 0 {
                spec_hex_digit(bytes[i / 2] as int / 16)
            } else {
                spec_hex_digit(bytes[i / 2] as int % 16)
            },
    )
}

/// The bytes that hexadecimal text, given by its UTF-8 bytes, stands for.
pub open spec fn spec_from_hex(hex: Seq<u8>) -> Result<Seq<u8>, SecureStorageError> {
    if hex.len() % 2 != 0 {
        Err(SecureStorageError::InvalidHexLength)
    } else if exists|i: int| 0 <= i < hex.len() && spec_hex_value(#[trigger] hex[i]) is None {
        Err(SecureStorageError::InvalidHexCharacter)
    } else {
        Ok(
            Seq::new(
                hex.len() / 2,
                |k: int|
                    (spec_hex_value(hex[2 * k])->0 * 16 + spec_hex_value(hex[2 * k + 1])->0) as u8,
            ),
        )
    }
}

/// The hexadecimal digit of `v`.
fn hex_digit(v: u8) -> (c: char)
    requires
        v < 16,
    ensures
        c == spec_hex_digit(v as int),
        c as u32 <= 0x7f,
        spec_hex_value(c as u8) == Some(v),
{
    if v == 10 {
        'a'
    } else if v == 11 {
        'b'
    } else if v == 12 {
        'c'
    } else if v == 13 {
        'd'
    } else if v == 14 {
        'e'
    } else if v == 15 {
        'f'
    } else {
        digit_char(v)
    }
}

/// The value of a hexadecimal digit.
fn hex_value(c: u8) -> (v: Option<u8>)
    ensures
        v == spec_hex_value(c),
        v is Some ==> v->0 < 16,
{
    if 0x30 <= c && c <= 0x39 {
        Some(c - 0x30)
    } else if 0x61 <= c && c <= 0x66 {
        Some(c - 0x61 + 10)
    } else if 0x41 <= c && c <= 0x46 {
        Some(c - 0x41 + 10)
    } else {
        None
    }
}

/// Bytes as hexadecimal text.
pub fn to_hex(bytes: &[u8]) -> (hex: String)
    ensures
        hex@ == spec_to_hex(bytes@),
{
    let mut out: Vec<char> = Vec::new();
    let mut i: usize = 0;
    while i < bytes.len()
        invariant
            i <= bytes.len(),
            out@.len() == 2 * i,
            forall|k: int| 0 <= k < 2 * i ==> out@[k] == spec_to_hex(bytes@)[k],
        decreases bytes.len() - i,
    {
        let b = bytes[i];
        out.push(hex_digit(b / 16));
        out.push(hex_digit(b % 16));
        i += 1;
    }
    proof {
        assert(out@ =~= spec_to_hex(bytes@));
    }
    string_of(&out)
}

/// The bytes that hexadecimal text stands for. Text of odd length and text
/// with anything but hexadecimal digits is refused.
pub fn from_hex(hex: &str) -> (bytes: Result<Vec<u8>, SecureStorageError>)
    ensures
        match spec_from_hex(encode_utf8(hex@)) {
            Ok(b) => bytes is Ok && bytes->Ok_0@ == b,
            Err(e) => bytes is Err && bytes->Err_0 == e,
        },
{
    let h = hex.as_bytes();
    hex_bytes_to_bytes(h)
}

/// The bytes that hexadecimal text, given by its bytes, stands for.
pub fn hex_bytes_to_bytes(h: &[u8]) -> (bytes: Result<Vec<u8>, SecureStorageError>)
    ensures
        match spec_from_hex(h@) {
            Ok(b) => bytes is Ok && bytes->Ok_0@ == b,
            Err(e) => bytes is Err && bytes->Err_0 == e,
        },
{
    if h.len() % 2 != 0 {
        return Err(SecureStorageError::InvalidHexLength);
    }
    let mut out: Vec<u8> = Vec::new();
    let mut k: usize = 0;
    let pairs = h.len() / 2;
    while k < pairs
        invariant
            k <= pairs,
            pairs == h@.len() / 2,
            h@.len() % 2 == 0,
            out@.len() == k,
            forall|i: int| 0 <= i < 2 * k ==> spec_hex_value(#[trigger] h@[i]) is Some,
            forall|j: int|
                0 <= j < k ==> out@[j] == (spec_hex_value(h@[2 * j])->0 * 16 + spec_hex_value(
                    h@[2 * j + 1],
                )->0) as u8,
        decreases pairs - k,
    {
        let hi = match hex_value(h[2 * k]) {
            Some(v) => v,
            None => {
                return Err(SecureStorageError::InvalidHexCharacter);
            },
        };
        let lo = match hex_value(h[2 * k + 1]) {
            Some(v) => v,
            None => {
                return Err(SecureStorageError::InvalidHexCharacter);
            },
        };
        out.push(hi * 16 + lo);
        k += 1;
    }
    proof {
        assert(out@ =~= spec_from_hex(h@)->Ok_0);
    }
    Ok(out)
}

/// Hexadecimal text, read back, gives the bytes it was made of.
pub proof fn lemma_hex_roundtrip(bytes: Seq<u8>)
    ensures
        vstd::utf8::is_ascii_chars(spec_to_hex(bytes)),
        spec_from_hex(encode_utf8(spec_to_hex(bytes))) == Ok::<Seq<u8>, SecureStorageError>(bytes),
{
    let hex = spec_to_hex(bytes);
    assert forall|i: int| 0 <= i < hex.len() implies '\0' <= #[trigger] hex[i] <= '\u{7f}' by {
        let v = if i % 2 == 0 {
            bytes[i / 2] as int / 16
        } else {
            bytes[i / 2] as int % 16
        };
        assert(hex[i] == spec_hex_digit(v));
    }
    vstd::utf8::is_ascii_chars_encode_utf8(hex);
    let enc = encode_utf8(hex);
    assert(enc.len() == 2 * bytes.len());
    assert forall|i: int| 0 <= i < enc.len() implies spec_hex_value(#[trigger] enc[i]) is Some by {
        let v = if i % 2 == 0 {
            bytes[i / 2] as int / 16
        } else {
            bytes[i / 2] as int % 16
        };
        assert(hex[i] == spec_hex_digit(v));
        assert(enc[i] == hex[i] as u8);
    }
    let back = spec_from_hex(enc)->Ok_0;
    assert forall|k: int| 0 <= k < bytes.len() implies back[k] == bytes[k] by {
        assert(hex[2 * k] == spec_hex_digit(bytes[k] as int / 16));
        assert(hex[2 * k + 1] == spec_hex_digit(bytes[k] as int % 16));
        assert(enc[2 * k] == hex[2 * k] as u8);
        assert(enc[2 * k + 1] == hex[2 * k + 1] as u8);
    }
    assert(back =~= bytes);
}

/// The stored form of a value sealed under `key` with `nonce`: the nonce
/// and the ciphertext, in hexadecimal.
pub open spec fn spec_sealed_setting(key: Seq<u8>, nonce: Seq<u8>, value: Seq<char>) -> Seq<char> {
    spec_to_hex(nonce + spec_aes_gcm_seal(key, nonce, encode_utf8(value)))
}

/// The value that a stored form holds under `key`.
pub open spec fn spec_open_setting(key: Seq<u8>, stored: Seq<u8>) -> Result<
    Seq<char>,
    SecureStorageError,
> {
    match spec_from_hex(stored) {
        Err(e) => Err(e),
        Ok(combined) => if combined.len() < NONCE_SIZE {
            Err(SecureStorageError::Corrupted)
        } else {
            match spec_aes_gcm_open(key, combined.take(12), combined.skip(12)) {
                None => Err(SecureStorageError::DecryptionFailed),
                Some(plain) => if valid_utf8(plain) {
                    Ok(decode_utf8(plain))
                } else {
                    Err(SecureStorageError::InvalidUtf8)
                },
            }
        },
    }
}

/// Seals `value` under `key` with `nonce` and gives its stored form. What
/// comes out opens, under the same key, to `value`.
pub fn seal_setting(key: &[u8; 32], nonce: &[u8; 12], value: &str) -> (stored: Result<
    String,
    SecureStorageError,
>)
    ensures
        encode_utf8(value@).len() <= MAX_SEAL_LEN ==> stored is Ok,
        stored is Err ==> stored->Err_0 == SecureStorageError::EncryptionFailed,
        stored is Ok ==> {
            &&& stored->Ok_0@ == spec_sealed_setting(key@, nonce@, value@)
            &&& spec_open_setting(key@, encode_utf8(stored->Ok_0@)) == Ok::<
                Seq<char>,
                SecureStorageError,
            >(value@)
        },
{
    let plain = value.as_bytes();
    match aes_gcm_seal(key, nonce, plain) {
        Some(ct) => {
            let mut combined: Vec<u8> = Vec::new();
            push_bytes(&mut combined, nonce.as_slice());
            push_bytes(&mut combined, ct.as_slice());
            proof {
                lemma_hex_roundtrip(combined@);
                assert(combined@.take(12) =~= nonce@);
                assert(combined@.skip(12) =~= ct@);
                vstd::utf8::encode_utf8_valid_utf8(value@);
                vstd::utf8::encode_utf8_decode_utf8(value@);
            }
            Ok(to_hex(combined.as_slice()))
        },
        None => Err(SecureStorageError::EncryptionFailed),
    }
}

/// Seals `value` under `key` with a nonce drawn at random.
pub fn encrypt_setting(key: &[u8; 32], value: &str) -> (stored: Result<String, SecureStorageError>)
    ensures
        stored is Ok ==> spec_open_setting(key@, encode_utf8(stored->Ok_0@)) == Ok::<
            Seq<char>,
            SecureStorageError,
        >(value@),
        stored is Err ==> stored->Err_0 == SecureStorageError::NoRandomness || stored->Err_0
            == SecureStorageError::EncryptionFailed,
        stored is Err && encode_utf8(value@).len() <= MAX_SEAL_LEN ==> stored->Err_0
            == SecureStorageError::NoRandomness,
        stored is Ok ==> exists|nonce: Seq<u8>|
            nonce.len() == NONCE_SIZE && stored->Ok_0@ == #[trigger] spec_sealed_setting(
                key@,
                nonce,
                value@,
            ),
{
    match random_bytes::<12>() {
        Some(nonce) => {
            let stored = seal_setting(key, &nonce, value);
            proof {
                if stored is Ok {
                    assert(stored->Ok_0@ == spec_sealed_setting(key@, nonce@, value@));
                }
            }
            stored
        },
        None => Err(SecureStorageError::NoRandomness),
    }
}

/// Opens the stored form of a value under `key`.
pub fn decrypt_setting(key: &[u8; 32], stored: &str) -> (value: Result<String, SecureStorageError>)
    ensures
        match spec_open_setting(key@, encode_utf8(stored@)) {
            Ok(v) => value is Ok && value->Ok_0@ == v,
            Err(e) => value is Err && value->Err_0 == e,
        },
{
    let combined = match from_hex(stored) {
        Ok(c) => c,
        Err(e) => {
            return Err(e);
        },
    };
    if combined.len() < NONCE_SIZE {
        return Err(SecureStorageError::Corrupted);
    }
    let nonce = nonce_at(combined.as_slice(), 0);
    let ciphertext = slice_subrange(combined.as_slice(), 12, combined.len());
    proof {
        assert(combined@.take(12) =~= combined@.subrange(0, 12));
        assert(combined@.skip(12) =~= combined@.subrange(12, combined@.len() as int));
    }
    match aes_gcm_open(key, &nonce, ciphertext) {
        None => Err(SecureStorageError::DecryptionFailed),
        Some(plain) => match string_from_utf8(plain) {
            Some(s) => Ok(s),
            None => Err(SecureStorageError::InvalidUtf8),
        },
    }
}

/// The secret of the application that goes into every machine-bound key.
pub open spec fn spec_app_secret() -> Seq<u8> {
    encode_utf8("slasshy_secure_token_vault_2025_v1"@)
}

/// What identifies the machine: the names of the computer, of the user and
/// of the processor, as far as they are known, one after the other; a
/// fixed text where none is known.
pub open spec fn spec_machine_id(
    computer: Option<Seq<u8>>,
    user: Option<Seq<u8>>,
    processor: Option<Seq<u8>>,
) -> Seq<u8> {
    let id = (match computer {
        Some(c) => c,
        None => Seq::empty(),
    }) + (match user {
        Some(u) => u,
        None => Seq::empty(),
    }) + (match processor {
        Some(p) => p,
        None => Seq::empty(),
    });
    if id.len() == 0 {
        encode_utf8("fallback_machine_id"@)
    } else {
        id
    }
}

/// The bytes of an optional text.
pub open spec fn opt_bytes(s: Option<&str>) -> Option<Seq<u8>> {
    match s {
        Some(t) => Some(encode_utf8(t@)),
        None => None,
    }
}

/// What identifies the machine.
pub fn machine_id(computer: Option<&str>, user: Option<&str>, processor: Option<&str>) -> (id: Vec<
    u8,
>)
    ensures
        id@ == spec_machine_id(opt_bytes(computer), opt_bytes(user), opt_bytes(processor)),
{
    let mut id: Vec<u8> = Vec::new();
    match computer {
        Some(c) => push_bytes(&mut id, c.as_bytes()),
        None => {},
    }
    match user {
        Some(u) => push_bytes(&mut id, u.as_bytes()),
        None => {},
    }
    match processor {
        Some(p) => push_bytes(&mut id, p.as_bytes()),
        None => {},
    }
    if id.len() == 0 {
        push_bytes(&mut id, "fallback_machine_id".as_bytes());
    }
    proof {
        assert(id@ =~= spec_machine_id(opt_bytes(computer), opt_bytes(user), opt_bytes(processor)));
    }
    id
}

/// The key bound to a machine: the Argon2 key of the application's secret
/// followed by the machine's id, under the installation's salt.
pub fn system_key(machine_id: &[u8], salt: &[u8]) -> (key: Option<[u8; 32]>)
    ensures
        key is Some == spec_argon2_key(spec_app_secret() + machine_id@, salt@) is Some,
        key is Some ==> key->0@ == spec_argon2_key(spec_app_secret() + machine_id@, salt@)->0,
{
    let mut input: Vec<u8> = Vec::new();
    push_bytes(&mut input, "slasshy_secure_token_vault_2025_v1".as_bytes());
    push_bytes(&mut input, machine_id);
    proof {
        assert(input@ =~= spec_app_secret() + machine_id@);
    }
    argon2_key(input.as_slice(), salt)
}

impl SecureStorageError {
    /// The error in words.
    pub open spec fn spec_message(self) -> Seq<char> {
        match self {
            SecureStorageError::InvalidHexLength => "Invalid hex string length"@,
            SecureStorageError::InvalidHexCharacter => "Invalid hex character"@,
            SecureStorageError::Corrupted => "Stored data is corrupted"@,
            SecureStorageError::DecryptionFailed => "Decryption failed - possibly the database was moved from another machine or corrupted"@,
            SecureStorageError::InvalidUtf8 => "Invalid UTF-8 in decrypted data"@,
            SecureStorageError::EncryptionFailed => "Encryption failed"@,
            SecureStorageError::NoRandomness => "No random bytes available"@,
        }
    }

    /// The error in words.
    pub fn message(&self) -> (text: String)
        ensures
            text@ == self.spec_message(),
    {
        match self {
            SecureStorageError::InvalidHexLength => String::from_str("Invalid hex string length"),
            SecureStorageError::InvalidHexCharacter => String::from_str("Invalid hex character"),
            SecureStorageError::Corrupted => String::from_str("Stored data is corrupted"),
            SecureStorageError::DecryptionFailed => String::from_str(
                "Decryption failed - possibly the database was moved from another machine or corrupted",
            ),
            SecureStorageError::InvalidUtf8 => String::from_str("Invalid UTF-8 in decrypted data"),
            SecureStorageError::EncryptionFailed => String::from_str("Encryption failed"),
            SecureStorageError::NoRandomness => String::from_str("No random bytes available"),
        }
    }
}

} // verus!
