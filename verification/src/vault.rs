//! The vault: a PIN, a session key, and the records of what is stored.
//!
//! The key that encrypts the vault's files is derived from the PIN and the
//! stored salt each time the vault is unlocked. It lives in the session
//! only: set by setup and unlock, gone after lock and reset.
use vstd::prelude::*;
use vstd::utf8::encode_utf8;
use crate::clock::unix_now;
use crate::text::{
    chars_of, ends_with, push_chars, push_str, replace_char, slice_chars, spec_ends_with,
    spec_replace_char, spec_strip_end, spec_text_in, string_of, strip_end, text_in, CharClass,
};
use crate::urls::{lowercase, spec_lowercase};
use crate::vault_crypto::{
    argon2_key, decrypt, encode_salt, encrypt, hash_pin, random_bytes, spec_argon2_key,
    spec_decrypt, spec_pin_hash, spec_pin_verify, spec_salt_text, verify_pin, VaultError,
};

verus! {

/// A PIN has at least this many characters.
pub const MIN_PIN_LENGTH: usize = 4;

/// What is stored of the vault's PIN.
#[derive(Debug, Clone)]
pub struct VaultConfig {
    /// The PIN as an Argon2 PHC string.
    pub pin_hash: String,
    /// The salt, in B64.
    pub salt: String,
    pub created_at: i64,
    pub last_accessed: Option<i64>,
}

/// The mathematical content of a `VaultConfig`.
pub struct ConfigView {
    pub pin_hash: Seq<char>,
    pub salt: Seq<char>,
    pub created_at: i64,
    pub last_accessed: Option<i64>,
}

impl View for VaultConfig {
    type V = ConfigView;

    open spec fn view(&self) -> ConfigView {
        ConfigView {
            pin_hash: self.pin_hash@,
            salt: self.salt@,
            created_at: self.created_at,
            last_accessed: self.last_accessed,
        }
    }
}

/// The key of an unlocked vault.
#[derive(Debug, Clone, Copy)]
pub struct VaultSession {
    pub key: [u8; 32],
    pub unlocked_at: i64,
}

/// The mathematical content of a `VaultSession`.
pub struct SessionView {
    pub key: Seq<u8>,
    pub unlocked_at: i64,
}

impl View for VaultSession {
    type V = SessionView;

    open spec fn view(&self) -> SessionView {
        SessionView { key: self.key@, unlocked_at: self.unlocked_at }
    }
}

/// The vault: its stored configuration, if it has been set up, and its
/// session, if it is unlocked.
pub struct Vault {
    pub config: Option<VaultConfig>,
    pub session: Option<VaultSession>,
}

/// The mathematical content of a `Vault`.
pub struct VaultView {
    pub config: Option<ConfigView>,
    pub session: Option<SessionView>,
}

impl View for Vault {
    type V = VaultView;

    open spec fn view(&self) -> VaultView {
        VaultView {
            config: match self.config {
                Some(c) => Some(c@),
                None => None,
            },
            session: match self.session {
                Some(s) => Some(s@),
                None => None,
            },
        }
    }
}

/// What the vault shows of itself.
#[derive(Debug, Clone, Copy, PartialEq, Eq, Structural)]
pub struct VaultStatus {
    pub is_setup: bool,
    pub is_unlocked: bool,
    /// Number of encrypted files on disk.
    pub file_count: usize,
    /// Their size in bytes, encrypted.
    pub total_size_bytes: u64,
}

/// The key that belongs to a PIN and a salt.
pub open spec fn spec_key_for(pin: Seq<char>, salt: Seq<char>) -> Option<Seq<u8>> {
    spec_argon2_key(encode_utf8(pin), encode_utf8(salt))
}

/// Whether `pin` is the PIN of `config`.
pub open spec fn spec_check_pin(config: ConfigView, pin: Seq<char>) -> Result<(), VaultError> {
    match spec_pin_verify(encode_utf8(pin), config.pin_hash) {
        None => Err(VaultError::InvalidStoredHash),
        Some(false) => Err(VaultError::InvalidPin),
        Some(true) => Ok(()),
    }
}

/// The configuration and the key that a PIN and fresh salt bytes give.
pub open spec fn spec_credentials(pin: Seq<char>, salt_bytes: Seq<u8>, created_at: i64, last_accessed: Option<i64>) -> Result<
    (ConfigView, Seq<u8>),
    VaultError,
> {
    match spec_salt_text(salt_bytes) {
        None => Err(VaultError::HashingFailed),
        Some(salt) => match spec_pin_hash(encode_utf8(pin), salt) {
            None => Err(VaultError::HashingFailed),
            Some(hash) => match spec_key_for(pin, salt) {
                None => Err(VaultError::KeyDerivationFailed),
                Some(key) => Ok(
                    (ConfigView { pin_hash: hash, salt, created_at, last_accessed }, key),
                ),
            },
        },
    }
}

impl VaultView {
    /// The vault after setup with `pin` at `now`: refused for a PIN of fewer
    /// than four characters and for a vault that has been set up; otherwise
    /// the PIN is hashed under the fresh salt, and the vault is unlocked
    /// with the key of PIN and salt.
    pub open spec fn setup(self, pin: Seq<char>, salt_bytes: Seq<u8>, now: i64) -> Result<
        VaultView,
        VaultError,
    > {
        if pin.len() < MIN_PIN_LENGTH {
            Err(VaultError::PinTooShort)
        } else if self.config is Some {
            Err(VaultError::AlreadySetUp)
        } else {
            match spec_credentials(pin, salt_bytes, now, None) {
                Err(e) => Err(e),
                Ok(made) => Ok(
                    VaultView {
                        config: Some(made.0),
                        session: Some(SessionView { key: made.1, unlocked_at: now }),
                    },
                ),
            }
        }
    }

    /// The vault after unlocking with `pin` at `now`: refused where the
    /// vault has not been set up and where the PIN is not the vault's;
    /// otherwise the session holds the key of PIN and stored salt.
    pub open spec fn unlock(self, pin: Seq<char>, now: i64) -> Result<VaultView, VaultError> {
        match self.config {
            None => Err(VaultError::NotSetUp),
            Some(config) => match spec_check_pin(config, pin) {
                Err(e) => Err(e),
                Ok(_) => match spec_key_for(pin, config.salt) {
                    None => Err(VaultError::KeyDerivationFailed),
                    Some(key) => Ok(
                        VaultView {
                            config: Some(ConfigView { last_accessed: Some(now), ..config }),
                            session: Some(SessionView { key, unlocked_at: now }),
                        },
                    ),
                },
            },
        }
    }

    /// The vault after locking.
    pub open spec fn lock(self) -> VaultView {
        VaultView { session: None, ..self }
    }

    /// The vault after a reset with `pin`: refused where the vault has not
    /// been set up and where the PIN is not the vault's; otherwise nothing
    /// is left.
    pub open spec fn reset(self, pin: Seq<char>) -> Result<VaultView, VaultError> {
        match self.config {
            None => Err(VaultError::NotSetUp),
            Some(config) => match spec_check_pin(config, pin) {
                Err(e) => Err(e),
                Ok(_) => Ok(VaultView { config: None, session: None }),
            },
        }
    }

    /// What a change of PIN needs: the key that the files are under, and
    /// the configuration and key that they go under.
    pub open spec fn plan_pin_change(
        self,
        current_pin: Seq<char>,
        new_pin: Seq<char>,
        salt_bytes: Seq<u8>,
        now: i64,
    ) -> Result<PinChangeView, VaultError> {
        if new_pin.len() < MIN_PIN_LENGTH {
            Err(VaultError::PinTooShort)
        } else {
            match self.config {
                None => Err(VaultError::NotSetUp),
                Some(config) => match spec_check_pin(config, current_pin) {
                    Err(e) => Err(e),
                    Ok(_) => match spec_key_for(current_pin, config.salt) {
                        None => Err(VaultError::KeyDerivationFailed),
                        Some(old_key) => match spec_credentials(
                            new_pin,
                            salt_bytes,
                            config.created_at,
                            Some(now),
                        ) {
                            Err(e) => Err(e),
                            Ok(made) => Ok(
                                PinChangeView { old_key, new_key: made.1, new_config: made.0 },
                            ),
                        },
                    },
                },
            }
        }
    }

    /// The vault after a change of PIN was carried through at `now`.
    pub open spec fn after_pin_change(self, change: PinChangeView, now: i64) -> VaultView {
        VaultView {
            config: Some(change.new_config),
            session: Some(SessionView { key: change.new_key, unlocked_at: now }),
        }
    }
}

/// A change of PIN that has been checked and prepared.
pub struct PinChange {
    /// The key that the files are under.
    pub old_key: [u8; 32],
    /// The key that the files go under.
    pub new_key: [u8; 32],
    /// The configuration to store once every file is under the new key.
    pub new_config: VaultConfig,
}

/// The mathematical content of a `PinChange`.
pub struct PinChangeView {
    pub old_key: Seq<u8>,
    pub new_key: Seq<u8>,
    pub new_config: ConfigView,
}

impl View for PinChange {
    type V = PinChangeView;

    open spec fn view(&self) -> PinChangeView {
        PinChangeView {
            old_key: self.old_key@,
            new_key: self.new_key@,
            new_config: self.new_config@,
        }
    }
}

/// Whether `pin` is the PIN of `config`.
pub fn check_pin(config: &VaultConfig, pin: &str) -> (r: Result<(), VaultError>)
    ensures
        r == spec_check_pin(config@, pin@),
{
    match verify_pin(pin.as_bytes(), config.pin_hash.as_str()) {
        None => Err(VaultError::InvalidStoredHash),
        Some(false) => Err(VaultError::InvalidPin),
        Some(true) => Ok(()),
    }
}

/// The key that belongs to a PIN and a salt.
pub fn derive_key_from_pin(pin: &str, salt: &str) -> (key: Option<[u8; 32]>)
    ensures
        key is Some == spec_key_for(pin@, salt@) is Some,
        key is Some ==> key->0@ == spec_key_for(pin@, salt@)->0,
{
    argon2_key(pin.as_bytes(), salt.as_bytes())
}

/// The configuration and the key that a PIN and fresh salt bytes give.
pub fn make_credentials(
    pin: &str,
    salt_bytes: &[u8; 16],
    created_at: i64,
    last_accessed: Option<i64>,
) -> (r: Result<(VaultConfig, [u8; 32]), VaultError>)
    ensures
        match spec_credentials(pin@, salt_bytes@, created_at, last_accessed) {
            Ok(made) => r is Ok && r->Ok_0.0@ == made.0 && r->Ok_0.1@ == made.1,
            Err(e) => r is Err && r->Err_0 == e,
        },
{
    let salt = match encode_salt(salt_bytes) {
        Some(s) => s,
        None => {
            return Err(VaultError::HashingFailed);
        },
    };
    let hash = match hash_pin(pin.as_bytes(), salt.as_str()) {
        Some(h) => h,
        None => {
            return Err(VaultError::HashingFailed);
        },
    };
    let key = match derive_key_from_pin(pin, salt.as_str()) {
        Some(k) => k,
        None => {
            return Err(VaultError::KeyDerivationFailed);
        },
    };
    Ok((VaultConfig { pin_hash: hash, salt, created_at, last_accessed }, key))
}

impl Vault {
    /// A vault that has not been set up.
    pub fn new() -> (v: Self)
        ensures
            v@.config is None,
            v@.session is None,
    {
        Vault { config: None, session: None }
    }

    /// A locked vault with the stored configuration `config`.
    pub fn from_config(config: Option<VaultConfig>) -> (v: Self)
        ensures
            v.config == config,
            v@.session is None,
    {
        Vault { config, session: None }
    }

    /// Sets the vault up with `pin`, the salt bytes `salt_bytes` and the
    /// time `now`.
    pub fn setup_with(&mut self, pin: &str, salt_bytes: &[u8; 16], now: i64) -> (r: Result<
        (),
        VaultError,
    >)
        ensures
            match old(self)@.setup(pin@, salt_bytes@, now) {
                Ok(v) => r is Ok && final(self)@ == v,
                Err(e) => r == Err::<(), VaultError>(e) && *final(self) == *old(self),
            },
    {
        if pin.unicode_len() < MIN_PIN_LENGTH {
            return Err(VaultError::PinTooShort);
        }
        if self.config.is_some() {
            return Err(VaultError::AlreadySetUp);
        }
        match make_credentials(pin, salt_bytes, now, None) {
            Ok((config, key)) => {
                self.config = Some(config);
                self.session = Some(VaultSession { key, unlocked_at: now });
                Ok(())
            },
            Err(e) => Err(e),
        }
    }

    /// Sets the vault up with `pin`, under a salt drawn at random, now.
    /// Whatever the salt, the vault ends up set up and unlocked, or it is
    /// left as it was and the reason is returned.
    pub fn setup(&mut self, pin: &str) -> (r: Result<(), VaultError>)
        ensures
            pin@.len() < MIN_PIN_LENGTH ==> r == Err::<(), VaultError>(VaultError::PinTooShort),
            pin@.len() >= MIN_PIN_LENGTH && old(self)@.config is Some ==> r == Err::<
                (),
                VaultError,
            >(VaultError::AlreadySetUp),
            r is Err ==> *final(self) == *old(self),
            r is Ok ==> exists|salt: Seq<u8>, now: i64|
                #[trigger] old(self)@.setup(pin@, salt, now) == Ok::<VaultView, VaultError>(
                    final(self)@,
                ),
            r is Ok ==> final(self)@.config is Some && final(self)@.session is Some,
            r is Err ==> r->Err_0 == VaultError::NoRandomness || exists|salt: Seq<u8>, now: i64|
                #[trigger] old(self)@.setup(pin@, salt, now) == Err::<VaultView, VaultError>(
                    r->Err_0,
                ),
    {
        if pin.unicode_len() < MIN_PIN_LENGTH {
            proof {
                assert(old(self)@.setup(pin@, Seq::<u8>::empty(), 0) == Err::<VaultView, VaultError>(
                    VaultError::PinTooShort,
                ));
            }
            return Err(VaultError::PinTooShort);
        }
        if self.config.is_some() {
            proof {
                assert(old(self)@.setup(pin@, Seq::<u8>::empty(), 0) == Err::<VaultView, VaultError>(
                    VaultError::AlreadySetUp,
                ));
            }
            return Err(VaultError::AlreadySetUp);
        }
        let salt = match random_bytes::<16>() {
            Some(s) => s,
            None => {
                return Err(VaultError::NoRandomness);
            },
        };
        let now = unix_now();
        let r = self.setup_with(pin, &salt, now);
        proof {
            if r is Ok {
                assert(old(self)@.setup(pin@, salt@, now) == Ok::<VaultView, VaultError>(self@));
            } else {
                assert(old(self)@.setup(pin@, salt@, now) == Err::<VaultView, VaultError>(
                    r->Err_0,
                ));
            }
        }
        r
    }

    /// Unlocks the vault with `pin` at `now`.
    pub fn unlock_at(&mut self, pin: &str, now: i64) -> (r: Result<(), VaultError>)
        ensures
            match old(self)@.unlock(pin@, now) {
                Ok(v) => r is Ok && final(self)@ == v,
                Err(e) => r == Err::<(), VaultError>(e) && *final(self) == *old(self),
            },
    {
        let (key, updated) = match &self.config {
            None => {
                return Err(VaultError::NotSetUp);
            },
            Some(config) => {
                match check_pin(config, pin) {
                    Err(e) => {
                        return Err(e);
                    },
                    Ok(_) => {},
                }
                let key = match derive_key_from_pin(pin, config.salt.as_str()) {
                    Some(k) => k,
                    None => {
                        return Err(VaultError::KeyDerivationFailed);
                    },
                };
                (
                    key,
                    VaultConfig {
                        pin_hash: config.pin_hash.clone(),
                        salt: config.salt.clone(),
                        created_at: config.created_at,
                        last_accessed: Some(now),
                    },
                )
            },
        };
        self.config = Some(updated);
        self.session = Some(VaultSession { key, unlocked_at: now });
        Ok(())
    }

    /// Unlocks the vault with `pin`, now.
    pub fn unlock(&mut self, pin: &str) -> (r: Result<(), VaultError>)
        ensures
            exists|now: i64|
                match #[trigger] old(self)@.unlock(pin@, now) {
                    Ok(v) => r is Ok && final(self)@ == v,
                    Err(e) => r == Err::<(), VaultError>(e) && *final(self) == *old(self),
                },
    {
        let now = unix_now();
        let r = self.unlock_at(pin, now);
        proof {
            assert(match old(self)@.unlock(pin@, now) {
                Ok(v) => r is Ok && self@ == v,
                Err(e) => r == Err::<(), VaultError>(e) && *self == *old(self),
            });
        }
        r
    }

    /// Locks the vault: the key is gone.
    pub fn lock(&mut self)
        ensures
            final(self)@ == old(self)@.lock(),
            final(self)@.session is None,
    {
        self.session = None;
    }

    /// Resets the vault: after the PIN was checked, neither configuration
    /// nor key is left. The files are the caller's to delete.
    pub fn reset(&mut self, pin: &str) -> (r: Result<(), VaultError>)
        ensures
            match old(self)@.reset(pin@) {
                Ok(v) => r is Ok && final(self)@ == v,
                Err(e) => r == Err::<(), VaultError>(e) && *final(self) == *old(self),
            },
    {
        match &self.config {
            None => {
                return Err(VaultError::NotSetUp);
            },
            Some(config) => {
                match check_pin(config, pin) {
                    Err(e) => {
                        return Err(e);
                    },
                    Ok(_) => {},
                }
            },
        }
        self.config = None;
        self.session = None;
        Ok(())
    }

    /// Forgets the stored configuration and the key; the files stay.
    pub fn wipe_local_config(&mut self)
        ensures
            final(self)@.config is None,
            final(self)@.session is None,
    {
        self.config = None;
        self.session = None;
    }

    /// Takes over a configuration from elsewhere.
    pub fn import_config(&mut self, config: VaultConfig)
        ensures
            final(self).config == Some(config),
            final(self).session == old(self).session,
    {
        self.config = Some(config);
    }

    /// Checks and prepares a change of PIN. Nothing changes yet: the
    /// caller re-encrypts every file with `reencrypt`, and then commits.
    pub fn plan_pin_change_with(
        &self,
        current_pin: &str,
        new_pin: &str,
        salt_bytes: &[u8; 16],
        now: i64,
    ) -> (r: Result<PinChange, VaultError>)
        ensures
            match self@.plan_pin_change(current_pin@, new_pin@, salt_bytes@, now) {
                Ok(c) => r is Ok && r->Ok_0@ == c,
                Err(e) => r is Err && r->Err_0 == e,
            },
    {
        if new_pin.unicode_len() < MIN_PIN_LENGTH {
            return Err(VaultError::PinTooShort);
        }
        match &self.config {
            None => Err(VaultError::NotSetUp),
            Some(config) => {
                match check_pin(config, current_pin) {
                    Err(e) => {
                        return Err(e);
                    },
                    Ok(_) => {},
                }
                let old_key = match derive_key_from_pin(current_pin, config.salt.as_str()) {
                    Some(k) => k,
                    None => {
                        return Err(VaultError::KeyDerivationFailed);
                    },
                };
                match make_credentials(new_pin, salt_bytes, config.created_at, Some(now)) {
                    Ok((new_config, new_key)) => Ok(PinChange { old_key, new_key, new_config }),
                    Err(e) => Err(e),
                }
            },
        }
    }

    /// Checks and prepares a change of PIN under a salt drawn at random.
    pub fn plan_pin_change(&self, current_pin: &str, new_pin: &str) -> (r: Result<
        PinChange,
        VaultError,
    >)
        ensures
            new_pin@.len() < MIN_PIN_LENGTH ==> r is Err && r->Err_0 == VaultError::PinTooShort,
            r is Ok ==> exists|salt: Seq<u8>, now: i64|
                #[trigger] self@.plan_pin_change(current_pin@, new_pin@, salt, now) == Ok::<
                    PinChangeView,
                    VaultError,
                >(r->Ok_0@),
            r is Err ==> r->Err_0 == VaultError::NoRandomness || exists|salt: Seq<u8>, now: i64|
                #[trigger] self@.plan_pin_change(current_pin@, new_pin@, salt, now) == Err::<
                    PinChangeView,
                    VaultError,
                >(r->Err_0),
    {
        if new_pin.unicode_len() < MIN_PIN_LENGTH {
            proof {
                assert(self@.plan_pin_change(current_pin@, new_pin@, Seq::<u8>::empty(), 0) == Err::<
                    PinChangeView,
                    VaultError,
                >(VaultError::PinTooShort));
            }
            return Err(VaultError::PinTooShort);
        }
        let salt = match random_bytes::<16>() {
            Some(s) => s,
            None => {
                return Err(VaultError::NoRandomness);
            },
        };
        let now = unix_now();
        let r = self.plan_pin_change_with(current_pin, new_pin, &salt, now);
        proof {
            if r is Ok {
                assert(self@.plan_pin_change(current_pin@, new_pin@, salt@, now) == Ok::<
                    PinChangeView,
                    VaultError,
                >(r->Ok_0@));
            } else {
                assert(self@.plan_pin_change(current_pin@, new_pin@, salt@, now) == Err::<
                    PinChangeView,
                    VaultError,
                >(r->Err_0));
            }
        }
        r
    }

    /// Carries a prepared change of PIN through at `now`: the new
    /// configuration is the vault's, and the session holds the new key.
    pub fn commit_pin_change_at(&mut self, change: PinChange, now: i64)
        ensures
            final(self)@ == old(self)@.after_pin_change(change@, now),
    {
        self.config = Some(change.new_config);
        self.session = Some(VaultSession { key: change.new_key, unlocked_at: now });
    }

    /// Carries a prepared change of PIN through, now.
    pub fn commit_pin_change(&mut self, change: PinChange)
        ensures
            exists|now: i64| final(self)@ == #[trigger] old(self)@.after_pin_change(change@, now),
    {
        let now = unix_now();
        let ghost c = change@;
        self.commit_pin_change_at(change, now);
        assert(self@ == old(self)@.after_pin_change(c, now));
    }

    /// What the vault shows of itself, given the encrypted files found on
    /// disk. A vault that is not set up shows no files.
    pub fn status(&self, file_count: usize, total_size_bytes: u64) -> (s: VaultStatus)
        ensures
            s.is_setup == self@.config is Some,
            s.is_unlocked == self@.session is Some,
            s.file_count == (if self@.config is Some {
                file_count
            } else {
                0
            }),
            s.total_size_bytes == (if self@.config is Some {
                total_size_bytes
            } else {
                0
            }),
    {
        let is_setup = self.config.is_some();
        VaultStatus {
            is_setup,
            is_unlocked: self.session.is_some(),
            file_count: if is_setup {
                file_count
            } else {
                0
            },
            total_size_bytes: if is_setup {
                total_size_bytes
            } else {
                0
            },
        }
    }
}

/// The key of the vault's session; refused while the vault is locked.
pub fn get_vault_key(vault: &Vault) -> (r: Result<[u8; 32], VaultError>)
    ensures
        match vault@.session {
            Some(s) => r is Ok && r->Ok_0@ == s.key,
            None => r is Err && r->Err_0 == VaultError::Locked,
        },
{
    match &vault.session {
        Some(s) => Ok(s.key),
        None => Err(VaultError::Locked),
    }
}

/// Moves a file from one key to another: it is decrypted under `old_key`
/// and encrypted under `new_key`. What comes out decrypts under `new_key`
/// to what the file decrypted to under `old_key`.
pub fn reencrypt(old_key: &[u8; 32], new_key: &[u8; 32], data: &[u8]) -> (r: Result<
    Vec<u8>,
    VaultError,
>)
    ensures
        spec_decrypt(old_key@, data@) is Err ==> r is Err && r->Err_0 == spec_decrypt(
            old_key@,
            data@,
        )->Err_0,
        r is Ok ==> spec_decrypt(old_key@, data@) is Ok && spec_decrypt(new_key@, r->Ok_0@)
            == spec_decrypt(old_key@, data@),
        r is Err && spec_decrypt(old_key@, data@) is Ok ==> r->Err_0 == VaultError::NoRandomness,
{
    match decrypt(old_key, data) {
        Ok(plaintext) => encrypt(new_key, plaintext.as_slice()),
        Err(e) => Err(e),
    }
}

/// A file or directory inside a folder that the vault holds as one archive.
#[derive(Debug, Clone)]
pub struct VaultFolderEntry {
    pub name: String,
    /// Path inside the folder, with `/` between its parts.
    pub path: String,
    /// Size in bytes; 0 for a directory.
    pub size_bytes: u64,
    /// `video`, `audio`, `image`, `file` or `directory`.
    pub file_type: String,
    pub is_directory: bool,
}

/// The mathematical content of a `VaultFolderEntry`.
pub struct FolderEntryView {
    pub name: Seq<char>,
    pub path: Seq<char>,
    pub size_bytes: u64,
    pub file_type: Seq<char>,
    pub is_directory: bool,
}

impl View for VaultFolderEntry {
    type V = FolderEntryView;

    open spec fn view(&self) -> FolderEntryView {
        FolderEntryView {
            name: self.name@,
            path: self.path@,
            size_bytes: self.size_bytes,
            file_type: self.file_type@,
            is_directory: self.is_directory,
        }
    }
}

/// The record of a file in the vault. The vault keeps no index of these:
/// whoever adds a file keeps its record.
#[derive(Debug, Clone)]
pub struct VaultFile {
    pub id: String,
    pub original_name: String,
    /// The id followed by `.enc`.
    pub encrypted_name: String,
    /// Size of the plaintext.
    pub size_bytes: u64,
    pub added_at: i64,
    /// `video`, `audio`, `image`, `file` or `folder`.
    pub file_type: String,
    pub thumbnail: Option<String>,
    pub is_folder: bool,
    pub folder_entries: Option<Vec<VaultFolderEntry>>,
}

/// File extensions of video files.
pub open spec fn spec_video_extensions() -> Seq<&'static str> {
    seq!["mp4", "webm", "mkv", "avi", "mov", "wmv", "flv", "m4v", "3gp"]
}

/// File extensions of audio files.
pub open spec fn spec_audio_extensions() -> Seq<&'static str> {
    seq!["mp3", "m4a", "flac", "wav", "opus", "ogg", "aac", "wma"]
}

/// File extensions of image files.
pub open spec fn spec_image_extensions() -> Seq<&'static str> {
    seq!["jpg", "jpeg", "png", "gif", "webp", "bmp", "svg", "ico", "tiff"]
}

/// The kind of file that an extension, taken in lower case, stands for.
pub open spec fn spec_detect_file_type(extension: Seq<char>) -> Seq<char> {
    let ext = spec_lowercase(extension);
    if spec_text_in(spec_video_extensions(), ext) {
        "video"@
    } else if spec_text_in(spec_audio_extensions(), ext) {
        "audio"@
    } else if spec_text_in(spec_image_extensions(), ext) {
        "image"@
    } else {
        "file"@
    }
}

/// The kind of file that an extension stands for.
pub fn detect_file_type(extension: &str) -> (kind: String)
    ensures
        kind@ == spec_detect_file_type(extension@),
{
    let lower = lowercase(extension);
    let ext = chars_of(lower.as_str());
    let video: Vec<&'static str> = vec![
        "mp4",
        "webm",
        "mkv",
        "avi",
        "mov",
        "wmv",
        "flv",
        "m4v",
        "3gp",
    ];
    let audio: Vec<&'static str> = vec!["mp3", "m4a", "flac", "wav", "opus", "ogg", "aac", "wma"];
    let image: Vec<&'static str> = vec![
        "jpg",
        "jpeg",
        "png",
        "gif",
        "webp",
        "bmp",
        "svg",
        "ico",
        "tiff",
    ];
    if text_in(&video, &ext) {
        String::from_str("video")
    } else if text_in(&audio, &ext) {
        String::from_str("audio")
    } else if text_in(&image, &ext) {
        String::from_str("image")
    } else {
        String::from_str("file")
    }
}

/// The name under which a file of id `id` is stored.
pub open spec fn spec_encrypted_name(id: Seq<char>) -> Seq<char> {
    id + ".enc"@
}

/// A name of an encrypted file: something followed by `.enc`, or by the
/// legacy `.vault`.
pub open spec fn spec_is_vault_file_name(name: Seq<char>) -> bool {
    (spec_ends_with(name, ".enc"@) && name.len() > ".enc"@.len()) || (spec_ends_with(
        name,
        ".vault"@,
    ) && name.len() > ".vault"@.len())
}

/// The other name under which a file may be stored: `.vault` for `.enc`
/// and `.enc` for `.vault`. A name with neither ending has no other name.
pub open spec fn spec_alternate_name(name: Seq<char>) -> Option<Seq<char>> {
    if spec_ends_with(name, ".enc"@) {
        Some(name.take(name.len() - ".enc"@.len()) + ".vault"@)
    } else if spec_ends_with(name, ".vault"@) {
        Some(name.take(name.len() - ".vault"@.len()) + ".enc"@)
    } else {
        None
    }
}

/// The name under which a file is found on disk: its own where a file of
/// that name exists, else its other name where a file of that name
/// exists.
pub open spec fn spec_resolve_name(
    name: Seq<char>,
    exists: bool,
    alternate_exists: bool,
) -> Option<Seq<char>> {
    if exists {
        Some(name)
    } else if alternate_exists {
        spec_alternate_name(name)
    } else {
        None
    }
}

/// The name under which a file of id `id` is stored.
pub fn encrypted_name(id: &str) -> (name: String)
    ensures
        name@ == spec_encrypted_name(id@),
{
    let mut out = chars_of(id);
    push_str(&mut out, ".enc");
    string_of(&out)
}

/// Whether `name` is a name of an encrypted file.
pub fn is_vault_file_name(name: &str) -> (b: bool)
    ensures
        b == spec_is_vault_file_name(name@),
{
    let n = chars_of(name);
    let current = chars_of(".enc");
    let legacy = chars_of(".vault");
    (ends_with(&n, &current) && n.len() > current.len()) || (ends_with(&n, &legacy) && n.len()
        > legacy.len())
}

/// The other name under which a file may be stored.
pub fn alternate_name(name: &str) -> (other: Option<String>)
    ensures
        other is Some == spec_alternate_name(name@) is Some,
        other is Some ==> other->0@ == spec_alternate_name(name@)->0,
{
    let n = chars_of(name);
    let current = chars_of(".enc");
    let legacy = chars_of(".vault");
    if ends_with(&n, &current) {
        let mut out = slice_chars(&n, 0, n.len() - current.len());
        push_chars(&mut out, &legacy);
        proof {
            assert(n@.take(n@.len() - current@.len()) =~= n@.subrange(
                0,
                n@.len() - current@.len(),
            ));
        }
        Some(string_of(&out))
    } else if ends_with(&n, &legacy) {
        let mut out = slice_chars(&n, 0, n.len() - legacy.len());
        push_chars(&mut out, &current);
        proof {
            assert(n@.take(n@.len() - legacy@.len()) =~= n@.subrange(0, n@.len() - legacy@.len()));
        }
        Some(string_of(&out))
    } else {
        None
    }
}

/// The name under which a file is found on disk, given whether a file of
/// its own name and one of its other name exist.
pub fn resolve_name(name: &str, exists: bool, alternate_exists: bool) -> (found: Option<String>)
    ensures
        found is Some == spec_resolve_name(name@, exists, alternate_exists) is Some,
        found is Some ==> found->0@ == spec_resolve_name(name@, exists, alternate_exists)->0,
{
    if exists {
        Some(String::from_str(name))
    } else if alternate_exists {
        alternate_name(name)
    } else {
        None
    }
}

/// Number and total size of the encrypted files among `files`, each given
/// by name and size.
pub open spec fn spec_count_vault_files(names: Seq<Seq<char>>, sizes: Seq<u64>) -> (int, int)
    decreases names.len(),
{
    if names.len() == 0 || sizes.len() != names.len() {
        (0, 0)
    } else {
        let before = spec_count_vault_files(names.drop_last(), sizes.drop_last());
        if spec_is_vault_file_name(names.last()) {
            (before.0 + 1, before.1 + sizes.last())
        } else {
            before
        }
    }
}

/// A file on disk, as counting needs it.
pub struct DiskFile {
    pub name: String,
    pub size: u64,
}

/// The names of a list of files.
pub open spec fn disk_names(files: Seq<DiskFile>) -> Seq<Seq<char>> {
    Seq::new(files.len(), |i: int| files[i].name@)
}

/// The sizes of a list of files.
pub open spec fn disk_sizes(files: Seq<DiskFile>) -> Seq<u64> {
    Seq::new(files.len(), |i: int| files[i].size)
}

/// Number and total size of the encrypted files among `files`. The total
/// stops at the top of `u64`.
pub fn count_vault_files(files: &Vec<DiskFile>) -> (r: (usize, u64))
    ensures
        r.0 == spec_count_vault_files(disk_names(files@), disk_sizes(files@)).0,
        r.1 == (if spec_count_vault_files(disk_names(files@), disk_sizes(files@)).1 > u64::MAX {
            u64::MAX as int
        } else {
            spec_count_vault_files(disk_names(files@), disk_sizes(files@)).1
        }),
{
    let mut count: usize = 0;
    let mut total: u64 = 0;
    let mut i: usize = 0;
    let ghost names = disk_names(files@);
    let ghost sizes = disk_sizes(files@);
    while i < files.len()
        invariant
            i <= files.len(),
            names == disk_names(files@),
            sizes == disk_sizes(files@),
            count <= i,
            count == spec_count_vault_files(names.take(i as int), sizes.take(i as int)).0,
            spec_count_vault_files(names.take(i as int), sizes.take(i as int)).1 >= 0,
            total == (if spec_count_vault_files(names.take(i as int), sizes.take(i as int)).1
                > u64::MAX {
                u64::MAX as int
            } else {
                spec_count_vault_files(names.take(i as int), sizes.take(i as int)).1
            }),
        decreases files.len() - i,
    {
        proof {
            assert(names.take(i + 1).drop_last() =~= names.take(i as int));
            assert(sizes.take(i + 1).drop_last() =~= sizes.take(i as int));
            assert(names.take(i + 1).last() == files@[i as int].name@);
            assert(sizes.take(i + 1).last() == files@[i as int].size);
        }
        if is_vault_file_name(files[i].name.as_str()) {
            count += 1;
            total = if files[i].size > u64::MAX - total {
                u64::MAX
            } else {
                total + files[i].size
            };
        }
        i += 1;
    }
    proof {
        assert(names.take(i as int) =~= names);
        assert(sizes.take(i as int) =~= sizes);
    }
    (count, total)
}

/// The last part of a path whose parts stand between `/` or `\\`.
pub open spec fn spec_base_name(path: Seq<char>) -> Seq<char> {
    path.skip(spec_strip_end(path, CharClass::NotPathSeparator).len() as int)
}

/// The extension of a file name: what follows its last dot, unless that
/// dot begins the name or there is none.
pub open spec fn spec_extension(name: Seq<char>) -> Seq<char> {
    let stem = spec_strip_end(name, CharClass::NotDot);
    if stem.len() <= 1 {
        Seq::empty()
    } else {
        name.skip(stem.len() as int)
    }
}

/// The entry of one file or directory of a folder, found at
/// `relative_path` inside the folder.
pub open spec fn spec_folder_entry(relative_path: Seq<char>, is_directory: bool, size: u64) -> FolderEntryView {
    let name = spec_base_name(relative_path);
    FolderEntryView {
        name,
        path: spec_replace_char(relative_path, '\\', '/'),
        size_bytes: if is_directory {
            0
        } else {
            size
        },
        file_type: if is_directory {
            "directory"@
        } else {
            spec_detect_file_type(spec_extension(name))
        },
        is_directory,
    }
}

/// The last part of a path.
pub fn base_name(path: &Vec<char>) -> (name: Vec<char>)
    ensures
        name@ == spec_base_name(path@),
{
    let parent = strip_end(path, CharClass::NotPathSeparator);
    proof {
        assert(path@.skip(parent@.len() as int) =~= path@.subrange(
            parent@.len() as int,
            path@.len() as int,
        ));
    }
    slice_chars(path, parent.len(), path.len())
}

/// The extension of a file name.
pub fn extension_of(name: &Vec<char>) -> (ext: Vec<char>)
    ensures
        ext@ == spec_extension(name@),
{
    let stem = strip_end(name, CharClass::NotDot);
    if stem.len() <= 1 {
        Vec::new()
    } else {
        proof {
            assert(name@.skip(stem@.len() as int) =~= name@.subrange(
                stem@.len() as int,
                name@.len() as int,
            ));
        }
        slice_chars(name, stem.len(), name.len())
    }
}

/// The entry of one file or directory of a folder. The folder itself, whose
/// relative path is empty, has no entry.
pub fn folder_entry(relative_path: &str, is_directory: bool, size: u64) -> (entry: Option<
    VaultFolderEntry,
>)
    ensures
        entry is None == (relative_path@.len() == 0),
        entry is Some ==> entry->0@ == spec_folder_entry(relative_path@, is_directory, size),
{
    let path = chars_of(relative_path);
    if path.len() == 0 {
        return None;
    }
    let name = base_name(&path);
    let file_type = if is_directory {
        String::from_str("directory")
    } else {
        let ext = extension_of(&name);
        let ext_text = string_of(&ext);
        detect_file_type(ext_text.as_str())
    };
    let normal = replace_char(&path, '\\', '/');
    Some(
        VaultFolderEntry {
            name: string_of(&name),
            path: string_of(&normal),
            size_bytes: if is_directory {
                0
            } else {
                size
            },
            file_type,
            is_directory,
        },
    )
}

/// Sum of the sizes of the entries of a folder.
pub open spec fn spec_folder_size(entries: Seq<VaultFolderEntry>) -> int
    decreases entries.len(),
{
    if entries.len() == 0 {
        0
    } else {
        spec_folder_size(entries.drop_last()) + entries.last().size_bytes
    }
}

/// Sum of the sizes of the entries of a folder, held at the top of `u64`.
pub fn folder_size(entries: &Vec<VaultFolderEntry>) -> (total: u64)
    ensures
        total == (if spec_folder_size(entries@) > u64::MAX {
            u64::MAX as int
        } else {
            spec_folder_size(entries@)
        }),
{
    let mut total: u64 = 0;
    let mut i: usize = 0;
    proof {
        assert(entries@.take(0) =~= Seq::<VaultFolderEntry>::empty());
    }
    while i < entries.len()
        invariant
            i <= entries.len(),
            spec_folder_size(entries@.take(i as int)) >= 0,
            total == (if spec_folder_size(entries@.take(i as int)) > u64::MAX {
                u64::MAX as int
            } else {
                spec_folder_size(entries@.take(i as int))
            }),
        decreases entries.len() - i,
    {
        proof {
            assert(entries@.take(i + 1).drop_last() =~= entries@.take(i as int));
            assert(entries@.take(i + 1).last() == entries@[i as int]);
        }
        total = if entries[i].size_bytes > u64::MAX - total {
            u64::MAX
        } else {
            total + entries[i].size_bytes
        };
        i += 1;
    }
    proof {
        assert(entries@.take(i as int) =~= entries@);
    }
    total
}

/// `uuid::Uuid::new_v4().to_string()`: a fresh random id. Nothing is
/// claimed of it.
#[verifier::external_body]
pub(crate) fn random_id() -> (id: String) {
    uuid::Uuid::new_v4().to_string()
}

/// The standard base64 text of bytes.
pub uninterp spec fn spec_base64(bytes: Seq<u8>) -> Seq<char>;

/// The bytes that a standard base64 text stands for; `None` for text that
/// is no base64.
pub uninterp spec fn spec_base64_decode(text: Seq<char>) -> Option<Seq<u8>>;

/// `base64::engine::general_purpose::STANDARD.encode`. The contract names
/// the result and claims that it decodes to the bytes.
#[verifier::external_body]
pub(crate) fn base64_encode(bytes: &[u8]) -> (text: String)
    ensures
        text@ == spec_base64(bytes@),
        spec_base64_decode(text@) == Some(bytes@),
{
    base64::Engine::encode(&base64::engine::general_purpose::STANDARD, bytes)
}

/// `base64::engine::general_purpose::STANDARD.decode`. The contract names
/// the result.
#[verifier::external_body]
pub(crate) fn base64_decode(text: &str) -> (bytes: Option<Vec<u8>>)
    ensures
        bytes is Some == spec_base64_decode(text@) is Some,
        bytes is Some ==> bytes->0@ == spec_base64_decode(text@)->0,
{
    base64::Engine::decode(&base64::engine::general_purpose::STANDARD, text).ok()
}

/// An encrypted file as text, for a transport that carries text.
pub fn file_to_base64(content: &[u8]) -> (text: String)
    ensures
        text@ == spec_base64(content@),
        spec_base64_decode(text@) == Some(content@),
{
    base64_encode(content)
}

/// An encrypted file from its text form.
pub fn file_from_base64(text: &str) -> (content: Option<Vec<u8>>)
    ensures
        content is Some == spec_base64_decode(text@) is Some,
        content is Some ==> content->0@ == spec_base64_decode(text@)->0,
{
    base64_decode(text)
}

impl VaultFile {
    /// The record of a file added at `now` under the id `id`.
    pub fn for_file(
        id: String,
        original_name: String,
        size_bytes: u64,
        file_type: String,
        thumbnail: Option<String>,
        now: i64,
    ) -> (f: Self)
        ensures
            f.id == id,
            f.original_name == original_name,
            f.encrypted_name@ == spec_encrypted_name(id@),
            f.size_bytes == size_bytes,
            f.added_at == now,
            f.file_type == file_type,
            f.thumbnail == thumbnail,
            !f.is_folder,
            f.folder_entries is None,
    {
        let encrypted = encrypted_name(id.as_str());
        VaultFile {
            id,
            original_name,
            encrypted_name: encrypted,
            size_bytes,
            added_at: now,
            file_type,
            thumbnail,
            is_folder: false,
            folder_entries: None,
        }
    }

    /// The record of a folder added at `now` under the id `id`: its size is
    /// the sum of the sizes of its entries.
    pub fn for_folder(id: String, folder_name: String, entries: Vec<VaultFolderEntry>, now: i64) -> (f:
        Self)
        ensures
            f.id == id,
            f.original_name == folder_name,
            f.encrypted_name@ == spec_encrypted_name(id@),
            f.size_bytes == (if spec_folder_size(entries@) > u64::MAX {
                u64::MAX as int
            } else {
                spec_folder_size(entries@)
            }),
            f.added_at == now,
            f.file_type@ == "folder"@,
            f.thumbnail is None,
            f.is_folder,
            f.folder_entries == Some(entries),
    {
        let encrypted = encrypted_name(id.as_str());
        let size = folder_size(&entries);
        VaultFile {
            id,
            original_name: folder_name,
            encrypted_name: encrypted,
            size_bytes: size,
            added_at: now,
            file_type: String::from_str("folder"),
            thumbnail: None,
            is_folder: true,
            folder_entries: Some(entries),
        }
    }

    /// The record of a file added now, under a fresh random id.
    pub fn new_file(
        original_name: String,
        size_bytes: u64,
        file_type: String,
        thumbnail: Option<String>,
    ) -> (f: Self)
        ensures
            f.original_name == original_name,
            f.encrypted_name@ == spec_encrypted_name(f.id@),
            f.size_bytes == size_bytes,
            f.file_type == file_type,
            f.thumbnail == thumbnail,
            !f.is_folder,
            f.folder_entries is None,
    {
        VaultFile::for_file(random_id(), original_name, size_bytes, file_type, thumbnail, unix_now())
    }

    /// The record of a folder added now, under a fresh random id.
    pub fn new_folder(folder_name: String, entries: Vec<VaultFolderEntry>) -> (f: Self)
        ensures
            f.original_name == folder_name,
            f.encrypted_name@ == spec_encrypted_name(f.id@),
            f.file_type@ == "folder"@,
            f.is_folder,
            f.folder_entries == Some(entries),
    {
        VaultFile::for_folder(random_id(), folder_name, entries, unix_now())
    }
}

} // verus!
