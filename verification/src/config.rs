//! The configuration: what makes it valid, where the seal key lies, and how the one-time
//! code secret is kept encrypted beside it.
use std::path::Path;
use vstd::prelude::*;
use vstd::string::*;

use crate::crypto::{
    aes256gcm_opened, aes256gcm_sealed, aes_gcm_decrypt, aes_gcm_encrypt, random_bytes,
};
use crate::encoding::{
    base64, base64_bytes, encode_standard, law_base64_is_canonical, lemma_base64, read_base64,
};
use crate::secret::SecretBytes;
use crate::text::trimmed;

verus! {

/// The port that the service listens on unless something else is configured.
pub const DEFAULT_PORT: u16 = 32119;

/// The name of the file that holds the seal key, beside the configuration file.
pub const SEAL_KEY_FILE_NAME: &'static str = "seal.key";

/// An internet address and a port.
#[derive(Clone, Copy, Debug, PartialEq, Eq)]
pub enum BindAddress {
    V4 { octets: [u8; 4], port: u16 },
    V6 { segments: [u16; 8], port: u16, flowinfo: u32, scope_id: u32 },
}

impl BindAddress {
    /// Whether the address can only be reached from the same machine: 127.0.0.0/8, or ::1.
    pub open spec fn loopback(self) -> bool {
        match self {
            BindAddress::V4 { octets, .. } => octets@[0] == 127,
            BindAddress::V6 { segments, .. } => segments@ == seq![
                0u16,
                0u16,
                0u16,
                0u16,
                0u16,
                0u16,
                0u16,
                1u16,
            ],
        }
    }

    /// Whether the address can only be reached from the same machine: 127.0.0.0/8, or ::1.
    pub fn is_loopback(&self) -> (r: bool)
        ensures
            r == self.loopback(),
    {
        match self {
            BindAddress::V4 { octets, .. } => octets[0] == 127,
            BindAddress::V6 { segments, .. } => {
                let r = segments[0] == 0 && segments[1] == 0 && segments[2] == 0 && segments[3] == 0
                    && segments[4] == 0 && segments[5] == 0 && segments[6] == 0 && segments[7] == 1;
                assert(r ==> segments@ =~= seq![0u16, 0u16, 0u16, 0u16, 0u16, 0u16, 0u16, 1u16]);
                r
            },
        }
    }
}

/// The configuration of the service.
#[derive(Debug)]
pub struct Config {
    pub bind: BindAddress,
    pub password_hash: String,
    pub totp_secret: Option<SealedSecret>,
    pub shell: String,
    pub max_output_bytes: usize,
    pub max_command_seconds: u64,
}

/// A secret, encrypted: nonce and ciphertext, both in base64.
#[derive(Debug)]
pub struct SealedSecret {
    pub nonce: String,
    pub ciphertext: String,
}

impl Clone for SealedSecret {
    fn clone(&self) -> (r: SealedSecret)
        ensures
            r == *self,
    {
        SealedSecret { nonce: self.nonce.clone(), ciphertext: self.ciphertext.clone() }
    }
}

impl Clone for Config {
    fn clone(&self) -> (r: Config)
        ensures
            r == *self,
    {
        let totp_secret = match &self.totp_secret {
            Some(secret) => Some(secret.clone()),
            None => None,
        };
        Config {
            bind: self.bind,
            password_hash: self.password_hash.clone(),
            totp_secret,
            shell: self.shell.clone(),
            max_output_bytes: self.max_output_bytes,
            max_command_seconds: self.max_command_seconds,
        }
    }
}

/// What is wrong with a configuration or with a secret in it.
#[derive(Clone, Copy, Debug, PartialEq, Eq, Structural)]
pub enum ConfigError {
    RemoteBind,
    NoMasterPassword,
    OutputLimitTooLow,
    NoCommandTime,
    InvalidSealKey,
    InvalidSealKeyLength,
    SealFailed,
    InvalidNonce,
    InvalidCiphertext,
    UnsealFailed,
}

impl ConfigError {
    /// What the error says to a user, where `bind` is the configured address as text.
    pub open spec fn text(self, bind: Seq<char>) -> Seq<char> {
        match self {
            ConfigError::RemoteBind => "refusing non-loopback bind address "@ + bind
                + "; put a TLS/authenticating reverse proxy in front instead"@,
            ConfigError::NoMasterPassword =>
                "Master Password is not initialized; run `sudoserver init`"@,
            ConfigError::OutputLimitTooLow => "max_output_bytes must be at least 1024"@,
            ConfigError::NoCommandTime => "max_command_seconds must be greater than zero"@,
            ConfigError::InvalidSealKey => "invalid seal key"@,
            ConfigError::InvalidSealKeyLength => "invalid seal key length"@,
            ConfigError::SealFailed => "failed to encrypt TOTP secret"@,
            ConfigError::InvalidNonce => "invalid TOTP nonce"@,
            ConfigError::InvalidCiphertext => "invalid TOTP ciphertext"@,
            ConfigError::UnsealFailed => "unable to decrypt TOTP secret"@,
        }
    }

    /// What the error says to a user, where `bind` is the configured address as text.
    pub fn describe(&self, bind: &str) -> (text: String)
        ensures
            text@ == self.text(bind@),
    {
        match self {
            ConfigError::RemoteBind => "refusing non-loopback bind address ".to_owned().concat(
                bind,
            ).concat("; put a TLS/authenticating reverse proxy in front instead"),
            ConfigError::NoMasterPassword =>
                "Master Password is not initialized; run `sudoserver init`".to_owned(),
            ConfigError::OutputLimitTooLow => "max_output_bytes must be at least 1024".to_owned(),
            ConfigError::NoCommandTime => "max_command_seconds must be greater than zero".to_owned(),
            ConfigError::InvalidSealKey => "invalid seal key".to_owned(),
            ConfigError::InvalidSealKeyLength => "invalid seal key length".to_owned(),
            ConfigError::SealFailed => "failed to encrypt TOTP secret".to_owned(),
            ConfigError::InvalidNonce => "invalid TOTP nonce".to_owned(),
            ConfigError::InvalidCiphertext => "invalid TOTP ciphertext".to_owned(),
            ConfigError::UnsealFailed => "unable to decrypt TOTP secret".to_owned(),
        }
    }
}

impl Default for Config {
    /// Loopback only, PowerShell 7, eight mebibytes of output, five minutes per command; no
    /// password yet.
    fn default() -> (config: Config)
        ensures
            config.bind == (BindAddress::V4 { octets: [127, 0, 0, 1], port: 32119 }),
            config.password_hash@ == Seq::<char>::empty(),
            config.totp_secret is None,
            config.shell@ == "pwsh"@,
            config.max_output_bytes == 8_388_608,
            config.max_command_seconds == 300,
    {
        Config {
            bind: BindAddress::V4 { octets: [127, 0, 0, 1], port: DEFAULT_PORT },
            password_hash: String::new(),
            totp_secret: None,
            shell: "pwsh".to_owned(),
            max_output_bytes: 8_388_608,
            max_command_seconds: 300,
        }
    }
}

impl Config {
    /// The first thing that is wrong with the configuration, if anything is.
    pub open spec fn fault(&self) -> Option<ConfigError> {
        if !self.bind.loopback() {
            Some(ConfigError::RemoteBind)
        } else if self.password_hash@.len() == 0 {
            Some(ConfigError::NoMasterPassword)
        } else if self.max_output_bytes < 1024 {
            Some(ConfigError::OutputLimitTooLow)
        } else if self.max_command_seconds == 0 {
            Some(ConfigError::NoCommandTime)
        } else {
            None
        }
    }

    /// Refuses a configuration that the service must not run with.
    pub fn validate(&self) -> (r: Result<(), ConfigError>)
        ensures
            match r {
                Ok(()) => self.fault() is None,
                Err(error) => self.fault() == Some(error),
            },
    {
        if !self.bind.is_loopback() {
            return Err(ConfigError::RemoteBind);
        }
        if self.password_hash.as_str().is_empty() {
            return Err(ConfigError::NoMasterPassword);
        }
        if self.max_output_bytes < 1024 {
            return Err(ConfigError::OutputLimitTooLow);
        }
        if self.max_command_seconds == 0 {
            return Err(ConfigError::NoCommandTime);
        }
        Ok(())
    }
}

/// A name of a file or directory, and nothing that a platform reads another way: it is not
/// empty, not one or two dots, and has no slash, backslash or colon.
pub open spec fn is_plain_name(name: Seq<char>) -> bool {
    &&& name.len() > 0
    &&& name != seq!['.']
    &&& name != seq!['.', '.']
    &&& !name.contains('/')
    &&& !name.contains('\\')
    &&& !name.contains(':')
}

/// Whether `c` separates the parts of a path where the platform's separator is `separator`:
/// a slash does everywhere.
pub open spec fn separates(c: char, separator: char) -> bool {
    c == '/' || c == separator
}

/// Whether `part` is one part of a path, a name: it is not empty, not one or two dots, and
/// nothing in it separates. Where a backslash separates, a colon belongs to a drive.
pub open spec fn is_last_part(part: Seq<char>, separator: char) -> bool {
    &&& part.len() > 0
    &&& part != seq!['.']
    &&& part != seq!['.', '.']
    &&& forall|i: int| 0 <= i < part.len() ==> !separates(#[trigger] part[i], separator)
    &&& separator == '\\' ==> !part.contains(':')
}

/// Whether `directory` stays as it is written when the name behind it is replaced: it does
/// not end in a separator or a dot. Where a backslash separates, it is no bare drive, and
/// it does not begin with two separators.
pub open spec fn stays(directory: Seq<char>, separator: char) -> bool {
    &&& directory.len() > 0
    &&& !separates(directory.last(), separator)
    &&& directory.last() != '.'
    &&& separator == '\\' ==> directory.last() != ':'
    &&& separator == '\\' && directory.len() >= 2 ==> !(separates(directory[0], separator)
        && separates(directory[1], separator))
}

/// Whether `r` is what a path becomes where its last part is replaced by `name`, on a
/// platform with the given separator, a slash or a backslash. A path of one part becomes
/// `name`; otherwise what stands before the last part stays, with the platform's separator
/// behind it. What becomes of other paths is left open, but for their last part.
pub open spec fn file_name_replaced(
    path: Seq<char>,
    name: Seq<char>,
    separator: char,
    r: Seq<char>,
) -> bool {
    &&& separator == '/' || separator == '\\'
    &&& name.is_suffix_of(r)
    &&& is_last_part(path, separator) ==> r == name
    &&& forall|directory: Seq<char>, between: char, file: Seq<char>|
        #![trigger directory.push(between) + file]
        separates(between, separator) && is_last_part(file, separator) && path == directory.push(
            between,
        ) + file ==> {
            &&& directory.len() == 0 ==> r == directory.push(between) + name
            &&& stays(directory, separator) ==> r == directory.push(separator) + name
        }
}

/// `Path::with_file_name` of the standard library puts `name` in place of the last part of
/// `path`, on a platform whose separator is a slash or a backslash: see
/// [`file_name_replaced`].
#[verifier::external_body]
fn with_file_name(path: &str, name: &str) -> (r: String)
    requires
        is_plain_name(name@),
    ensures
        exists|separator: char| #[trigger] file_name_replaced(path@, name@, separator, r@),
{
    Path::new(path).with_file_name(name).to_string_lossy().into_owned()
}

/// Where the seal key lies: in the directory of the configuration file, as `seal.key`.
pub fn seal_key_path(config_path: &str) -> (r: String)
    ensures
        exists|separator: char| #[trigger]
            file_name_replaced(config_path@, "seal.key"@, separator, r@),
{
    proof {
        lemma_seal_key_is_plain();
    }
    with_file_name(config_path, SEAL_KEY_FILE_NAME)
}

proof fn lemma_seal_key_is_plain()
    ensures
        is_plain_name("seal.key"@),
{
    reveal_strlit("seal.key");
    assert("seal.key"@.len() == 8);
}

/// Configuration files in one directory share one seal key, which lies in that directory,
/// and the seal key of the seal key file is that file itself.
pub proof fn law_one_seal_key_per_directory(
    directory: Seq<char>,
    between: char,
    first: Seq<char>,
    second: Seq<char>,
    separator: char,
    first_key: Seq<char>,
    second_key: Seq<char>,
    key_of_key: Seq<char>,
)
    requires
        separates(between, separator),
        directory.len() == 0 || stays(directory, separator),
        is_last_part(first, separator),
        is_last_part(second, separator),
        file_name_replaced(directory.push(between) + first, "seal.key"@, separator, first_key),
        file_name_replaced(directory.push(between) + second, "seal.key"@, separator, second_key),
        file_name_replaced(first_key, "seal.key"@, separator, key_of_key),
    ensures
        first_key == directory.push(
            if directory.len() == 0 {
                between
            } else {
                separator
            },
        ) + "seal.key"@,
        first_key == second_key,
        key_of_key == first_key,
{
    lemma_seal_key_is_plain();
    assert(is_last_part("seal.key"@, separator));
    let joined = if directory.len() == 0 {
        between
    } else {
        separator
    };
    assert(first_key == directory.push(joined) + "seal.key"@);
}

/// The same holds of configuration files without a directory.
pub proof fn law_one_seal_key_without_directory(
    first: Seq<char>,
    second: Seq<char>,
    separator: char,
    first_key: Seq<char>,
    second_key: Seq<char>,
    key_of_key: Seq<char>,
)
    requires
        is_last_part(first, separator),
        is_last_part(second, separator),
        file_name_replaced(first, "seal.key"@, separator, first_key),
        file_name_replaced(second, "seal.key"@, separator, second_key),
        file_name_replaced(first_key, "seal.key"@, separator, key_of_key),
    ensures
        first_key == "seal.key"@,
        first_key == second_key,
        key_of_key == first_key,
{
    lemma_seal_key_is_plain();
    assert(is_last_part("seal.key"@, separator));
}

/// The 32 bytes of `bytes`, as an array.
fn to_key(bytes: &Vec<u8>) -> (key: [u8; 32])
    requires
        bytes@.len() == 32,
    ensures
        key@ == bytes@,
{
    let mut key: [u8; 32] = [0;32];
    let mut i: usize = 0;
    while i < 32
        invariant
            i <= 32,
            bytes@.len() == 32,
            forall|j: int| 0 <= j < i ==> key@[j] == bytes@[j],
        decreases 32 - i,
    {
        key[i] = bytes[i];
        i += 1;
    }
    assert(key@ =~= bytes@);
    key
}

/// The seal key in the text of a seal key file, or what is wrong with the text.
pub open spec fn seal_key_of(text: Seq<char>) -> Result<Seq<u8>, ConfigError> {
    match base64_bytes(trimmed(text)) {
        None => Err(ConfigError::InvalidSealKey),
        Some(key) => if key.len() == 32 {
            Ok(key)
        } else {
            Err(ConfigError::InvalidSealKeyLength)
        },
    }
}

/// Reads the text of a seal key file: base64 of 32 bytes, perhaps with white space around it.
pub fn decode_seal_key(text: &str) -> (r: Result<[u8; 32], ConfigError>)
    ensures
        match r {
            Ok(key) => seal_key_of(text@) == Ok::<Seq<u8>, ConfigError>(key@),
            Err(error) => seal_key_of(text@) == Err::<Seq<u8>, ConfigError>(error),
        },
{
    match read_base64(text.trim()) {
        None => Err(ConfigError::InvalidSealKey),
        Some(bytes) => if bytes.len() == 32 {
            Ok(to_key(&bytes))
        } else {
            Err(ConfigError::InvalidSealKeyLength)
        },
    }
}

/// The text of the seal key file for `key`.
pub fn encode_seal_key(key: &[u8; 32]) -> (text: String)
    ensures
        text@ == base64(key@),
{
    encode_standard(key.as_slice())
}

/// A fresh random seal key; every 32 bytes can come, and which do is left to chance.
pub fn generate_seal_key() -> (key: [u8; 32]) {
    to_key(&random_bytes(32))
}

/// A seal key, and what is to be written to its file, if anything.
pub struct SealKey {
    pub key: [u8; 32],
    pub file: Option<String>,
}

/// What comes of looking for the seal key, when `existing` is the text of its file if there
/// is one, and `fresh` the key to take if there is none. A file that is there is only read.
pub open spec fn seal_key_outcome(
    existing: Option<Seq<char>>,
    fresh: Seq<u8>,
    r: Result<SealKey, ConfigError>,
) -> bool {
    match existing {
        Some(text) => match seal_key_of(text) {
            Ok(key) => r is Ok && r->Ok_0.key@ == key && r->Ok_0.file is None,
            Err(error) => r == Err::<SealKey, ConfigError>(error),
        },
        None => r is Ok && r->Ok_0.key@ == fresh && r->Ok_0.file is Some && r->Ok_0.file->0@
            == base64(fresh),
    }
}

/// The text inside an optional reference to one.
pub open spec fn opt_text(text: Option<&str>) -> Option<Seq<char>> {
    match text {
        Some(text) => Some(text@),
        None => None,
    }
}

fn existing_seal_key(text: &str) -> (r: Result<SealKey, ConfigError>)
    ensures
        forall|fresh: Seq<u8>| #[trigger] seal_key_outcome(Some(text@), fresh, r),
{
    match decode_seal_key(text) {
        Ok(key) => Ok(SealKey { key, file: None }),
        Err(error) => Err(error),
    }
}

/// The seal key in the text of its file, or else the given one, which is then to be written.
pub fn load_or_create_seal_key_with(existing: Option<&str>, fresh: [u8; 32]) -> (r: Result<
    SealKey,
    ConfigError,
>)
    ensures
        seal_key_outcome(opt_text(existing), fresh@, r),
{
    match existing {
        Some(text) => existing_seal_key(text),
        None => {
            let file = encode_seal_key(&fresh);
            Ok(SealKey { key: fresh, file: Some(file) })
        },
    }
}

/// The seal key in the text of its file, or else a fresh random one, which is then to be
/// written.
pub fn load_or_create_seal_key(existing: Option<&str>) -> (r: Result<SealKey, ConfigError>)
    ensures
        exists|fresh: Seq<u8>|
            fresh.len() == 32 && #[trigger] seal_key_outcome(opt_text(existing), fresh, r),
{
    match existing {
        Some(text) => {
            let r = existing_seal_key(text);
            let ghost unused = Seq::new(32, |i: int| 0u8);
            assert(unused.len() == 32 && seal_key_outcome(opt_text(existing), unused, r));
            r
        },
        None => {
            let fresh = generate_seal_key();
            let r = load_or_create_seal_key_with(None, fresh);
            assert(fresh@.len() == 32 && seal_key_outcome(opt_text(existing), fresh@, r));
            r
        },
    }
}

/// A seal key is created once: what was written is found the next time, and nothing is
/// written then.
pub proof fn law_seal_key_is_created_once(
    fresh: Seq<u8>,
    first: Result<SealKey, ConfigError>,
    other: Seq<u8>,
    second: Result<SealKey, ConfigError>,
)
    requires
        fresh.len() == 32,
        seal_key_outcome(None, fresh, first),
        seal_key_outcome(Some(first->Ok_0.file->0@), other, second),
    ensures
        second is Ok,
        second->Ok_0.key@ == first->Ok_0.key@,
        second->Ok_0.file is None,
{
    law_seal_key_round_trip(fresh);
}

/// A file that is there is never written, whatever it holds, and one that does not hold a
/// seal key is refused.
pub proof fn law_existing_seal_key_is_kept(
    text: Seq<char>,
    fresh: Seq<u8>,
    r: Result<SealKey, ConfigError>,
)
    requires
        seal_key_outcome(Some(text), fresh, r),
    ensures
        r is Ok ==> r->Ok_0.file is None,
        seal_key_of(text) is Err ==> r is Err,
{
}

/// What a sealed secret holds under `key`, or what is wrong with it.
pub open spec fn unsealed(
    nonce: Seq<char>,
    ciphertext: Seq<char>,
    key: Seq<u8>,
) -> Result<Seq<u8>, ConfigError> {
    match (base64_bytes(nonce), base64_bytes(ciphertext)) {
        (None, _) => Err(ConfigError::InvalidNonce),
        (Some(_), None) => Err(ConfigError::InvalidCiphertext),
        (Some(nonce), Some(ciphertext)) => match aes256gcm_opened(key, nonce, ciphertext) {
            Some(secret) => Ok(secret),
            None => Err(ConfigError::UnsealFailed),
        },
    }
}

/// Encrypts `secret` with AES-256-GCM under `key` and the given nonce. It fails only for a
/// secret past 2^36 bytes.
pub fn seal_with_nonce(secret: &[u8], key: &[u8; 32], nonce: &[u8]) -> (r: Result<
    SealedSecret,
    ConfigError,
>)
    requires
        nonce@.len() == 12,
    ensures
        match r {
            Ok(sealed) => {
                &&& secret@.len() <= 0x10_0000_0000
                &&& sealed.nonce@ == base64(nonce@)
                &&& sealed.ciphertext_len() == Some(secret@.len() + 16)
                &&& aes256gcm_sealed(key@, nonce@, secret@) is Some
                &&& sealed.ciphertext@ == base64(aes256gcm_sealed(key@, nonce@, secret@)->0)
                &&& unsealed(sealed.nonce@, sealed.ciphertext@, key@) == Ok::<
                    Seq<u8>,
                    ConfigError,
                >(secret@)
            },
            Err(error) => secret@.len() > 0x10_0000_0000 && error == ConfigError::SealFailed,
        },
{
    match aes_gcm_encrypt(key.as_slice(), nonce, secret) {
        None => Err(ConfigError::SealFailed),
        Some(ciphertext) => {
            proof {
                lemma_base64(nonce@);
                lemma_base64(ciphertext@);
            }
            Ok(
                SealedSecret {
                    nonce: encode_standard(nonce),
                    ciphertext: encode_standard(&ciphertext),
                },
            )
        },
    }
}

/// Encrypts `secret` with AES-256-GCM under `key` and a fresh random nonce; `unseal` with
/// the same key gives it back.
pub fn seal(secret: &[u8], key: &[u8; 32]) -> (r: Result<SealedSecret, ConfigError>)
    ensures
        match r {
            Ok(sealed) => {
                &&& secret@.len() <= 0x10_0000_0000
                &&& sealed.has_usable_nonce()
                &&& sealed.ciphertext_len() == Some(secret@.len() + 16)
                &&& exists|nonce: Seq<u8>|
                    #![trigger aes256gcm_sealed(key@, nonce, secret@)]
                    nonce.len() == 12 && sealed.nonce@ == base64(nonce) && aes256gcm_sealed(
                        key@,
                        nonce,
                        secret@,
                    ) is Some && sealed.ciphertext@ == base64(
                        aes256gcm_sealed(key@, nonce, secret@)->0,
                    )
                &&& unsealed(sealed.nonce@, sealed.ciphertext@, key@) == Ok::<
                    Seq<u8>,
                    ConfigError,
                >(secret@)
            },
            Err(error) => secret@.len() > 0x10_0000_0000 && error == ConfigError::SealFailed,
        },
{
    let nonce = random_bytes(12);
    proof {
        lemma_base64(nonce@);
    }
    let r = seal_with_nonce(secret, key, &nonce);
    assert(r is Ok ==> aes256gcm_sealed(key@, nonce@, secret@) is Some);
    r
}

impl SealedSecret {
    /// How many bytes the ciphertext has with its tag, if it is base64.
    pub open spec fn ciphertext_len(&self) -> Option<nat> {
        match base64_bytes(self.ciphertext@) {
            Some(ciphertext) => Some(ciphertext.len()),
            None => None,
        }
    }

    /// Whether the nonce, if both it and the ciphertext are base64, has the 12 bytes that
    /// AES-256-GCM needs.
    pub open spec fn has_usable_nonce(&self) -> bool {
        base64_bytes(self.nonce@) is Some && base64_bytes(self.ciphertext@) is Some
            ==> base64_bytes(self.nonce@)->0.len() == 12
    }

    /// Whether the nonce, if both it and the ciphertext are base64, has the 12 bytes that
    /// AES-256-GCM needs.
    pub fn nonce_is_usable(&self) -> (r: bool)
        ensures
            r == self.has_usable_nonce(),
    {
        match (read_base64(self.nonce.as_str()), read_base64(self.ciphertext.as_str())) {
            (Some(nonce), Some(_)) => nonce.len() == 12,
            _ => true,
        }
    }
}

/// Decrypts a sealed secret. A nonce of the wrong length cannot be used at all.
pub fn unseal(secret: &SealedSecret, key: &[u8; 32]) -> (r: Result<SecretBytes, ConfigError>)
    requires
        secret.has_usable_nonce(),
    ensures
        match r {
            Ok(bytes) => unsealed(secret.nonce@, secret.ciphertext@, key@) == Ok::<
                Seq<u8>,
                ConfigError,
            >(bytes@),
            Err(error) => unsealed(secret.nonce@, secret.ciphertext@, key@) == Err::<
                Seq<u8>,
                ConfigError,
            >(error),
        },
{
    let nonce = match read_base64(secret.nonce.as_str()) {
        Some(nonce) => nonce,
        None => return Err(ConfigError::InvalidNonce),
    };
    let ciphertext = match read_base64(secret.ciphertext.as_str()) {
        Some(ciphertext) => ciphertext,
        None => return Err(ConfigError::InvalidCiphertext),
    };
    match aes_gcm_decrypt(key.as_slice(), &nonce, &ciphertext) {
        Some(plaintext) => Ok(SecretBytes::new(plaintext)),
        None => Err(ConfigError::UnsealFailed),
    }
}

/// A seal key that was written to its file is read back from it.
pub proof fn law_seal_key_round_trip(key: Seq<u8>)
    requires
        key.len() == 32,
    ensures
        seal_key_of(base64(key)) == Ok::<Seq<u8>, ConfigError>(key),
{
    lemma_base64(key);
    let text = base64(key);
    assert(crate::encoding::is_standard(text[0]));
    assert(crate::encoding::is_standard(text[text.len() - 1]));
    assert(trimmed(text) == text);
}

/// A valid configuration binds to the local machine only.
pub proof fn law_valid_configuration_is_local(config: Config)
    requires
        config.fault() is None,
    ensures
        config.bind.loopback(),
        config.password_hash@.len() > 0,
{
}

/// A configuration is accepted if and only if it binds to the machine itself, has a Master
/// Password, at least 1024 bytes of output and at least one second per command; the first of
/// these that it lacks is what it is refused for. Of the IPv4 addresses exactly those whose
/// first octet is 127 belong to the machine itself, of the IPv6 addresses exactly `::1`.
pub proof fn law_configurations_are_judged(config: Config)
    ensures
        config.bind matches BindAddress::V4 { octets, .. } ==> (config.fault() == Some(
            ConfigError::RemoteBind,
        ) <==> octets@[0] != 127),
        config.bind matches BindAddress::V6 { segments, .. } ==> (config.fault() == Some(
            ConfigError::RemoteBind,
        ) <==> !(segments@[0] == 0 && segments@[1] == 0 && segments@[2] == 0 && segments@[3] == 0
            && segments@[4] == 0 && segments@[5] == 0 && segments@[6] == 0 && segments@[7] == 1)),
        config.fault() != Some(ConfigError::RemoteBind) ==> {
            &&& config.fault() == Some(ConfigError::NoMasterPassword)
                <==> config.password_hash@.len() == 0
            &&& config.fault() == Some(ConfigError::OutputLimitTooLow)
                <==> config.password_hash@.len() > 0 && config.max_output_bytes < 1024
            &&& config.fault() == Some(ConfigError::NoCommandTime) <==> config.password_hash@.len()
                > 0 && config.max_output_bytes >= 1024 && config.max_command_seconds == 0
            &&& config.fault() is None <==> config.password_hash@.len() > 0
                && config.max_output_bytes >= 1024 && config.max_command_seconds > 0
        },
{
    match config.bind {
        BindAddress::V4 { .. } => {},
        BindAddress::V6 { segments, .. } => {
            let local = seq![0u16, 0u16, 0u16, 0u16, 0u16, 0u16, 0u16, 1u16];
            if segments@[0] == 0 && segments@[1] == 0 && segments@[2] == 0 && segments@[3] == 0
                && segments@[4] == 0 && segments@[5] == 0 && segments@[6] == 0 && segments@[7]
                == 1 {
                assert(segments@ =~= local);
            }
        },
    }
}

/// An address is local by its octets or segments alone: the port, the flow label and the
/// scope do not matter.
pub proof fn law_loopback_is_by_address(bind: BindAddress)
    ensures
        bind matches BindAddress::V4 { octets, .. } ==> (bind.loopback() <==> octets@[0] == 127),
        bind matches BindAddress::V6 { segments, .. } ==> (bind.loopback() <==> segments@[0] == 0
            && segments@[1] == 0 && segments@[2] == 0 && segments@[3] == 0 && segments@[4] == 0
            && segments@[5] == 0 && segments@[6] == 0 && segments@[7] == 1),
{
    match bind {
        BindAddress::V4 { .. } => {},
        BindAddress::V6 { segments, .. } => {
            if segments@[0] == 0 && segments@[1] == 0 && segments@[2] == 0 && segments@[3] == 0
                && segments@[4] == 0 && segments@[5] == 0 && segments@[6] == 0 && segments@[7]
                == 1 {
                assert(segments@ =~= seq![0u16, 0u16, 0u16, 0u16, 0u16, 0u16, 0u16, 1u16]);
            }
        },
    }
}

/// What each failure is called; the one about the address quotes it.
pub proof fn law_configuration_errors_are_named(bind: Seq<char>)
    ensures
        ConfigError::RemoteBind.text(bind) == "refusing non-loopback bind address "@ + bind
            + "; put a TLS/authenticating reverse proxy in front instead"@,
        ConfigError::NoMasterPassword.text(bind)
            == "Master Password is not initialized; run `sudoserver init`"@,
        ConfigError::OutputLimitTooLow.text(bind) == "max_output_bytes must be at least 1024"@,
        ConfigError::NoCommandTime.text(bind) == "max_command_seconds must be greater than zero"@,
        ConfigError::InvalidSealKey.text(bind) == "invalid seal key"@,
        ConfigError::InvalidSealKeyLength.text(bind) == "invalid seal key length"@,
        ConfigError::SealFailed.text(bind) == "failed to encrypt TOTP secret"@,
        ConfigError::InvalidNonce.text(bind) == "invalid TOTP nonce"@,
        ConfigError::InvalidCiphertext.text(bind) == "invalid TOTP ciphertext"@,
        ConfigError::UnsealFailed.text(bind) == "unable to decrypt TOTP secret"@,
{
}

/// The seal key lies beside the configuration file: what stands before the file's name stays,
/// joined by the platform's separator, and a file without a directory has its key without
/// one.
pub proof fn law_seal_key_lies_beside(
    path: Seq<char>,
    directory: Seq<char>,
    file: Seq<char>,
    separator: char,
    key_path: Seq<char>,
)
    requires
        file_name_replaced(path, "seal.key"@, separator, key_path),
        file.len() > 0,
        file[0] != '.',
        forall|i: int|
            0 <= i < file.len() ==> #[trigger] file[i] != '/' && file[i] != '\\' && file[i] != ':',
    ensures
        separator == '/' || separator == '\\',
        path == file ==> key_path == "seal.key"@,
        path == seq!['/'] + file ==> key_path == seq!['/'] + "seal.key"@,
        path == directory + seq!['/'] + file && directory.len() > 0 && directory.last() != '/'
            && directory.last() != '\\' && directory.last() != '.' && directory.last() != ':' && (
        directory.len() == 1 || directory[1] != '/' && directory[1] != '\\') ==> key_path
            == directory + seq![separator] + "seal.key"@,
        path == directory + seq!['\\'] + file && directory.len() > 0 && directory.last() != '/'
            && directory.last() != '\\' && directory.last() != '.' && directory.last() != ':' && (
        directory.len() == 1 || directory[1] != '/' && directory[1] != '\\') && separator == '\\'
            ==> key_path == directory + seq!['\\'] + "seal.key"@,
{
    assert(is_last_part(file, separator)) by {
        assert(file != seq!['.'] && file != seq!['.', '.']) by {
            assert(seq!['.'][0] == '.');
            assert(seq!['.', '.'][0] == '.');
        }
    }
    let none = Seq::<char>::empty();
    assert(seq!['/'] + file =~= none.push('/') + file);
    assert(none.push('/') + "seal.key"@ =~= seq!['/'] + "seal.key"@);
    assert(directory + seq!['/'] + file =~= directory.push('/') + file);
    assert(directory + seq!['\\'] + file =~= directory.push('\\') + file);
    assert(directory.push(separator) + "seal.key"@ =~= directory + seq![separator] + "seal.key"@);
}

/// A seal key file holds a key if and only if it is, but for white space around it, what the
/// 32 bytes of that key are written as; base64 of any other number of bytes, and what is no
/// base64, are told apart.
pub proof fn law_seal_key_file(text: Seq<char>, bytes: Seq<u8>)
    ensures
        seal_key_of(text) == Ok::<Seq<u8>, ConfigError>(bytes) <==> bytes.len() == 32 && trimmed(
            text,
        ) == base64(bytes),
        trimmed(text) == base64(bytes) && bytes.len() != 32 ==> seal_key_of(text) == Err::<
            Seq<u8>,
            ConfigError,
        >(ConfigError::InvalidSealKeyLength),
        (forall|any: Seq<u8>| trimmed(text) != #[trigger] base64(any)) ==> seal_key_of(text)
            == Err::<Seq<u8>, ConfigError>(ConfigError::InvalidSealKey),
{
    law_base64_is_canonical(trimmed(text), bytes);
}

/// The key of an existing file is taken as it is, and nothing is written; where there is no
/// file, the fresh key is taken, and its base64 written.
pub proof fn law_seal_key_is_found_or_made(
    text: Seq<char>,
    key: Seq<u8>,
    fresh: Seq<u8>,
    found: Result<SealKey, ConfigError>,
    made: Result<SealKey, ConfigError>,
)
    requires
        key.len() == 32,
        trimmed(text) == base64(key),
        seal_key_outcome(Some(text), fresh, found),
        seal_key_outcome(None, fresh, made),
    ensures
        found is Ok,
        found->Ok_0.key@ == key,
        found->Ok_0.file is None,
        made is Ok,
        made->Ok_0.key@ == fresh,
        made->Ok_0.file is Some,
        made->Ok_0.file->0@ == base64(fresh),
{
    law_base64_is_canonical(trimmed(text), key);
}

/// A sealed secret is opened with the bytes that its nonce and its ciphertext are the base64
/// of, and what the cipher gives is what comes out.
pub proof fn law_sealed_secrets_are_opened(
    sealed: SealedSecret,
    nonce: Seq<u8>,
    ciphertext: Seq<u8>,
    key: Seq<u8>,
)
    requires
        sealed.nonce@ == base64(nonce),
        sealed.ciphertext@ == base64(ciphertext),
    ensures
        sealed.has_usable_nonce() <==> nonce.len() == 12,
        sealed.ciphertext_len() == Some(ciphertext.len()),
        aes256gcm_opened(key, nonce, ciphertext) is Some ==> unsealed(
            sealed.nonce@,
            sealed.ciphertext@,
            key,
        ) == Ok::<Seq<u8>, ConfigError>(aes256gcm_opened(key, nonce, ciphertext)->0),
        aes256gcm_opened(key, nonce, ciphertext) is None ==> unsealed(
            sealed.nonce@,
            sealed.ciphertext@,
            key,
        ) == Err::<Seq<u8>, ConfigError>(ConfigError::UnsealFailed),
{
    lemma_base64(nonce);
    lemma_base64(ciphertext);
}

/// A sealed secret whose nonce or ciphertext is no base64 is refused for it, the nonce first.
pub proof fn law_sealed_secrets_are_base64(sealed: SealedSecret, nonce: Seq<u8>, key: Seq<u8>)
    ensures
        (forall|any: Seq<u8>| sealed.nonce@ != #[trigger] base64(any)) ==> sealed.has_usable_nonce()
            && unsealed(sealed.nonce@, sealed.ciphertext@, key) == Err::<Seq<u8>, ConfigError>(
            ConfigError::InvalidNonce,
        ),
        sealed.nonce@ == base64(nonce) && (forall|any: Seq<u8>|
            sealed.ciphertext@ != #[trigger] base64(any)) ==> sealed.has_usable_nonce() && unsealed(
            sealed.nonce@,
            sealed.ciphertext@,
            key,
        ) == Err::<Seq<u8>, ConfigError>(ConfigError::InvalidCiphertext),
{
    lemma_base64(nonce);
}

} // verus!
