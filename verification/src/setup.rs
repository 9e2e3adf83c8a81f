//! Setting the service up: choosing the Master Password, enrolling an authenticator app,
//! and who may start and install the service.
use vstd::prelude::*;
use vstd::string::*;
use vstd::utf8::*;

use crate::auth::{
    credential_verdict, generate_totp_secret, hash_password, password_is_right, AuthError, AuthState,
    CredentialKind, HashError,
};
use crate::clock::seconds_since_epoch;
use crate::config::{seal, unsealed, BindAddress, Config, ConfigError, SealedSecret};
use crate::crypto::{
    argon2_matches, argon2id_phc, is_salt, parallelism_is_bounded, phc_parses,
};
use crate::encoding::base32;
use crate::shell::{decoded_text, lossy_text, utf8_lossy};
use crate::text::{same, trim_line_end, trimmed, without_line_end};
use crate::totp::{
    code_is_current, create_totp, law_codes_are_judged, totp_sha1_code, Totp, TotpError,
    ACCOUNT_NAME, ISSUER,
};

verus! {

/// How many characters a Master Password has at least.
pub const MIN_PASSWORD_CHARS: usize = 12;

/// Why the service could not be set up or started.
#[derive(Debug)]
pub enum SetupError {
    AlreadyExists,
    PasswordsDiffer,
    PasswordTooShort,
    Hash(HashError),
    Totp(TotpError),
    WrongCode,
    Seal(ConfigError),
    NotElevated,
    InstallNotElevated,
}

impl SetupError {
    /// What the error says to a user; `path` is the configuration file.
    pub open spec fn text(&self, path: Seq<char>) -> Seq<char> {
        match self {
            SetupError::AlreadyExists => path + " already exists; use --force to replace it"@,
            SetupError::PasswordsDiffer => "passwords do not match"@,
            SetupError::PasswordTooShort => "Master Password must contain at least 12 characters"@,
            SetupError::Hash(error) => error.message@,
            SetupError::Totp(error) => error.message@,
            SetupError::WrongCode => "incorrect TOTP code; configuration was not written"@,
            SetupError::Seal(error) => error.text(Seq::empty()),
            SetupError::NotElevated =>
                "SudoServer must run as Administrator/root (or pass --allow-unelevated for development only)"@,
            SetupError::InstallNotElevated => "service installation requires Administrator/root"@,
        }
    }

    /// What the error says to a user; `path` is the configuration file.
    pub fn describe(&self, path: &str) -> (text: String)
        ensures
            text@ == self.text(path@),
    {
        match self {
            SetupError::AlreadyExists => path.to_owned().concat(
                " already exists; use --force to replace it",
            ),
            SetupError::PasswordsDiffer => "passwords do not match".to_owned(),
            SetupError::PasswordTooShort =>
                "Master Password must contain at least 12 characters".to_owned(),
            SetupError::Hash(error) => error.message.clone(),
            SetupError::Totp(error) => error.message.clone(),
            SetupError::WrongCode => "incorrect TOTP code; configuration was not written".to_owned(),
            SetupError::Seal(error) => {
                proof {
                    reveal_strlit("");
                    assert(""@ =~= Seq::<char>::empty());
                }
                error.describe("")
            },
            SetupError::NotElevated =>
                "SudoServer must run as Administrator/root (or pass --allow-unelevated for development only)".to_owned(),
            SetupError::InstallNotElevated =>
                "service installation requires Administrator/root".to_owned(),
        }
    }
}

/// A configuration file that is there is replaced only by force.
pub fn check_target(present: bool, force: bool) -> (r: Result<(), SetupError>)
    ensures
        r is Ok <==> !present || force,
        r is Err ==> r->Err_0 is AlreadyExists,
{
    if present && !force {
        Err(SetupError::AlreadyExists)
    } else {
        Ok(())
    }
}

/// The password in a line of input: the line without its end.
pub fn password_in_line(line: &str) -> (password: String)
    ensures
        password@ == without_line_end(line@),
{
    trim_line_end(line)
}

/// A password is typed twice, and both times the same.
pub fn check_confirmation(first: &str, second: &str) -> (r: Result<(), SetupError>)
    ensures
        r is Ok <==> first@ == second@,
        r is Err ==> r->Err_0 is PasswordsDiffer,
{
    if same(first, second) {
        Ok(())
    } else {
        Err(SetupError::PasswordsDiffer)
    }
}

/// What comes of a new Master Password: its verifier, or a refusal where it has less than
/// twelve characters. Hashing fails only for a password past 2^32 - 1 bytes.
pub open spec fn verifier_outcome(password: Seq<char>, r: Result<String, SetupError>) -> bool {
    match r {
        Ok(hash) => {
            &&& password.len() >= MIN_PASSWORD_CHARS
            &&& encode_utf8(password).len() <= 0xffff_ffff
            &&& exists|salt: Seq<char>|
                is_salt(salt) && hash@ == #[trigger] argon2id_phc(encode_utf8(password), salt)
            &&& "$argon2id$"@.is_prefix_of(hash@)
            &&& phc_parses(hash@)
            &&& password_is_right(hash@, password)
            &&& hash@.len() > 0
        },
        Err(SetupError::PasswordTooShort) => password.len() < MIN_PASSWORD_CHARS,
        Err(error) => password.len() >= MIN_PASSWORD_CHARS && error is Hash && encode_utf8(
            password,
        ).len() > 0xffff_ffff,
    }
}

/// The verifier of a new Master Password, which needs twelve characters.
pub fn verifier_of(password: &str) -> (r: Result<String, SetupError>)
    ensures
        verifier_outcome(password@, r),
{
    if password.unicode_len() < MIN_PASSWORD_CHARS {
        return Err(SetupError::PasswordTooShort);
    }
    match hash_password(password.as_bytes()) {
        Ok(hash) => {
            proof {
                reveal_strlit("$argon2id$");
                assert("$argon2id$"@.len() == 10);
            }
            Ok(hash)
        },
        Err(error) => Err(SetupError::Hash(error)),
    }
}

/// An authenticator app that is being enrolled: a fresh secret that nobody has confirmed.
pub struct Enrollment {
    totp: Totp,
}

impl View for Enrollment {
    type V = Seq<u8>;

    closed spec fn view(&self) -> Seq<u8> {
        self.totp@
    }
}

/// What comes of ending an enrollment with a code at some time: only a right code gets the
/// secret sealed.
pub open spec fn confirm_outcome(
    secret: Seq<u8>,
    code: Seq<char>,
    time: Option<u64>,
    key: Seq<u8>,
    r: Result<SealedSecret, SetupError>,
) -> bool {
    let right = time is Some && code_is_current(secret, trimmed(code), time->0 as int);
    match r {
        Ok(sealed) => {
            &&& right
            &&& sealed.has_usable_nonce()
            &&& unsealed(sealed.nonce@, sealed.ciphertext@, key) == Ok::<Seq<u8>, ConfigError>(
                secret,
            )
        },
        Err(error) => !right && error is WrongCode,
    }
}

impl Enrollment {
    #[verifier::type_invariant]
    spec fn well_formed(self) -> bool {
        self.totp@.len() == 32
    }

    /// Begins to enroll an authenticator app with a fresh secret of 256 bits.
    pub fn begin() -> (r: Result<Enrollment, SetupError>)
        ensures
            r is Ok,
            r->Ok_0@.len() == 32,
    {
        let secret = generate_totp_secret();
        match create_totp(secret.as_slice()) {
            Ok(totp) => Ok(Enrollment { totp }),
            Err(error) => Err(SetupError::Totp(error)),
        }
    }

    /// The `otpauth://` URL that an authenticator app reads.
    pub fn url(&self) -> (url: String)
        ensures
            url@ == "otpauth://totp/"@ + ISSUER@ + ":"@ + ACCOUNT_NAME@ + "?secret="@ + base32(self@)
                + "&issuer="@ + ISSUER@,
    {
        self.totp.get_url()
    }

    /// The secret in base32, for typing into an authenticator app.
    pub fn manual_secret(&self) -> (text: String)
        ensures
            text@ == base32(self@),
    {
        self.totp.get_secret_base32()
    }

    /// Ends the enrollment with the code that the app shows at `time`, in seconds since the
    /// epoch.
    pub fn confirm_at(&self, code: &str, time: Option<u64>, key: &[u8; 32]) -> (r: Result<
        SealedSecret,
        SetupError,
    >)
        ensures
            confirm_outcome(self@, code@, time, key@, r),
    {
        proof {
            use_type_invariant(self);
        }
        let accepted = match self.totp.check_at(code.trim(), time) {
            Some(accepted) => accepted,
            None => false,
        };
        if !accepted {
            return Err(SetupError::WrongCode);
        }
        match seal(self.totp.secret(), key) {
            Ok(sealed) => Ok(sealed),
            Err(error) => Err(SetupError::Seal(error)),
        }
    }

    /// Ends the enrollment with the code that the app shows now.
    pub fn confirm(&self, code: &str, key: &[u8; 32]) -> (r: Result<SealedSecret, SetupError>)
        ensures
            exists|time: Option<u64>| #[trigger] confirm_outcome(self@, code@, time, key@, r),
    {
        let time = seconds_since_epoch();
        let r = self.confirm_at(code, time, key);
        assert(confirm_outcome(self@, code@, time, key@, r));
        r
    }
}

/// Whether `config` is that of a service that was just set up: everything but the
/// credentials is as by default.
pub open spec fn is_initial_config(
    config: Config,
    password_hash: Seq<char>,
    totp_secret: Option<SealedSecret>,
) -> bool {
    &&& config.password_hash@ == password_hash
    &&& config.totp_secret == totp_secret
    &&& config.bind == (BindAddress::V4 { octets: [127, 0, 0, 1], port: 32119 })
    &&& config.shell@ == "pwsh"@
    &&& config.max_output_bytes == 8 * 1024 * 1024
    &&& config.max_command_seconds == 300
}

/// The configuration of a service that was just set up.
pub fn initial_config(password_hash: String, totp_secret: Option<SealedSecret>) -> (config: Config)
    ensures
        is_initial_config(config, password_hash@, totp_secret),
        config.bind.loopback(),
        config.fault() is None <==> password_hash@.len() > 0,
{
    let defaults = Config::default();
    Config {
        bind: defaults.bind,
        password_hash,
        totp_secret,
        shell: defaults.shell,
        max_output_bytes: defaults.max_output_bytes,
        max_command_seconds: defaults.max_command_seconds,
    }
}

/// A service that was set up knows its credentials: the configuration is valid and has an
/// Argon2id verifier that accepts the chosen password, and it holds a sealed secret just if
/// an authenticator app was enrolled, which opens under the seal key to the very secret
/// that was confirmed.
pub proof fn law_setup_holds_the_credentials(
    password: Seq<char>,
    verifier: Result<String, SetupError>,
    enrolled: Option<Seq<u8>>,
    code: Seq<char>,
    time: Option<u64>,
    key: Seq<u8>,
    sealed: Result<SealedSecret, SetupError>,
    config: Config,
    state: AuthState,
)
    requires
        verifier_outcome(password, verifier),
        verifier is Ok,
        enrolled is Some ==> confirm_outcome(enrolled->0, code, time, key, sealed) && sealed is Ok,
        is_initial_config(
            config,
            verifier->Ok_0@,
            if enrolled is Some {
                Some(sealed->Ok_0)
            } else {
                None
            },
        ),
        state.password_hash == config.password_hash@,
    ensures
        config.fault() is None,
        "$argon2id$"@.is_prefix_of(config.password_hash@),
        credential_verdict(state, CredentialKind::Password, password, None) == Ok::<
            bool,
            AuthError,
        >(true),
        config.totp_secret is Some <==> enrolled is Some,
        enrolled is Some ==> config.totp_secret->0.has_usable_nonce() && unsealed(
            config.totp_secret->0.nonce@,
            config.totp_secret->0.ciphertext@,
            key,
        ) == Ok::<Seq<u8>, ConfigError>(enrolled->0),
        enrolled is Some ==> time is Some && code_is_current(
            enrolled->0,
            trimmed(code),
            time->0 as int,
        ),
{
}

/// Whether the output of `id -u` says that the user is root.
pub open spec fn says_root(success: bool, output: Seq<u8>) -> bool {
    success && trimmed(decoded_text(output)) == "0"@
}

/// Whether the output of `id -u` says that the user is root.
pub fn is_root(success: bool, output: &[u8]) -> (r: bool)
    ensures
        r == says_root(success, output@),
{
    let text = lossy_text(output);
    success && same(text.as_str().trim(), "0")
}

/// The service starts only for an administrator, unless that is expressly waived.
pub fn check_serving(allow_unelevated: bool, elevated: bool) -> (r: Result<(), SetupError>)
    ensures
        r is Ok <==> allow_unelevated || elevated,
        r is Err ==> r->Err_0 is NotElevated,
{
    if !allow_unelevated && !elevated {
        Err(SetupError::NotElevated)
    } else {
        Ok(())
    }
}

/// Only an administrator installs the service.
pub fn check_installing(elevated: bool) -> (r: Result<(), SetupError>)
    ensures
        r is Ok <==> elevated,
        r is Err ==> r->Err_0 is InstallNotElevated,
{
    if elevated {
        Ok(())
    } else {
        Err(SetupError::InstallNotElevated)
    }
}

/// What each failure is called.
pub proof fn law_setup_errors_are_named(error: SetupError, path: Seq<char>)
    ensures
        error is AlreadyExists ==> error.text(path) == path
            + " already exists; use --force to replace it"@,
        error is PasswordsDiffer ==> error.text(path) == "passwords do not match"@,
        error is PasswordTooShort ==> error.text(path)
            == "Master Password must contain at least 12 characters"@,
        error matches SetupError::Hash(cause) ==> error.text(path) == cause.message@,
        error matches SetupError::Totp(cause) ==> error.text(path) == cause.message@,
        error is WrongCode ==> error.text(path)
            == "incorrect TOTP code; configuration was not written"@,
        error matches SetupError::Seal(cause) ==> error.text(path) == cause.text(Seq::empty()),
        error is NotElevated ==> error.text(path)
            == "SudoServer must run as Administrator/root (or pass --allow-unelevated for development only)"@,
        error is InstallNotElevated ==> error.text(path)
            == "service installation requires Administrator/root"@,
{
}

/// A Master Password is taken if and only if it has at least twelve characters and its UTF-8
/// at most 2^32 - 1 bytes. Its verifier is the Argon2id hash of that UTF-8, nothing more and
/// nothing less, and the password matches it.
pub proof fn law_new_passwords_are_judged(password: Seq<char>, r: Result<String, SetupError>)
    requires
        verifier_outcome(password, r),
    ensures
        r is Ok <==> password.len() >= 12 && encode_utf8(password).len() <= 0xffff_ffff,
        r is Err && r->Err_0 is PasswordTooShort <==> password.len() < 12,
        r is Err && password.len() >= 12 ==> r->Err_0 is Hash && encode_utf8(password).len()
            > 0xffff_ffff,
        r matches Ok(hash) ==> {
            &&& exists|salt: Seq<char>|
                is_salt(salt) && hash@ == #[trigger] argon2id_phc(encode_utf8(password), salt)
            &&& phc_parses(hash@)
            &&& parallelism_is_bounded(hash@)
            &&& argon2_matches(hash@, encode_utf8(password))
        },
{
}

/// A secret is sealed if and only if the clock could be read and the code, without the white
/// space around it, is the one of the thirty seconds that it shows, of those before or of
/// those after. What is sealed opens under the same key to the same secret.
pub proof fn law_enrollment_needs_the_code(
    secret: Seq<u8>,
    code: Seq<char>,
    time: Option<u64>,
    key: Seq<u8>,
    r: Result<SealedSecret, SetupError>,
)
    requires
        confirm_outcome(secret, code, time, key, r),
    ensures
        r is Ok <==> {
            &&& time is Some
            &&& 30 <= time->0 <= 0xffff_ffff_ffff_ffff - 30
            &&& {
                ||| trimmed(code) == totp_sha1_code(6, secret, time->0 as int / 30 - 1)
                ||| trimmed(code) == totp_sha1_code(6, secret, time->0 as int / 30)
                ||| trimmed(code) == totp_sha1_code(6, secret, time->0 as int / 30 + 1)
            }
        },
        r is Err ==> r->Err_0 is WrongCode,
        r is Ok ==> unsealed(r->Ok_0.nonce@, r->Ok_0.ciphertext@, key) == Ok::<
            Seq<u8>,
            ConfigError,
        >(secret),
{
    if time is Some {
        law_codes_are_judged(secret, trimmed(code), time->0 as int);
    }
}

/// A service that was just set up listens on port 32119 of the machine itself, runs PowerShell
/// 7, passes on eight mebibytes of output and gives a command five minutes; its credentials
/// are those that were chosen.
pub proof fn law_setup_starts_from_the_defaults(
    config: Config,
    password_hash: Seq<char>,
    totp_secret: Option<SealedSecret>,
)
    requires
        is_initial_config(config, password_hash, totp_secret),
    ensures
        config.bind matches BindAddress::V4 { octets, port } && octets@[0] == 127 && octets@[1] == 0
            && octets@[2] == 0 && octets@[3] == 1 && port == 32119,
        config.shell@ == "pwsh"@,
        config.max_output_bytes == 8_388_608,
        config.max_command_seconds == 300,
        config.password_hash@ == password_hash,
        config.totp_secret == totp_secret,
{
}

/// A user is root if and only if `id -u` succeeded and printed a zero, with nothing but white
/// space around it.
pub proof fn law_root_is_user_zero(success: bool, output: Seq<u8>)
    ensures
        valid_utf8(output) ==> (says_root(success, output) <==> success && trimmed(
            decode_utf8(output),
        ) == "0"@),
        !valid_utf8(output) ==> (says_root(success, output) <==> success && trimmed(
            utf8_lossy(output),
        ) == "0"@),
{
}

} // verus!
