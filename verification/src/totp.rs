//! Time-based one-time passwords (RFC 6238), with the parameters that common
//! authenticator apps expect: SHA-1, six digits, a step of thirty seconds.
use totp_rs::{Algorithm, TOTP};
use vstd::prelude::*;
use vstd::string::*;

use crate::clock::seconds_since_epoch;
use crate::encoding::base32;
use crate::secret::SecretBytes;
use crate::text::is_digit;

verus! {

/// How many digits a code has.
pub const DIGITS: usize = 6;

/// By how many steps a code may be early or late.
pub const SKEW: u8 = 1;

/// How many seconds a code is current.
pub const STEP: u64 = 30;

/// The name of the service in an authenticator app.
pub const ISSUER: &'static str = "SudoServer";

/// The name of the account in an authenticator app.
pub const ACCOUNT_NAME: &'static str = "local-admin";

/// The code with the given number of digits for a counter, by HMAC-SHA-1 under a secret.
pub uninterp spec fn totp_sha1_code(digits: int, secret: Seq<u8>, counter: int) -> Seq<char>;

/// What the library says of parameters that it refuses.
pub uninterp spec fn totp_rejection_text(
    digits: int,
    secret: Seq<u8>,
    issuer: Seq<char>,
    account_name: Seq<char>,
) -> Seq<char>;

/// A character that stands for itself in a URL.
pub open spec fn is_unreserved(c: char) -> bool {
    'A' <= c <= 'Z' || 'a' <= c <= 'z' || '0' <= c <= '9' || c == '-' || c == '_' || c == '.' || c
        == '~'
}

/// `TOTP::new` of the `totp-rs` crate with SHA-1: it refuses a number of digits other than
/// six to eight, a secret under 16 bytes, and a colon in issuer or account name, with a
/// text that depends on those alone.
#[verifier::external_body]
fn totp_rejection(
    digits: usize,
    skew: u8,
    step: u64,
    secret: &[u8],
    issuer: &str,
    account_name: &str,
) -> (r: Option<String>)
    ensures
        r is None == (6 <= digits <= 8 && secret@.len() >= 16 && !issuer@.contains(':')
            && !account_name@.contains(':')),
        r matches Some(text) ==> text@ == totp_rejection_text(
            digits as int,
            secret@,
            issuer@,
            account_name@,
        ),
{
    let (issuer, account_name) = (Some(issuer.to_owned()), account_name.to_owned());
    TOTP::new(Algorithm::SHA1, digits, skew, step, secret.to_vec(), issuer, account_name)
        .err()
        .map(|error| error.to_string())
}

/// `TOTP::generate` of the `totp-rs` crate with SHA-1: the code for the step that the time
/// falls into, written with exactly the given number of decimal digits.
#[verifier::external_body]
fn totp_generate(digits: usize, step: u64, secret: &[u8], time: u64) -> (code: String)
    requires
        6 <= digits <= 8,
        step > 0,
    ensures
        code@ == totp_sha1_code(digits as int, secret@, (time / step) as int),
        code@.len() == digits,
        forall|i: int| 0 <= i < code@.len() ==> is_digit(#[trigger] code@[i]),
{
    TOTP::new_unchecked(Algorithm::SHA1, digits, 0, step, secret.to_vec(), None, String::new())
        .generate(time)
}

/// Whether `code` is the one for the step of `time`, or for one of the `skew` steps before
/// or after it.
pub open spec fn totp_accepts(
    digits: int,
    skew: int,
    step: int,
    secret: Seq<u8>,
    code: Seq<char>,
    time: int,
) -> bool {
    exists|counter: int|
        time / step - skew <= counter <= time / step + skew && code == #[trigger] totp_sha1_code(
            digits,
            secret,
            counter,
        )
}

/// `TOTP::check` of the `totp-rs` crate with SHA-1: whether a code is the generated one for
/// the current step or one within the skew. Times so early or so late that the window
/// leaves the range of the clock are left out.
#[verifier::external_body]
fn totp_check(digits: usize, skew: u8, step: u64, secret: &[u8], code: &str, time: u64) -> (r: bool)
    requires
        6 <= digits <= 8,
        step > 0,
        skew <= time / step,
        time + step * skew <= u64::MAX,
    ensures
        r == totp_accepts(digits as int, skew as int, step as int, secret@, code@, time as int),
{
    TOTP::new_unchecked(Algorithm::SHA1, digits, skew, step, secret.to_vec(), None, String::new())
        .check(code, time)
}

/// `TOTP::get_secret_base32` of the `totp-rs` crate: base32 without padding, whatever the
/// other parameters.
#[verifier::external_body]
fn totp_secret_base32(digits: usize, skew: u8, step: u64, secret: &[u8]) -> (text: String)
    ensures
        text@ == base32(secret@),
{
    TOTP::new_unchecked(Algorithm::SHA1, digits, skew, step, secret.to_vec(), None, String::new())
        .get_secret_base32()
}

/// `TOTP::get_url` of the `totp-rs` crate with SHA-1, six digits and a step of thirty
/// seconds, none of which the URL then mentions; issuer and account name need no escaping.
#[verifier::external_body]
fn totp_url(
    digits: usize,
    skew: u8,
    step: u64,
    secret: &[u8],
    issuer: &str,
    account_name: &str,
) -> (url: String)
    requires
        digits == 6,
        step == 30,
        forall|i: int| 0 <= i < issuer@.len() ==> is_unreserved(#[trigger] issuer@[i]),
        forall|i: int| 0 <= i < account_name@.len() ==> is_unreserved(#[trigger] account_name@[i]),
    ensures
        url@ == "otpauth://totp/"@ + issuer@ + ":"@ + account_name@ + "?secret="@ + base32(secret@)
            + "&issuer="@ + issuer@,
{
    let (issuer, account_name) = (Some(issuer.to_owned()), account_name.to_owned());
    TOTP::new_unchecked(Algorithm::SHA1, digits, skew, step, secret.to_vec(), issuer, account_name)
        .get_url()
}

/// A shared secret with the parameters of this service.
pub struct Totp {
    secret: SecretBytes,
}

/// Why a secret cannot be used.
#[derive(Debug)]
pub struct TotpError {
    pub message: String,
}

/// Whether the service accepts `code` at `time` under `secret`: it is the code of the
/// current thirty seconds or of those just before or after. In the first thirty seconds of
/// the epoch no code is accepted.
pub open spec fn code_is_current(secret: Seq<u8>, code: Seq<char>, time: int) -> bool {
    STEP <= time <= u64::MAX - STEP && totp_accepts(
        DIGITS as int,
        SKEW as int,
        STEP as int,
        secret,
        code,
        time,
    )
}

/// The code of the service for `time` under `secret`.
pub open spec fn code_at(secret: Seq<u8>, time: int) -> Seq<char> {
    totp_sha1_code(DIGITS as int, secret, time / (STEP as int))
}

impl View for Totp {
    type V = Seq<u8>;

    closed spec fn view(&self) -> Seq<u8> {
        self.secret@
    }
}

/// A one-time password generator for `secret`, which must have at least 128 bits.
pub fn create_totp(secret: &[u8]) -> (r: Result<Totp, TotpError>)
    ensures
        match r {
            Ok(totp) => secret@.len() >= 16 && totp@ == secret@,
            Err(error) => secret@.len() < 16 && error.message@ == totp_rejection_text(
                DIGITS as int,
                secret@,
                ISSUER@,
                ACCOUNT_NAME@,
            ),
        },
{
    proof {
        reveal_strlit("SudoServer");
        reveal_strlit("local-admin");
    }
    match totp_rejection(DIGITS, SKEW, STEP, secret, ISSUER, ACCOUNT_NAME) {
        Some(message) => Err(TotpError { message }),
        None => Ok(Totp { secret: SecretBytes::new(vstd::slice::slice_to_vec(secret)) }),
    }
}

impl Totp {
    /// The shared secret.
    pub(crate) fn secret(&self) -> (bytes: &[u8])
        ensures
            bytes@ == self@,
    {
        self.secret.as_slice()
    }

    /// The code for the given number of seconds since the Unix epoch.
    pub fn generate(&self, time: u64) -> (code: String)
        ensures
            code@ == code_at(self@, time as int),
            code@.len() == DIGITS,
            forall|i: int| 0 <= i < code@.len() ==> is_digit(#[trigger] code@[i]),
    {
        totp_generate(DIGITS, STEP, self.secret.as_slice(), time)
    }

    /// Whether `code` is accepted at the given number of seconds since the Unix epoch.
    pub fn check(&self, code: &str, time: u64) -> (r: bool)
        ensures
            r == code_is_current(self@, code@, time as int),
    {
        if time < STEP || time > u64::MAX - STEP {
            return false;
        }
        totp_check(DIGITS, SKEW, STEP, self.secret.as_slice(), code, time)
    }

    /// The code for the given reading of the clock, in seconds since the Unix epoch; nothing
    /// without a reading.
    pub fn generate_at(&self, time: Option<u64>) -> (r: Option<String>)
        ensures
            match time {
                Some(time) => r is Some && r->0@ == code_at(self@, time as int),
                None => r is None,
            },
    {
        match time {
            Some(time) => Some(self.generate(time)),
            None => None,
        }
    }

    /// Whether `code` is accepted at the given reading of the clock, in seconds since the
    /// Unix epoch; nothing without a reading.
    pub fn check_at(&self, code: &str, time: Option<u64>) -> (r: Option<bool>)
        ensures
            r == match time {
                Some(time) => Some(code_is_current(self@, code@, time as int)),
                None => None,
            },
    {
        match time {
            Some(time) => Some(self.check(code, time)),
            None => None,
        }
    }

    /// The code for the current time; nothing while the clock stands before the epoch.
    pub fn generate_current(&self) -> (r: Option<String>)
        ensures
            r matches Some(code) ==> exists|time: u64| code@ == #[trigger] code_at(self@, time as int),
    {
        self.generate_at(seconds_since_epoch())
    }

    /// Whether `code` is accepted now; nothing while the clock stands before the epoch.
    pub fn check_current(&self, code: &str) -> (r: Option<bool>)
        ensures
            r matches Some(accepted) ==> exists|time: u64|
                accepted == #[trigger] code_is_current(self@, code@, time as int),
    {
        self.check_at(code, seconds_since_epoch())
    }

    /// The `otpauth://` URL that an authenticator app reads.
    pub fn get_url(&self) -> (url: String)
        ensures
            url@ == "otpauth://totp/"@ + ISSUER@ + ":"@ + ACCOUNT_NAME@ + "?secret="@ + base32(self@)
                + "&issuer="@ + ISSUER@,
    {
        proof {
            reveal_strlit("SudoServer");
            reveal_strlit("local-admin");
        }
        totp_url(DIGITS, SKEW, STEP, self.secret.as_slice(), ISSUER, ACCOUNT_NAME)
    }

    /// The secret in base32, for typing into an authenticator app.
    pub fn get_secret_base32(&self) -> (text: String)
        ensures
            text@ == base32(self@),
    {
        totp_secret_base32(DIGITS, SKEW, STEP, self.secret.as_slice())
    }
}

/// A code is accepted when it is generated, and up to one step earlier or later.
pub proof fn law_generated_code_is_accepted(secret: Seq<u8>, generated: int, checked: int)
    requires
        0 <= generated,
        STEP <= checked <= u64::MAX - STEP,
        -STEP <= checked - generated <= STEP,
    ensures
        code_is_current(secret, code_at(secret, generated), checked),
{
    let counter = generated / (STEP as int);
    assert(checked / 30 - 1 <= counter <= checked / 30 + 1);
    assert(code_at(secret, generated) == totp_sha1_code(DIGITS as int, secret, counter));
}

/// A code is accepted if and only if it is the six-digit code of the thirty seconds that the
/// time falls into, of the thirty seconds before or of those after. Where there are no thirty
/// seconds before or after, none is.
pub proof fn law_codes_are_judged(secret: Seq<u8>, code: Seq<char>, time: int)
    ensures
        30 <= time <= 0xffff_ffff_ffff_ffff - 30 ==> (code_is_current(secret, code, time) <==> code
            == totp_sha1_code(6, secret, time / 30 - 1) || code == totp_sha1_code(
            6,
            secret,
            time / 30,
        ) || code == totp_sha1_code(6, secret, time / 30 + 1)),
        time < 30 || time > 0xffff_ffff_ffff_ffff - 30 ==> !code_is_current(secret, code, time),
        code_at(secret, time) == totp_sha1_code(6, secret, time / 30),
{
    if 30 <= time <= 0xffff_ffff_ffff_ffff - 30 && code_is_current(secret, code, time) {
        let counter = choose|counter: int|
            time / 30 - 1 <= counter <= time / 30 + 1 && code == #[trigger] totp_sha1_code(
                6,
                secret,
                counter,
            );
        assert(counter == time / 30 - 1 || counter == time / 30 || counter == time / 30 + 1);
    }
}

} // verus!
