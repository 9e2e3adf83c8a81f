//! Who may do what: the Master Password and one-time codes on one side, signed tokens on
//! the other.
use vstd::prelude::*;
use vstd::string::*;
use vstd::utf8::*;

use crate::clock::{seconds_since_epoch, unix_timestamp, Instant};
use crate::crypto::{
    argon2_hash, argon2_matches, argon2_verify, argon2id_phc, ed25519_public_key,
    generate_signing_seed, has_bounded_parallelism, is_salt, is_uuid_v4, parallelism_is_bounded, phc_is_valid, phc_parses, random_bytes, random_salt,
    random_uuid, sha256, sha256_digest, signing_public_key,
};
use crate::encoding::{base64url, encode_url};
use crate::jwt::{
    decode_jwt, encode_jwt, jwt_claims, jwt_text, lemma_lengthened_token, signature_len,
};
use crate::secret::SecretBytes;
use crate::string_map::StringMap;
use crate::text::{digits_value, same, texts, trimmed};
use crate::totp::{
    code_at, code_is_current, law_codes_are_judged, law_generated_code_is_accepted, totp_sha1_code,
};
pub use crate::totp::create_totp;

verus! {

/// How long a token lasts unless something else is asked for: 24 hours.
pub const DEFAULT_TOKEN_TTL_SECONDS: u64 = 86_400;

/// How many failed attempts within a minute lock authentication.
pub const MAX_FAILED_ATTEMPTS: usize = 5;

/// How long a failed attempt counts, in nanoseconds: one minute.
pub const ATTEMPT_WINDOW_NANOS: i128 = 60_000_000_000;

/// Why a credential or a token was refused.
#[derive(Clone, Copy, Debug, PartialEq, Eq, Structural)]
pub enum AuthError {
    InvalidCredential,
    RateLimited,
    InvalidToken,
    Expired,
    Revoked,
    Internal,
}

impl AuthError {
    /// What the error says to a user.
    pub open spec fn text(self) -> Seq<char> {
        match self {
            AuthError::InvalidCredential => "invalid credential"@,
            AuthError::RateLimited => "too many authentication attempts; retry later"@,
            AuthError::InvalidToken => "invalid token"@,
            AuthError::Expired => "token expired"@,
            AuthError::Revoked => "token has been revoked"@,
            AuthError::Internal => "authentication subsystem error"@,
        }
    }

    /// What the error says to a user.
    pub fn to_string(&self) -> (text: String)
        ensures
            text@ == self.text(),
    {
        match self {
            AuthError::InvalidCredential => "invalid credential".to_owned(),
            AuthError::RateLimited => "too many authentication attempts; retry later".to_owned(),
            AuthError::InvalidToken => "invalid token".to_owned(),
            AuthError::Expired => "token expired".to_owned(),
            AuthError::Revoked => "token has been revoked".to_owned(),
            AuthError::Internal => "authentication subsystem error".to_owned(),
        }
    }
}

/// What a user proves their identity with.
#[derive(Debug)]
pub struct Credential {
    pub kind: CredentialKind,
    pub value: String,
}

/// The two kinds of credential: the Master Password and a one-time code.
#[derive(Clone, Copy, Debug, PartialEq, Eq, Structural)]
pub enum CredentialKind {
    Password,
    Totp,
}

/// What a token states.
#[derive(Debug)]
pub struct TokenClaims {
    pub iss: String,
    pub aud: String,
    pub sub: String,
    pub jti: String,
    pub iat: i64,
    pub exp: Option<i64>,
}

/// What [`TokenClaims`] stand for.
pub struct ClaimsView {
    pub iss: Seq<char>,
    pub aud: Seq<char>,
    pub sub: Seq<char>,
    pub jti: Seq<char>,
    pub iat: int,
    pub exp: Option<int>,
}

/// An optional number of seconds, as a mathematical integer.
pub open spec fn opt_int(n: Option<i64>) -> Option<int> {
    match n {
        Some(n) => Some(n as int),
        None => None,
    }
}

impl View for TokenClaims {
    type V = ClaimsView;

    open spec fn view(&self) -> ClaimsView {
        ClaimsView {
            iss: self.iss@,
            aud: self.aud@,
            sub: self.sub@,
            jti: self.jti@,
            iat: self.iat as int,
            exp: opt_int(self.exp),
        }
    }
}

impl Clone for TokenClaims {
    fn clone(&self) -> (r: TokenClaims)
        ensures
            r == *self,
    {
        TokenClaims {
            iss: self.iss.clone(),
            aud: self.aud.clone(),
            sub: self.sub.clone(),
            jti: self.jti.clone(),
            iat: self.iat,
            exp: self.exp,
        }
    }
}

/// What is remembered of a token that was issued.
#[derive(Debug)]
pub struct TokenRecord {
    pub jti: String,
    pub issued_at: i64,
    pub expires_at: Option<i64>,
    pub revoked: bool,
}

/// What a [`TokenRecord`] stands for.
pub struct RecordView {
    pub jti: Seq<char>,
    pub issued_at: int,
    pub expires_at: Option<int>,
    pub revoked: bool,
}

impl View for TokenRecord {
    type V = RecordView;

    open spec fn view(&self) -> RecordView {
        RecordView {
            jti: self.jti@,
            issued_at: self.issued_at as int,
            expires_at: opt_int(self.expires_at),
            revoked: self.revoked,
        }
    }
}

impl Clone for TokenRecord {
    fn clone(&self) -> (r: TokenRecord)
        ensures
            r == *self,
    {
        TokenRecord {
            jti: self.jti.clone(),
            issued_at: self.issued_at,
            expires_at: self.expires_at,
            revoked: self.revoked,
        }
    }
}

/// The state of an [`AuthManager`].
pub struct AuthState {
    /// The Argon2 hash of the Master Password.
    pub password_hash: Seq<char>,
    /// The secret shared with an authenticator app.
    pub totp_secret: Option<Seq<u8>>,
    /// The secret half of the signing key.
    pub seed: Seq<u8>,
    /// The name of this run of the service.
    pub instance_id: Seq<char>,
    /// Every token issued by this run, by its `jti`.
    pub tokens: Map<Seq<char>, RecordView>,
    /// When the recent failed attempts to authenticate ended.
    pub attempts: Seq<int>,
}

/// Checks credentials, and issues, verifies and revokes tokens, for one run of the service.
pub struct AuthManager {
    password_hash: String,
    totp_secret: Option<SecretBytes>,
    signing_seed: SecretBytes,
    instance_id: String,
    tokens: StringMap<TokenRecord>,
    failed_attempts: Vec<Instant>,
}

/// The points in time that a list of instants holds.
pub open spec fn instant_nanos(instants: Seq<Instant>) -> Seq<int> {
    Seq::new(instants.len(), |i: int| instants[i].nanos as int)
}

impl View for AuthManager {
    type V = AuthState;

    closed spec fn view(&self) -> AuthState {
        AuthState {
            password_hash: self.password_hash@,
            totp_secret: match self.totp_secret {
                Some(secret) => Some(secret@),
                None => None,
            },
            seed: self.signing_seed@,
            instance_id: self.instance_id@,
            tokens: self.tokens@.map_values(|record: TokenRecord| record@),
            attempts: instant_nanos(self.failed_attempts@),
        }
    }
}

/// Whether a failed attempt at `at` still counts at `now`: it lies less than a minute back,
/// and not in the future.
pub open spec fn still_counts(at: int, now: int) -> bool {
    0 <= now - at < ATTEMPT_WINDOW_NANOS
}

/// The attempts that still count at `now`.
pub open spec fn recent(attempts: Seq<int>, now: int) -> Seq<int>
    decreases attempts.len(),
{
    if attempts.len() == 0 {
        attempts
    } else {
        let earlier = recent(attempts.drop_last(), now);
        if still_counts(attempts.last(), now) {
            earlier.push(attempts.last())
        } else {
            earlier
        }
    }
}

/// Whether a password is the one of a verifier that parses. No password is right under a
/// verifier with a degree of parallelism that Argon2 does not have.
pub open spec fn password_is_right(hash: Seq<char>, password: Seq<char>) -> bool {
    parallelism_is_bounded(hash) && argon2_matches(hash, encode_utf8(password))
}

/// Whether a credential is right, checked against `state`; a one-time code is checked at
/// `code_time`, in seconds since the epoch.
pub open spec fn credential_verdict(
    state: AuthState,
    kind: CredentialKind,
    value: Seq<char>,
    code_time: Option<u64>,
) -> Result<bool, AuthError> {
    match kind {
        CredentialKind::Password => if phc_parses(state.password_hash) {
            Ok(password_is_right(state.password_hash, value))
        } else {
            Err(AuthError::Internal)
        },
        CredentialKind::Totp => Ok(
            state.totp_secret is Some && state.totp_secret->0.len() >= 16 && code_time is Some
                && code_is_current(state.totp_secret->0, trimmed(value), code_time->0 as int),
        ),
    }
}

/// What one attempt to authenticate leads to: the state after it, and its result. The
/// attempt begins at `started`; if it fails, it counts from `finished` on.
pub open spec fn credential_outcome(
    state: AuthState,
    kind: CredentialKind,
    value: Seq<char>,
    started: int,
    code_time: Option<u64>,
    finished: int,
) -> (AuthState, Result<(), AuthError>) {
    let counted = recent(state.attempts, started);
    let pruned = AuthState { attempts: counted, ..state };
    if counted.len() >= MAX_FAILED_ATTEMPTS {
        (pruned, Err(AuthError::RateLimited))
    } else {
        match credential_verdict(state, kind, value, code_time) {
            Err(error) => (pruned, Err(error)),
            Ok(true) => (AuthState { attempts: Seq::empty(), ..state }, Ok(())),
            Ok(false) => (
                AuthState { attempts: counted.push(finished), ..state },
                Err(AuthError::InvalidCredential),
            ),
        }
    }
}

/// When a token issued at `now` expires: never without a lifetime, else after it; nothing
/// where that moment is past the range of the clock.
pub open spec fn token_expiry(ttl_seconds: Option<u64>, now: int) -> Option<Option<int>> {
    match ttl_seconds {
        None => Some(None),
        Some(ttl) => if ttl <= i64::MAX && now + ttl <= i64::MAX {
            Some(Some(now + ttl))
        } else {
            None
        },
    }
}

/// The claims of a token issued by this run at `now`.
pub open spec fn issued_claims(
    state: AuthState,
    jti: Seq<char>,
    now: int,
    expires_at: Option<int>,
) -> ClaimsView {
    ClaimsView {
        iss: state.instance_id,
        aud: "sudoserver"@,
        sub: "privileged-powershell"@,
        jti,
        iat: now,
        exp: expires_at,
    }
}

/// The state after a token was issued.
pub open spec fn with_token(state: AuthState, record: RecordView) -> AuthState {
    AuthState { tokens: state.tokens.insert(record.jti, record), ..state }
}

/// What issuing a token at `now` under the name `jti` leads to.
pub open spec fn issue_outcome(
    before: AuthState,
    ttl_seconds: Option<u64>,
    now: int,
    jti: Seq<char>,
    after: AuthState,
    r: Result<(String, TokenRecord), AuthError>,
) -> bool {
    match token_expiry(ttl_seconds, now) {
        None => r is Err && r->Err_0 == AuthError::Internal && after == before,
        Some(expires_at) => {
            let claims = issued_claims(before, jti, now, expires_at);
            let record = RecordView { jti, issued_at: now, expires_at, revoked: false };
            &&& r is Ok
            &&& r->Ok_0.0@ == jwt_text(claims, before.seed)
            &&& r->Ok_0.1@ == record
            &&& after == with_token(before, record)
            &&& jwt_claims(r->Ok_0.0@, ed25519_public_key(after.seed)) == Some(claims)
            &&& signature_len(r->Ok_0.0@) == Some(64nat)
        },
    }
}

/// Whether the token called `jti` is still good at `now`: not expired, issued by this run
/// and not revoked. Of several faults the first in that order is reported.
pub open spec fn standing(
    state: AuthState,
    jti: Seq<char>,
    expires_at: Option<int>,
    now: int,
) -> Result<(), AuthError> {
    if expires_at matches Some(expiry) && now >= expiry {
        Err(AuthError::Expired)
    } else if !state.tokens.dom().contains(jti) {
        Err(AuthError::InvalidToken)
    } else if state.tokens[jti].revoked {
        Err(AuthError::Revoked)
    } else {
        Ok(())
    }
}

/// Whether a token is good at `now`: signed by this run, for this service, not expired,
/// issued and not revoked. Of several faults the first in that order is reported.
pub open spec fn token_verdict(state: AuthState, token: Seq<char>, now: int) -> Result<
    ClaimsView,
    AuthError,
> {
    match jwt_claims(token, ed25519_public_key(state.seed)) {
        None => Err(AuthError::InvalidToken),
        Some(claims) => if claims.iss != state.instance_id || claims.aud != "sudoserver"@
            || claims.sub != "privileged-powershell"@ {
            Err(AuthError::InvalidToken)
        } else {
            match standing(state, claims.jti, claims.exp, now) {
                Ok(()) => Ok(claims),
                Err(error) => Err(error),
            }
        },
    }
}

/// Whose token this is, whether or not it expired or was revoked.
pub open spec fn identity_verdict(state: AuthState, token: Seq<char>) -> Option<ClaimsView> {
    match jwt_claims(token, ed25519_public_key(state.seed)) {
        Some(claims) => if claims.iss == state.instance_id && state.tokens.dom().contains(
            claims.jti,
        ) {
            Some(claims)
        } else {
            None
        },
        None => None,
    }
}

/// The claims inside a result.
pub open spec fn claims_result(r: Result<TokenClaims, AuthError>) -> Result<ClaimsView, AuthError> {
    match r {
        Ok(claims) => Ok(claims@),
        Err(error) => Err(error),
    }
}

/// The state after the token `jti` was revoked.
pub open spec fn with_revoked(state: AuthState, jti: Seq<char>) -> AuthState {
    AuthState {
        tokens: state.tokens.insert(
            jti,
            RecordView { revoked: true, ..state.tokens[jti] },
        ),
        ..state
    }
}

/// What revoking the token `jti` leads to.
pub open spec fn revoke_outcome(
    before: AuthState,
    jti: Seq<char>,
    after: AuthState,
    r: Result<(), AuthError>,
) -> bool {
    if before.tokens.dom().contains(jti) {
        r == Ok::<(), AuthError>(()) && after == with_revoked(before, jti)
    } else {
        r == Err::<(), AuthError>(AuthError::InvalidToken) && after == before
    }
}

impl AuthManager {
    #[verifier::type_invariant]
    spec fn well_formed(self) -> bool {
        &&& self.signing_seed@.len() == 32
        &&& self.failed_attempts@.len() <= MAX_FAILED_ATTEMPTS
        &&& forall|jti: Seq<char>| #[trigger]
            self.tokens@.dom().contains(jti) ==> self.tokens@[jti].jti@ == jti
    }

    /// A new run of the service: a fresh signing key, a fresh name, no tokens, no attempts.
    pub fn new(password_hash: String, totp_secret: Option<SecretBytes>) -> (manager: AuthManager)
        ensures
            manager@.password_hash == password_hash@,
            manager@.totp_secret == (match totp_secret {
                Some(secret) => Some(secret@),
                None => None,
            }),
            manager@.seed.len() == 32,
            is_uuid_v4(manager@.instance_id),
            manager@.tokens == Map::<Seq<char>, RecordView>::empty(),
            manager@.attempts == Seq::<int>::empty(),
    {
        let manager = AuthManager {
            password_hash,
            totp_secret,
            signing_seed: SecretBytes::new(generate_signing_seed()),
            instance_id: random_uuid(),
            tokens: StringMap::new(),
            failed_attempts: Vec::new(),
        };
        assert(manager@.tokens =~= Map::<Seq<char>, RecordView>::empty());
        assert(manager@.attempts =~= Seq::<int>::empty());
        manager
    }

    /// The public half of the signing key, in URL-safe base64.
    pub fn public_key_base64(&self) -> (text: String)
        ensures
            text@ == base64url(ed25519_public_key(self@.seed)),
    {
        proof {
            use_type_invariant(self);
        }
        encode_url(&signing_public_key(self.signing_seed.as_slice()))
    }

    /// Forgets the failed attempts that no longer count at `now`.
    fn prune_attempts(&mut self, now: Instant)
        ensures
            final(self)@ == (AuthState {
                attempts: recent(old(self)@.attempts, now.nanos as int),
                ..old(self)@
            }),
    {
        proof {
            use_type_invariant(&*self);
        }
        let ghost all = instant_nanos(self.failed_attempts@);
        let mut kept: Vec<Instant> = Vec::new();
        let mut i: usize = 0;
        assert(all.take(0) =~= Seq::<int>::empty());
        assert(instant_nanos(kept@) =~= recent(all.take(0), now.nanos as int));
        while i < self.failed_attempts.len()
            invariant
                i <= self.failed_attempts@.len(),
                kept@.len() <= i,
                all == instant_nanos(self.failed_attempts@),
                instant_nanos(kept@) == recent(all.take(i as int), now.nanos as int),
            decreases self.failed_attempts@.len() - i,
        {
            let at = self.failed_attempts[i];
            let ghost before = instant_nanos(kept@);
            assert(all.take(i + 1).drop_last() =~= all.take(i as int));
            assert(all.take(i + 1).last() == at.nanos);
            let counts = match now.nanos.checked_sub(at.nanos) {
                Some(elapsed) => 0 <= elapsed && elapsed < ATTEMPT_WINDOW_NANOS,
                None => false,
            };
            if counts {
                kept.push(at);
                assert(instant_nanos(kept@) =~= before.push(at.nanos as int));
            }
            i += 1;
        }
        assert(all.take(all.len() as int) =~= all);
        self.failed_attempts = kept;
    }

    /// Begins an attempt to authenticate: refused while too many failed ones still count.
    fn admit_attempt(&mut self, now: Instant) -> (r: Result<(), AuthError>)
        ensures
            final(self)@ == (AuthState {
                attempts: recent(old(self)@.attempts, now.nanos as int),
                ..old(self)@
            }),
            r == (if final(self)@.attempts.len() >= MAX_FAILED_ATTEMPTS {
                Err::<(), AuthError>(AuthError::RateLimited)
            } else {
                Ok(())
            }),
    {
        self.prune_attempts(now);
        if self.failed_attempts.len() >= MAX_FAILED_ATTEMPTS {
            Err(AuthError::RateLimited)
        } else {
            Ok(())
        }
    }

    /// Whether `credential` is right; a one-time code is checked at `code_time`.
    pub fn credential_is_valid(&self, credential: &Credential, code_time: Option<u64>) -> (r: Result<
        bool,
        AuthError,
    >)
        ensures
            r == credential_verdict(self@, credential.kind, credential.value@, code_time),
    {
        match credential.kind {
            CredentialKind::Password => {
                if !phc_is_valid(self.password_hash.as_str()) {
                    return Err(AuthError::Internal);
                }
                if !has_bounded_parallelism(self.password_hash.as_str()) {
                    return Ok(false);
                }
                Ok(argon2_verify(self.password_hash.as_str(), credential.value.as_str().as_bytes()))
            },
            CredentialKind::Totp => {
                let secret = match &self.totp_secret {
                    Some(secret) => secret,
                    None => return Ok(false),
                };
                match (create_totp(secret.as_slice()), code_time) {
                    (Ok(totp), Some(time)) => Ok(totp.check(credential.value.as_str().trim(), time)),
                    _ => Ok(false),
                }
            },
        }
    }

    /// Ends an attempt to authenticate: success clears the failed attempts, failure counts.
    fn settle_attempt(&mut self, valid: bool, now: Instant) -> (r: Result<(), AuthError>)
        requires
            old(self)@.attempts.len() < MAX_FAILED_ATTEMPTS,
        ensures
            final(self)@ == (AuthState {
                attempts: if valid {
                    Seq::empty()
                } else {
                    old(self)@.attempts.push(now.nanos as int)
                },
                ..old(self)@
            }),
            r == (if valid {
                Ok(())
            } else {
                Err::<(), AuthError>(AuthError::InvalidCredential)
            }),
    {
        proof {
            use_type_invariant(&*self);
        }
        let mut attempts: Vec<Instant> = Vec::new();
        std::mem::swap(&mut attempts, &mut self.failed_attempts);
        let ghost before = instant_nanos(attempts@);
        if valid {
            attempts.clear();
            assert(instant_nanos(attempts@) =~= Seq::<int>::empty());
        } else {
            attempts.push(now);
            assert(instant_nanos(attempts@) =~= before.push(now.nanos as int));
        }
        self.failed_attempts = attempts;
        if valid {
            Ok(())
        } else {
            Err(AuthError::InvalidCredential)
        }
    }

    /// Checks `credential` in an attempt with the given times: see [`credential_outcome`].
    pub fn verify_credential_at(
        &mut self,
        credential: &Credential,
        started: Instant,
        code_time: Option<u64>,
        finished: Instant,
    ) -> (r: Result<(), AuthError>)
        ensures
            (final(self)@, r) == credential_outcome(
                old(self)@,
                credential.kind,
                credential.value@,
                started.nanos as int,
                code_time,
                finished.nanos as int,
            ),
    {
        match self.admit_attempt(started) {
            Ok(()) => {},
            Err(error) => return Err(error),
        }
        let valid = match self.credential_is_valid(credential, code_time) {
            Ok(valid) => valid,
            Err(error) => return Err(error),
        };
        self.settle_attempt(valid, finished)
    }

    /// Checks `credential` now. After five failures within a minute every credential is
    /// refused; a success clears the failures.
    pub fn verify_credential(&mut self, credential: &Credential) -> (r: Result<(), AuthError>)
        ensures
            exists|started: int, code_time: Option<u64>, finished: int|
                (final(self)@, r) == #[trigger] credential_outcome(
                    old(self)@,
                    credential.kind,
                    credential.value@,
                    started,
                    code_time,
                    finished,
                ),
    {
        let started = Instant::now();
        let ghost never: (Option<u64>, int) = (None, 0);
        match self.admit_attempt(started) {
            Ok(()) => {},
            Err(error) => {
                assert((self@, Err::<(), AuthError>(error)) == credential_outcome(
                    old(self)@,
                    credential.kind,
                    credential.value@,
                    started.nanos as int,
                    never.0,
                    never.1,
                ));
                return Err(error);
            },
        }
        let code_time = seconds_since_epoch();
        let valid = match self.credential_is_valid(credential, code_time) {
            Ok(valid) => valid,
            Err(error) => {
                assert((self@, Err::<(), AuthError>(error)) == credential_outcome(
                    old(self)@,
                    credential.kind,
                    credential.value@,
                    started.nanos as int,
                    code_time,
                    never.1,
                ));
                return Err(error);
            },
        };
        let finished = Instant::now();
        let r = self.settle_attempt(valid, finished);
        assert((self@, r) == credential_outcome(
            old(self)@,
            credential.kind,
            credential.value@,
            started.nanos as int,
            code_time,
            finished.nanos as int,
        ));
        r
    }

    /// Issues a token at `now` under the name `jti`. It fails only where the moment of
    /// expiry is past the range of the clock.
    pub fn issue_token_at(&mut self, ttl_seconds: Option<u64>, now: i64, jti: String) -> (r: Result<
        (String, TokenRecord),
        AuthError,
    >)
        ensures
            issue_outcome(old(self)@, ttl_seconds, now as int, jti@, final(self)@, r),
    {
        proof {
            use_type_invariant(&*self);
        }
        let expires_at = match ttl_seconds {
            None => None,
            Some(ttl) => {
                if ttl > 0x7fff_ffff_ffff_ffff {
                    return Err(AuthError::Internal);
                }
                match now.checked_add(ttl as i64) {
                    Some(at) => Some(at),
                    None => return Err(AuthError::Internal),
                }
            },
        };
        let claims = TokenClaims {
            iss: self.instance_id.clone(),
            aud: "sudoserver".to_owned(),
            sub: "privileged-powershell".to_owned(),
            jti: jti.clone(),
            iat: now,
            exp: expires_at,
        };
        let token = match encode_jwt(&claims, self.signing_seed.as_slice()) {
            Ok(token) => token,
            Err(error) => return Err(error),
        };
        let record = TokenRecord { jti, issued_at: now, expires_at, revoked: false };
        let ghost before = self.tokens@;
        let mut tokens: StringMap<TokenRecord> = StringMap::new();
        std::mem::swap(&mut tokens, &mut self.tokens);
        tokens.insert(record.jti.clone(), record.clone());
        self.tokens = tokens;
        assert(self@.tokens =~= old(self)@.tokens.insert(jti@, record@));
        Ok((token, record))
    }

    /// Issues a token now, under a fresh random name.
    pub fn issue_token(&mut self, ttl_seconds: Option<u64>) -> (r: Result<
        (String, TokenRecord),
        AuthError,
    >)
        ensures
            exists|now: int, jti: Seq<char>|
                is_uuid_v4(jti) && i64::MIN <= now <= i64::MAX && #[trigger] issue_outcome(
                    old(self)@,
                    ttl_seconds,
                    now,
                    jti,
                    final(self)@,
                    r,
                ),
    {
        let now = unix_timestamp();
        let jti = random_uuid();
        let r = self.issue_token_at(ttl_seconds, now, jti);
        assert(issue_outcome(old(self)@, ttl_seconds, now as int, jti@, self@, r));
        r
    }

    /// Whether the token called `jti`, which expires at `expires_at`, is still good at `now`.
    pub fn standing_at(&self, jti: &str, expires_at: Option<i64>, now: i64) -> (r: Result<
        (),
        AuthError,
    >)
        ensures
            r == standing(self@, jti@, opt_int(expires_at), now as int),
    {
        if let Some(expiry) = expires_at {
            if now >= expiry {
                return Err(AuthError::Expired);
            }
        }
        match self.tokens.get(jti) {
            None => Err(AuthError::InvalidToken),
            Some(record) => if record.revoked {
                Err(AuthError::Revoked)
            } else {
                Ok(())
            },
        }
    }

    /// The claims of `token`, if it is good at `now`.
    pub fn verify_token_at(&self, token: &str, now: i64) -> (r: Result<TokenClaims, AuthError>)
        ensures
            claims_result(r) == token_verdict(self@, token@, now as int),
    {
        proof {
            use_type_invariant(self);
        }
        let public_key = signing_public_key(self.signing_seed.as_slice());
        let claims = match decode_jwt(token, &public_key) {
            Ok(claims) => claims,
            Err(error) => return Err(error),
        };
        if !same(claims.iss.as_str(), self.instance_id.as_str()) || !same(
            claims.aud.as_str(),
            "sudoserver",
        ) || !same(claims.sub.as_str(), "privileged-powershell") {
            return Err(AuthError::InvalidToken);
        }
        match self.standing_at(claims.jti.as_str(), claims.exp, now) {
            Ok(()) => Ok(claims),
            Err(error) => Err(error),
        }
    }

    /// The claims of `token`, if it is good now.
    pub fn verify_token(&self, token: &str) -> (r: Result<TokenClaims, AuthError>)
        ensures
            exists|now: int|
                i64::MIN <= now <= i64::MAX && claims_result(r) == #[trigger] token_verdict(
                    self@,
                    token@,
                    now,
                ),
    {
        let now = unix_timestamp();
        self.verify_token_at(token, now)
    }

    /// The claims of `token`, if this run issued it, whether or not it expired or was revoked.
    pub fn token_identity(&self, token: &str) -> (r: Result<TokenClaims, AuthError>)
        ensures
            match r {
                Ok(claims) => identity_verdict(self@, token@) == Some(claims@),
                Err(error) => identity_verdict(self@, token@) is None && error
                    == AuthError::InvalidToken,
            },
    {
        proof {
            use_type_invariant(self);
        }
        let public_key = signing_public_key(self.signing_seed.as_slice());
        let claims = match decode_jwt(token, &public_key) {
            Ok(claims) => claims,
            Err(error) => return Err(error),
        };
        if !same(claims.iss.as_str(), self.instance_id.as_str()) || !self.tokens.contains_key(
            claims.jti.as_str(),
        ) {
            return Err(AuthError::InvalidToken);
        }
        Ok(claims)
    }

    /// Revokes the token called `jti`, if this run issued one.
    pub fn revoke(&mut self, jti: &str) -> (r: Result<(), AuthError>)
        ensures
            revoke_outcome(old(self)@, jti@, final(self)@, r),
    {
        proof {
            use_type_invariant(&*self);
        }
        let record = match self.tokens.get(jti) {
            Some(record) => TokenRecord {
                jti: record.jti.clone(),
                issued_at: record.issued_at,
                expires_at: record.expires_at,
                revoked: true,
            },
            None => return Err(AuthError::InvalidToken),
        };
        let mut tokens: StringMap<TokenRecord> = StringMap::new();
        std::mem::swap(&mut tokens, &mut self.tokens);
        tokens.insert(jti.to_owned(), record);
        self.tokens = tokens;
        assert(self@.tokens =~= with_revoked(old(self)@, jti@).tokens);
        Ok(())
    }

    /// Every token issued by this run, the latest first.
    pub fn list(&self) -> (records: Vec<TokenRecord>)
        ensures
            is_listing(self@.tokens, record_views(records@)),
    {
        proof {
            use_type_invariant(self);
        }
        let keys = self.tokens.keys();
        let ghost names = texts(keys@);
        let ghost tokens = self.tokens@;
        let mut records: Vec<TokenRecord> = Vec::new();
        let mut i: usize = 0;
        proof {
            reveal(lists_first);
        }
        while i < keys.len()
            invariant
                i <= keys@.len(),
                names == texts(keys@),
                tokens == self.tokens@,
                names.no_duplicates(),
                forall|key: Seq<char>| names.contains(key) <==> tokens.dom().contains(key),
                forall|jti: Seq<char>| #[trigger]
                    tokens.dom().contains(jti) ==> tokens[jti].jti@ == jti,
                lists_first(tokens, names, i as int, records@),
            decreases keys@.len() - i,
        {
            assert(names[i as int] == keys@[i as int]@);
            assert(names.contains(keys@[i as int]@));
            if let Some(found) = self.tokens.get(keys[i].as_str()) {
                let record = found.clone();
                let ghost before = records@;
                proof {
                    lemma_listed_is_sorted(tokens, names, i as int, before);
                }
                let at = insertion_point(&records, record.issued_at);
                records.insert(at, record);
                proof {
                    assert(records@ =~= before.insert(at as int, record));
                    lemma_insert_record(tokens, names, i as int, before, at as int, record);
                }
            } else {
                assert(false);
            }
            i += 1;
        }
        proof {
            lemma_full_listing(self@.tokens, tokens, names, records@);
        }
        records
    }
}

/// What a list of records stands for.
pub open spec fn record_views(records: Seq<TokenRecord>) -> Seq<RecordView> {
    Seq::new(records.len(), |i: int| records[i]@)
}

/// Whether `records` are the records in `tokens`, each once, the latest issued first.
pub open spec fn is_listing(tokens: Map<Seq<char>, RecordView>, records: Seq<RecordView>) -> bool {
    &&& records.len() == tokens.dom().len()
    &&& forall|a: int, b: int|
        0 <= a < b < records.len() ==> (#[trigger] records[a]).issued_at >= (
        #[trigger] records[b]).issued_at
    &&& forall|a: int|
        0 <= a < records.len() ==> tokens.dom().contains((#[trigger] records[a]).jti)
            && tokens[records[a].jti] == records[a]
    &&& forall|a: int, b: int|
        0 <= a < b < records.len() ==> (#[trigger] records[a]).jti != (#[trigger] records[b]).jti
    &&& forall|jti: Seq<char>| #[trigger]
        tokens.dom().contains(jti) ==> exists|a: int|
            0 <= a < records.len() && (#[trigger] records[a]).jti == jti
}

/// Where a record issued at `issued_at` belongs among records sorted by descending time.
fn insertion_point(records: &Vec<TokenRecord>, issued_at: i64) -> (at: usize)
    requires
        forall|a: int, b: int|
            0 <= a < b < records@.len() ==> (#[trigger] records@[a]).issued_at >= (
            #[trigger] records@[b]).issued_at,
    ensures
        at <= records@.len(),
        forall|a: int| 0 <= a < at ==> (#[trigger] records@[a]).issued_at >= issued_at,
        forall|a: int| at <= a < records@.len() ==> (#[trigger] records@[a]).issued_at < issued_at,
{
    let mut at: usize = 0;
    while at < records.len() && records[at].issued_at >= issued_at
        invariant
            at <= records@.len(),
            forall|a: int| 0 <= a < at ==> (#[trigger] records@[a]).issued_at >= issued_at,
        decreases records@.len() - at,
    {
        at += 1;
    }
    assert forall|a: int| at <= a < records@.len() implies (#[trigger] records@[a]).issued_at
        < issued_at by {
        assert(records@[at as int].issued_at < issued_at);
        if a > at {
            assert(records@[at as int].issued_at >= records@[a].issued_at);
        }
    }
    at
}

/// Whether `records` are the records of the first `n` names, each once, the latest first.
#[verifier::opaque]
spec fn lists_first(
    tokens: Map<Seq<char>, TokenRecord>,
    names: Seq<Seq<char>>,
    n: int,
    records: Seq<TokenRecord>,
) -> bool {
    &&& records.len() == n
    &&& forall|a: int, b: int|
        0 <= a < b < records.len() ==> (#[trigger] records[a]).issued_at >= (
        #[trigger] records[b]).issued_at
    &&& forall|a: int|
        0 <= a < records.len() ==> tokens.dom().contains((#[trigger] records[a]).jti@)
            && tokens[records[a].jti@] == records[a]
    &&& forall|a: int, b: int|
        0 <= a < b < records.len() ==> (#[trigger] records[a]).jti@ != (#[trigger] records[b]).jti@
    &&& forall|a: int|
        0 <= a < records.len() ==> exists|j: int|
            0 <= j < n && #[trigger] names[j] == (#[trigger] records[a]).jti@
    &&& forall|j: int|
        0 <= j < n ==> exists|a: int|
            0 <= a < records.len() && (#[trigger] records[a]).jti@ == #[trigger] names[j]
}

proof fn lemma_listed_is_sorted(
    tokens: Map<Seq<char>, TokenRecord>,
    names: Seq<Seq<char>>,
    n: int,
    records: Seq<TokenRecord>,
)
    requires
        lists_first(tokens, names, n, records),
    ensures
        forall|a: int, b: int|
            0 <= a < b < records.len() ==> (#[trigger] records[a]).issued_at >= (
            #[trigger] records[b]).issued_at,
{
    reveal(lists_first);
}

/// The records of all names are a listing of the whole.
proof fn lemma_full_listing(
    views: Map<Seq<char>, RecordView>,
    tokens: Map<Seq<char>, TokenRecord>,
    names: Seq<Seq<char>>,
    records: Seq<TokenRecord>,
)
    requires
        views == tokens.map_values(|record: TokenRecord| record@),
        forall|key: Seq<char>| names.contains(key) <==> tokens.dom().contains(key),
        names.len() == tokens.dom().len(),
        lists_first(tokens, names, names.len() as int, records),
    ensures
        is_listing(views, record_views(records)),
{
    reveal(lists_first);
    let listed = record_views(records);
    assert(views.dom() =~= tokens.dom());
    assert forall|a: int| 0 <= a < listed.len() implies views.dom().contains(
        (#[trigger] listed[a]).jti,
    ) && views[listed[a].jti] == listed[a] by {
        assert(tokens[records[a].jti@] == records[a]);
    }
    assert forall|jti: Seq<char>| #[trigger] views.dom().contains(jti) implies exists|a: int|
        0 <= a < listed.len() && (#[trigger] listed[a]).jti == jti by {
        assert(names.contains(jti));
        let j = choose|j: int| 0 <= j < names.len() && names[j] == jti;
        let a = choose|a: int| 0 <= a < records.len() && (#[trigger] records[a]).jti@ == names[j];
        assert(listed[a].jti == jti);
    }
}

/// Putting the next record at its place keeps everything that holds of a partial listing.
proof fn lemma_insert_record(
    tokens: Map<Seq<char>, TokenRecord>,
    keys: Seq<Seq<char>>,
    i: int,
    before: Seq<TokenRecord>,
    at: int,
    record: TokenRecord,
)
    requires
        0 <= i < keys.len(),
        keys.no_duplicates(),
        0 <= at <= before.len(),
        tokens.dom().contains(keys[i]),
        tokens[keys[i]] == record,
        record.jti@ == keys[i],
        lists_first(tokens, keys, i, before),
        forall|a: int| 0 <= a < at ==> (#[trigger] before[a]).issued_at >= record.issued_at,
        forall|a: int| at <= a < before.len() ==> (#[trigger] before[a]).issued_at < record.issued_at,
    ensures
        lists_first(tokens, keys, i + 1, before.insert(at, record)),
{
    reveal(lists_first);
    let after = before.insert(at, record);
    let source = |a: int| if a < at { a } else { a - 1 };
    assert forall|a: int| 0 <= a < after.len() && a != at implies #[trigger] after[a]
        == before[source(a)] by {}
    assert(after[at] == record);
    assert forall|a: int| 0 <= a < before.len() implies (#[trigger] before[a]).jti@ != record.jti@ by {
        let j = choose|j: int| 0 <= j < i && #[trigger] keys[j] == before[a].jti@;
        assert(keys[j] != keys[i]);
    }
    assert forall|a: int, b: int| 0 <= a < b < after.len() implies (#[trigger] after[a]).issued_at >= (
    #[trigger] after[b]).issued_at && after[a].jti@ != after[b].jti@ by {
        if a == at {
            assert(after[b] == before[b - 1]);
        } else if b == at {
            assert(after[a] == before[a]);
        } else {
            assert(after[a] == before[source(a)] && after[b] == before[source(b)]);
        }
    }
    assert forall|a: int| 0 <= a < after.len() implies exists|j: int|
        0 <= j < i + 1 && #[trigger] keys[j] == (#[trigger] after[a]).jti@ by {
        if a == at {
            assert(keys[i] == after[a].jti@);
        } else {
            assert(after[a] == before[source(a)]);
            let j = choose|j: int| 0 <= j < i && #[trigger] keys[j] == before[source(a)].jti@;
            assert(keys[j] == after[a].jti@);
        }
    }
    assert forall|j: int| 0 <= j < i + 1 implies exists|a: int|
        0 <= a < after.len() && (#[trigger] after[a]).jti@ == #[trigger] keys[j] by {
        if j == i {
            assert(after[at].jti@ == keys[j]);
        } else {
            let a = choose|a: int| 0 <= a < before.len() && (#[trigger] before[a]).jti@ == keys[j];
            let b = if a < at { a } else { a + 1 };
            assert(after[b] == before[a]);
        }
    }
}

/// Why a password could not be hashed.
#[derive(Debug)]
pub struct HashError {
    pub message: String,
}

/// A verifier for `password`, in the PHC string format, that the password matches and
/// from which it cannot be read. It fails only for a password past 2^32 - 1 bytes.
pub fn hash_password(password: &[u8]) -> (r: Result<String, HashError>)
    ensures
        r is Ok <==> password@.len() <= 0xffff_ffff,
        r matches Ok(hash) ==> {
            &&& exists|salt: Seq<char>| is_salt(salt) && hash@ == #[trigger] argon2id_phc(password@, salt)
            &&& "$argon2id$"@.is_prefix_of(hash@)
            &&& phc_parses(hash@)
            &&& parallelism_is_bounded(hash@)
            &&& argon2_matches(hash@, password@)
        },
{
    let salt = random_salt();
    match argon2_hash(password, salt.as_str()) {
        Ok(hash) => {
            proof {
                reveal_strlit("1");
                reveal_with_fuel(digits_value, 2);
                assert("1"@.len() == 1 && "1"@[0] == '1');
                assert("1"@.drop_last().len() == 0);
            }
            Ok(hash)
        },
        Err(message) => Err(HashError { message }),
    }
}

/// A fresh random secret for one-time codes: 256 bits.
pub fn generate_totp_secret() -> (secret: SecretBytes)
    ensures
        secret@.len() == 32,
{
    SecretBytes::new(random_bytes(32))
}

/// A short name for a token: the first 96 bits of its SHA-256 digest, in URL-safe base64.
pub fn fingerprint_token(token: &str) -> (text: String)
    ensures
        text@ == base64url(sha256(encode_utf8(token@)).take(12)),
        text@.len() == 16,
{
    let mut digest = sha256_digest(token.as_bytes());
    digest.truncate(12);
    assert(digest@ =~= sha256(encode_utf8(token@)).take(12));
    encode_url(&digest)
}

proof fn lemma_all_recent(attempts: Seq<int>, now: int)
    requires
        forall|i: int| 0 <= i < attempts.len() ==> still_counts(#[trigger] attempts[i], now),
    ensures
        recent(attempts, now) == attempts,
    decreases attempts.len(),
{
    if attempts.len() > 0 {
        let earlier = attempts.drop_last();
        assert forall|i: int| 0 <= i < earlier.len() implies still_counts(
            #[trigger] earlier[i],
            now,
        ) by {
            assert(earlier[i] == attempts[i]);
        }
        lemma_all_recent(earlier, now);
        assert(still_counts(attempts[attempts.len() - 1], now));
        assert(earlier.push(attempts.last()) =~= attempts);
    }
}

proof fn lemma_recent_drops(attempts: Seq<int>, now: int)
    ensures
        recent(attempts, now).len() <= attempts.len(),
        attempts.len() > 0 && !still_counts(attempts[0], now) ==> recent(attempts, now).len()
            < attempts.len(),
    decreases attempts.len(),
{
    if attempts.len() > 0 {
        lemma_recent_drops(attempts.drop_last(), now);
        if attempts.len() > 1 {
            assert(attempts.drop_last()[0] == attempts[0]);
        }
    }
}

/// After five failed attempts every credential is refused, right or wrong, until a minute
/// has passed since the first of the five; from then on an attempt is considered again.
pub proof fn law_five_failures_lock(
    state: AuthState,
    kind: CredentialKind,
    value: Seq<char>,
    started: int,
    code_time: Option<u64>,
    finished: int,
)
    requires
        state.attempts.len() == 5,
        forall|i: int, j: int|
            0 <= i <= j < 5 ==> (#[trigger] state.attempts[i]) <= (#[trigger] state.attempts[j]),
        state.attempts[4] <= started,
    ensures
        (credential_outcome(state, kind, value, started, code_time, finished).1 == Err::<
            (),
            AuthError,
        >(AuthError::RateLimited)) <==> started - state.attempts[0] < 60_000_000_000,
{
    if started - state.attempts[0] < 60_000_000_000 {
        assert forall|i: int| 0 <= i < 5 implies still_counts(
            #[trigger] state.attempts[i],
            started,
        ) by {
            assert(state.attempts[0] <= state.attempts[i]);
            assert(state.attempts[i] <= state.attempts[4]);
        }
        lemma_all_recent(state.attempts, started);
    } else {
        assert(!still_counts(state.attempts[0], started));
        lemma_recent_drops(state.attempts, started);
    }
}

/// Every failure within the last minute counts: a wrong credential adds one to those that
/// still counted when the attempt began, and nothing else changes.
pub proof fn law_failure_counts(
    state: AuthState,
    kind: CredentialKind,
    value: Seq<char>,
    started: int,
    code_time: Option<u64>,
    finished: int,
)
    requires
        credential_verdict(state, kind, value, code_time) == Ok::<bool, AuthError>(false),
        recent(state.attempts, started).len() < 5,
    ensures
        credential_outcome(state, kind, value, started, code_time, finished) == (
            AuthState { attempts: recent(state.attempts, started).push(finished), ..state },
            Err::<(), AuthError>(AuthError::InvalidCredential),
        ),
{
}

/// A success clears the failures.
pub proof fn law_success_clears_failures(
    state: AuthState,
    kind: CredentialKind,
    value: Seq<char>,
    started: int,
    code_time: Option<u64>,
    finished: int,
)
    requires
        credential_outcome(state, kind, value, started, code_time, finished).1 is Ok,
    ensures
        credential_outcome(state, kind, value, started, code_time, finished).0.attempts
            == Seq::<int>::empty(),
{
}

/// The password that a verifier was made of is accepted under that verifier, unless
/// authentication is locked.
pub proof fn law_hashed_password_is_accepted(
    state: AuthState,
    password: Seq<char>,
    started: int,
    code_time: Option<u64>,
    finished: int,
)
    requires
        phc_parses(state.password_hash),
        password_is_right(state.password_hash, password),
        recent(state.attempts, started).len() < 5,
    ensures
        credential_outcome(
            state,
            CredentialKind::Password,
            password,
            started,
            code_time,
            finished,
        ).1 is Ok,
{
}

/// A one-time code is accepted, with white space around it or without, when it is generated
/// and up to thirty seconds earlier or later, unless authentication is locked.
pub proof fn law_current_code_is_accepted(
    state: AuthState,
    value: Seq<char>,
    generated: int,
    started: int,
    code_time: u64,
    finished: int,
)
    requires
        state.totp_secret is Some,
        state.totp_secret->0.len() >= 16,
        trimmed(value) == code_at(state.totp_secret->0, generated),
        0 <= generated,
        30 <= code_time <= u64::MAX - 30,
        -30 <= code_time - generated <= 30,
        recent(state.attempts, started).len() < 5,
    ensures
        credential_outcome(
            state,
            CredentialKind::Totp,
            value,
            started,
            Some(code_time),
            finished,
        ).1 is Ok,
{
    law_generated_code_is_accepted(state.totp_secret->0, generated, code_time as int);
}

/// A token that was issued is accepted until it expires, and refused as expired from then on.
pub proof fn law_issued_token_is_accepted_until_expiry(
    before: AuthState,
    ttl_seconds: Option<u64>,
    now: int,
    jti: Seq<char>,
    after: AuthState,
    r: Result<(String, TokenRecord), AuthError>,
    later: int,
)
    requires
        issue_outcome(before, ttl_seconds, now, jti, after, r),
        r is Ok,
    ensures
        ({
            let expires_at = r->Ok_0.1@.expires_at;
            token_verdict(after, r->Ok_0.0@, later) == (if expires_at is Some && later
                >= expires_at->0 {
                Err::<ClaimsView, AuthError>(AuthError::Expired)
            } else {
                Ok(issued_claims(before, jti, now, expires_at))
            })
        }),
{
}

/// A token with anything appended is invalid, whenever and by whichever state it is checked.
pub proof fn law_lengthened_token_is_refused(
    before: AuthState,
    ttl_seconds: Option<u64>,
    now: int,
    jti: Seq<char>,
    after: AuthState,
    r: Result<(String, TokenRecord), AuthError>,
    more: Seq<char>,
    state: AuthState,
    later: int,
)
    requires
        issue_outcome(before, ttl_seconds, now, jti, after, r),
        r is Ok,
        more.len() > 0,
    ensures
        token_verdict(state, r->Ok_0.0@ + more, later) == Err::<ClaimsView, AuthError>(
            AuthError::InvalidToken,
        ),
        identity_verdict(state, r->Ok_0.0@ + more) is None,
{
    lemma_lengthened_token(r->Ok_0.0@, more, ed25519_public_key(state.seed));
}

/// A revoked token is never accepted again; one that was accepted is reported as revoked.
pub proof fn law_revoked_token_is_refused(
    state: AuthState,
    token: Seq<char>,
    claims: ClaimsView,
    now: int,
)
    requires
        jwt_claims(token, ed25519_public_key(state.seed)) == Some(claims),
    ensures
        token_verdict(with_revoked(state, claims.jti), token, now) is Err,
        token_verdict(state, token, now) is Ok ==> token_verdict(
            with_revoked(state, claims.jti),
            token,
            now,
        ) == Err::<ClaimsView, AuthError>(AuthError::Revoked),
{
}

/// Revoking or issuing one token changes nothing for any other.
pub proof fn law_other_tokens_are_untouched(
    state: AuthState,
    token: Seq<char>,
    claims: ClaimsView,
    other: RecordView,
    now: int,
)
    requires
        jwt_claims(token, ed25519_public_key(state.seed)) == Some(claims),
        claims.jti != other.jti,
    ensures
        token_verdict(with_revoked(state, other.jti), token, now) == token_verdict(
            state,
            token,
            now,
        ),
        token_verdict(with_token(state, other), token, now) == token_verdict(state, token, now),
        identity_verdict(with_revoked(state, other.jti), token) == identity_verdict(state, token),
        identity_verdict(with_token(state, other), token) == identity_verdict(state, token),
{
}

/// A run of the service that has issued nothing accepts no token whatever: a restart makes
/// every earlier token useless, permanent ones too.
pub proof fn law_fresh_run_accepts_no_token(state: AuthState, token: Seq<char>, now: int)
    requires
        state.tokens == Map::<Seq<char>, RecordView>::empty(),
    ensures
        token_verdict(state, token, now) is Err,
        identity_verdict(state, token) is None,
{
}

/// A token that names another run of the service is refused, whatever its signature.
pub proof fn law_foreign_token_is_refused(
    state: AuthState,
    token: Seq<char>,
    claims: ClaimsView,
    now: int,
)
    requires
        jwt_claims(token, ed25519_public_key(state.seed)) == Some(claims),
        claims.iss != state.instance_id,
    ensures
        token_verdict(state, token, now) == Err::<ClaimsView, AuthError>(AuthError::InvalidToken),
        identity_verdict(state, token) is None,
{
}

/// A token that is or was accepted still proves whose it is after it expired and after it
/// was revoked, so that it can be used to revoke itself.
pub proof fn law_expired_token_still_identifies(
    state: AuthState,
    token: Seq<char>,
    claims: ClaimsView,
    accepted_at: int,
)
    requires
        token_verdict(state, token, accepted_at) == Ok::<ClaimsView, AuthError>(claims),
    ensures
        identity_verdict(state, token) == Some(claims),
        identity_verdict(with_revoked(state, claims.jti), token) == Some(claims),
{
}

/// What each refusal is called.
pub proof fn law_refusals_are_named()
    ensures
        AuthError::InvalidCredential.text() == "invalid credential"@,
        AuthError::RateLimited.text() == "too many authentication attempts; retry later"@,
        AuthError::InvalidToken.text() == "invalid token"@,
        AuthError::Expired.text() == "token expired"@,
        AuthError::Revoked.text() == "token has been revoked"@,
        AuthError::Internal.text() == "authentication subsystem error"@,
{
}

/// What is told of a token is what its fields hold.
pub proof fn law_views_show_the_fields(claims: TokenClaims, record: TokenRecord)
    ensures
        claims@.iss == claims.iss@,
        claims@.aud == claims.aud@,
        claims@.sub == claims.sub@,
        claims@.jti == claims.jti@,
        claims@.iat == claims.iat,
        claims@.exp is Some <==> claims.exp is Some,
        claims.exp is Some ==> claims@.exp->0 == claims.exp->0,
        record@.jti == record.jti@,
        record@.issued_at == record.issued_at,
        record@.expires_at is Some <==> record.expires_at is Some,
        record.expires_at is Some ==> record@.expires_at->0 == record.expires_at->0,
        record@.revoked == record.revoked,
{
}

/// A failed attempt counts for a minute, and no longer: of all attempts exactly those are
/// remembered that lie less than sixty seconds back and not ahead.
pub proof fn law_failures_count_for_a_minute(attempts: Seq<int>, now: int)
    ensures
        recent(attempts, now) == attempts.filter(|at: int| 0 <= now - at < 60_000_000_000),
    decreases attempts.len(),
{
    reveal(Seq::filter);
    if attempts.len() > 0 {
        law_failures_count_for_a_minute(attempts.drop_last(), now);
    }
}

/// A password is right if and only if Argon2 finds that its UTF-8 matches the stored hash;
/// nothing is taken from it or added. A stored hash that does not parse is a fault of the
/// service, and one with a parallelism that Argon2 does not have matches nothing.
pub proof fn law_passwords_are_judged(
    state: AuthState,
    password: Seq<char>,
    code_time: Option<u64>,
)
    ensures
        phc_parses(state.password_hash) && parallelism_is_bounded(state.password_hash)
            ==> credential_verdict(state, CredentialKind::Password, password, code_time) == Ok::<
            bool,
            AuthError,
        >(argon2_matches(state.password_hash, encode_utf8(password))),
        phc_parses(state.password_hash) && !parallelism_is_bounded(state.password_hash)
            ==> credential_verdict(state, CredentialKind::Password, password, code_time) == Ok::<
            bool,
            AuthError,
        >(false),
        !phc_parses(state.password_hash) ==> credential_verdict(
            state,
            CredentialKind::Password,
            password,
            code_time,
        ) == Err::<bool, AuthError>(AuthError::Internal),
{
}

/// A one-time code, without the white space around it, is right if and only if there is a
/// secret of at least 16 bytes, the clock could be read, and the code is that of the thirty
/// seconds it shows, of those before or of those after.
pub proof fn law_one_time_codes_are_judged(
    state: AuthState,
    code: Seq<char>,
    code_time: Option<u64>,
)
    ensures
        credential_verdict(state, CredentialKind::Totp, code, code_time) is Ok,
        credential_verdict(state, CredentialKind::Totp, code, code_time)->Ok_0 <==> {
            &&& state.totp_secret is Some
            &&& state.totp_secret->0.len() >= 16
            &&& code_time is Some
            &&& 30 <= code_time->0 <= 0xffff_ffff_ffff_ffff - 30
            &&& {
                ||| trimmed(code) == totp_sha1_code(
                    6,
                    state.totp_secret->0,
                    code_time->0 as int / 30 - 1,
                )
                ||| trimmed(code) == totp_sha1_code(
                    6,
                    state.totp_secret->0,
                    code_time->0 as int / 30,
                )
                ||| trimmed(code) == totp_sha1_code(
                    6,
                    state.totp_secret->0,
                    code_time->0 as int / 30 + 1,
                )
            }
        },
{
    if state.totp_secret is Some && code_time is Some {
        law_codes_are_judged(state.totp_secret->0, trimmed(code), code_time->0 as int);
    }
}

/// An attempt to authenticate. With five failures in the minute before it, it is refused
/// unheard. Otherwise a right credential is accepted and clears the failures, a wrong one is
/// refused and counts from the moment the attempt ended, and a fault of the service counts
/// for nothing. Whatever happens, tokens and secrets stay.
pub proof fn law_attempts_are_judged(
    state: AuthState,
    kind: CredentialKind,
    value: Seq<char>,
    started: int,
    code_time: Option<u64>,
    finished: int,
    after: AuthState,
    r: Result<(), AuthError>,
)
    requires
        (after, r) == credential_outcome(state, kind, value, started, code_time, finished),
    ensures
        ({
            let counted = state.attempts.filter(|at: int| 0 <= started - at < 60_000_000_000);
            let verdict = credential_verdict(state, kind, value, code_time);
            &&& counted.len() >= 5 ==> r == Err::<(), AuthError>(AuthError::RateLimited)
                && after.attempts == counted
            &&& counted.len() < 5 && verdict == Ok::<bool, AuthError>(true) ==> r == Ok::<
                (),
                AuthError,
            >(()) && after.attempts.len() == 0
            &&& counted.len() < 5 && verdict == Ok::<bool, AuthError>(false) ==> r == Err::<
                (),
                AuthError,
            >(AuthError::InvalidCredential) && after.attempts == counted.push(finished)
            &&& counted.len() < 5 && verdict is Err ==> r == Err::<(), AuthError>(verdict->Err_0)
                && after.attempts == counted
        }),
        after.password_hash == state.password_hash,
        after.totp_secret == state.totp_secret,
        after.seed == state.seed,
        after.instance_id == state.instance_id,
        after.tokens == state.tokens,
{
    law_failures_count_for_a_minute(state.attempts, started);
}

/// A token lasts exactly as long as it was asked for. Without a lifetime it has no end; with
/// one it ends that many seconds after it was issued, whatever their number, and is refused
/// only where the clock has no such moment. The record and the signed claims say the same,
/// and no other token is touched.
pub proof fn law_tokens_last_as_asked(
    before: AuthState,
    ttl_seconds: Option<u64>,
    now: int,
    jti: Seq<char>,
    after: AuthState,
    r: Result<(String, TokenRecord), AuthError>,
)
    requires
        i64::MIN <= now <= i64::MAX,
        issue_outcome(before, ttl_seconds, now, jti, after, r),
    ensures
        r is Ok <==> ttl_seconds is None || (ttl_seconds->0 <= 0x7fff_ffff_ffff_ffff && now
            + ttl_seconds->0 <= 0x7fff_ffff_ffff_ffff),
        r is Err ==> r->Err_0 == AuthError::Internal && after == before,
        r is Ok ==> {
            let (token, record) = r->Ok_0;
            let claims = jwt_claims(token@, ed25519_public_key(before.seed));
            &&& record.jti@ == jti
            &&& record.issued_at == now
            &&& !record.revoked
            &&& ttl_seconds is None ==> record.expires_at is None
            &&& ttl_seconds is Some ==> record.expires_at is Some && record.expires_at->0 == now
                + ttl_seconds->0
            &&& claims is Some
            &&& claims->0.iss == before.instance_id
            &&& claims->0.aud == "sudoserver"@
            &&& claims->0.sub == "privileged-powershell"@
            &&& claims->0.jti == jti
            &&& claims->0.iat == now
            &&& ttl_seconds is None ==> claims->0.exp is None
            &&& ttl_seconds is Some ==> claims->0.exp == Some(now + ttl_seconds->0)
            &&& token@ == jwt_text(claims->0, before.seed)
            &&& after.tokens.dom() == before.tokens.dom().insert(jti)
            &&& after.tokens[jti].jti == jti
            &&& after.tokens[jti].issued_at == now
            &&& after.tokens[jti].expires_at == claims->0.exp
            &&& !after.tokens[jti].revoked
            &&& forall|other: Seq<char>|
                other != jti ==> #[trigger] after.tokens[other] == before.tokens[other]
            &&& after.password_hash == before.password_hash
            &&& after.totp_secret == before.totp_secret
            &&& after.seed == before.seed
            &&& after.instance_id == before.instance_id
            &&& after.attempts == before.attempts
        },
{
    if r is Ok {
        assert(after.tokens.dom() =~= before.tokens.dom().insert(jti));
    }
}

/// A token is good at some moment if and only if it is signed with the key of this run, names
/// this run and this service, has no end or one that is still ahead, and was issued and not
/// revoked. The claims are those that were signed, and of several faults the first in this
/// order is the one that is told.
pub proof fn law_tokens_are_judged(state: AuthState, token: Seq<char>, now: int, claims: ClaimsView)
    ensures
        jwt_claims(token, ed25519_public_key(state.seed)) is None ==> token_verdict(
            state,
            token,
            now,
        ) == Err::<ClaimsView, AuthError>(AuthError::InvalidToken),
        jwt_claims(token, ed25519_public_key(state.seed)) == Some(claims) ==> {
            let ours = claims.iss == state.instance_id && claims.aud == "sudoserver"@ && claims.sub
                == "privileged-powershell"@;
            let over = claims.exp is Some && now >= claims.exp->0;
            let known = state.tokens.dom().contains(claims.jti);
            let verdict = token_verdict(state, token, now);
            &&& !ours ==> verdict == Err::<ClaimsView, AuthError>(AuthError::InvalidToken)
            &&& ours && over ==> verdict == Err::<ClaimsView, AuthError>(AuthError::Expired)
            &&& ours && !over && !known ==> verdict == Err::<ClaimsView, AuthError>(
                AuthError::InvalidToken,
            )
            &&& ours && !over && known && state.tokens[claims.jti].revoked ==> verdict == Err::<
                ClaimsView,
                AuthError,
            >(AuthError::Revoked)
            &&& ours && !over && known && !state.tokens[claims.jti].revoked ==> verdict == Ok::<
                ClaimsView,
                AuthError,
            >(claims)
        },
{
}

/// Whether a token is still good, once its claims are known, depends on its end and on its
/// record alone.
pub proof fn law_standing_is_judged(
    state: AuthState,
    jti: Seq<char>,
    expires_at: Option<int>,
    now: int,
)
    ensures
        ({
            let over = expires_at is Some && now >= expires_at->0;
            let known = state.tokens.dom().contains(jti);
            let verdict = standing(state, jti, expires_at, now);
            &&& over ==> verdict == Err::<(), AuthError>(AuthError::Expired)
            &&& !over && !known ==> verdict == Err::<(), AuthError>(AuthError::InvalidToken)
            &&& !over && known && state.tokens[jti].revoked ==> verdict == Err::<(), AuthError>(
                AuthError::Revoked,
            )
            &&& !over && known && !state.tokens[jti].revoked ==> verdict == Ok::<(), AuthError>(())
        }),
{
}

/// A token is known by its signature, by the run that it names and by its record, whether or
/// not it has ended or was revoked.
pub proof fn law_identity_is_judged(state: AuthState, token: Seq<char>, claims: ClaimsView)
    ensures
        identity_verdict(state, token) == Some(claims) <==> jwt_claims(
            token,
            ed25519_public_key(state.seed),
        ) == Some(claims) && claims.iss == state.instance_id && state.tokens.dom().contains(
            claims.jti,
        ),
{
}

/// A result holds the claims that it shows.
pub proof fn law_results_show_their_claims(r: Result<TokenClaims, AuthError>)
    ensures
        r is Ok ==> claims_result(r) == Ok::<ClaimsView, AuthError>(r->Ok_0@),
        r is Err ==> claims_result(r) == Err::<ClaimsView, AuthError>(r->Err_0),
{
}

/// Revoking marks one record and changes nothing else; a token that was not issued cannot be
/// revoked.
pub proof fn law_revoking_marks_one_token(
    before: AuthState,
    jti: Seq<char>,
    after: AuthState,
    r: Result<(), AuthError>,
)
    requires
        revoke_outcome(before, jti, after, r),
    ensures
        r is Ok <==> before.tokens.dom().contains(jti),
        r is Err ==> r->Err_0 == AuthError::InvalidToken && after == before,
        r is Ok ==> {
            &&& after.tokens.dom() == before.tokens.dom()
            &&& after.tokens[jti].revoked
            &&& after.tokens[jti].jti == before.tokens[jti].jti
            &&& after.tokens[jti].issued_at == before.tokens[jti].issued_at
            &&& after.tokens[jti].expires_at == before.tokens[jti].expires_at
            &&& forall|other: Seq<char>|
                other != jti ==> #[trigger] after.tokens[other] == before.tokens[other]
            &&& after.password_hash == before.password_hash
            &&& after.totp_secret == before.totp_secret
            &&& after.seed == before.seed
            &&& after.instance_id == before.instance_id
            &&& after.attempts == before.attempts
        },
{
    if r is Ok {
        assert(after.tokens.dom() =~= before.tokens.dom());
    }
}

/// The list holds every token once, with what is remembered of it, and the latest first.
pub proof fn law_list_is_complete(tokens: Map<Seq<char>, RecordView>, records: Seq<TokenRecord>)
    requires
        is_listing(tokens, record_views(records)),
    ensures
        records.len() == tokens.dom().len(),
        forall|jti: Seq<char>| #[trigger]
            tokens.dom().contains(jti) ==> exists|i: int|
                0 <= i < records.len() && (#[trigger] records[i]).jti@ == jti,
        forall|i: int|
            0 <= i < records.len() ==> {
                let record = #[trigger] records[i];
                &&& tokens.dom().contains(record.jti@)
                &&& tokens[record.jti@].issued_at == record.issued_at
                &&& tokens[record.jti@].revoked == record.revoked
                &&& tokens[record.jti@].expires_at is Some <==> record.expires_at is Some
                &&& record.expires_at is Some ==> tokens[record.jti@].expires_at->0
                    == record.expires_at->0
            },
        forall|i: int, j: int|
            0 <= i < j < records.len() ==> (#[trigger] records[i]).issued_at >= (
            #[trigger] records[j]).issued_at && records[i].jti@ != records[j].jti@,
{
    let listed = record_views(records);
    assert forall|jti: Seq<char>| #[trigger] tokens.dom().contains(jti) implies exists|i: int|
        0 <= i < records.len() && (#[trigger] records[i]).jti@ == jti by {
        let i = choose|i: int| 0 <= i < listed.len() && (#[trigger] listed[i]).jti == jti;
        assert(records[i].jti@ == jti);
    }
    assert forall|i: int| 0 <= i < records.len() implies ({
        let record = #[trigger] records[i];
        &&& tokens.dom().contains(record.jti@)
        &&& tokens[record.jti@].issued_at == record.issued_at
        &&& tokens[record.jti@].revoked == record.revoked
        &&& tokens[record.jti@].expires_at is Some <==> record.expires_at is Some
        &&& record.expires_at is Some ==> tokens[record.jti@].expires_at->0 == record.expires_at->0
    }) by {
        assert(listed[i] == records[i]@);
    }
    assert forall|i: int, j: int| 0 <= i < j < records.len() implies (#[trigger] records[i]).issued_at
        >= (#[trigger] records[j]).issued_at && records[i].jti@ != records[j].jti@ by {
        assert(listed[i].issued_at >= listed[j].issued_at);
        assert(listed[i].jti != listed[j].jti);
    }
}

} // verus!
