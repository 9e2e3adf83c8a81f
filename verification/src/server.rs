//! What the service does: tokens for those who authenticate, sessions for those who hold a
//! token, commands for those who hold a session.
use vstd::prelude::*;
use vstd::string::*;

use crate::auth::{
    credential_outcome, identity_verdict, is_listing, issue_outcome,
    law_issued_token_is_accepted_until_expiry, law_revoked_token_is_refused, opt_int, record_views,
    standing, token_verdict, with_revoked, AuthError, AuthManager, AuthState, ClaimsView, Credential,
    TokenRecord, DEFAULT_TOKEN_TTL_SECONDS,
};
use crate::clock::{unix_timestamp, Instant};
use crate::config::Config;
use crate::crypto::{ed25519_public_key, is_uuid_v4, random_uuid};
use crate::jwt::jwt_claims;
use crate::session::{
    are_shells_of, consistent, handle_text, law_ending_all_removes_what_is_owned,
    law_no_sessions_are_consistent, law_open_keeps_consistency, law_owned_shells_are_handed_back,
    law_remove_keeps_consistency, law_revocation_ends_every_session,
    live_handle, owns, session_expired, strong_handle, with_session, without_session,
    without_token, SessionStore, SessionView, StoreView,
};
use crate::shell::{ExecutionResult, ShellError};
use crate::text::{decimal, decimal_text};

verus! {

/// A request that was refused: an HTTP status, and what to tell the caller.
#[derive(Debug)]
pub struct ApiError {
    status: u16,
    message: String,
}

/// What an [`ApiError`] stands for.
pub struct ApiErrorView {
    pub status: int,
    pub message: Seq<char>,
}

impl View for ApiError {
    type V = ApiErrorView;

    closed spec fn view(&self) -> ApiErrorView {
        ApiErrorView { status: self.status as int, message: self.message@ }
    }
}

/// The HTTP status for a refused credential or token.
pub open spec fn auth_status(error: AuthError) -> int {
    match error {
        AuthError::RateLimited => 429,
        AuthError::Internal => 500,
        _ => 401,
    }
}

/// The refusal for a refused credential or token.
pub open spec fn auth_refusal(error: AuthError) -> ApiErrorView {
    ApiErrorView { status: auth_status(error), message: error.text() }
}

/// The refusal for a failed command; `cause` is the text of the operating system error, if
/// there is one.
pub open spec fn shell_refusal(error: ShellError, cause: Seq<char>) -> ApiErrorView {
    ApiErrorView {
        status: if error is Timeout {
            408
        } else {
            500
        },
        message: error.text(cause),
    }
}

/// The refusal of a request that makes no sense.
pub open spec fn bad_request_refusal(message: Seq<char>) -> ApiErrorView {
    ApiErrorView { status: 400, message }
}

impl ApiError {
    /// The refusal of a request that makes no sense.
    pub fn bad_request(message: String) -> (error: ApiError)
        ensures
            error@ == bad_request_refusal(message@),
    {
        ApiError { status: 400, message }
    }

    /// The refusal of a request that the service failed at.
    pub fn internal(message: String) -> (error: ApiError)
        ensures
            error@ == (ApiErrorView { status: 500, message: message@ }),
    {
        ApiError { status: 500, message }
    }

    /// The HTTP status.
    pub fn status(&self) -> (status: u16)
        ensures
            status == self@.status,
    {
        self.status
    }

    /// What to tell the caller.
    pub fn to_string(&self) -> (text: String)
        ensures
            text@ == self@.message,
    {
        self.message.clone()
    }
}

impl From<AuthError> for ApiError {
    fn from(error: AuthError) -> (r: ApiError)
        ensures
            r@ == auth_refusal(error),
    {
        let status: u16 = match error {
            AuthError::RateLimited => 429,
            AuthError::Internal => 500,
            _ => 401,
        };
        ApiError { status, message: error.to_string() }
    }
}

impl vstd::std_specs::convert::FromSpecImpl<AuthError> for ApiError {
    open spec fn obeys_from_spec() -> bool {
        false
    }

    open spec fn from_spec(error: AuthError) -> ApiError {
        arbitrary()
    }
}

impl From<ShellError> for ApiError {
    fn from(error: ShellError) -> (r: ApiError)
        ensures
            exists|cause: Seq<char>| r@ == #[trigger] shell_refusal(error, cause),
    {
        let status: u16 = match error {
            ShellError::Timeout(_) => 408,
            _ => 500,
        };
        let message = error.to_string();
        let r = ApiError { status, message };
        proof {
            let cause = choose|cause: Seq<char>| message@ == #[trigger] error.text(cause);
            assert(r@ == shell_refusal(error, cause));
        }
        r
    }
}

impl vstd::std_specs::convert::FromSpecImpl<ShellError> for ApiError {
    open spec fn obeys_from_spec() -> bool {
        false
    }

    open spec fn from_spec(error: ShellError) -> ApiError {
        arbitrary()
    }
}

/// What a caller that enters a session is told.
#[derive(Debug)]
pub struct EnterResult {
    pub handle: String,
    pub reused: bool,
    pub message: String,
}

/// What an [`EnterResult`] stands for.
pub struct EnterView {
    pub handle: Seq<char>,
    pub reused: bool,
    pub message: Seq<char>,
}

impl View for EnterResult {
    type V = EnterView;

    open spec fn view(&self) -> EnterView {
        EnterView { handle: self.handle@, reused: self.reused, message: self.message@ }
    }
}

/// What a caller is told whose token already had a session.
pub open spec fn reused_session(handle: Seq<char>) -> EnterView {
    EnterView { handle, reused: true, message: "Reused the token's existing privileged session."@ }
}

/// What a caller is told whose session is new.
pub open spec fn created_session(handle: Seq<char>) -> EnterView {
    EnterView {
        handle,
        reused: false,
        message:
            "Created a new privileged PowerShell session. Treat the handle as a password."@,
    }
}

impl EnterResult {
    fn reused(handle: String) -> (result: EnterResult)
        ensures
            result@ == reused_session(handle@),
    {
        EnterResult {
            handle,
            reused: true,
            message: "Reused the token's existing privileged session.".to_owned(),
        }
    }

    fn created(handle: String) -> (result: EnterResult)
        ensures
            result@ == created_session(handle@),
    {
        EnterResult {
            handle,
            reused: false,
            message:
                "Created a new privileged PowerShell session. Treat the handle as a password.".to_owned(),
        }
    }
}

/// A session that a token was found entitled to and that has no shell yet.
pub struct PendingSession {
    token_jti: String,
    expires_at: Option<i64>,
}

/// What a [`PendingSession`] stands for.
pub struct PendingView {
    pub token_jti: Seq<char>,
    pub expires_at: Option<int>,
}

impl View for PendingSession {
    type V = PendingView;

    closed spec fn view(&self) -> PendingView {
        PendingView { token_jti: self.token_jti@, expires_at: opt_int(self.expires_at) }
    }
}

/// What a request to enter a session leads to: a session that is there, or one that needs
/// a shell.
pub enum EnterStep {
    Reuse(EnterResult),
    Open(PendingSession),
}

/// What an administrator is told who issues a token.
#[derive(Debug)]
pub struct IssueResponse {
    pub token: String,
    pub record: TokenRecord,
    pub warning: &'static str,
}

/// What a token is handed out with.
pub const TOKEN_WARNING: &'static str =
    "This token grants full administrator/root command execution. It naturally becomes invalid when SudoServer restarts.";

/// The service: its configuration, who may do what, and the live sessions.
pub struct AppState<S> {
    pub config: Config,
    auth: AuthManager,
    sessions: SessionStore<S>,
}

/// The state of the service.
pub struct ServiceState<S> {
    pub config: Config,
    pub auth: AuthState,
    pub sessions: StoreView<S>,
}

impl<S> View for AppState<S> {
    type V = ServiceState<S>;

    closed spec fn view(&self) -> ServiceState<S> {
        ServiceState { config: self.config, auth: self.auth@, sessions: self.sessions@ }
    }
}

/// Whether a request was refused as described.
pub open spec fn refused<T>(r: Result<T, ApiError>, refusal: ApiErrorView) -> bool {
    r is Err && r->Err_0@ == refusal
}

/// What a request to enter a session with `token` leads to at `now`.
pub open spec fn enter_outcome<S>(
    state: ServiceState<S>,
    token: Seq<char>,
    now: int,
    r: Result<EnterStep, ApiError>,
) -> bool {
    match token_verdict(state.auth, token, now) {
        Err(error) => refused(r, auth_refusal(error)),
        Ok(claims) => match live_handle(state.sessions, claims.jti) {
            Some(handle) => r is Ok && r->Ok_0 is Reuse && r->Ok_0->Reuse_0@ == reused_session(
                handle,
            ),
            None => r is Ok && r->Ok_0 is Open && r->Ok_0->Open_0@ == (PendingView {
                token_jti: claims.jti,
                expires_at: claims.exp,
            }),
        },
    }
}

/// The state after a pending session got a shell and a handle.
pub open spec fn opened<S>(
    state: ServiceState<S>,
    pending: PendingView,
    shell: S,
    handle: Seq<char>,
) -> ServiceState<S> {
    ServiceState {
        sessions: with_session(
            state.sessions,
            handle,
            SessionView { token_jti: pending.token_jti, expires_at: pending.expires_at, shell },
        ),
        ..state
    }
}

/// What giving a pending session its shell, under the given handle, leads to at `now`. The
/// token must still be good; if it has got a session meanwhile, that one is given, as on
/// any second entry. A shell that is not needed is handed back.
pub open spec fn open_outcome<S>(
    before: ServiceState<S>,
    pending: PendingView,
    shell: S,
    handle: Seq<char>,
    now: int,
    after: ServiceState<S>,
    r: Result<(EnterResult, Option<S>), (ApiError, S)>,
) -> bool {
    match standing(before.auth, pending.token_jti, pending.expires_at, now) {
        Err(error) => {
            &&& after == before
            &&& r is Err
            &&& r->Err_0.0@ == auth_refusal(error)
            &&& r->Err_0.1 == shell
        },
        Ok(()) => match live_handle(before.sessions, pending.token_jti) {
            Some(live) => {
                &&& after == before
                &&& r is Ok
                &&& r->Ok_0.0@ == reused_session(live)
                &&& r->Ok_0.1 == Some(shell)
            },
            None => {
                &&& after == opened(before, pending, shell, handle)
                &&& r is Ok
                &&& r->Ok_0.0@ == created_session(handle)
                &&& r->Ok_0.1 is None
            },
        },
    }
}

/// The state after the session under `handle` ended.
pub open spec fn ended<S>(state: ServiceState<S>, handle: Seq<char>) -> ServiceState<S> {
    ServiceState { sessions: without_session(state.sessions, handle), ..state }
}

/// How long a command may take: what was asked for, or else the configured limit.
pub open spec fn command_timeout(requested: Option<u64>, limit: u64) -> u64 {
    match requested {
        Some(seconds) => seconds,
        None => limit,
    }
}

/// What a caller is told who asks for a timeout out of bounds.
pub open spec fn timeout_refusal(limit: u64) -> ApiErrorView {
    bad_request_refusal("timeout_seconds must be between 1 and "@ + decimal(limit as nat))
}

/// What a request to run a command leads to at `now`: how long the command may take, or a
/// refusal. The session of a token that has expired ends.
pub open spec fn run_outcome<S>(
    before: ServiceState<S>,
    handle: Seq<char>,
    requested: Option<u64>,
    now: int,
    after: ServiceState<S>,
    r: Result<u64, ApiError>,
) -> bool {
    let limit = before.config.max_command_seconds;
    let timeout = command_timeout(requested, limit);
    if timeout == 0 || timeout > limit {
        refused(r, timeout_refusal(limit)) && after == before
    } else if !before.sessions.by_handle.dom().contains(handle) {
        refused(r, auth_refusal(AuthError::InvalidCredential)) && after == before
    } else if session_expired(before.sessions, handle, now) {
        refused(r, auth_refusal(AuthError::Expired)) && after == ended(before, handle)
    } else {
        r == Ok::<u64, ApiError>(timeout) && after == before
    }
}

/// The state after the token `jti` was revoked and its sessions ended.
pub open spec fn revoked<S>(state: ServiceState<S>, jti: Seq<char>) -> ServiceState<S> {
    ServiceState {
        auth: with_revoked(state.auth, jti),
        sessions: without_token(state.sessions, jti),
        ..state
    }
}

/// What a request to revoke a token by its name leads to.
pub open spec fn revocation_outcome<S>(
    before: ServiceState<S>,
    jti: Seq<char>,
    after: ServiceState<S>,
    r: Result<Vec<S>, ApiError>,
) -> bool {
    if before.auth.tokens.dom().contains(jti) {
        after == revoked(before, jti) && r is Ok && are_shells_of(
            before.sessions,
            jti,
            r->Ok_0@,
        )
    } else {
        after == before && refused(r, auth_refusal(AuthError::InvalidToken))
    }
}

impl<S> AppState<S> {
    /// A service without sessions.
    pub fn new(config: Config, auth: AuthManager) -> (state: AppState<S>)
        ensures
            state@.config == config,
            state@.auth == auth@,
            state@.sessions == (StoreView::<S> { by_handle: Map::empty(), by_token: Map::empty() }),
    {
        AppState { config, auth, sessions: SessionStore::new() }
    }

    /// Decides at `now` what a caller who presents `token` gets: a token has at most one
    /// session, and entering again gives it back.
    pub fn enter_at(&self, token: &str, now: i64) -> (r: Result<EnterStep, ApiError>)
        ensures
            enter_outcome(self@, token@, now as int, r),
    {
        let claims = match self.auth.verify_token_at(token, now) {
            Ok(claims) => claims,
            Err(error) => return Err(ApiError::from(error)),
        };
        match self.sessions.handle_of(claims.jti.as_str()) {
            Some(handle) => Ok(EnterStep::Reuse(EnterResult::reused(handle))),
            None => Ok(
                EnterStep::Open(PendingSession { token_jti: claims.jti, expires_at: claims.exp }),
            ),
        }
    }

    /// Decides what a caller who presents `token` gets now.
    pub fn enter(&self, token: &str) -> (r: Result<EnterStep, ApiError>)
        ensures
            exists|now: int|
                i64::MIN <= now <= i64::MAX && #[trigger] enter_outcome(self@, token@, now, r),
    {
        let now = unix_timestamp();
        let r = self.enter_at(token, now);
        assert(enter_outcome(self@, token@, now as int, r));
        r
    }

    /// Gives a pending session its shell at `now`, under the given handle, if its token is
    /// still good and has got no session meanwhile.
    pub fn open_session_under(
        &mut self,
        pending: PendingSession,
        shell: S,
        handle: String,
        now: i64,
    ) -> (r: Result<(EnterResult, Option<S>), (ApiError, S)>)
        ensures
            open_outcome(
                old(self)@,
                pending@,
                shell,
                handle@,
                now as int,
                final(self)@,
                r,
            ),
    {
        match self.auth.standing_at(pending.token_jti.as_str(), pending.expires_at, now) {
            Ok(()) => {},
            Err(error) => return Err((ApiError::from(error), shell)),
        }
        match self.sessions.handle_of(pending.token_jti.as_str()) {
            Some(live) => Ok((EnterResult::reused(live), Some(shell))),
            None => {
                self.sessions.open(handle.clone(), pending.token_jti, pending.expires_at, shell);
                Ok((EnterResult::created(handle), None))
            },
        }
    }

    /// Gives a pending session its shell now, under a fresh random handle, if its token is
    /// still good and has got no session meanwhile.
    pub fn open_session(&mut self, pending: PendingSession, shell: S) -> (r: Result<
        (EnterResult, Option<S>),
        (ApiError, S),
    >)
        ensures
            exists|random: Seq<u8>, now: int|
                random.len() == 32 && i64::MIN <= now <= i64::MAX && #[trigger] open_outcome(
                    old(self)@,
                    pending@,
                    shell,
                    handle_text(random),
                    now,
                    final(self)@,
                    r,
                ),
    {
        let handle = strong_handle();
        let now = unix_timestamp();
        let ghost random = choose|random: Seq<u8>|
            random.len() == 32 && handle@ == #[trigger] handle_text(random);
        let r = self.open_session_under(pending, shell, handle, now);
        assert(open_outcome(
            old(self)@,
            pending@,
            shell,
            handle_text(random),
            now as int,
            self@,
            r,
        ));
        r
    }

    /// Decides at `now` whether the holder of `handle` may run a command, and for how long.
    pub fn run_at(&mut self, handle: &str, requested_timeout: Option<u64>, now: i64) -> (r: Result<
        u64,
        ApiError,
    >)
        ensures
            run_outcome(
                old(self)@,
                handle@,
                requested_timeout,
                now as int,
                final(self)@,
                r,
            ),
    {
        let limit = self.config.max_command_seconds;
        let timeout = match requested_timeout {
            Some(seconds) => seconds,
            None => limit,
        };
        if timeout == 0 || timeout > limit {
            return Err(
                ApiError::bad_request(
                    "timeout_seconds must be between 1 and ".to_owned().concat(
                        decimal_text(limit).as_str(),
                    ),
                ),
            );
        }
        if self.sessions.is_expired(handle, now) {
            let _ = self.sessions.remove(handle);
            return Err(ApiError::from(AuthError::Expired));
        }
        match self.sessions.shell(handle) {
            Some(_) => Ok(timeout),
            None => Err(ApiError::from(AuthError::InvalidCredential)),
        }
    }

    /// Decides whether the holder of `handle` may run a command now, and for how long.
    pub fn run(&mut self, handle: &str, requested_timeout: Option<u64>) -> (r: Result<
        u64,
        ApiError,
    >)
        ensures
            exists|now: int|
                i64::MIN <= now <= i64::MAX && #[trigger] run_outcome(
                    old(self)@,
                        handle@,
                    requested_timeout,
                    now,
                    final(self)@,
                    r,
                ),
    {
        let now = unix_timestamp();
        let r = self.run_at(handle, requested_timeout, now);
        assert(run_outcome(
            old(self)@,
            handle@,
            requested_timeout,
            now as int,
            self@,
            r,
        ));
        r
    }

    /// The shell of the session under `handle`.
    pub fn session_shell(&self, handle: &str) -> (r: Option<&S>)
        ensures
            match r {
                Some(shell) => self@.sessions.by_handle.dom().contains(handle@)
                    && self@.sessions.by_handle[handle@].shell == *shell,
                None => !self@.sessions.by_handle.dom().contains(handle@),
            },
    {
        self.sessions.shell(handle)
    }

    /// Takes what came of a command. A session whose command failed to run ends.
    pub fn finish_run(&mut self, handle: &str, result: Result<ExecutionResult, ShellError>) -> (r:
        Result<ExecutionResult, ApiError>)
        ensures
            match result {
                Ok(done) => r == Ok::<ExecutionResult, ApiError>(done) && final(self)@ == old(
                    self,
                )@,
                Err(error) => final(self)@ == ended(old(self)@, handle@) && exists|
                    cause: Seq<char>,
                |
                    refused(r, #[trigger] shell_refusal(error, cause)),
            },
    {
        match result {
            Ok(done) => Ok(done),
            Err(error) => {
                let _ = self.sessions.remove(handle);
                Err(ApiError::from(error))
            },
        }
    }

    /// Ends the session under `handle`, and hands back its shell.
    pub fn destroy_session(&mut self, handle: &str) -> (r: Result<S, ApiError>)
        ensures
            final(self)@ == ended(old(self)@, handle@),
            if old(self)@.sessions.by_handle.dom().contains(handle@) {
                r == Ok::<S, ApiError>(old(self)@.sessions.by_handle[handle@].shell)
            } else {
                refused(r, auth_refusal(AuthError::InvalidCredential))
            },
    {
        match self.sessions.remove(handle) {
            Some(shell) => Ok(shell),
            None => Err(ApiError::from(AuthError::InvalidCredential)),
        }
    }

    /// Ends every session of the token `jti`, and hands back their shells.
    fn destroy_sessions_for_token(&mut self, jti: &str) -> (shells: Vec<S>)
        ensures
            final(self)@ == (ServiceState {
                sessions: without_token(old(self)@.sessions, jti@),
                ..old(self)@
            }),
            are_shells_of(old(self)@.sessions, jti@, shells@),
    {
        self.sessions.remove_all_of(jti)
    }

    /// Revokes the token `jti`, ends its sessions, and hands back their shells.
    pub fn revoke_named(&mut self, jti: &str) -> (r: Result<Vec<S>, ApiError>)
        ensures
            revocation_outcome(old(self)@, jti@, final(self)@, r),
    {
        match self.auth.revoke(jti) {
            Ok(()) => {},
            Err(error) => return Err(ApiError::from(error)),
        }
        Ok(self.destroy_sessions_for_token(jti))
    }

    /// Revokes `token`, ends its sessions, and hands back their shells. A token that has
    /// expired can still be revoked.
    pub fn revoke_token(&mut self, token: &str) -> (r: Result<Vec<S>, ApiError>)
        ensures
            match identity_verdict(old(self)@.auth, token@) {
                Some(claims) => revocation_outcome(old(self)@, claims.jti, final(self)@, r),
                None => refused(r, auth_refusal(AuthError::InvalidToken)) && final(self)@ == old(
                    self,
                )@,
            },
    {
        match self.auth.token_identity(token) {
            Ok(claims) => self.revoke_named(claims.jti.as_str()),
            Err(error) => Err(ApiError::from(error)),
        }
    }
}

/// What an attempt to authenticate leads to, when it starts, has a one-time code checked,
/// and finishes at the given times.
pub open spec fn authenticated<S>(
    state: ServiceState<S>,
    credential: Credential,
    started: int,
    code_time: Option<u64>,
    finished: int,
) -> (ServiceState<S>, Result<(), AuthError>) {
    let (auth, verdict) = credential_outcome(
        state.auth,
        credential.kind,
        credential.value@,
        started,
        code_time,
        finished,
    );
    (ServiceState { auth, ..state }, verdict)
}

/// Whether an attempt to authenticate ended as described.
pub open spec fn authentication_outcome(verdict: Result<(), AuthError>, r: Result<(), ApiError>)
    -> bool {
    match verdict {
        Ok(()) => r is Ok,
        Err(error) => refused(r, auth_refusal(error)),
    }
}

/// The lifetime that a request for a token asks for: none for a permanent one, else the
/// requested number of seconds or the default. A lifetime of zero is nothing.
pub open spec fn requested_lifetime(ttl_seconds: Option<u64>, permanent: bool) -> Option<
    Option<u64>,
> {
    let lifetime = if permanent {
        None
    } else {
        match ttl_seconds {
            Some(ttl) => Some(ttl),
            None => Some(DEFAULT_TOKEN_TTL_SECONDS),
        }
    };
    if lifetime == Some(0u64) {
        None
    } else {
        Some(lifetime)
    }
}

/// What a request for a token leads to once its sender has authenticated: see
/// [`requested_lifetime`] and [`issue_outcome`].
pub open spec fn grant_outcome<S>(
    before: ServiceState<S>,
    ttl_seconds: Option<u64>,
    permanent: bool,
    now: int,
    jti: Seq<char>,
    after: ServiceState<S>,
    r: Result<IssueResponse, ApiError>,
) -> bool {
    match requested_lifetime(ttl_seconds, permanent) {
        None => after == before && refused(
            r,
            bad_request_refusal("ttl_seconds must be greater than zero"@),
        ),
        Some(lifetime) => {
            let issued = match r {
                Ok(response) => Ok::<(String, TokenRecord), AuthError>(
                    (response.token, response.record),
                ),
                Err(_) => Err(AuthError::Internal),
            };
            &&& issue_outcome(before.auth, lifetime, now, jti, after.auth, issued)
            &&& after == (ServiceState { auth: after.auth, ..before })
            &&& r is Ok ==> r->Ok_0.warning@ == TOKEN_WARNING@
            &&& r is Err ==> refused(r, auth_refusal(AuthError::Internal))
        },
    }
}

/// What a request for a token leads to.
pub open spec fn issuing_outcome<S>(
    attempt: (ServiceState<S>, Result<(), AuthError>),
    ttl_seconds: Option<u64>,
    permanent: bool,
    now: int,
    jti: Seq<char>,
    after: ServiceState<S>,
    r: Result<IssueResponse, ApiError>,
) -> bool {
    match attempt.1 {
        Err(error) => after == attempt.0 && refused(r, auth_refusal(error)),
        Ok(()) => grant_outcome(attempt.0, ttl_seconds, permanent, now, jti, after, r),
    }
}

/// What a request for the list of tokens leads to.
pub open spec fn listing_outcome<S>(
    attempt: (ServiceState<S>, Result<(), AuthError>),
    after: ServiceState<S>,
    r: Result<Vec<TokenRecord>, ApiError>,
) -> bool {
    &&& after == attempt.0
    &&& match attempt.1 {
        Err(error) => refused(r, auth_refusal(error)),
        Ok(()) => r is Ok && is_listing(after.auth.tokens, record_views(r->Ok_0@)),
    }
}

/// What an administrator's request to revoke the token `jti` leads to.
pub open spec fn admin_revocation_outcome<S>(
    attempt: (ServiceState<S>, Result<(), AuthError>),
    jti: Seq<char>,
    after: ServiceState<S>,
    r: Result<Vec<S>, ApiError>,
) -> bool {
    match attempt.1 {
        Err(error) => after == attempt.0 && refused(r, auth_refusal(error)),
        Ok(()) => revocation_outcome(attempt.0, jti, after, r),
    }
}

impl<S> AppState<S> {
    /// Checks `credential` in an attempt with the given times.
    pub fn authenticate_at(
        &mut self,
        credential: &Credential,
        started: Instant,
        code_time: Option<u64>,
        finished: Instant,
    ) -> (r: Result<(), ApiError>)
        ensures
            ({
                let attempt = authenticated(
                    old(self)@,
                    *credential,
                    started.nanos as int,
                    code_time,
                    finished.nanos as int,
                );
                final(self)@ == attempt.0 && authentication_outcome(attempt.1, r)
            }),
    {
        match self.auth.verify_credential_at(credential, started, code_time, finished) {
            Ok(()) => Ok(()),
            Err(error) => Err(ApiError::from(error)),
        }
    }

    /// Checks `credential` now.
    pub fn authenticate(&mut self, credential: &Credential) -> (r: Result<(), ApiError>)
        ensures
            exists|started: int, code_time: Option<u64>, finished: int|
                {
                    let attempt = #[trigger] authenticated(
                        old(self)@,
                        *credential,
                        started,
                        code_time,
                        finished,
                    );
                    final(self)@ == attempt.0 && authentication_outcome(attempt.1, r)
                },
    {
        let verdict = self.auth.verify_credential(credential);
        let ghost (started, code_time, finished): (int, Option<u64>, int) = choose|
            started: int,
            code_time: Option<u64>,
            finished: int,
        |
            (self.auth@, verdict) == #[trigger] credential_outcome(
                old(self).auth@,
                credential.kind,
                credential.value@,
                started,
                code_time,
                finished,
            );
        assert(authenticated(old(self)@, *credential, started, code_time, finished) == (
            self@,
            verdict,
        ));
        match verdict {
            Ok(()) => Ok(()),
            Err(error) => Err(ApiError::from(error)),
        }
    }

    /// Issues a token at `now` under the name `jti`, for a sender who has authenticated.
    pub fn grant_token_at(
        &mut self,
        ttl_seconds: Option<u64>,
        permanent: bool,
        now: i64,
        jti: String,
    ) -> (r: Result<IssueResponse, ApiError>)
        ensures
            grant_outcome(old(self)@, ttl_seconds, permanent, now as int, jti@, final(self)@, r),
    {
        let lifetime = if permanent {
            None
        } else {
            match ttl_seconds {
                Some(ttl) => Some(ttl),
                None => Some(DEFAULT_TOKEN_TTL_SECONDS),
            }
        };
        if let Some(seconds) = lifetime {
            if seconds == 0 {
                return Err(
                    ApiError::bad_request("ttl_seconds must be greater than zero".to_owned()),
                );
            }
        }
        match self.auth.issue_token_at(lifetime, now, jti) {
            Ok((token, record)) => Ok(IssueResponse { token, record, warning: TOKEN_WARNING }),
            Err(error) => Err(ApiError::from(error)),
        }
    }

    /// Issues a token to whoever presents a right credential: for 24 hours unless another
    /// lifetime is asked for, or without an end.
    pub fn issue(
        &mut self,
        credential: &Credential,
        ttl_seconds: Option<u64>,
        permanent: bool,
    ) -> (r: Result<IssueResponse, ApiError>)
        ensures
            exists|
                started: int,
                code_time: Option<u64>,
                finished: int,
                now: int,
                jti: Seq<char>,
            |
                is_uuid_v4(jti) && i64::MIN <= now <= i64::MAX && #[trigger] issuing_outcome(
                    authenticated(old(self)@, *credential, started, code_time, finished),
                    ttl_seconds,
                    permanent,
                    now,
                    jti,
                    final(self)@,
                    r,
                ),
    {
        let admitted = self.authenticate(credential);
        let ghost (started, code_time, finished): (int, Option<u64>, int) = choose|
            started: int,
            code_time: Option<u64>,
            finished: int,
        |
            {
                let attempt = #[trigger] authenticated(
                    old(self)@,
                    *credential,
                    started,
                    code_time,
                    finished,
                );
                self@ == attempt.0 && authentication_outcome(attempt.1, admitted)
            };
        let now = unix_timestamp();
        let jti = random_uuid();
        let r = match admitted {
            Ok(()) => self.grant_token_at(ttl_seconds, permanent, now, jti),
            Err(error) => Err(error),
        };
        assert(issuing_outcome(
            authenticated(old(self)@, *credential, started, code_time, finished),
            ttl_seconds,
            permanent,
            now as int,
            jti@,
            self@,
            r,
        ));
        r
    }

    /// Lists every token of this run, for whoever presents a right credential.
    pub fn list_tokens(&mut self, credential: &Credential) -> (r: Result<
        Vec<TokenRecord>,
        ApiError,
    >)
        ensures
            exists|started: int, code_time: Option<u64>, finished: int|
                listing_outcome(
                    #[trigger] authenticated(
                        old(self)@,
                        *credential,
                        started,
                        code_time,
                        finished,
                    ),
                    final(self)@,
                    r,
                ),
    {
        match self.authenticate(credential) {
            Ok(()) => Ok(self.auth.list()),
            Err(error) => Err(error),
        }
    }

    /// Revokes the token `jti`, for whoever presents a right credential, ends its sessions,
    /// and hands back their shells.
    pub fn admin_revoke(&mut self, credential: &Credential, jti: &str) -> (r: Result<
        Vec<S>,
        ApiError,
    >)
        ensures
            exists|started: int, code_time: Option<u64>, finished: int|
                admin_revocation_outcome(
                    #[trigger] authenticated(
                        old(self)@,
                        *credential,
                        started,
                        code_time,
                        finished,
                    ),
                    jti@,
                    final(self)@,
                    r,
                ),
    {
        match self.authenticate(credential) {
            Ok(()) => self.revoke_named(jti),
            Err(error) => Err(error),
        }
    }
}

/// Whether the sessions are consistent and every one of them belongs to a token that this
/// run issued and that was not revoked.
pub open spec fn sound<S>(state: ServiceState<S>) -> bool {
    &&& consistent(state.sessions)
    &&& forall|handle: Seq<char>| #[trigger]
        state.sessions.by_handle.dom().contains(handle) ==> {
            let jti = state.sessions.by_handle[handle].token_jti;
            state.auth.tokens.dom().contains(jti) && !state.auth.tokens[jti].revoked
        }
}

/// A service without sessions is sound.
pub proof fn law_new_service_is_sound<S>(state: ServiceState<S>)
    requires
        state.sessions == (StoreView::<S> { by_handle: Map::empty(), by_token: Map::empty() }),
    ensures
        sound(state),
{
    law_no_sessions_are_consistent(state.sessions);
}

/// Opening any pending session, however old, under a handle that is not in use keeps the
/// service sound.
pub proof fn law_opening_keeps_soundness<S>(
    state: ServiceState<S>,
    pending: PendingView,
    shell: S,
    handle: Seq<char>,
    now: int,
    after: ServiceState<S>,
    r: Result<(EnterResult, Option<S>), (ApiError, S)>,
)
    requires
        sound(state),
        !state.sessions.by_handle.dom().contains(handle),
        open_outcome(state, pending, shell, handle, now, after, r),
    ensures
        sound(after),
{
    if after != state {
        let session = SessionView {
            token_jti: pending.token_jti,
            expires_at: pending.expires_at,
            shell,
        };
        law_open_keeps_consistency(state.sessions, handle, session);
        assert forall|h: Seq<char>| #[trigger] after.sessions.by_handle.dom().contains(h) implies {
            let jti = after.sessions.by_handle[h].token_jti;
            after.auth.tokens.dom().contains(jti) && !after.auth.tokens[jti].revoked
        } by {
            if h != handle {
                assert(state.sessions.by_handle.dom().contains(h));
            }
        }
    }
}

/// Ending a session keeps the service sound.
pub proof fn law_ending_keeps_soundness<S>(state: ServiceState<S>, handle: Seq<char>)
    requires
        sound(state),
    ensures
        sound(ended(state, handle)),
{
    law_remove_keeps_consistency(state.sessions, handle);
    let after = ended(state, handle);
    assert forall|h: Seq<char>| #[trigger] after.sessions.by_handle.dom().contains(h) implies {
        let jti = after.sessions.by_handle[h].token_jti;
        after.auth.tokens.dom().contains(jti) && !after.auth.tokens[jti].revoked
    } by {
        assert(state.sessions.by_handle.dom().contains(h));
    }
}

/// Revoking a token keeps the service sound.
pub proof fn law_revoking_keeps_soundness<S>(state: ServiceState<S>, jti: Seq<char>)
    requires
        sound(state),
    ensures
        sound(revoked(state, jti)),
{
    law_revocation_ends_every_session(state.sessions, jti);
    let after = revoked(state, jti);
    assert forall|h: Seq<char>| #[trigger] after.sessions.by_handle.dom().contains(h) implies {
        let owner = after.sessions.by_handle[h].token_jti;
        after.auth.tokens.dom().contains(owner) && !after.auth.tokens[owner].revoked
    } by {
        assert(state.sessions.by_handle.dom().contains(h));
        assert(!owns(state.sessions, jti, h));
    }
}

/// Authenticating and issuing a token keep the service sound.
pub proof fn law_issuing_keeps_soundness<S>(
    state: ServiceState<S>,
    credential: Credential,
    started: int,
    code_time: Option<u64>,
    finished: int,
    ttl_seconds: Option<u64>,
    permanent: bool,
    now: int,
    jti: Seq<char>,
    after: ServiceState<S>,
    r: Result<IssueResponse, ApiError>,
)
    requires
        sound(state),
        issuing_outcome(
            authenticated(state, credential, started, code_time, finished),
            ttl_seconds,
            permanent,
            now,
            jti,
            after,
            r,
        ),
    ensures
        sound(authenticated(state, credential, started, code_time, finished).0),
        sound(after),
        after.sessions == state.sessions,
{
    assert(after.sessions == state.sessions);
    assert forall|h: Seq<char>| #[trigger] after.sessions.by_handle.dom().contains(h) implies {
        let owner = after.sessions.by_handle[h].token_jti;
        after.auth.tokens.dom().contains(owner) && !after.auth.tokens[owner].revoked
    } by {
        assert(state.sessions.by_handle.dom().contains(h));
    }
}

/// One token, one session: once a token has entered, entering again with it gives back the
/// same handle, as long as the token is good and the session lives.
pub proof fn law_second_entry_reuses_the_session<S>(
    state: ServiceState<S>,
    pending: PendingView,
    shell: S,
    handle: Seq<char>,
    now: int,
    after: ServiceState<S>,
    first: Result<(EnterResult, Option<S>), (ApiError, S)>,
    token: Seq<char>,
    later: int,
    second: Result<EnterStep, ApiError>,
)
    requires
        open_outcome(state, pending, shell, handle, now, after, first),
        first is Ok,
        token_verdict(after.auth, token, later) is Ok,
        token_verdict(after.auth, token, later)->Ok_0.jti == pending.token_jti,
        enter_outcome(after, token, later, second),
    ensures
        second is Ok,
        second->Ok_0 is Reuse,
        second->Ok_0->Reuse_0@ == reused_session(first->Ok_0.0.handle@),
{
    if first->Ok_0.1 is None {
        assert(after.sessions.by_token.dom().contains(pending.token_jti));
    }
}

/// Two entries with one token that were both decided before either was opened still end in
/// one session: the second gets the handle of the first, and its shell is handed back.
pub proof fn law_two_pending_sessions_end_in_one<S>(
    state: ServiceState<S>,
    pending: PendingView,
    shell: S,
    handle: Seq<char>,
    now: int,
    between: ServiceState<S>,
    first: Result<(EnterResult, Option<S>), (ApiError, S)>,
    other_shell: S,
    other_handle: Seq<char>,
    later: int,
    after: ServiceState<S>,
    second: Result<(EnterResult, Option<S>), (ApiError, S)>,
)
    requires
        open_outcome(state, pending, shell, handle, now, between, first),
        first is Ok,
        open_outcome(between, pending, other_shell, other_handle, later, after, second),
        pending.expires_at is Some ==> later < pending.expires_at->0,
    ensures
        second is Ok,
        second->Ok_0.0@ == reused_session(first->Ok_0.0.handle@),
        second->Ok_0.1 == Some(other_shell),
        after == between,
{
    if first->Ok_0.1 is None {
        assert(between.sessions.by_token.dom().contains(pending.token_jti));
    }
}

/// A new session can be used at once, until its token expires, for as long as the
/// configuration allows.
pub proof fn law_opened_session_runs<S>(
    state: ServiceState<S>,
    pending: PendingView,
    shell: S,
    handle: Seq<char>,
    requested: Option<u64>,
    now: int,
    after: ServiceState<S>,
    r: Result<u64, ApiError>,
)
    requires
        state.config.max_command_seconds > 0,
        requested is Some ==> 1 <= requested->0 <= state.config.max_command_seconds,
        pending.expires_at is Some ==> now < pending.expires_at->0,
        run_outcome(opened(state, pending, shell, handle), handle, requested, now, after, r),
    ensures
        r == Ok::<u64, ApiError>(command_timeout(requested, state.config.max_command_seconds)),
        after == opened(state, pending, shell, handle),
{
}

/// No session outlives its token: from the moment of expiry on, running a command is
/// refused, and the session is gone.
pub proof fn law_session_ends_with_its_token<S>(
    state: ServiceState<S>,
    handle: Seq<char>,
    requested: Option<u64>,
    now: int,
    after: ServiceState<S>,
    r: Result<u64, ApiError>,
)
    requires
        state.sessions.by_handle.dom().contains(handle),
        state.sessions.by_handle[handle].expires_at is Some,
        now >= state.sessions.by_handle[handle].expires_at->0,
        1 <= command_timeout(requested, state.config.max_command_seconds)
            <= state.config.max_command_seconds,
        run_outcome(state, handle, requested, now, after, r),
    ensures
        refused(r, auth_refusal(AuthError::Expired)),
        !after.sessions.by_handle.dom().contains(handle),
{
}

/// No command runs longer than configured, and none for no time at all.
pub proof fn law_timeouts_are_bounded<S>(
    state: ServiceState<S>,
    handle: Seq<char>,
    requested: Option<u64>,
    now: int,
    after: ServiceState<S>,
    r: Result<u64, ApiError>,
)
    requires
        run_outcome(state, handle, requested, now, after, r),
    ensures
        r is Ok ==> 1 <= r->Ok_0 <= state.config.max_command_seconds,
        r is Ok ==> state.sessions.by_handle.dom().contains(handle),
{
}

/// Once a session has ended, its handle is good for nothing: it runs no command.
pub proof fn law_ended_handle_is_refused<S>(
    state: ServiceState<S>,
    handle: Seq<char>,
    requested: Option<u64>,
    now: int,
    after: ServiceState<S>,
    r: Result<u64, ApiError>,
)
    requires
        run_outcome(ended(state, handle), handle, requested, now, after, r),
    ensures
        r is Err,
        after == ended(state, handle),
        1 <= command_timeout(requested, state.config.max_command_seconds)
            <= state.config.max_command_seconds ==> refused(
            r,
            auth_refusal(AuthError::InvalidCredential),
        ),
{
}

/// Revoking a token takes everything from it: none of its handles runs a command any more,
/// and it cannot enter again.
pub proof fn law_revoked_token_has_no_access<S>(
    state: ServiceState<S>,
    token: Seq<char>,
    claims: ClaimsView,
    r: Result<Vec<S>, ApiError>,
    after: ServiceState<S>,
    handle: Seq<char>,
    requested: Option<u64>,
    now: int,
    later: ServiceState<S>,
    run: Result<u64, ApiError>,
    enter: Result<EnterStep, ApiError>,
)
    requires
        identity_verdict(state.auth, token) == Some(claims),
        revocation_outcome(state, claims.jti, after, r),
        owns(state.sessions, claims.jti, handle),
        run_outcome(after, handle, requested, now, later, run),
        enter_outcome(after, token, now, enter),
    ensures
        r is Ok,
        run is Err,
        enter is Err,
        enter->Err_0@.status == 401,
        1 <= command_timeout(requested, state.config.max_command_seconds)
            <= state.config.max_command_seconds ==> refused(
            run,
            auth_refusal(AuthError::InvalidCredential),
        ),
{
    law_revoked_token_is_refused(state.auth, token, claims, now);
}

/// Whether the token called `jti` was revoked and has no session.
pub open spec fn barred<S>(state: ServiceState<S>, jti: Seq<char>) -> bool {
    &&& state.auth.tokens.dom().contains(jti)
    &&& state.auth.tokens[jti].revoked
    &&& forall|handle: Seq<char>| !#[trigger] owns(state.sessions, jti, handle)
}

/// Revoking a token bars it.
pub proof fn law_revoking_bars<S>(state: ServiceState<S>, jti: Seq<char>)
    requires
        state.auth.tokens.dom().contains(jti),
    ensures
        barred(revoked(state, jti), jti),
{
    law_revocation_ends_every_session(state.sessions, jti);
}

/// A barred token opens no session, even one that was found due to it before it was
/// revoked: the shell is handed back and the state stays.
pub proof fn law_barred_token_opens_nothing<S>(
    state: ServiceState<S>,
    pending: PendingView,
    shell: S,
    handle: Seq<char>,
    now: int,
    after: ServiceState<S>,
    r: Result<(EnterResult, Option<S>), (ApiError, S)>,
)
    requires
        barred(state, pending.token_jti),
        open_outcome(state, pending, shell, handle, now, after, r),
    ensures
        r is Err,
        r->Err_0.0@.status == 401,
        r->Err_0.1 == shell,
        after == state,
{
}

/// Whether `after` can follow `before`: one session was opened or ended, one token issued
/// or revoked, or somebody tried to authenticate. Handles and names of tokens that are new
/// are not in use already.
pub open spec fn service_step<S>(before: ServiceState<S>, after: ServiceState<S>) -> bool {
    ||| after == before
    ||| exists|
        pending: PendingView,
        shell: S,
        handle: Seq<char>,
        now: int,
        r: Result<(EnterResult, Option<S>), (ApiError, S)>,
    |
        !before.sessions.by_handle.dom().contains(handle) && #[trigger] open_outcome(
            before,
            pending,
            shell,
            handle,
            now,
            after,
            r,
        )
    ||| exists|handle: Seq<char>| after == #[trigger] ended(before, handle)
    ||| exists|jti: Seq<char>|
        before.auth.tokens.dom().contains(jti) && after == #[trigger] revoked(before, jti)
    ||| exists|
        credential: Credential,
        started: int,
        code_time: Option<u64>,
        finished: int,
    |
        after == (#[trigger] authenticated(before, credential, started, code_time, finished)).0
    ||| exists|
        ttl_seconds: Option<u64>,
        permanent: bool,
        now: int,
        jti: Seq<char>,
        r: Result<IssueResponse, ApiError>,
    |
        !before.auth.tokens.dom().contains(jti) && #[trigger] grant_outcome(
            before,
            ttl_seconds,
            permanent,
            now,
            jti,
            after,
            r,
        )
}

/// Running a command and revoking a token take the service one step.
pub proof fn law_requests_are_steps<S>(
    before: ServiceState<S>,
    handle: Seq<char>,
    requested: Option<u64>,
    now: int,
    ran: ServiceState<S>,
    run: Result<u64, ApiError>,
    jti: Seq<char>,
    after_revoke: ServiceState<S>,
    revoke: Result<Vec<S>, ApiError>,
)
    requires
        run_outcome(before, handle, requested, now, ran, run),
        revocation_outcome(before, jti, after_revoke, revoke),
    ensures
        service_step(before, ran),
        service_step(before, after_revoke),
{
}

/// Whether `states` are what a service went through, step by step.
pub open spec fn is_run<S>(states: Seq<ServiceState<S>>) -> bool {
    forall|i: int| 0 < i < states.len() ==> service_step(states[i - 1], #[trigger] states[i])
}

proof fn lemma_step_keeps_soundness<S>(before: ServiceState<S>, after: ServiceState<S>)
    requires
        sound(before),
        service_step(before, after),
    ensures
        sound(after),
{
    if after == before {
    } else if exists|
        pending: PendingView,
        shell: S,
        handle: Seq<char>,
        now: int,
        r: Result<(EnterResult, Option<S>), (ApiError, S)>,
    |
        !before.sessions.by_handle.dom().contains(handle) && #[trigger] open_outcome(
            before,
            pending,
            shell,
            handle,
            now,
            after,
            r,
        ) {
        let (pending, shell, handle, now, r) = choose|
            pending: PendingView,
            shell: S,
            handle: Seq<char>,
            now: int,
            r: Result<(EnterResult, Option<S>), (ApiError, S)>,
        |
            !before.sessions.by_handle.dom().contains(handle) && #[trigger] open_outcome(
                before,
                pending,
                shell,
                handle,
                now,
                after,
                r,
            );
        law_opening_keeps_soundness(before, pending, shell, handle, now, after, r);
    } else if exists|handle: Seq<char>| after == #[trigger] ended(before, handle) {
        let handle = choose|handle: Seq<char>| after == #[trigger] ended(before, handle);
        law_ending_keeps_soundness(before, handle);
    } else if exists|jti: Seq<char>|
        before.auth.tokens.dom().contains(jti) && after == #[trigger] revoked(before, jti) {
        let jti = choose|jti: Seq<char>|
            before.auth.tokens.dom().contains(jti) && after == #[trigger] revoked(before, jti);
        law_revoking_keeps_soundness(before, jti);
    } else {
        assert(after.sessions == before.sessions);
        assert forall|h: Seq<char>| #[trigger] after.sessions.by_handle.dom().contains(h) implies {
            let owner = after.sessions.by_handle[h].token_jti;
            after.auth.tokens.dom().contains(owner) && !after.auth.tokens[owner].revoked
        } by {
            assert(before.sessions.by_handle.dom().contains(h));
        }
    }
}

/// A service that began without sessions is sound at every moment: a token has at most one
/// session, every session is found from its token, and none belongs to a revoked one.
pub proof fn law_service_is_always_sound<S>(states: Seq<ServiceState<S>>, i: int)
    requires
        is_run(states),
        0 <= i < states.len(),
        states[0].sessions == (StoreView::<S> { by_handle: Map::empty(), by_token: Map::empty() }),
    ensures
        sound(states[i]),
    decreases i,
{
    if i == 0 {
        law_new_service_is_sound(states[0]);
    } else {
        law_service_is_always_sound(states, i - 1);
        lemma_step_keeps_soundness(states[i - 1], states[i]);
    }
}

proof fn lemma_step_keeps_barred<S>(
    before: ServiceState<S>,
    after: ServiceState<S>,
    jti: Seq<char>,
)
    requires
        barred(before, jti),
        service_step(before, after),
    ensures
        barred(after, jti),
{
    assert forall|handle: Seq<char>| !#[trigger] owns(after.sessions, jti, handle) by {
        assert(!owns(before.sessions, jti, handle));
    }
}

/// Once a token is revoked it stays out: at no later moment has it a session, enters, or
/// opens one, and no command is admitted on a session of its.
pub proof fn law_revoked_token_stays_out<S>(
    states: Seq<ServiceState<S>>,
    i: int,
    j: int,
    jti: Seq<char>,
)
    requires
        is_run(states),
        0 <= i <= j < states.len(),
        barred(states[i], jti),
    ensures
        barred(states[j], jti),
        forall|token: Seq<char>, now: int|
            (#[trigger] token_verdict(states[j].auth, token, now)) is Ok ==> token_verdict(
                states[j].auth,
                token,
                now,
            )->Ok_0.jti != jti,
        forall|
            handle: Seq<char>,
            requested: Option<u64>,
            now: int,
            after: ServiceState<S>,
            r: Result<u64, ApiError>,
        |
            (#[trigger] run_outcome(states[j], handle, requested, now, after, r)) && r is Ok
                ==> states[j].sessions.by_handle[handle].token_jti != jti,
    decreases j - i,
{
    if i < j {
        law_revoked_token_stays_out(states, i, j - 1, jti);
        lemma_step_keeps_barred(states[j - 1], states[j], jti);
    }
    assert forall|
        handle: Seq<char>,
        requested: Option<u64>,
        now: int,
        after: ServiceState<S>,
        r: Result<u64, ApiError>,
    |
        (#[trigger] run_outcome(states[j], handle, requested, now, after, r)) && r is Ok implies
        states[j].sessions.by_handle[handle].token_jti != jti by {
        assert(!owns(states[j].sessions, jti, handle));
    }
}

/// Without a right credential nothing is issued, listed or revoked: the sessions and the
/// tokens stay as they were.
pub proof fn law_administration_needs_a_credential<S>(
    state: ServiceState<S>,
    credential: Credential,
    started: int,
    code_time: Option<u64>,
    finished: int,
)
    ensures
        ({
            let attempt = authenticated(state, credential, started, code_time, finished);
            attempt.1 is Err ==> {
                &&& attempt.0.sessions == state.sessions
                &&& attempt.0.auth.tokens == state.auth.tokens
                &&& forall|
                    ttl_seconds: Option<u64>,
                    permanent: bool,
                    now: int,
                    jti: Seq<char>,
                    after: ServiceState<S>,
                    r: Result<IssueResponse, ApiError>,
                | #[trigger]
                    issuing_outcome(attempt, ttl_seconds, permanent, now, jti, after, r)
                        ==> r is Err && after == attempt.0
                &&& forall|after: ServiceState<S>, r: Result<Vec<TokenRecord>, ApiError>|
                    #[trigger]
                    listing_outcome(attempt, after, r) ==> r is Err && after == attempt.0
                &&& forall|jti: Seq<char>, after: ServiceState<S>, r: Result<Vec<S>, ApiError>|
                    #[trigger]
                    admin_revocation_outcome(attempt, jti, after, r) ==> r is Err && after
                        == attempt.0
            }
        }),
{
}

/// A token that is granted without a word on its lifetime expires after exactly 24 hours; a
/// permanent one never does.
pub proof fn law_default_lifetime<S>(
    state: ServiceState<S>,
    permanent: bool,
    now: int,
    jti: Seq<char>,
    after: ServiceState<S>,
    r: Result<IssueResponse, ApiError>,
)
    requires
        grant_outcome(state, None, permanent, now, jti, after, r),
        now + 86_400 <= i64::MAX,
    ensures
        r is Ok,
        r->Ok_0.record@.expires_at == (if permanent {
            None
        } else {
            Some(now + 86_400)
        }),
{
}

/// A token that was granted opens a session, from the moment on that it was granted until
/// it expires.
pub proof fn law_granted_token_enters<S>(
    state: ServiceState<S>,
    ttl_seconds: Option<u64>,
    permanent: bool,
    now: int,
    jti: Seq<char>,
    after: ServiceState<S>,
    r: Result<IssueResponse, ApiError>,
    later: int,
    enter: Result<EnterStep, ApiError>,
)
    requires
        grant_outcome(state, ttl_seconds, permanent, now, jti, after, r),
        r is Ok,
        r->Ok_0.record@.expires_at is Some ==> later < r->Ok_0.record@.expires_at->0,
        enter_outcome(after, r->Ok_0.token@, later, enter),
    ensures
        enter is Ok,
        live_handle(state.sessions, jti) is None ==> enter->Ok_0 is Open
            && enter->Ok_0->Open_0@.token_jti == jti && enter->Ok_0->Open_0@.expires_at
            == r->Ok_0.record@.expires_at,
{
    let lifetime = requested_lifetime(ttl_seconds, permanent)->0;
    let issued = Ok::<(String, TokenRecord), AuthError>((r->Ok_0.token, r->Ok_0.record));
    law_issued_token_is_accepted_until_expiry(
        state.auth,
        lifetime,
        now,
        jti,
        after.auth,
        issued,
        later,
    );
}

/// What a refused caller is told: the status and the words for each kind of refusal.
pub proof fn law_refusals_are_told(error: AuthError, message: Seq<char>)
    ensures
        error is InvalidCredential ==> auth_refusal(error).status == 401 && auth_refusal(
            error,
        ).message == "invalid credential"@,
        error is RateLimited ==> auth_refusal(error).status == 429 && auth_refusal(error).message
            == "too many authentication attempts; retry later"@,
        error is InvalidToken ==> auth_refusal(error).status == 401 && auth_refusal(error).message
            == "invalid token"@,
        error is Expired ==> auth_refusal(error).status == 401 && auth_refusal(error).message
            == "token expired"@,
        error is Revoked ==> auth_refusal(error).status == 401 && auth_refusal(error).message
            == "token has been revoked"@,
        error is Internal ==> auth_refusal(error).status == 500 && auth_refusal(error).message
            == "authentication subsystem error"@,
        bad_request_refusal(message).status == 400,
        bad_request_refusal(message).message == message,
{
}

/// What a caller is told whose command could not be run: a command that took too long is told
/// from every other failure by its status, and each by its words.
pub proof fn law_failed_commands_are_told(error: ShellError, cause: Seq<char>)
    ensures
        error is Timeout ==> shell_refusal(error, cause).status == 408 && shell_refusal(
            error,
            cause,
        ).message == "command exceeded the "@ + decimal(error->Timeout_0 as nat)
            + "-second timeout; the session was destroyed"@,
        !(error is Timeout) ==> shell_refusal(error, cause).status == 500,
        error is Start ==> shell_refusal(error, cause).message == "failed to start PowerShell: "@
            + cause,
        error is Ended ==> shell_refusal(error, cause).message
            == "PowerShell session ended unexpectedly"@,
        error is Io ==> shell_refusal(error, cause).message == "PowerShell I/O failed: "@ + cause,
        error is InvalidResponse ==> shell_refusal(error, cause).message
            == "PowerShell returned an invalid response"@,
{
}

/// A refusal is an error that carries exactly the status and the words of the refusal.
pub proof fn law_refusal_is_the_answer<T>(r: Result<T, ApiError>, refusal: ApiErrorView)
    ensures
        refused(r, refusal) <==> r is Err && r->Err_0@.status == refusal.status
            && r->Err_0@.message == refusal.message,
{
}

/// A command is admitted if and only if the time asked for is at least one second and at most
/// the configured limit, there is a session under the handle, and its token has no end or one
/// that is still ahead. It is then given exactly the time that was asked for, or exactly the
/// configured limit where no time was asked for. Every refusal says what was wrong, the time
/// first; only the session of a token that has ended is taken away.
pub proof fn law_commands_are_admitted<S>(
    before: ServiceState<S>,
    handle: Seq<char>,
    requested: Option<u64>,
    now: int,
    after: ServiceState<S>,
    r: Result<u64, ApiError>,
)
    requires
        run_outcome(before, handle, requested, now, after, r),
    ensures
        ({
            let limit = before.config.max_command_seconds;
            let in_bounds = match requested {
                Some(seconds) => 1 <= seconds <= limit,
                None => limit >= 1,
            };
            let known = before.sessions.by_handle.dom().contains(handle);
            let expiry = before.sessions.by_handle[handle].expires_at;
            let over = expiry is Some && now >= expiry->0;
            &&& r is Ok <==> in_bounds && known && !over
            &&& r is Ok && requested is None ==> r->Ok_0 == limit
            &&& r is Ok && requested is Some ==> r->Ok_0 == requested->0
            &&& !(in_bounds && known && over) ==> after == before
            &&& !in_bounds ==> r->Err_0@.status == 400 && r->Err_0@.message
                == "timeout_seconds must be between 1 and "@ + decimal(limit as nat)
            &&& in_bounds && !known ==> r->Err_0@.status == 401 && r->Err_0@.message
                == "invalid credential"@
            &&& in_bounds && known && over ==> {
                &&& r->Err_0@.status == 401
                &&& r->Err_0@.message == "token expired"@
                &&& after.config == before.config
                &&& after.auth == before.auth
                &&& after.sessions.by_handle == before.sessions.by_handle.remove(handle)
                &&& after.sessions.by_token == before.sessions.by_token.remove(
                    before.sessions.by_handle[handle].token_jti,
                )
            }
        }),
{
}

/// A token is granted for exactly the time that was asked for: where `now` and the requested
/// number of seconds add up to a moment that the clock has, both the record and the signed
/// claims end at that moment, however far ahead it is. A lifetime of zero is refused, and so
/// is one past the range of the clock. A permanent token has no end, whatever number came
/// with the request, and one without a word on its lifetime ends after 24 hours.
pub proof fn law_requested_lifetime_is_granted<S>(
    before: ServiceState<S>,
    ttl_seconds: Option<u64>,
    permanent: bool,
    now: int,
    jti: Seq<char>,
    after: ServiceState<S>,
    r: Result<IssueResponse, ApiError>,
)
    requires
        i64::MIN <= now <= i64::MAX,
        grant_outcome(before, ttl_seconds, permanent, now, jti, after, r),
    ensures
        !permanent && ttl_seconds is Some && ttl_seconds->0 == 0 ==> r is Err
            && r->Err_0@.status == 400 && r->Err_0@.message
            == "ttl_seconds must be greater than zero"@ && after == before,
        !permanent && ttl_seconds is Some && ttl_seconds->0 > 0 && ttl_seconds->0
            <= 0x7fff_ffff_ffff_ffff && now + ttl_seconds->0 <= 0x7fff_ffff_ffff_ffff ==> {
            let claims = jwt_claims(r->Ok_0.token@, ed25519_public_key(before.auth.seed));
            &&& r is Ok
            &&& r->Ok_0.record.expires_at is Some
            &&& r->Ok_0.record.expires_at->0 == now + ttl_seconds->0
            &&& claims is Some
            &&& claims->0.exp == Some(now + ttl_seconds->0)
        },
        !permanent && ttl_seconds is Some && (ttl_seconds->0 > 0x7fff_ffff_ffff_ffff || now
            + ttl_seconds->0 > 0x7fff_ffff_ffff_ffff) && ttl_seconds->0 > 0 ==> r is Err
            && r->Err_0@.status == 500 && r->Err_0@.message == "authentication subsystem error"@
            && after == before,
        !permanent && ttl_seconds is None && now + 86_400 <= 0x7fff_ffff_ffff_ffff ==> {
            let claims = jwt_claims(r->Ok_0.token@, ed25519_public_key(before.auth.seed));
            &&& r is Ok
            &&& r->Ok_0.record.expires_at is Some
            &&& r->Ok_0.record.expires_at->0 == now + 86_400
            &&& claims is Some
            &&& claims->0.exp == Some(now + 86_400)
        },
        !permanent && ttl_seconds is None && now + 86_400 > 0x7fff_ffff_ffff_ffff ==> r is Err
            && r->Err_0@.status == 500 && after == before,
        permanent ==> {
            let claims = jwt_claims(r->Ok_0.token@, ed25519_public_key(before.auth.seed));
            &&& r is Ok
            &&& r->Ok_0.record.expires_at is None
            &&& claims is Some
            &&& claims->0.exp is None
        },
        r is Ok ==> {
            let claims = jwt_claims(r->Ok_0.token@, ed25519_public_key(before.auth.seed));
            &&& r->Ok_0.record.jti@ == jti
            &&& r->Ok_0.record.issued_at == now
            &&& !r->Ok_0.record.revoked
            &&& claims->0.iss == before.auth.instance_id
            &&& claims->0.jti == jti
            &&& claims->0.iat == now
            &&& r->Ok_0.warning@
                == "This token grants full administrator/root command execution. It naturally becomes invalid when SudoServer restarts."@
            &&& after.auth.tokens == before.auth.tokens.insert(jti, r->Ok_0.record@)
        },
        after.config == before.config,
        after.sessions == before.sessions,
        after.auth.seed == before.auth.seed,
        after.auth.instance_id == before.auth.instance_id,
        after.auth.password_hash == before.auth.password_hash,
        after.auth.totp_secret == before.auth.totp_secret,
        after.auth.attempts == before.auth.attempts,
{
}

/// Entering with a good token gives the handle of its live session, and says that it was
/// there before; without one a session is due to that very token, until that token's own end.
/// A token that is not good is refused.
pub proof fn law_entering_is_decided<S>(
    state: ServiceState<S>,
    token: Seq<char>,
    now: int,
    r: Result<EnterStep, ApiError>,
)
    requires
        enter_outcome(state, token, now, r),
    ensures
        r is Ok <==> token_verdict(state.auth, token, now) is Ok,
        r is Err ==> r->Err_0@.status == 401,
        token_verdict(state.auth, token, now) matches Err(error) ==> {
            &&& error is InvalidToken ==> r->Err_0@.message == "invalid token"@
            &&& error is Expired ==> r->Err_0@.message == "token expired"@
            &&& error is Revoked ==> r->Err_0@.message == "token has been revoked"@
        },
        token_verdict(state.auth, token, now) matches Ok(claims) ==> {
            let by_token = state.sessions.by_token;
            let live = by_token.dom().contains(claims.jti) && state.sessions.by_handle.dom().contains(
                by_token[claims.jti],
            );
            &&& live ==> r->Ok_0 is Reuse && r->Ok_0->Reuse_0.handle@ == by_token[claims.jti]
                && r->Ok_0->Reuse_0.reused && r->Ok_0->Reuse_0.message@
                == "Reused the token's existing privileged session."@
            &&& !live ==> r->Ok_0 is Open && r->Ok_0->Open_0@.token_jti == claims.jti
                && r->Ok_0->Open_0@.expires_at == claims.exp
        },
{
}

/// Opening a session. A token that has ended, was revoked or is not known opens nothing, and
/// the shell comes back. Where the token has a live session already, that one is given, and
/// the shell comes back. Otherwise the shell is kept under the new handle, for that token and
/// until its end; no other session changes, and the caller is told that the session is new.
pub proof fn law_opening_is_decided<S>(
    before: ServiceState<S>,
    pending: PendingView,
    shell: S,
    handle: Seq<char>,
    now: int,
    after: ServiceState<S>,
    r: Result<(EnterResult, Option<S>), (ApiError, S)>,
)
    requires
        open_outcome(before, pending, shell, handle, now, after, r),
    ensures
        ({
            let tokens = before.auth.tokens;
            let over = pending.expires_at is Some && now >= pending.expires_at->0;
            let known = tokens.dom().contains(pending.token_jti);
            let good = !over && known && !tokens[pending.token_jti].revoked;
            let by_token = before.sessions.by_token;
            let live = by_token.dom().contains(pending.token_jti)
                && before.sessions.by_handle.dom().contains(by_token[pending.token_jti]);
            &&& r is Ok <==> good
            &&& !good ==> r->Err_0.1 == shell && r->Err_0.0@.status == 401 && after == before
            &&& over ==> r->Err_0.0@.message == "token expired"@
            &&& !over && !known ==> r->Err_0.0@.message == "invalid token"@
            &&& !over && known && tokens[pending.token_jti].revoked ==> r->Err_0.0@.message
                == "token has been revoked"@
            &&& good && live ==> {
                &&& after == before
                &&& r->Ok_0.1 == Some(shell)
                &&& r->Ok_0.0.handle@ == by_token[pending.token_jti]
                &&& r->Ok_0.0.reused
                &&& r->Ok_0.0.message@ == "Reused the token's existing privileged session."@
            }
            &&& good && !live ==> {
                &&& r->Ok_0.1 is None
                &&& r->Ok_0.0.handle@ == handle
                &&& !r->Ok_0.0.reused
                &&& r->Ok_0.0.message@
                    == "Created a new privileged PowerShell session. Treat the handle as a password."@
                &&& after.config == before.config
                &&& after.auth == before.auth
                &&& after.sessions.by_handle == before.sessions.by_handle.insert(
                    handle,
                    SessionView {
                        token_jti: pending.token_jti,
                        expires_at: pending.expires_at,
                        shell,
                    },
                )
                &&& after.sessions.by_token == by_token.insert(pending.token_jti, handle)
            }
        }),
{
}

/// Ending a session takes it and its token's entry out, and changes nothing else.
pub proof fn law_ending_changes_one_session<S>(before: ServiceState<S>, handle: Seq<char>)
    ensures
        ended(before, handle).config == before.config,
        ended(before, handle).auth == before.auth,
        ended(before, handle).sessions.by_handle == before.sessions.by_handle.remove(handle),
        before.sessions.by_handle.dom().contains(handle) ==> ended(
            before,
            handle,
        ).sessions.by_token == before.sessions.by_token.remove(
            before.sessions.by_handle[handle].token_jti,
        ),
        !before.sessions.by_handle.dom().contains(handle) ==> ended(
            before,
            handle,
        ).sessions.by_token == before.sessions.by_token,
{
    if !before.sessions.by_handle.dom().contains(handle) {
        assert(before.sessions.by_handle.remove(handle) =~= before.sessions.by_handle);
    }
}

/// Revoking a token that this run issued marks it, ends exactly its own sessions, and hands
/// back exactly their shells; any other name is refused, and nothing changes.
pub proof fn law_revoking_is_decided<S>(
    before: ServiceState<S>,
    jti: Seq<char>,
    after: ServiceState<S>,
    r: Result<Vec<S>, ApiError>,
    handle: Seq<char>,
    other: Seq<char>,
)
    requires
        revocation_outcome(before, jti, after, r),
    ensures
        r is Ok <==> before.auth.tokens.dom().contains(jti),
        r is Err ==> after == before && r->Err_0@.status == 401 && r->Err_0@.message
            == "invalid token"@,
        r is Ok ==> {
            let old_handles = before.sessions.by_handle;
            let new_handles = after.sessions.by_handle;
            &&& after.config == before.config
            &&& after.auth.tokens.dom() == before.auth.tokens.dom()
            &&& after.auth.tokens[jti].revoked
            &&& after.auth.tokens[jti].jti == before.auth.tokens[jti].jti
            &&& after.auth.tokens[jti].issued_at == before.auth.tokens[jti].issued_at
            &&& after.auth.tokens[jti].expires_at == before.auth.tokens[jti].expires_at
            &&& other != jti ==> after.auth.tokens[other] == before.auth.tokens[other]
            &&& after.auth.attempts == before.auth.attempts
            &&& after.auth.seed == before.auth.seed
            &&& after.auth.instance_id == before.auth.instance_id
            &&& after.auth.password_hash == before.auth.password_hash
            &&& after.auth.totp_secret == before.auth.totp_secret
            &&& new_handles.dom().contains(handle) <==> old_handles.dom().contains(handle)
                && old_handles[handle].token_jti != jti
            &&& new_handles.dom().contains(handle) ==> new_handles[handle] == old_handles[handle]
            &&& other != jti ==> (after.sessions.by_token.dom().contains(other)
                <==> before.sessions.by_token.dom().contains(other))
            &&& other != jti && before.sessions.by_token.dom().contains(other)
                ==> after.sessions.by_token[other] == before.sessions.by_token[other]
            &&& exists|handles: Seq<Seq<char>>|
                {
                    &&& #[trigger] handles.no_duplicates()
                    &&& handles.len() == r->Ok_0@.len()
                    &&& forall|h: Seq<char>| #[trigger]
                        handles.contains(h) <==> old_handles.dom().contains(h)
                            && old_handles[h].token_jti == jti
                    &&& forall|i: int|
                        0 <= i < r->Ok_0@.len() ==> #[trigger] r->Ok_0@[i]
                            == old_handles[handles[i]].shell
                }
        },
{
    if r is Ok {
        law_owned_shells_are_handed_back(before.sessions, jti, r->Ok_0@);
        law_ending_all_removes_what_is_owned(before.sessions, jti, handle);
        law_ending_all_removes_what_is_owned(before.sessions, jti, other);
        assert(after.auth.tokens.dom() =~= before.auth.tokens.dom());
    }
}

/// Whoever asks for an administrative act must authenticate first. A refused attempt is
/// answered with its refusal and does nothing; an accepted one is followed by the act itself.
pub proof fn law_administration_follows_the_attempt<S>(
    before: ServiceState<S>,
    credential: Credential,
    started: int,
    code_time: Option<u64>,
    finished: int,
    auth: AuthState,
    verdict: Result<(), AuthError>,
    r: Result<(), ApiError>,
)
    requires
        (auth, verdict) == credential_outcome(
            before.auth,
            credential.kind,
            credential.value@,
            started,
            code_time,
            finished,
        ),
        authentication_outcome(
            authenticated(before, credential, started, code_time, finished).1,
            r,
        ),
    ensures
        ({
            let attempt = authenticated(before, credential, started, code_time, finished);
            &&& attempt.0.auth == auth
            &&& attempt.0.config == before.config
            &&& attempt.0.sessions == before.sessions
            &&& r is Ok <==> verdict is Ok
            &&& verdict matches Err(error) ==> {
                &&& error is RateLimited ==> r->Err_0@.status == 429 && r->Err_0@.message
                    == "too many authentication attempts; retry later"@
                &&& error is Internal ==> r->Err_0@.status == 500 && r->Err_0@.message
                    == "authentication subsystem error"@
                &&& error is InvalidCredential ==> r->Err_0@.status == 401 && r->Err_0@.message
                    == "invalid credential"@
            }
            &&& verdict is Ok ==> {
                &&& forall|
                    ttl_seconds: Option<u64>,
                    permanent: bool,
                    now: int,
                    jti: Seq<char>,
                    after: ServiceState<S>,
                    issued: Result<IssueResponse, ApiError>,
                | #[trigger]
                    issuing_outcome(attempt, ttl_seconds, permanent, now, jti, after, issued)
                        ==> grant_outcome(
                        attempt.0,
                        ttl_seconds,
                        permanent,
                        now,
                        jti,
                        after,
                        issued,
                    )
                &&& forall|after: ServiceState<S>, listed: Result<Vec<TokenRecord>, ApiError>|
                    #[trigger]
                    listing_outcome(attempt, after, listed) ==> listed is Ok && after == attempt.0
                        && is_listing(before.auth.tokens, record_views(listed->Ok_0@))
                &&& forall|jti: Seq<char>, after: ServiceState<S>, r: Result<Vec<S>, ApiError>|
                    #[trigger]
                    admin_revocation_outcome(attempt, jti, after, r) ==> revocation_outcome(
                        attempt.0,
                        jti,
                        after,
                        r,
                    )
            }
            &&& verdict is Err ==> {
                &&& forall|
                    ttl_seconds: Option<u64>,
                    permanent: bool,
                    now: int,
                    jti: Seq<char>,
                    after: ServiceState<S>,
                    issued: Result<IssueResponse, ApiError>,
                | #[trigger]
                    issuing_outcome(attempt, ttl_seconds, permanent, now, jti, after, issued)
                        ==> issued is Err && issued->Err_0@ == r->Err_0@ && after == attempt.0
                &&& forall|after: ServiceState<S>, listed: Result<Vec<TokenRecord>, ApiError>|
                    #[trigger]
                    listing_outcome(attempt, after, listed) ==> listed is Err && listed->Err_0@
                        == r->Err_0@ && after == attempt.0
                &&& forall|jti: Seq<char>, after: ServiceState<S>, gone: Result<Vec<S>, ApiError>|
                    #[trigger]
                    admin_revocation_outcome(attempt, jti, after, gone) ==> gone is Err
                        && gone->Err_0@ == r->Err_0@ && after == attempt.0
            }
        }),
{
}

} // verus!
