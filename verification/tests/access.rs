use sudoserver::auth::{AuthError, AuthManager, Credential, CredentialKind};
use sudoserver::clock::Instant;
use sudoserver::config::Config;
use sudoserver::server::{
    ApiError, AppState, EnterResult, EnterStep, PendingSession, TOKEN_WARNING,
};
use sudoserver::session::SessionStore;
use sudoserver::shell::{ExecutionResult, ShellError};

/// The Argon2id verifier of "password" with the salt "somesalt".
const PASSWORD_VERIFIER: &str =
    "$argon2id$v=19$m=256,t=2,p=1$c29tZXNhbHQ$nf65EOgLrQMR/uIPnA4rEsF5h7TKyQwu9U1bMCHGi/4";

const NOW: i64 = 1_700_000_000;

fn service() -> AppState<u32> {
    let config = Config {
        password_hash: PASSWORD_VERIFIER.to_owned(),
        max_command_seconds: 10,
        ..Config::default()
    };
    AppState::new(config, AuthManager::new(PASSWORD_VERIFIER.to_owned(), None))
}

fn password(value: &str) -> Credential {
    Credential {
        kind: CredentialKind::Password,
        value: value.to_owned(),
    }
}

fn grant(service: &mut AppState<u32>, name: &str, ttl: Option<u64>) -> String {
    service
        .grant_token_at(ttl, ttl.is_none(), NOW, name.to_owned())
        .unwrap()
        .token
}

fn open(service: &mut AppState<u32>, token: &str, shell: u32, handle: &str) -> EnterResult {
    let pending = pending(service, token);
    match service.open_session_under(pending, shell, handle.to_owned(), NOW) {
        Ok((result, None)) => result,
        Ok((_, Some(_))) => panic!("the shell is handed back"),
        Err((error, _)) => panic!("{}", error.to_string()),
    }
}

fn pending(service: &AppState<u32>, token: &str) -> PendingSession {
    match service.enter_at(token, NOW).unwrap() {
        EnterStep::Open(pending) => pending,
        EnterStep::Reuse(_) => panic!("the session is there already"),
    }
}

fn reuse(service: &AppState<u32>, token: &str) -> EnterResult {
    match service.enter_at(token, NOW).unwrap() {
        EnterStep::Reuse(result) => result,
        EnterStep::Open(_) => panic!("there is no session"),
    }
}

fn refusal<T>(r: Result<T, ApiError>) -> (u16, String) {
    let error = r.err().unwrap();
    (error.status(), error.to_string())
}

fn unauthorized(message: &str) -> (u16, String) {
    (401, message.to_owned())
}

#[test]
fn a_session_is_reused_until_its_token_is_revoked() {
    let mut service = service();
    let token = grant(&mut service, "t", Some(120));
    let first = open(&mut service, &token, 1, "handle");
    assert_eq!(first.handle, "handle");
    assert!(!first.reused);
    assert_eq!(
        first.message,
        "Created a new privileged PowerShell session. Treat the handle as a password."
    );
    let second = reuse(&service, &token);
    assert_eq!(second.handle, "handle");
    assert!(second.reused);
    assert_eq!(second.message, "Reused the token's existing privileged session.");
    assert_eq!(service.run_at("handle", None, NOW).unwrap(), 10);
    assert_eq!(service.session_shell("handle"), Some(&1));

    assert_eq!(service.revoke_token(&token).unwrap(), vec![1]);
    assert_eq!(refusal(service.run_at("handle", None, NOW)), unauthorized("invalid credential"));
    assert_eq!(
        refusal(service.enter_at(&token, NOW)),
        unauthorized("token has been revoked")
    );
    assert_eq!(service.session_shell("handle"), None);
}

#[test]
fn random_handles_are_strong_and_differ() {
    let mut service = service();
    let mut handles: Vec<String> = Vec::new();
    for (shell, name) in [(1, "a"), (2, "b")] {
        let token = grant(&mut service, name, None);
        if let EnterStep::Open(pending) = service.enter(&token).unwrap() {
            let (result, left) = service.open_session(pending, shell).unwrap();
            assert!(!result.reused);
            assert_eq!(left, None);
            handles.push(result.handle);
        }
    }
    assert_eq!(handles.len(), 2);
    assert_ne!(handles[0], handles[1]);
    for handle in &handles {
        assert_eq!(handle.len(), 43);
        assert!(handle.chars().all(|c| c.is_ascii_alphanumeric() || c == '-' || c == '_'));
        assert!(service.run(handle, None).is_ok());
    }
}

#[test]
fn a_revoked_token_opens_nothing_that_was_due_to_it() {
    let mut service = service();
    let token = grant(&mut service, "t", None);
    let due = pending(&service, &token);
    let again = pending(&service, &token);
    assert!(service.revoke_token(&token).unwrap().is_empty());
    let (error, shell) = service
        .open_session_under(due, 7, "handle".to_owned(), NOW)
        .unwrap_err();
    assert_eq!((error.status(), error.to_string()), unauthorized("token has been revoked"));
    assert_eq!(shell, 7);
    assert_eq!(service.session_shell("handle"), None);
    assert_eq!(refusal(service.run_at("handle", None, NOW)), unauthorized("invalid credential"));
    let (error, shell) = service.open_session(again, 8).unwrap_err();
    assert_eq!((error.status(), shell), (401, 8));
}

#[test]
fn two_entries_decided_at_once_end_in_one_session() {
    let mut service = service();
    let token = grant(&mut service, "t", None);
    let first = pending(&service, &token);
    let second = pending(&service, &token);
    let (created, left) = service
        .open_session_under(first, 1, "one".to_owned(), NOW)
        .unwrap();
    assert_eq!((created.handle.as_str(), created.reused, left), ("one", false, None));
    let (reused, left) = service
        .open_session_under(second, 2, "two".to_owned(), NOW)
        .unwrap();
    assert_eq!((reused.handle.as_str(), reused.reused, left), ("one", true, Some(2)));
    assert_eq!(service.session_shell("one"), Some(&1));
    assert_eq!(service.session_shell("two"), None);
    assert_eq!(service.revoke_token(&token).unwrap(), vec![1]);
}

#[test]
fn a_token_that_expired_meanwhile_opens_nothing() {
    let mut service = service();
    let token = grant(&mut service, "t", Some(60));
    let due = pending(&service, &token);
    let (error, shell) = service
        .open_session_under(due, 1, "handle".to_owned(), NOW + 60)
        .unwrap_err();
    assert_eq!((error.status(), error.to_string()), unauthorized("token expired"));
    assert_eq!(shell, 1);
    let mut other = self::service();
    let due = pending(&service, &token);
    let (error, _) = other
        .open_session_under(due, 1, "handle".to_owned(), NOW)
        .unwrap_err();
    assert_eq!((error.status(), error.to_string()), unauthorized("invalid token"));
}

#[test]
fn each_token_has_its_own_session() {
    let mut service = service();
    let first = grant(&mut service, "first", None);
    let second = grant(&mut service, "second", None);
    open(&mut service, &first, 1, "one");
    open(&mut service, &second, 2, "two");
    assert_eq!(reuse(&service, &first).handle, "one");
    assert_eq!(reuse(&service, &second).handle, "two");
    assert_eq!(service.revoke_token(&first).unwrap(), vec![1]);
    assert_eq!(service.session_shell("one"), None);
    assert_eq!(service.session_shell("two"), Some(&2));
    assert_eq!(reuse(&service, &second).handle, "two");
}

#[test]
fn a_destroyed_session_is_gone() {
    let mut service = service();
    let token = grant(&mut service, "t", None);
    open(&mut service, &token, 1, "old");
    assert_eq!(service.destroy_session("old").unwrap(), 1);
    assert_eq!(refusal(service.destroy_session("old")), unauthorized("invalid credential"));
    assert_eq!(refusal(service.run_at("old", None, NOW)), unauthorized("invalid credential"));
    assert_eq!(open(&mut service, &token, 2, "new").handle, "new");
}

#[test]
fn an_expired_session_ends() {
    let mut service = service();
    let token = grant(&mut service, "t", Some(60));
    open(&mut service, &token, 1, "handle");
    assert_eq!(service.run_at("handle", Some(5), NOW + 59).unwrap(), 5);
    assert_eq!(refusal(service.run_at("handle", None, NOW + 60)), unauthorized("token expired"));
    assert_eq!(service.session_shell("handle"), None);
    assert_eq!(
        refusal(service.run_at("handle", None, NOW + 60)),
        unauthorized("invalid credential")
    );
    assert_eq!(refusal(service.enter_at(&token, NOW + 60)), unauthorized("token expired"));
}

#[test]
fn an_expired_token_can_still_be_revoked() {
    let mut service = service();
    let token = grant(&mut service, "t", Some(1));
    open(&mut service, &token, 4, "handle");
    assert_eq!(refusal(service.enter(&token)), unauthorized("token expired"));
    assert_eq!(service.revoke_token(&token).unwrap(), vec![4]);
}

#[test]
fn timeouts_are_bounded() {
    let mut service = service();
    let token = grant(&mut service, "t", None);
    open(&mut service, &token, 1, "handle");
    let refused = (400, "timeout_seconds must be between 1 and 10".to_owned());
    assert_eq!(refusal(service.run_at("handle", Some(0), NOW)), refused);
    assert_eq!(refusal(service.run_at("handle", Some(11), NOW)), refused);
    assert_eq!(refusal(service.run_at("nobody", Some(11), NOW)), refused);
    assert_eq!(service.run_at("handle", Some(1), NOW).unwrap(), 1);
    assert_eq!(service.run_at("handle", Some(10), NOW).unwrap(), 10);
    assert_eq!(refusal(service.run_at("nobody", None, NOW)), unauthorized("invalid credential"));
}

#[test]
fn a_command_that_fails_to_run_ends_its_session() {
    let mut service = service();
    let token = grant(&mut service, "t", None);
    open(&mut service, &token, 1, "handle");
    let result = ExecutionResult {
        output: "out".to_owned(),
        exit_code: 3,
        success: false,
        truncated: false,
    };
    let passed_on = service.finish_run("handle", Ok(result)).unwrap();
    assert_eq!(passed_on.output, "out");
    assert_eq!(passed_on.exit_code, 3);
    assert_eq!(service.session_shell("handle"), Some(&1));

    assert_eq!(
        refusal(service.finish_run("handle", Err(ShellError::Timeout(5)))),
        (
            408,
            "command exceeded the 5-second timeout; the session was destroyed".to_owned()
        )
    );
    assert_eq!(service.session_shell("handle"), None);
    assert_eq!(open(&mut service, &token, 2, "next").handle, "next");
    assert_eq!(
        refusal(service.finish_run("next", Err(ShellError::Ended))),
        (500, "PowerShell session ended unexpectedly".to_owned())
    );
}

#[test]
fn tokens_last_a_day_unless_asked_otherwise() {
    let mut service = service();
    let daily = service.grant_token_at(None, false, NOW, "daily".to_owned()).unwrap();
    assert_eq!(daily.record.expires_at, Some(NOW + 86_400));
    assert_eq!(daily.warning, TOKEN_WARNING);
    assert_eq!(
        TOKEN_WARNING,
        "This token grants full administrator/root command execution. It naturally becomes invalid when SudoServer restarts."
    );
    let forever = service.grant_token_at(Some(5), true, NOW, "forever".to_owned()).unwrap();
    assert_eq!(forever.record.expires_at, None);
    let short = service.grant_token_at(Some(1), false, NOW, "short".to_owned()).unwrap();
    assert_eq!(short.record.expires_at, Some(NOW + 1));
    let never = service.grant_token_at(Some(0), false, NOW, "never".to_owned());
    assert_eq!(refusal(never), (400, "ttl_seconds must be greater than zero".to_owned()));
    let permanent = service.grant_token_at(Some(0), true, NOW, "zero".to_owned()).unwrap();
    assert_eq!(permanent.record.expires_at, None);
    let endless = service.grant_token_at(Some(u64::MAX), false, NOW, "endless".to_owned());
    assert_eq!(refusal(endless), (500, "authentication subsystem error".to_owned()));
}

#[test]
fn administration_needs_the_password() {
    let mut service = service();
    let token = grant(&mut service, "t", None);
    open(&mut service, &token, 1, "handle");
    let wrong = password("wrong password");
    assert_eq!(refusal(service.issue(&wrong, Some(0), false)), unauthorized("invalid credential"));
    assert_eq!(refusal(service.list_tokens(&wrong)), unauthorized("invalid credential"));
    assert_eq!(refusal(service.admin_revoke(&wrong, "t")), unauthorized("invalid credential"));
    assert_eq!(service.session_shell("handle"), Some(&1));
    let right = password("password");
    assert_eq!(service.list_tokens(&right).unwrap().len(), 1);
    let issued = service.issue(&right, Some(60), false).unwrap();
    assert!(matches!(service.enter(&issued.token), Ok(EnterStep::Open(_))));
    assert_eq!(service.list_tokens(&right).unwrap().len(), 2);
    assert_eq!(
        refusal(service.issue(&right, Some(0), false)),
        (400, "ttl_seconds must be greater than zero".to_owned())
    );
    assert_eq!(service.admin_revoke(&right, "t").unwrap(), vec![1]);
    assert_eq!(service.session_shell("handle"), None);
    assert_eq!(refusal(service.admin_revoke(&right, "u")), unauthorized("invalid token"));
}

#[test]
fn administration_locks_after_five_failures() {
    let mut service = service();
    let at = Instant::from_epoch(Ok((1000, 0)));
    for _ in 0..5 {
        let refused = service.authenticate_at(&password("wrong"), at, None, at);
        assert_eq!(refusal(refused), unauthorized("invalid credential"));
    }
    let locked = service.authenticate_at(&password("password"), at, None, at);
    assert_eq!(
        refusal(locked),
        (429, "too many authentication attempts; retry later".to_owned())
    );
    let later = Instant::from_epoch(Ok((1060, 0)));
    assert!(service.authenticate_at(&password("password"), later, None, later).is_ok());
}

#[test]
fn tokens_of_another_run_are_refused() {
    let mut first = service();
    let mut second = service();
    let token = grant(&mut first, "t", None);
    grant(&mut second, "t", None);
    assert_eq!(refusal(second.enter_at(&token, NOW)), unauthorized("invalid token"));
    assert_eq!(refusal(second.revoke_token(&token)), unauthorized("invalid token"));
    assert!(first.enter_at(&token, NOW).is_ok());
}

#[test]
fn refusals_have_a_status_and_a_message() {
    let bad = ApiError::bad_request("why".to_owned());
    assert_eq!((bad.status(), bad.to_string()), (400, "why".to_owned()));
    let internal = ApiError::internal("why".to_owned());
    assert_eq!((internal.status(), internal.to_string()), (500, "why".to_owned()));
    for (error, status) in [
        (AuthError::InvalidCredential, 401),
        (AuthError::RateLimited, 429),
        (AuthError::InvalidToken, 401),
        (AuthError::Expired, 401),
        (AuthError::Revoked, 401),
        (AuthError::Internal, 500),
    ] {
        let refused = ApiError::from(error);
        assert_eq!((refused.status(), refused.to_string()), (status, error.to_string()));
    }
    for (error, status) in [
        (ShellError::Ended, 500),
        (ShellError::InvalidResponse, 500),
        (ShellError::Timeout(1), 408),
    ] {
        let text = error.to_string();
        let refused = ApiError::from(error);
        assert_eq!((refused.status(), refused.to_string()), (status, text));
    }
}

#[test]
fn every_session_of_a_token_ends_with_it() {
    let mut store: SessionStore<u32> = SessionStore::new();
    store.open("a".to_owned(), "t".to_owned(), None, 1);
    store.open("b".to_owned(), "u".to_owned(), Some(50), 2);
    store.open("c".to_owned(), "t".to_owned(), None, 3);
    assert_eq!(store.handle_of("t"), Some("c".to_owned()));
    assert!(!store.is_expired("b", 49));
    assert!(store.is_expired("b", 50));
    assert!(!store.is_expired("a", i64::MAX));
    let mut shells = store.remove_all_of("t");
    shells.sort();
    assert_eq!(shells, vec![1, 3]);
    assert_eq!(store.handle_of("t"), None);
    assert_eq!(store.shell("a"), None);
    assert_eq!(store.shell("b"), Some(&2));
    assert_eq!(store.remove("b"), Some(2));
    assert_eq!(store.remove("b"), None);
    assert_eq!(store.handle_of("u"), None);
    assert!(store.remove_all_of("t").is_empty());
}
