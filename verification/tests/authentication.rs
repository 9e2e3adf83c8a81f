use base64::engine::general_purpose::URL_SAFE_NO_PAD;
use base64::Engine as _;
use ed25519_dalek::{Signature, Verifier, VerifyingKey};
use sudoserver::auth::{
    create_totp, fingerprint_token, generate_totp_secret, hash_password, AuthError, AuthManager,
    Credential, CredentialKind, DEFAULT_TOKEN_TTL_SECONDS,
};
use sudoserver::clock::{seconds_since_epoch, whole_seconds, Instant};
use sudoserver::secret::SecretBytes;

/// The Argon2id verifier of "password" with the salt "somesalt".
const PASSWORD_VERIFIER: &str =
    "$argon2id$v=19$m=256,t=2,p=1$c29tZXNhbHQ$nf65EOgLrQMR/uIPnA4rEsF5h7TKyQwu9U1bMCHGi/4";

const SHARED_SECRET: &[u8] = b"12345678901234567890";

fn manager() -> AuthManager {
    AuthManager::new(hash_password(b"correct horse").unwrap(), None)
}

fn cheap_manager() -> AuthManager {
    AuthManager::new(
        PASSWORD_VERIFIER.to_owned(),
        Some(SecretBytes::new(SHARED_SECRET.to_vec())),
    )
}

fn password(value: &str) -> Credential {
    Credential {
        kind: CredentialKind::Password,
        value: value.to_owned(),
    }
}

fn code(value: &str) -> Credential {
    Credential {
        kind: CredentialKind::Totp,
        value: value.to_owned(),
    }
}

fn at(seconds: u64) -> Instant {
    Instant::from_epoch(Ok((seconds, 0)))
}

#[test]
fn password_verification_and_rate_limit() {
    let mut auth = manager();
    let good = Credential {
        kind: CredentialKind::Password,
        value: "correct horse".into(),
    };
    assert!(auth.verify_credential(&good).is_ok());
    for _ in 0..5 {
        let bad = Credential {
            kind: CredentialKind::Password,
            value: "wrong".into(),
        };
        assert!(matches!(
            auth.verify_credential(&bad),
            Err(AuthError::InvalidCredential)
        ));
    }
    assert!(matches!(
        auth.verify_credential(&good),
        Err(AuthError::RateLimited)
    ));
}

#[test]
fn token_is_signed_expires_and_revokes() {
    let mut auth = manager();
    let (token, record) = auth.issue_token(Some(60)).unwrap();
    assert_eq!(auth.verify_token(&token).unwrap().jti, record.jti);
    let mut tampered = token.clone();
    tampered.push('x');
    assert!(matches!(
        auth.verify_token(&tampered),
        Err(AuthError::InvalidToken)
    ));
    auth.revoke(&record.jti).unwrap();
    assert!(matches!(auth.verify_token(&token), Err(AuthError::Revoked)));
}

#[test]
fn signing_keys_are_ephemeral() {
    let mut first = manager();
    let second = manager();
    let (token, _) = first.issue_token(None).unwrap();
    assert!(second.verify_token(&token).is_err());
    assert_ne!(first.public_key_base64(), second.public_key_base64());
}

#[test]
fn totp_is_compatible_with_standard_sha1_six_digit_apps() {
    let secret = generate_totp_secret();
    let totp = create_totp(secret.as_slice()).unwrap();
    let code = totp.generate_current().unwrap();
    assert!(totp.check_current(&code).unwrap());
    assert!(totp.get_url().starts_with("otpauth://totp/"));
}

#[test]
fn five_failures_lock_until_a_minute_has_passed() {
    let mut auth = cheap_manager();
    for second in 0..5 {
        let refused =
            auth.verify_credential_at(&password("wrong"), at(1000 + second), None, at(1000 + second));
        assert_eq!(refused, Err(AuthError::InvalidCredential));
    }
    let locked = auth.verify_credential_at(&password("password"), at(1059), None, at(1059));
    assert_eq!(locked, Err(AuthError::RateLimited));
    let open = auth.verify_credential_at(&password("password"), at(1060), None, at(1060));
    assert_eq!(open, Ok(()));
}

#[test]
fn a_success_clears_the_failures() {
    let mut auth = cheap_manager();
    for _ in 0..4 {
        let refused = auth.verify_credential_at(&password("wrong"), at(50), None, at(50));
        assert_eq!(refused, Err(AuthError::InvalidCredential));
    }
    assert_eq!(auth.verify_credential_at(&password("password"), at(51), None, at(51)), Ok(()));
    for _ in 0..5 {
        let refused = auth.verify_credential_at(&password("wrong"), at(52), None, at(52));
        assert_eq!(refused, Err(AuthError::InvalidCredential));
    }
    let locked = auth.verify_credential_at(&password("password"), at(53), None, at(53));
    assert_eq!(locked, Err(AuthError::RateLimited));
}

#[test]
fn a_failure_in_the_future_does_not_count() {
    let mut auth = cheap_manager();
    for _ in 0..5 {
        let refused = auth.verify_credential_at(&password("wrong"), at(500), None, at(500));
        assert_eq!(refused, Err(AuthError::InvalidCredential));
    }
    assert_eq!(auth.verify_credential_at(&password("password"), at(499), None, at(499)), Ok(()));
}

#[test]
fn the_attempt_that_hashes_counts_from_its_end() {
    let mut auth = cheap_manager();
    for attempt in 0..5 {
        let (started, finished) = (at(100 + 2 * attempt), at(101 + 2 * attempt));
        let refused = auth.verify_credential_at(&password("wrong"), started, None, finished);
        assert_eq!(refused, Err(AuthError::InvalidCredential));
    }
    let locked = auth.verify_credential_at(&password("password"), at(160), None, at(160));
    assert_eq!(locked, Err(AuthError::RateLimited));
    assert_eq!(auth.verify_credential_at(&password("password"), at(161), None, at(161)), Ok(()));
}

#[test]
fn a_known_verifier_accepts_its_password_only() {
    let auth = cheap_manager();
    assert_eq!(auth.credential_is_valid(&password("password"), None), Ok(true));
    assert_eq!(auth.credential_is_valid(&password("Password"), None), Ok(false));
    assert_eq!(auth.credential_is_valid(&password("password "), None), Ok(false));
    assert_eq!(auth.credential_is_valid(&password(""), None), Ok(false));
}

#[test]
fn a_broken_verifier_is_an_internal_error() {
    let mut auth = AuthManager::new("no verifier at all".to_owned(), None);
    let refused = auth.verify_credential_at(&password("password"), at(10), None, at(10));
    assert_eq!(refused, Err(AuthError::Internal));
    for _ in 0..6 {
        let again = auth.verify_credential_at(&password("password"), at(10), None, at(10));
        assert_eq!(again, Err(AuthError::Internal));
    }
}

#[test]
fn verifiers_with_an_impossible_parallelism_accept_nothing() {
    let tail = "$c29tZXNhbHQ$nf65EOgLrQMR/uIPnA4rEsF5h7TKyQwu9U1bMCHGi/4";
    for (costs, expected) in [
        ("m=256,t=2,p=1", true),
        ("m=256,t=2,p=7,p=1", true),
        ("m=256,t=2,p=536870912,p=1", true),
        ("p=1,m=256,t=2", true),
        ("m=256,t=2,p=1,p=536870912", false),
        ("m=256,t=2,p=536870912", false),
        ("m=256,t=2,p=16777216", false),
        ("m=256,t=2,p=16777215", false),
        ("m=256,t=2,p=99999999999999999999", false),
        ("m=256,t=2,p=x", false),
    ] {
        let auth = AuthManager::new(format!("$argon2id$v=19${costs}{tail}"), None);
        assert_eq!(auth.credential_is_valid(&password("password"), None), Ok(expected), "{}", costs);
    }
}

#[test]
fn the_lock_follows_the_whole_history() {
    let mut auth = cheap_manager();
    for second in [0, 10, 20, 30, 40] {
        let refused = auth.verify_credential_at(&password("wrong"), at(second), None, at(second));
        assert_eq!(refused, Err(AuthError::InvalidCredential));
    }
    for second in [41, 50, 59] {
        let locked = auth.verify_credential_at(&password("wrong"), at(second), None, at(second));
        assert_eq!(locked, Err(AuthError::RateLimited));
    }
    let counted = auth.verify_credential_at(&password("wrong"), at(60), None, at(60));
    assert_eq!(counted, Err(AuthError::InvalidCredential));
    let locked = auth.verify_credential_at(&password("password"), at(69), None, at(69));
    assert_eq!(locked, Err(AuthError::RateLimited));
    assert_eq!(auth.verify_credential_at(&password("password"), at(70), None, at(70)), Ok(()));
}

#[test]
fn new_verifiers_are_salted_and_accept_their_password() {
    let first = hash_password(b"correct horse").unwrap();
    let second = hash_password(b"correct horse").unwrap();
    assert!(first.starts_with("$argon2id$"));
    assert_ne!(first, second);
    assert!(!first.contains("correct horse"));
    let auth = AuthManager::new(first, None);
    assert_eq!(auth.credential_is_valid(&password("correct horse"), None), Ok(true));
    assert_eq!(auth.credential_is_valid(&password("correct horsf"), None), Ok(false));
}

#[test]
fn one_time_codes_follow_the_standard() {
    let totp = create_totp(SHARED_SECRET).unwrap();
    assert_eq!(totp.generate(59), "287082");
    assert_eq!(totp.generate(1111111109), "081804");
    assert_eq!(totp.generate(1111111111), "050471");
    assert_eq!(totp.generate(1234567890), "005924");
    assert_eq!(totp.generate(2000000000), "279037");
}

#[test]
fn one_time_codes_may_be_a_step_early_or_late() {
    let totp = create_totp(SHARED_SECRET).unwrap();
    assert!(totp.check("287082", 59));
    assert!(totp.check("287082", 30));
    assert!(totp.check("287082", 89));
    assert!(!totp.check("287082", 120));
    assert!(totp.check("005924", 1234567890));
    assert!(totp.check("005924", 1234567890 + 30));
    assert!(!totp.check("005924", 1234567890 + 60));
    assert!(!totp.check("005925", 1234567890));
    assert!(!totp.check("", 1234567890));
}

#[test]
fn one_time_codes_at_the_ends_of_time_are_refused() {
    let totp = create_totp(SHARED_SECRET).unwrap();
    let first = totp.generate(0);
    assert!(!totp.check(&first, 0));
    assert!(!totp.check(&first, 29));
    assert!(totp.check(&first, 30));
    assert!(!totp.check("000000", u64::MAX));
}

#[test]
fn without_a_clock_there_are_no_codes() {
    let totp = create_totp(SHARED_SECRET).unwrap();
    assert_eq!(totp.generate_at(Some(59)), Some("287082".to_owned()));
    assert_eq!(totp.generate_at(None), None);
    assert_eq!(totp.check_at("287082", Some(59)), Some(true));
    assert_eq!(totp.check_at("287082", Some(120)), Some(false));
    assert_eq!(totp.check_at("287082", None), None);
}

#[test]
fn short_secrets_are_refused() {
    let refused = create_totp(&[1; 15]);
    assert!(refused.is_err());
    assert!(!refused.err().unwrap().message.is_empty());
    assert!(create_totp(&[1; 16]).is_ok());
}

#[test]
fn an_authenticator_app_gets_url_and_secret() {
    let totp = create_totp(SHARED_SECRET).unwrap();
    assert_eq!(totp.get_secret_base32(), "GEZDGNBVGY3TQOJQGEZDGNBVGY3TQOJQ");
    assert_eq!(
        totp.get_url(),
        "otpauth://totp/SudoServer:local-admin?secret=GEZDGNBVGY3TQOJQGEZDGNBVGY3TQOJQ&issuer=SudoServer"
    );
}

#[test]
fn fresh_secrets_have_256_bits_and_differ() {
    let first = generate_totp_secret();
    let second = generate_totp_secret();
    assert_eq!(first.as_slice().len(), 32);
    assert_ne!(first.as_slice(), second.as_slice());
}

#[test]
fn one_time_codes_authenticate_with_white_space_around_them() {
    let mut auth = cheap_manager();
    let accepted = auth.verify_credential_at(&code(" 005924\n"), at(1), Some(1234567890), at(1));
    assert_eq!(accepted, Ok(()));
    let refused = auth.verify_credential_at(&code("005 924"), at(1), Some(1234567890), at(1));
    assert_eq!(refused, Err(AuthError::InvalidCredential));
    let no_clock = auth.verify_credential_at(&code("005924"), at(1), None, at(1));
    assert_eq!(no_clock, Err(AuthError::InvalidCredential));
}

#[test]
fn one_time_codes_need_a_secret() {
    let mut auth = AuthManager::new(PASSWORD_VERIFIER.to_owned(), None);
    let refused = auth.verify_credential_at(&code("005924"), at(1), Some(1234567890), at(1));
    assert_eq!(refused, Err(AuthError::InvalidCredential));
}

#[test]
fn a_current_code_authenticates_now() {
    let secret = generate_totp_secret();
    let totp = create_totp(secret.as_slice()).unwrap();
    let mut auth = AuthManager::new(PASSWORD_VERIFIER.to_owned(), Some(secret));
    let current = totp.generate_current().unwrap();
    assert_eq!(auth.verify_credential(&code(&current)), Ok(()));
}

#[test]
fn tokens_carry_exactly_the_issued_claims() {
    let mut auth = cheap_manager();
    let (token, record) = auth
        .issue_token_at(Some(60), 1_700_000_000, "a-name".to_owned())
        .unwrap();
    assert_eq!(record.jti, "a-name");
    assert_eq!(record.issued_at, 1_700_000_000);
    assert_eq!(record.expires_at, Some(1_700_000_060));
    assert!(!record.revoked);
    let parts: Vec<&str> = token.split('.').collect();
    assert_eq!(parts.len(), 3);
    let header = URL_SAFE_NO_PAD.decode(parts[0]).unwrap();
    assert_eq!(header, br#"{"alg":"EdDSA","typ":"JWT"}"#);
    let claims = auth.verify_token_at(&token, 1_700_000_000).unwrap();
    let payload = String::from_utf8(URL_SAFE_NO_PAD.decode(parts[1]).unwrap()).unwrap();
    assert_eq!(
        payload,
        format!(
            "{{\"iss\":\"{}\",\"aud\":\"sudoserver\",\"sub\":\"privileged-powershell\",\"jti\":\"a-name\",\"iat\":1700000000,\"exp\":1700000060}}",
            claims.iss
        )
    );
    assert_eq!(claims.aud, "sudoserver");
    assert_eq!(claims.sub, "privileged-powershell");
    assert_eq!(claims.jti, "a-name");
    assert_eq!(claims.iat, 1_700_000_000);
    assert_eq!(claims.exp, Some(1_700_000_060));
    assert_eq!(claims.iss.len(), 36);
}

#[test]
fn permanent_tokens_carry_no_expiry() {
    let mut auth = cheap_manager();
    let (token, record) = auth.issue_token_at(None, 5, "forever".to_owned()).unwrap();
    assert_eq!(record.expires_at, None);
    let payload = token.split('.').nth(1).unwrap();
    let payload = String::from_utf8(URL_SAFE_NO_PAD.decode(payload).unwrap()).unwrap();
    assert!(!payload.contains("exp"));
    assert_eq!(auth.verify_token_at(&token, i64::MAX).unwrap().exp, None);
}

#[test]
fn signatures_verify_under_the_published_key() {
    let mut auth = cheap_manager();
    let (token, _) = auth.issue_token(Some(60)).unwrap();
    let (message, signature) = token.rsplit_once('.').unwrap();
    let key = URL_SAFE_NO_PAD.decode(auth.public_key_base64()).unwrap();
    let key = VerifyingKey::from_bytes(&key.try_into().unwrap()).unwrap();
    let signature = URL_SAFE_NO_PAD.decode(signature).unwrap();
    let signature = Signature::from_slice(&signature).unwrap();
    assert!(key.verify(message.as_bytes(), &signature).is_ok());
    assert!(key.verify(b"something else", &signature).is_err());
}

#[test]
fn tokens_are_accepted_until_they_expire() {
    let mut auth = cheap_manager();
    let (token, _) = auth.issue_token_at(Some(60), 1000, "t".to_owned()).unwrap();
    assert!(auth.verify_token_at(&token, 1059).is_ok());
    assert_eq!(auth.verify_token_at(&token, 1060).unwrap_err(), AuthError::Expired);
    assert_eq!(auth.verify_token_at(&token, 5000).unwrap_err(), AuthError::Expired);
}

#[test]
fn an_expired_token_still_identifies_itself() {
    let mut auth = cheap_manager();
    let (token, _) = auth.issue_token_at(Some(60), 1000, "t".to_owned()).unwrap();
    assert_eq!(auth.verify_token_at(&token, 2000).unwrap_err(), AuthError::Expired);
    assert_eq!(auth.token_identity(&token).unwrap().jti, "t");
    auth.revoke("t").unwrap();
    assert_eq!(auth.token_identity(&token).unwrap().jti, "t");
}

#[test]
fn lifetimes_past_the_end_of_time_are_refused() {
    let mut auth = cheap_manager();
    let too_long = auth.issue_token_at(Some(u64::MAX), 0, "t".to_owned());
    assert_eq!(too_long.unwrap_err(), AuthError::Internal);
    let too_late = auth.issue_token_at(Some(11), i64::MAX - 10, "t".to_owned());
    assert_eq!(too_late.unwrap_err(), AuthError::Internal);
    assert!(auth.list().is_empty());
    assert!(auth.issue_token_at(Some(10), i64::MAX - 10, "t".to_owned()).is_ok());
}

#[test]
fn revoking_one_token_leaves_the_others() {
    let mut auth = cheap_manager();
    let (first, _) = auth.issue_token_at(None, 1, "first".to_owned()).unwrap();
    let (second, _) = auth.issue_token_at(None, 2, "second".to_owned()).unwrap();
    assert_eq!(auth.revoke("first"), Ok(()));
    assert_eq!(auth.verify_token_at(&first, 3).unwrap_err(), AuthError::Revoked);
    assert_eq!(auth.verify_token_at(&second, 3).unwrap().jti, "second");
    assert_eq!(auth.revoke("third"), Err(AuthError::InvalidToken));
}

#[test]
fn tokens_are_listed_latest_first() {
    let mut auth = cheap_manager();
    for (name, issued_at) in [("b", 20), ("d", 40), ("a", 10), ("c", 30)] {
        auth.issue_token_at(Some(DEFAULT_TOKEN_TTL_SECONDS), issued_at, name.to_owned())
            .unwrap();
    }
    auth.revoke("c").unwrap();
    let listed: Vec<(String, bool)> = auth
        .list()
        .into_iter()
        .map(|record| (record.jti, record.revoked))
        .collect();
    assert_eq!(
        listed,
        vec![
            ("d".to_owned(), false),
            ("c".to_owned(), true),
            ("b".to_owned(), false),
            ("a".to_owned(), false),
        ]
    );
    assert_eq!(auth.list()[0].expires_at, Some(86_440));
}

#[test]
fn malformed_tokens_are_invalid() {
    let mut auth = cheap_manager();
    let (token, _) = auth.issue_token_at(None, 1, "t".to_owned()).unwrap();
    let parts: Vec<&str> = token.split('.').collect();
    let none = URL_SAFE_NO_PAD.encode(br#"{"alg":"none"}"#);
    let list = URL_SAFE_NO_PAD.encode(br#"["EdDSA"]"#);
    for bad in [
        String::new(),
        "a".to_owned(),
        "a.b".to_owned(),
        "a.b.c".to_owned(),
        format!("{token}.more"),
        format!("{token}x"),
        format!("{token}AAAA"),
        format!("{}.{}", parts[0], parts[1]),
        format!("{}.{}.", parts[0], parts[1]),
        format!("{}.{}.{}", none, parts[1], parts[2]),
        format!("{}.{}.{}", list, parts[1], parts[2]),
        format!("{}.{}.{}", parts[0], parts[0], parts[2]),
        format!("{}=.{}.{}", parts[0], parts[1], parts[2]),
    ] {
        assert_eq!(auth.verify_token_at(&bad, 1).unwrap_err(), AuthError::InvalidToken);
        assert_eq!(auth.token_identity(&bad).unwrap_err(), AuthError::InvalidToken);
    }
    assert!(auth.verify_token_at(&token, 1).is_ok());
}

#[test]
fn a_token_keeps_its_standing_until_it_is_revoked() {
    let mut auth = cheap_manager();
    auth.issue_token_at(Some(60), 1000, "t".to_owned()).unwrap();
    assert_eq!(auth.standing_at("t", Some(1060), 1059), Ok(()));
    assert_eq!(auth.standing_at("t", Some(1060), 1060), Err(AuthError::Expired));
    assert_eq!(auth.standing_at("u", None, 1000), Err(AuthError::InvalidToken));
    auth.revoke("t").unwrap();
    assert_eq!(auth.standing_at("t", Some(1060), 1059), Err(AuthError::Revoked));
    assert_eq!(auth.standing_at("t", Some(1060), 1060), Err(AuthError::Expired));
}

#[test]
fn random_names_are_version_four_uuids() {
    let mut auth = cheap_manager();
    let (_, first) = auth.issue_token(None).unwrap();
    let (_, second) = auth.issue_token(None).unwrap();
    assert_ne!(first.jti, second.jti);
    assert_eq!(first.jti.len(), 36);
    assert_eq!(first.jti.as_bytes()[14], b'4');
    assert_eq!(first.jti.matches('-').count(), 4);
}

#[test]
fn tokens_are_issued_by_the_clock() {
    let mut auth = cheap_manager();
    let (token, record) = auth.issue_token(Some(60)).unwrap();
    assert!(record.issued_at > 1_600_000_000);
    assert_eq!(record.expires_at, Some(record.issued_at + 60));
    let claims = auth.verify_token(&token).unwrap().clone();
    assert_eq!(claims.iat, record.issued_at);
    assert_eq!(claims.exp, record.expires_at);
}

#[test]
fn fingerprints_are_short_digests() {
    assert_eq!(fingerprint_token("abc"), "ungWv48Bz-pBQUDe");
    assert_ne!(fingerprint_token("abd"), "ungWv48Bz-pBQUDe");
}

#[test]
fn errors_say_what_is_wrong() {
    assert_eq!(AuthError::InvalidCredential.to_string(), "invalid credential");
    assert_eq!(
        AuthError::RateLimited.to_string(),
        "too many authentication attempts; retry later"
    );
    assert_eq!(AuthError::InvalidToken.to_string(), "invalid token");
    assert_eq!(AuthError::Expired.to_string(), "token expired");
    assert_eq!(AuthError::Revoked.to_string(), "token has been revoked");
    assert_eq!(AuthError::Internal.to_string(), "authentication subsystem error");
}

#[test]
fn points_in_time_are_counted_from_the_epoch() {
    assert_eq!(Instant::from_epoch(Ok((2, 5))).nanos, 2_000_000_005);
    assert_eq!(Instant::from_epoch(Err((2, 5))).nanos, -2_000_000_005);
    assert_eq!(whole_seconds(Ok((2, 999_999_999))), Some(2));
    assert_eq!(whole_seconds(Err((2, 5))), None);
    let now = Instant::now();
    let seconds = seconds_since_epoch().unwrap();
    assert!(now.nanos > 1_600_000_000_000_000_000);
    assert!(seconds > 1_600_000_000);
}
