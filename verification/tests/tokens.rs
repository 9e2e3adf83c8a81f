use base64::engine::general_purpose::URL_SAFE_NO_PAD;
use base64::Engine as _;
use ed25519_dalek::{Signer, SigningKey};
use sudoserver::auth::{AuthError, TokenClaims};
use sudoserver::json::{find_member, JsonMember, JsonScalar};
use sudoserver::jwt::{decode_jwt, encode_jwt, names_eddsa, read_claims};

fn text(name: &str, value: &str) -> JsonMember {
    JsonMember {
        name: name.to_owned(),
        value: JsonScalar::Text(value.to_owned()),
    }
}

fn member(name: &str, value: JsonScalar) -> JsonMember {
    JsonMember {
        name: name.to_owned(),
        value,
    }
}

fn payload() -> Vec<JsonMember> {
    vec![
        text("sub", "s"),
        text("iss", "i"),
        text("more", "m"),
        text("aud", "a"),
        member("iat", JsonScalar::Integer(-5)),
        text("jti", "j"),
    ]
}

fn claims(exp: Option<i64>) -> TokenClaims {
    TokenClaims {
        iss: "i\"\u{e9}".to_owned(),
        aud: "a".to_owned(),
        sub: "s".to_owned(),
        jti: "j".to_owned(),
        iat: i64::MIN,
        exp,
    }
}

fn signed(key: &SigningKey, header: &str, payload: &str) -> String {
    let message = format!(
        "{}.{}",
        URL_SAFE_NO_PAD.encode(header),
        URL_SAFE_NO_PAD.encode(payload)
    );
    let signature = key.sign(message.as_bytes()).to_bytes();
    format!("{message}.{}", URL_SAFE_NO_PAD.encode(signature))
}

#[test]
fn claims_are_read_from_members_in_any_order() {
    let read = read_claims(&payload()).unwrap();
    assert_eq!(
        (read.iss, read.aud, read.sub, read.jti, read.iat, read.exp),
        (
            "i".to_owned(),
            "a".to_owned(),
            "s".to_owned(),
            "j".to_owned(),
            -5,
            None
        )
    );
    let mut expiring = payload();
    expiring.push(member("exp", JsonScalar::Integer(7)));
    assert_eq!(read_claims(&expiring).unwrap().exp, Some(7));
    let mut open = payload();
    open.push(member("exp", JsonScalar::Null));
    assert_eq!(read_claims(&open).unwrap().exp, None);
}

#[test]
fn claims_that_are_missing_or_of_the_wrong_kind_are_refused() {
    for name in ["iss", "aud", "sub", "jti", "iat"] {
        let missing: Vec<JsonMember> = payload().into_iter().filter(|m| m.name != name).collect();
        assert!(read_claims(&missing).is_none());
        let mut wrong: Vec<JsonMember> = payload().into_iter().filter(|m| m.name != name).collect();
        wrong.push(member(name, JsonScalar::Bool(true)));
        assert!(read_claims(&wrong).is_none());
    }
    let mut wrong = payload();
    wrong.push(text("exp", "7"));
    assert!(read_claims(&wrong).is_none());
    let mut fraction = payload();
    fraction.push(member("exp", JsonScalar::Other));
    assert!(read_claims(&fraction).is_none());
}

#[test]
fn the_algorithm_is_checked() {
    assert!(names_eddsa(&vec![text("typ", "JWT"), text("alg", "EdDSA")]));
    assert!(!names_eddsa(&vec![text("alg", "eddsa")]));
    assert!(!names_eddsa(&vec![text("typ", "EdDSA")]));
    assert!(!names_eddsa(&vec![member("alg", JsonScalar::Null)]));
}

#[test]
fn members_are_found_by_name() {
    let members = vec![text("a", "1"), text("b", "2"), text("a", "3")];
    match find_member(&members, "a") {
        Some(JsonScalar::Text(value)) => assert_eq!(value, "3"),
        _ => panic!("another value"),
    }
    assert!(find_member(&members, "c").is_none());
}

#[test]
fn tokens_read_back() {
    let key = SigningKey::from_bytes(&[9; 32]);
    let public_key = key.verifying_key().to_bytes();
    for exp in [None, Some(i64::MAX)] {
        let token = encode_jwt(&claims(exp), &[9; 32]).unwrap();
        let read = decode_jwt(&token, &public_key).unwrap();
        assert_eq!(read.iss, "i\"\u{e9}");
        assert_eq!(read.iat, i64::MIN);
        assert_eq!(read.exp, exp);
        let other = SigningKey::from_bytes(&[8; 32]).verifying_key().to_bytes();
        assert_eq!(decode_jwt(&token, &other).unwrap_err(), AuthError::InvalidToken);
    }
    let expected = signed(
        &key,
        "{\"alg\":\"EdDSA\",\"typ\":\"JWT\"}",
        "{\"iss\":\"i\\\"\u{e9}\",\"aud\":\"a\",\"sub\":\"s\",\"jti\":\"j\",\"iat\":-9223372036854775808}",
    );
    assert_eq!(encode_jwt(&claims(None), &[9; 32]).unwrap(), expected);
}

#[test]
fn signed_nonsense_is_refused() {
    let key = SigningKey::from_bytes(&[9; 32]);
    let public_key = key.verifying_key().to_bytes();
    let header = "{\"alg\":\"EdDSA\"}";
    let good = "{\"iss\":\"i\",\"aud\":\"a\",\"sub\":\"s\",\"jti\":\"j\",\"iat\":1}";
    assert!(decode_jwt(&signed(&key, header, good), &public_key).is_ok());
    for (header, payload) in [
        ("{\"alg\":\"HS256\"}", good),
        ("[]", good),
        ("", good),
        (header, "{}"),
        (header, "null"),
        (header, ""),
        (header, "{\"iss\":\"i\",\"aud\":\"a\",\"sub\":\"s\",\"jti\":\"j\",\"iat\":1.5}"),
        (header, "{\"iss\":\"i\",\"aud\":\"a\",\"sub\":\"s\",\"jti\":\"j\",\"iat\":9223372036854775808}"),
    ] {
        let token = signed(&key, header, payload);
        assert_eq!(decode_jwt(&token, &public_key).unwrap_err(), AuthError::InvalidToken);
    }
}
