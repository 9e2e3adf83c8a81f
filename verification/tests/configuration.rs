use base64::engine::general_purpose::STANDARD;
use base64::Engine as _;
use sudoserver::config::{
    decode_seal_key, encode_seal_key, generate_seal_key, load_or_create_seal_key,
    load_or_create_seal_key_with, seal, seal_key_path, seal_with_nonce, unseal, BindAddress, Config, ConfigError, SealedSecret, DEFAULT_PORT,
};

fn valid() -> Config {
    Config {
        password_hash: "hash".to_owned(),
        ..Config::default()
    }
}

#[test]
fn sealed_secret_round_trip_and_wrong_key_fails() {
    let key = [7_u8; 32];
    let sealed = seal(b"hello secret", &key).unwrap();
    assert_ne!(sealed.ciphertext, STANDARD.encode(b"hello secret"));
    assert_eq!(unseal(&sealed, &key).unwrap().as_slice(), b"hello secret");
    assert!(unseal(&sealed, &[8_u8; 32]).is_err());
}

#[test]
fn rejects_remote_bind() {
    let config = Config {
        password_hash: "hash".into(),
        bind: BindAddress::V4 {
            octets: [0, 0, 0, 0],
            port: 1234,
        },
        ..Config::default()
    };
    assert!(config.validate().is_err());
    assert_eq!(
        config.validate().unwrap_err().describe("0.0.0.0:1234"),
        "refusing non-loopback bind address 0.0.0.0:1234; put a TLS/authenticating reverse proxy in front instead"
    );
}

#[test]
fn defaults_are_local_and_bounded() {
    let config = Config::default();
    assert_eq!(
        config.bind,
        BindAddress::V4 {
            octets: [127, 0, 0, 1],
            port: DEFAULT_PORT
        }
    );
    assert_eq!(DEFAULT_PORT, 32119);
    assert_eq!(config.password_hash, "");
    assert!(config.totp_secret.is_none());
    assert_eq!(config.shell, "pwsh");
    assert_eq!(config.max_output_bytes, 8 * 1024 * 1024);
    assert_eq!(config.max_command_seconds, 300);
    assert_eq!(config.validate(), Err(ConfigError::NoMasterPassword));
}

#[test]
fn every_fault_is_found() {
    assert_eq!(valid().validate(), Ok(()));
    let short = Config {
        max_output_bytes: 1023,
        ..valid()
    };
    assert_eq!(short.validate(), Err(ConfigError::OutputLimitTooLow));
    let enough = Config {
        max_output_bytes: 1024,
        ..valid()
    };
    assert_eq!(enough.validate(), Ok(()));
    let no_time = Config {
        max_command_seconds: 0,
        ..valid()
    };
    assert_eq!(no_time.validate(), Err(ConfigError::NoCommandTime));
}

#[test]
fn loopback_addresses_are_accepted() {
    for octets in [[127, 0, 0, 1], [127, 255, 3, 4]] {
        let config = Config {
            bind: BindAddress::V4 { octets, port: 1 },
            ..valid()
        };
        assert_eq!(config.validate(), Ok(()));
    }
    let local = BindAddress::V6 {
        segments: [0, 0, 0, 0, 0, 0, 0, 1],
        port: 1,
        flowinfo: 0,
        scope_id: 0,
    };
    assert!(local.is_loopback());
    for segments in [
        [0, 0, 0, 0, 0, 0, 0, 0],
        [0, 0, 0, 0, 0, 0xffff, 0x7f00, 1],
        [0xfe80, 0, 0, 0, 0, 0, 0, 1],
    ] {
        let remote = BindAddress::V6 {
            segments,
            port: 1,
            flowinfo: 0,
            scope_id: 0,
        };
        assert!(!remote.is_loopback());
    }
    let lan = BindAddress::V4 {
        octets: [192, 168, 0, 1],
        port: 1,
    };
    assert!(!lan.is_loopback());
}

#[test]
fn the_seal_key_lies_beside_the_configuration() {
    let path = seal_key_path("/etc/sudoserver/config.toml");
    assert!(path == "/etc/sudoserver/seal.key" || path == "/etc/sudoserver\\seal.key");
    assert_eq!(seal_key_path("config.toml"), "seal.key");
    assert_eq!(seal_key_path("/config.toml"), "/seal.key");
    let hidden = seal_key_path("/home/me/.config/my server/config.toml");
    assert!(hidden.starts_with("/home/me/.config/my server"));
    assert!(hidden.ends_with("seal.key"));
    assert!(seal_key_path("..").ends_with("seal.key"));
    assert_eq!(path, seal_key_path("/etc/sudoserver/other.toml"));
    assert_eq!(path, seal_key_path(&path));
    assert_eq!(seal_key_path(&seal_key_path("a")), seal_key_path("b"));
}

#[test]
fn windows_paths_keep_their_directory() {
    let key = seal_key_path("C:\\ProgramData\\SudoServer\\config.toml");
    assert!(key == "seal.key" || key == "C:\\ProgramData\\SudoServer\\seal.key");
    let relative = seal_key_path("a b/..x/config.toml");
    assert!(relative == "a b/..x/seal.key" || relative == "a b/..x\\seal.key");
}

#[test]
fn a_seal_key_is_created_once() {
    let first = load_or_create_seal_key(None).unwrap();
    let text = first.file.unwrap();
    assert_eq!(text, encode_seal_key(&first.key));
    let second = load_or_create_seal_key(Some(&format!("{text}\n"))).unwrap();
    assert_eq!(second.key, first.key);
    assert_eq!(second.file, None);
    let given = load_or_create_seal_key_with(None, [7; 32]).unwrap();
    assert_eq!(given.key, [7; 32]);
    assert_eq!(
        given.file.as_deref(),
        Some("BwcHBwcHBwcHBwcHBwcHBwcHBwcHBwcHBwcHBwcHBwc=")
    );
    let kept = load_or_create_seal_key_with(given.file.as_deref(), [8; 32]).unwrap();
    assert_eq!((kept.key, kept.file), ([7; 32], None));
}

#[test]
fn a_broken_seal_key_is_not_replaced() {
    assert_eq!(load_or_create_seal_key(Some("?")).err(), Some(ConfigError::InvalidSealKey));
    assert_eq!(
        load_or_create_seal_key_with(Some("BwcH"), [7; 32]).err(),
        Some(ConfigError::InvalidSealKeyLength)
    );
}

#[test]
fn seal_keys_are_written_in_base64() {
    let text = encode_seal_key(&[7; 32]);
    assert_eq!(text, "BwcHBwcHBwcHBwcHBwcHBwcHBwcHBwcHBwcHBwcHBwc=");
    assert_eq!(decode_seal_key(&text), Ok([7; 32]));
    assert_eq!(decode_seal_key(&format!(" {text}\r\n")), Ok([7; 32]));
}

#[test]
fn broken_seal_keys_are_refused() {
    assert_eq!(decode_seal_key("no base64!"), Err(ConfigError::InvalidSealKey));
    assert_eq!(decode_seal_key("BwcH"), Err(ConfigError::InvalidSealKeyLength));
    assert_eq!(decode_seal_key(""), Err(ConfigError::InvalidSealKeyLength));
    assert_eq!(decode_seal_key("BwcHBx=="), Err(ConfigError::InvalidSealKey));
    assert_eq!(decode_seal_key("BwcHBw"), Err(ConfigError::InvalidSealKey));
}

#[test]
fn fresh_seal_keys_differ() {
    let first = generate_seal_key();
    let second = generate_seal_key();
    assert_ne!(first, second);
    assert_eq!(decode_seal_key(&encode_seal_key(&first)), Ok(first));
}

#[test]
fn sealing_is_aes_256_gcm() {
    let sealed = seal_with_nonce(&[0; 16], &[0; 32], &[0; 12]).unwrap();
    assert_eq!(sealed.nonce, "AAAAAAAAAAAAAAAA");
    assert_eq!(sealed.ciphertext, "zqdAPU1ga24HTsXTuvOdGNDRyKeZmWvwJluYtdSKuRk=");
    assert!(sealed.nonce_is_usable());
    assert_eq!(unseal(&sealed, &[0; 32]).unwrap().as_slice(), &[0; 16]);
}

#[test]
fn each_sealing_has_its_own_nonce() {
    let first = seal(b"secret", &[1; 32]).unwrap();
    let second = seal(b"secret", &[1; 32]).unwrap();
    assert_ne!(first.nonce, second.nonce);
    assert_ne!(first.ciphertext, second.ciphertext);
    assert_eq!(STANDARD.decode(&first.nonce).unwrap().len(), 12);
    assert_eq!(STANDARD.decode(&first.ciphertext).unwrap().len(), 6 + 16);
}

#[test]
fn broken_sealed_secrets_are_refused() {
    let sealed = seal(b"secret", &[1; 32]).unwrap();
    let no_nonce = SealedSecret {
        nonce: "?".to_owned(),
        ciphertext: sealed.ciphertext.clone(),
    };
    assert!(no_nonce.nonce_is_usable());
    assert_eq!(unseal(&no_nonce, &[1; 32]).err(), Some(ConfigError::InvalidNonce));
    let no_text = SealedSecret {
        nonce: sealed.nonce.clone(),
        ciphertext: "?".to_owned(),
    };
    assert_eq!(unseal(&no_text, &[1; 32]).err(), Some(ConfigError::InvalidCiphertext));
    let other_text = SealedSecret {
        nonce: sealed.nonce.clone(),
        ciphertext: "AAAA".to_owned(),
    };
    assert_eq!(unseal(&other_text, &[1; 32]).err(), Some(ConfigError::UnsealFailed));
    let short_nonce = SealedSecret {
        nonce: "AAAA".to_owned(),
        ciphertext: sealed.ciphertext.clone(),
    };
    assert!(!short_nonce.nonce_is_usable());
    let neither = SealedSecret {
        nonce: "AAAA".to_owned(),
        ciphertext: "?".to_owned(),
    };
    assert!(neither.nonce_is_usable());
    assert_eq!(unseal(&neither, &[1; 32]).err(), Some(ConfigError::InvalidCiphertext));
}

#[test]
fn configurations_are_copied_whole() {
    let config = Config {
        totp_secret: Some(seal_with_nonce(b"secret", &[1; 32], &[2; 12]).unwrap()),
        shell: "powershell".to_owned(),
        ..valid()
    };
    let copy = config.clone();
    assert_eq!(copy.password_hash, "hash");
    assert_eq!(copy.shell, "powershell");
    let (sealed, copied) = (config.totp_secret.unwrap(), copy.totp_secret.unwrap());
    assert_eq!(copied.nonce, sealed.nonce);
    assert_eq!(copied.ciphertext, sealed.ciphertext);
}

#[test]
fn faults_say_what_is_wrong() {
    for (error, text) in [
        (
            ConfigError::NoMasterPassword,
            "Master Password is not initialized; run `sudoserver init`",
        ),
        (ConfigError::OutputLimitTooLow, "max_output_bytes must be at least 1024"),
        (ConfigError::NoCommandTime, "max_command_seconds must be greater than zero"),
        (ConfigError::InvalidSealKey, "invalid seal key"),
        (ConfigError::InvalidSealKeyLength, "invalid seal key length"),
        (ConfigError::SealFailed, "failed to encrypt TOTP secret"),
        (ConfigError::InvalidNonce, "invalid TOTP nonce"),
        (ConfigError::InvalidCiphertext, "invalid TOTP ciphertext"),
        (ConfigError::UnsealFailed, "unable to decrypt TOTP secret"),
    ] {
        assert_eq!(error.describe(""), text);
    }
}
