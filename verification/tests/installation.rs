use sudoserver::auth::{create_totp, AuthManager, Credential, CredentialKind};
use sudoserver::config::{unseal, BindAddress, ConfigError};
use sudoserver::service::{
    exit_report, icacls_arguments, systemctl_calls, systemd_escape, systemd_unit, windows_calls,
    ControlEvent, ServiceController, ServiceExit, PRIVATE_DIRECTORY_MODE, PRIVATE_FILE_MODE,
    SYSTEMD_UNIT_PATH,
};
use sudoserver::setup::{
    check_confirmation, check_installing, check_serving, check_target, initial_config, is_root,
    password_in_line, verifier_of, Enrollment, SetupError,
};

#[test]
fn a_configuration_is_replaced_only_by_force() {
    assert!(check_target(false, false).is_ok());
    assert!(check_target(false, true).is_ok());
    assert!(check_target(true, true).is_ok());
    let refused = check_target(true, false).err().unwrap();
    assert_eq!(
        refused.describe("/etc/config.toml"),
        "/etc/config.toml already exists; use --force to replace it"
    );
}

#[test]
fn passwords_are_read_and_confirmed() {
    assert_eq!(password_in_line("a password \r\n"), "a password ");
    assert_eq!(password_in_line("no end"), "no end");
    assert_eq!(password_in_line("\n\r\n"), "");
    assert!(check_confirmation("one", "one").is_ok());
    let refused = check_confirmation("one", "One").err().unwrap();
    assert_eq!(refused.describe(""), "passwords do not match");
}

#[test]
fn passwords_have_twelve_characters() {
    let refused = verifier_of("eleven char").err().unwrap();
    assert!(matches!(refused, SetupError::PasswordTooShort));
    assert_eq!(
        refused.describe(""),
        "Master Password must contain at least 12 characters"
    );
    assert!(verifier_of("\u{e9}\u{e9}\u{e9}\u{e9}\u{e9}\u{e9}\u{e9}\u{e9}\u{e9}\u{e9}\u{e9}").is_err());
    let verifier = verifier_of("twelve chars").unwrap();
    let auth = AuthManager::new(verifier, None);
    let right = Credential {
        kind: CredentialKind::Password,
        value: "twelve chars".to_owned(),
    };
    assert_eq!(auth.credential_is_valid(&right, None), Ok(true));
}

#[test]
fn an_authenticator_is_enrolled_with_a_right_code() {
    let enrollment = Enrollment::begin().unwrap();
    let secret = enrollment.manual_secret();
    assert_eq!(secret.len(), 52);
    assert_eq!(
        enrollment.url(),
        format!("otpauth://totp/SudoServer:local-admin?secret={secret}&issuer=SudoServer")
    );
    let key = [3; 32];
    let wrong = enrollment.confirm_at("no code", Some(1_700_000_000), &key);
    let wrong = wrong.err().unwrap();
    assert!(matches!(wrong, SetupError::WrongCode));
    assert_eq!(wrong.describe(""), "incorrect TOTP code; configuration was not written");
    assert!(enrollment.confirm("no code", &key).is_err());
}

fn from_base32(text: &str) -> Vec<u8> {
    let mut bytes: Vec<u8> = Vec::new();
    let mut bits: u32 = 0;
    let mut count: u32 = 0;
    for c in text.bytes() {
        let value = if c.is_ascii_uppercase() { c - b'A' } else { c - b'2' + 26 };
        bits = (bits << 5 | u32::from(value)) & 0xfff;
        count += 5;
        if count >= 8 {
            count -= 8;
            bytes.push((bits >> count & 0xff) as u8);
        }
    }
    bytes
}

#[test]
fn an_enrolled_authenticator_gives_right_codes() {
    let enrollment = Enrollment::begin().unwrap();
    let key = [3; 32];
    let app = create_totp(&from_base32(&enrollment.manual_secret())).unwrap();
    let code = app.generate(1_700_000_000);
    let sealed = enrollment
        .confirm_at(&format!(" {code}\n"), Some(1_700_000_000), &key)
        .unwrap();
    let secret = unseal(&sealed, &key).unwrap();
    let totp = create_totp(secret.as_slice()).unwrap();
    assert_eq!(totp.get_secret_base32(), enrollment.manual_secret());
    assert!(totp.check(&code, 1_700_000_000));
    assert!(enrollment.confirm_at(&code, None, &key).is_err());
    let current = app.generate_current().unwrap();
    assert!(enrollment.confirm(&current, &key).is_ok());
}

#[test]
fn a_new_configuration_has_the_defaults() {
    let config = initial_config("hash".to_owned(), None);
    assert_eq!(config.password_hash, "hash");
    assert!(config.totp_secret.is_none());
    assert_eq!(
        config.bind,
        BindAddress::V4 {
            octets: [127, 0, 0, 1],
            port: 32119
        }
    );
    assert_eq!(config.shell, "pwsh");
    assert_eq!(config.max_output_bytes, 8_388_608);
    assert_eq!(config.max_command_seconds, 300);
    assert_eq!(config.validate(), Ok(()));
    assert_eq!(
        initial_config(String::new(), None).validate(),
        Err(ConfigError::NoMasterPassword)
    );
}

#[test]
fn only_root_is_root() {
    assert!(is_root(true, b"0\n"));
    assert!(is_root(true, b" 0 "));
    assert!(!is_root(false, b"0\n"));
    assert!(!is_root(true, b"1000\n"));
    assert!(!is_root(true, b""));
    assert!(!is_root(true, b"\xff0\n"));
}

#[test]
fn serving_and_installing_need_an_administrator() {
    assert!(check_serving(false, true).is_ok());
    assert!(check_serving(true, false).is_ok());
    assert_eq!(
        check_serving(false, false).err().unwrap().describe(""),
        "SudoServer must run as Administrator/root (or pass --allow-unelevated for development only)"
    );
    assert!(check_installing(true).is_ok());
    assert_eq!(
        check_installing(false).err().unwrap().describe(""),
        "service installation requires Administrator/root"
    );
    assert_eq!(
        SetupError::Seal(ConfigError::SealFailed).describe("x"),
        "failed to encrypt TOTP secret"
    );
}

#[test]
fn the_systemd_unit_names_both_paths() {
    assert_eq!(systemd_escape("/opt/my app/x  y"), "/opt/my\\x20app/x\\x20\\x20y");
    assert_eq!(systemd_escape(""), "");
    assert_eq!(
        systemd_unit("/opt/my app", "/etc/c.toml"),
        "[Unit]\nDescription=SudoServer privileged PowerShell broker\nAfter=network.target\n\n[Service]\nType=simple\nExecStart=/opt/my\\x20app serve --config /etc/c.toml\nRestart=on-failure\nRestartSec=3\nNoNewPrivileges=false\n\n[Install]\nWantedBy=multi-user.target\n"
    );
    assert_eq!(SYSTEMD_UNIT_PATH, "/etc/systemd/system/sudoserver.service");
    assert_eq!(
        systemctl_calls(),
        vec![
            vec!["daemon-reload".to_owned()],
            vec![
                "enable".to_owned(),
                "--now".to_owned(),
                "sudoserver.service".to_owned()
            ],
        ]
    );
}

#[test]
fn the_windows_service_is_registered_and_started() {
    let calls = windows_calls("C:\\a b\\s.exe", "C:\\c.toml");
    assert_eq!(
        calls,
        vec![
            vec![
                "create",
                "SudoServer",
                "binPath=",
                "\"C:\\a b\\s.exe\" service --config \"C:\\c.toml\"",
                "start=",
                "auto",
                "DisplayName=",
                "SudoServer",
            ],
            vec![
                "description",
                "SudoServer",
                "User-controlled privileged PowerShell broker",
            ],
            vec![
                "failure",
                "SudoServer",
                "reset=",
                "86400",
                "actions=",
                "restart/5000/restart/15000/\"\"/0",
            ],
            vec!["start", "SudoServer"],
        ]
    );
}

#[test]
fn private_files_are_private() {
    assert_eq!(
        icacls_arguments(false),
        vec!["/inheritance:r", "/grant:r", "*S-1-5-18:(F)", "*S-1-5-32-544:(F)"]
    );
    assert_eq!(
        icacls_arguments(true),
        vec![
            "/inheritance:r",
            "/grant:r",
            "*S-1-5-18:(OI)(CI)(F)",
            "*S-1-5-32-544:(OI)(CI)(F)",
        ]
    );
    assert_eq!(PRIVATE_FILE_MODE, 0o600);
    assert_eq!(PRIVATE_DIRECTORY_MODE, 0o700);
}

#[test]
fn a_service_shuts_down_once() {
    let mut controller = ServiceController::new();
    let asked = controller.handle(ControlEvent::Interrogate);
    assert!(asked.known && !asked.begin_shutdown);
    let unknown = controller.handle(ControlEvent::Other);
    assert!(!unknown.known && !unknown.begin_shutdown);
    let stopped = controller.handle(ControlEvent::Stop);
    assert!(stopped.known && stopped.begin_shutdown);
    let again = controller.handle(ControlEvent::Shutdown);
    assert!(again.known && !again.begin_shutdown);
    let mut other = ServiceController::new();
    assert!(other.handle(ControlEvent::Shutdown).begin_shutdown);
    assert_eq!(exit_report(true), ServiceExit::System(0));
    assert_eq!(exit_report(false), ServiceExit::Service(1));
}
