use base64::engine::general_purpose::STANDARD;
use base64::Engine as _;
use sudoserver::shell::{
    begin_command, begin_command_with, frame_command, frame_marker, launch_arguments, Progress,
    Request, ShellError, STARTUP_SCRIPT,
};

const MARKER: &str = "__SUDOSERVER_AAAAAAAAAAAAAAAAAAAAAAAA__";

fn request(command: &str, max_output_bytes: usize) -> Request {
    begin_command_with(command, false, max_output_bytes, &[0; 18]).unwrap()
}

fn done(progress: Progress) -> (String, i32, bool, bool) {
    match progress {
        Progress::Done(result) => {
            let result = result.clone();
            (result.output, result.exit_code, result.success, result.truncated)
        }
        Progress::Pending => panic!("pending"),
        Progress::Failed(error) => panic!("{}", error.to_string()),
    }
}

fn is_invalid(progress: Progress) -> bool {
    matches!(progress, Progress::Failed(ShellError::InvalidResponse))
}

#[test]
fn powershell_starts_without_profile_or_prompts() {
    assert_eq!(
        launch_arguments(),
        vec!["-NoLogo", "-NoProfile", "-NonInteractive", "-NoExit", "-Command", "-"]
    );
    assert_eq!(
        STARTUP_SCRIPT,
        "[Console]::OutputEncoding=[Text.UTF8Encoding]::new($false);$OutputEncoding=[Console]::OutputEncoding\n"
    );
}

#[test]
fn markers_come_from_random_bytes() {
    assert_eq!(frame_marker(&[0; 18]), MARKER);
    let first = begin_command("x", false, 1024).unwrap().script;
    let second = begin_command("x", false, 1024).unwrap().script;
    assert_ne!(first, second);
    assert!(!first.contains(MARKER));
}

#[test]
fn commands_are_framed_exactly() {
    let script = frame_command("Get-Date 'x' | \u{e9}", "M");
    let expected = format!(
        "$__ss_s=[Text.Encoding]::UTF8.GetString([Convert]::FromBase64String('{}'));$__ss_ec=0;$__ss_o='';try{{$global:LASTEXITCODE=0;$__ss_errors=$global:Error.Count;$__ss_items=. ([ScriptBlock]::Create($__ss_s)) *>&1;$__ss_ec=if($LASTEXITCODE -ne 0){{[int]$LASTEXITCODE}}elseif($global:Error.Count -gt $__ss_errors){{1}}else{{0}};$__ss_o=$__ss_items|Out-String -Width 32767}}catch{{$__ss_ec=1;$__ss_o=$_|Out-String -Width 32767}};$__ss_b=[Convert]::ToBase64String([Text.Encoding]::UTF8.GetBytes([string]$__ss_o));[Console]::Out.WriteLine('{}'+$__ss_ec+'|'+$__ss_b)\n",
        "R2V0LURhdGUgJ3gnIHwgw6k=", "M"
    );
    assert_eq!(script, expected);
}

#[test]
fn commands_travel_verbatim() {
    let command = "'); exit 1 #\r\n\u{503c}=\"$_\"";
    let script = request(command, 1024).script;
    let start = script.find("FromBase64String('").unwrap() + "FromBase64String('".len();
    let end = start + script[start..].find('\'').unwrap();
    let bytes = STANDARD.decode(&script[start..end]).unwrap();
    assert_eq!(String::from_utf8(bytes).unwrap(), command);
    assert_eq!(script.matches('\n').count(), 1);
}

#[test]
fn an_exited_shell_takes_no_command() {
    assert!(matches!(begin_command("x", true, 1024), Err(ShellError::Ended)));
    assert!(matches!(
        begin_command_with("x", true, 1024, &[0; 18]),
        Err(ShellError::Ended)
    ));
}

#[test]
fn the_answer_is_found_and_decoded() {
    for end in ["\n", "\r\n"] {
        let mut reader = request("x", 1024).reader;
        let line = format!("{MARKER}0|aGkK{end}");
        assert_eq!(done(reader.read(&line)), ("hi\n".to_owned(), 0, true, false));
    }
    let mut reader = request("x", 1024).reader;
    let line = format!("{MARKER}7|5YC8\n");
    assert_eq!(done(reader.read(&line)), ("\u{503c}".to_owned(), 7, false, false));
    let mut reader = request("x", 1024).reader;
    let line = format!("{MARKER}-1|\n");
    assert_eq!(done(reader.read(&line)), (String::new(), -1, false, false));
}

#[test]
fn other_lines_come_before_the_output() {
    let mut reader = request("x", 1024).reader;
    assert!(matches!(reader.read("first\r\n"), Progress::Pending));
    assert!(matches!(reader.read("\n"), Progress::Pending));
    assert!(matches!(reader.read(&format!(" {MARKER}0|\n")), Progress::Pending));
    let line = format!("{MARKER}0|aGkK\n");
    let expected = format!("first\r\n\n {MARKER}0|\nhi\n");
    assert_eq!(done(reader.read(&line)), (expected, 0, true, false));
}

#[test]
fn output_is_cut_off_at_the_limit() {
    let mut reader = request("x", 3).reader;
    let exactly = format!("{MARKER}0|aGkK\n");
    assert_eq!(done(reader.read(&exactly)), ("hi\n".to_owned(), 0, true, false));
    let mut reader = request("x", 2).reader;
    assert_eq!(done(reader.read(&exactly)), ("hi".to_owned(), 0, true, true));
    let mut reader = request("x", 4).reader;
    assert!(matches!(reader.read("ab\n"), Progress::Pending));
    assert_eq!(done(reader.read(&exactly)), ("ab\nh".to_owned(), 0, true, true));
}

#[test]
fn lines_past_the_limit_are_dropped() {
    let mut reader = request("x", 4).reader;
    assert!(matches!(reader.read("abcd"), Progress::Pending));
    assert!(matches!(reader.read("ef\n"), Progress::Pending));
    assert!(matches!(reader.read("gh\n"), Progress::Pending));
    let line = format!("{MARKER}0|aGkK\n");
    assert_eq!(done(reader.read(&line)), ("abcd".to_owned(), 0, true, true));
}

#[test]
fn a_character_that_is_cut_in_two_is_replaced() {
    let mut reader = request("x", 2).reader;
    let line = format!("{MARKER}0|5YC8\n");
    assert_eq!(done(reader.read(&line)), ("\u{fffd}".to_owned(), 0, true, true));
}

#[test]
fn answers_that_make_no_sense_are_refused() {
    for answer in [
        "",
        "0",
        "|aGkK",
        "x|aGkK",
        "+|aGkK",
        "1 |aGkK",
        "2147483648|aGkK",
        "-2147483649|aGkK",
        "0|aGk",
        "0|aGkK|aGkK",
        "0|aGkL===",
    ] {
        let mut reader = request("x", 1024).reader;
        assert!(is_invalid(reader.read(&format!("{MARKER}{answer}\n"))), "{}", answer);
    }
    let mut reader = request("x", 1024).reader;
    let line = format!("{MARKER}+2147483647|aGkK\n");
    assert_eq!(done(reader.read(&line)).1, i32::MAX);
    let mut reader = request("x", 1024).reader;
    let line = format!("{MARKER}-2147483648|aGkK\n");
    assert_eq!(done(reader.read(&line)).1, i32::MIN);
}

#[test]
fn the_end_of_the_output_ends_the_session() {
    let mut reader = request("x", 1024).reader;
    assert!(matches!(reader.read("last words\n"), Progress::Pending));
    assert!(matches!(reader.read(""), Progress::Failed(ShellError::Ended)));
}

#[test]
fn shell_errors_say_what_is_wrong() {
    let cause = || std::io::Error::new(std::io::ErrorKind::NotFound, "no such file");
    assert_eq!(
        ShellError::Start(cause()).to_string(),
        "failed to start PowerShell: no such file"
    );
    assert_eq!(ShellError::Io(cause()).to_string(), "PowerShell I/O failed: no such file");
    assert_eq!(ShellError::Ended.to_string(), "PowerShell session ended unexpectedly");
    assert_eq!(
        ShellError::InvalidResponse.to_string(),
        "PowerShell returned an invalid response"
    );
    assert_eq!(
        ShellError::Timeout(30).to_string(),
        "command exceeded the 30-second timeout; the session was destroyed"
    );
}
