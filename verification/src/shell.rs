//! Running commands in a persistent PowerShell: how it is started, how a command is framed
//! on its standard input, and how the answer is found on its standard output.
use vstd::prelude::*;
use vstd::string::*;
use vstd::utf8::*;

use crate::crypto::random_bytes;
use crate::encoding::{
    base64, base64_bytes, encode_standard, is_standard, law_base64_is_canonical, lemma_base64,
    read_base64,
};
use crate::text::{
    decimal, decimal_text, is_digit, law_line_end_is_cut, parse_i32, split_once, strip_prefix,
    trim_line_end, without_line_end, written_i32,
};

verus! {

/// What a command led to.
#[derive(Debug)]
pub struct ExecutionResult {
    pub output: String,
    pub exit_code: i32,
    pub success: bool,
    pub truncated: bool,
}

/// What an [`ExecutionResult`] stands for.
pub struct ExecutionView {
    pub output: Seq<char>,
    pub exit_code: int,
    pub success: bool,
    pub truncated: bool,
}

impl View for ExecutionResult {
    type V = ExecutionView;

    open spec fn view(&self) -> ExecutionView {
        ExecutionView {
            output: self.output@,
            exit_code: self.exit_code as int,
            success: self.success,
            truncated: self.truncated,
        }
    }
}

impl Clone for ExecutionResult {
    fn clone(&self) -> (r: ExecutionResult)
        ensures
            r == *self,
    {
        ExecutionResult {
            output: self.output.clone(),
            exit_code: self.exit_code,
            success: self.success,
            truncated: self.truncated,
        }
    }
}

/// An error of the operating system, as the standard library reports it.
#[verifier::external_type_specification]
#[verifier::external_body]
pub struct ExIoError(std::io::Error);

/// Why a command could not be run.
#[derive(Debug)]
pub enum ShellError {
    Start(std::io::Error),
    Ended,
    Io(std::io::Error),
    InvalidResponse,
    Timeout(u64),
}

/// `to_string` of `std::io::Error` in the standard library: what the error says. The text
/// comes from the operating system, so nothing is said of it here.
#[verifier::external_body]
fn io_error_text(error: &std::io::Error) -> (text: String) {
    error.to_string()
}

impl ShellError {
    /// What the error says to a user; `cause` is the text of the operating system error, if
    /// there is one.
    pub open spec fn text(&self, cause: Seq<char>) -> Seq<char> {
        match self {
            ShellError::Start(_) => "failed to start PowerShell: "@ + cause,
            ShellError::Ended => "PowerShell session ended unexpectedly"@,
            ShellError::Io(_) => "PowerShell I/O failed: "@ + cause,
            ShellError::InvalidResponse => "PowerShell returned an invalid response"@,
            ShellError::Timeout(seconds) => "command exceeded the "@ + decimal(*seconds as nat)
                + "-second timeout; the session was destroyed"@,
        }
    }

    /// What the error says to a user.
    pub fn to_string(&self) -> (text: String)
        ensures
            exists|cause: Seq<char>| text@ == #[trigger] self.text(cause),
    {
        let ghost none = Seq::<char>::empty();
        match self {
            ShellError::Start(error) => {
                let cause = io_error_text(error);
                let text = "failed to start PowerShell: ".to_owned().concat(cause.as_str());
                assert(text@ == self.text(cause@));
                text
            },
            ShellError::Ended => {
                let text = "PowerShell session ended unexpectedly".to_owned();
                assert(text@ == self.text(none));
                text
            },
            ShellError::Io(error) => {
                let cause = io_error_text(error);
                let text = "PowerShell I/O failed: ".to_owned().concat(cause.as_str());
                assert(text@ == self.text(cause@));
                text
            },
            ShellError::InvalidResponse => {
                let text = "PowerShell returned an invalid response".to_owned();
                assert(text@ == self.text(none));
                text
            },
            ShellError::Timeout(seconds) => {
                let text = "command exceeded the ".to_owned().concat(
                    decimal_text(*seconds).as_str(),
                ).concat("-second timeout; the session was destroyed");
                assert(text@ == self.text(none));
                text
            },
        }
    }
}

/// What PowerShell is told first: to write UTF-8 without a byte order mark.
pub const STARTUP_SCRIPT: &'static str =
    "[Console]::OutputEncoding=[Text.UTF8Encoding]::new($false);$OutputEncoding=[Console]::OutputEncoding\n";

/// The script around a command, up to the encoded command.
pub const SCRIPT_HEAD: &'static str =
    "$__ss_s=[Text.Encoding]::UTF8.GetString([Convert]::FromBase64String('";

/// The script around a command, between the encoded command and the marker: it has
/// PowerShell's own parser read the command, runs it in the session, collects every stream
/// in order, and works out an exit code.
pub const SCRIPT_BODY: &'static str =
    "'));$__ss_ec=0;$__ss_o='';try{$global:LASTEXITCODE=0;$__ss_errors=$global:Error.Count;$__ss_items=. ([ScriptBlock]::Create($__ss_s)) *>&1;$__ss_ec=if($LASTEXITCODE -ne 0){[int]$LASTEXITCODE}elseif($global:Error.Count -gt $__ss_errors){1}else{0};$__ss_o=$__ss_items|Out-String -Width 32767}catch{$__ss_ec=1;$__ss_o=$_|Out-String -Width 32767};$__ss_b=[Convert]::ToBase64String([Text.Encoding]::UTF8.GetBytes([string]$__ss_o));[Console]::Out.WriteLine('";

/// The script around a command, from the marker on.
pub const SCRIPT_TAIL: &'static str = "'+$__ss_ec+'|'+$__ss_b)\n";

/// The arguments that PowerShell is started with.
pub open spec fn launch_arguments_spec() -> Seq<Seq<char>> {
    seq!["-NoLogo"@, "-NoProfile"@, "-NonInteractive"@, "-NoExit"@, "-Command"@, "-"@]
}

/// The arguments that PowerShell is started with: no banner, no profile, nobody to ask, and
/// commands from standard input until it closes.
pub fn launch_arguments() -> (arguments: Vec<&'static str>)
    ensures
        arguments@.len() == 6,
        forall|i: int| 0 <= i < 6 ==> (#[trigger] arguments@[i])@ == launch_arguments_spec()[i],
{
    let mut arguments: Vec<&'static str> = Vec::new();
    arguments.push("-NoLogo");
    arguments.push("-NoProfile");
    arguments.push("-NonInteractive");
    arguments.push("-NoExit");
    arguments.push("-Command");
    arguments.push("-");
    arguments
}

/// The marker made of some random bytes.
pub open spec fn marker_text(random: Seq<u8>) -> Seq<char> {
    "__SUDOSERVER_"@ + base64(random) + "__"@
}

/// The marker made of some random bytes.
pub fn frame_marker(random: &[u8]) -> (marker: String)
    ensures
        marker@ == marker_text(random@),
{
    "__SUDOSERVER_".to_owned().concat(encode_standard(random).as_str()).concat("__")
}

/// What is written to PowerShell for `command`, whose answer is announced by `marker`.
pub open spec fn framed(command: Seq<char>, marker: Seq<char>) -> Seq<char> {
    SCRIPT_HEAD@ + base64(encode_utf8(command)) + SCRIPT_BODY@ + marker + SCRIPT_TAIL@
}

/// What is written to PowerShell for `command`, whose answer is announced by `marker`.
pub fn frame_command(command: &str, marker: &str) -> (script: String)
    ensures
        script@ == framed(command@, marker@),
{
    SCRIPT_HEAD.to_owned().concat(encode_standard(command.as_bytes()).as_str()).concat(
        SCRIPT_BODY,
    ).concat(marker).concat(SCRIPT_TAIL)
}

/// The text of some bytes, where what is not UTF-8 is replaced.
pub uninterp spec fn utf8_lossy(bytes: Seq<u8>) -> Seq<char>;

/// `String::from_utf8_lossy` of the standard library: valid UTF-8 is decoded as it is,
/// anything else is replaced, in a way that depends on the bytes alone.
#[verifier::external_body]
pub(crate) fn lossy_text(bytes: &[u8]) -> (text: String)
    ensures
        text@ == utf8_lossy(bytes@),
        valid_utf8(bytes@) ==> text@ == decode_utf8(bytes@),
{
    String::from_utf8_lossy(bytes).into_owned()
}

/// The text of some bytes: the characters that they encode if they are UTF-8, else what is
/// left when the parts that are not were replaced.
pub open spec fn decoded_text(bytes: Seq<u8>) -> Seq<char> {
    if valid_utf8(bytes) {
        decode_utf8(bytes)
    } else {
        utf8_lossy(bytes)
    }
}

/// What follows the marker in `line`, if the line starts with it.
pub open spec fn answer_in(marker: Seq<char>, line: Seq<char>) -> Option<Seq<char>> {
    let content = without_line_end(line);
    if marker.is_prefix_of(content) {
        Some(content.skip(marker.len() as int))
    } else {
        None
    }
}

/// The exit code and the output bytes in an answer: a 32-bit number, a bar, base64.
pub open spec fn answer_parts(answer: Seq<char>) -> Option<(int, Seq<u8>)> {
    match answer.index_of_first('|') {
        None => None,
        Some(bar) => match (written_i32(answer.take(bar)), base64_bytes(answer.skip(bar + 1))) {
            (Some(exit_code), Some(output)) => Some((exit_code, output)),
            _ => None,
        },
    }
}

/// The result for an exit code and output bytes, cut off after `max_output_bytes`.
pub open spec fn result_of(exit_code: int, output: Seq<u8>, max_output_bytes: int) -> ExecutionView {
    ExecutionView {
        output: decoded_text(
            if output.len() > max_output_bytes {
                output.take(max_output_bytes)
            } else {
                output
            },
        ),
        exit_code,
        success: exit_code == 0,
        truncated: output.len() > max_output_bytes,
    }
}

/// How far the answer to a command has come.
pub enum Progress {
    /// The line belongs to something else; there is more to read.
    Pending,
    /// The command is done.
    Done(ExecutionResult),
    /// The output has ended, or the line announces an answer that makes no sense.
    Failed(ShellError),
}

/// Finds the answer to one command among the lines that PowerShell writes.
pub struct ResponseReader {
    marker: String,
    max_output_bytes: usize,
    incidental: Vec<u8>,
}

/// The state of a [`ResponseReader`].
pub struct ReaderState {
    pub marker: Seq<char>,
    pub max_output_bytes: int,
    /// What came before the answer: written by the command past PowerShell's own streams.
    pub incidental: Seq<u8>,
}

impl View for ResponseReader {
    type V = ReaderState;

    closed spec fn view(&self) -> ReaderState {
        ReaderState {
            marker: self.marker@,
            max_output_bytes: self.max_output_bytes as int,
            incidental: self.incidental@,
        }
    }
}

/// The state after a line that is no answer: the line is kept as long as what was kept
/// before is within the limit.
pub open spec fn with_incidental(state: ReaderState, line: Seq<char>) -> ReaderState {
    if state.incidental.len() <= state.max_output_bytes {
        ReaderState { incidental: state.incidental + encode_utf8(line), ..state }
    } else {
        state
    }
}

/// What one line from PowerShell leads to. A line that is empty, without even a line end,
/// is the end of its output.
pub open spec fn read_outcome(
    before: ReaderState,
    line: Seq<char>,
    after: ReaderState,
    progress: Progress,
) -> bool {
    if line.len() == 0 {
        after == before && progress is Failed && progress->Failed_0 is Ended
    } else {
        match answer_in(before.marker, line) {
            None => progress is Pending && after == with_incidental(before, line),
            Some(answer) => {
                &&& after == before
                &&& match answer_parts(answer) {
                    None => progress is Failed && progress->Failed_0 is InvalidResponse,
                    Some((exit_code, output)) => progress is Done && progress->Done_0@ == result_of(
                        exit_code,
                        before.incidental + output,
                        before.max_output_bytes,
                    ),
                }
            },
        }
    }
}

impl ResponseReader {
    /// A reader that has seen nothing yet.
    fn new(marker: String, max_output_bytes: usize) -> (reader: ResponseReader)
        ensures
            reader@ == (ReaderState {
                marker: marker@,
                max_output_bytes: max_output_bytes as int,
                incidental: Seq::empty(),
            }),
    {
        ResponseReader { marker, max_output_bytes, incidental: Vec::new() }
    }

    /// Takes one line, with its line end, as PowerShell wrote it; nothing at all where its
    /// output has ended.
    pub fn read(&mut self, line: &str) -> (progress: Progress)
        ensures
            read_outcome(old(self)@, line@, final(self)@, progress),
    {
        if line.unicode_len() == 0 {
            return Progress::Failed(ShellError::Ended);
        }
        let content = trim_line_end(line);
        let answer = match strip_prefix(content.as_str(), self.marker.as_str()) {
            Some(answer) => answer,
            None => {
                if self.incidental.len() <= self.max_output_bytes {
                    let ghost before = self.incidental@;
                    self.incidental.extend_from_slice(line.as_bytes());
                    assert(self.incidental@ =~= before + encode_utf8(line@));
                }
                return Progress::Pending;
            },
        };
        proof {
            assert(self.marker@.is_prefix_of(content@));
            assert(content@.skip(self.marker@.len() as int) =~= answer@);
            answer@.index_of_first_ensures('|');
        }
        let (exit_code_text, payload) = match split_once(answer.as_str(), '|') {
            Some(parts) => parts,
            None => return Progress::Failed(ShellError::InvalidResponse),
        };
        proof {
            let bar = exit_code_text@.len() as int;
            assert(answer@[bar] == '|');
            assert forall|i: int| 0 <= i < bar implies answer@[i] != '|' by {
                assert(answer@[i] == exit_code_text@[i]);
            }
            assert(answer@.index_of_first('|') == Some(bar));
            assert(answer@.take(bar) =~= exit_code_text@);
            assert(answer@.skip(bar + 1) =~= payload@);
        }
        let exit_code = match parse_i32(exit_code_text.as_str()) {
            Some(exit_code) => exit_code,
            None => return Progress::Failed(ShellError::InvalidResponse),
        };
        let payload_bytes = match read_base64(payload.as_str()) {
            Some(bytes) => bytes,
            None => return Progress::Failed(ShellError::InvalidResponse),
        };
        let mut output: Vec<u8> = Vec::new();
        output.extend_from_slice(&self.incidental);
        output.extend_from_slice(&payload_bytes);
        assert(output@ =~= self.incidental@ + payload_bytes@);
        let truncated = output.len() > self.max_output_bytes;
        if truncated {
            output.truncate(self.max_output_bytes);
            assert(output@ =~= (self.incidental@ + payload_bytes@).take(
                self.max_output_bytes as int,
            ));
        }
        Progress::Done(
            ExecutionResult {
                output: lossy_text(&output),
                exit_code,
                success: exit_code == 0,
                truncated,
            },
        )
    }
}

/// One command on its way: what is written to PowerShell, and the reader of its answer.
pub struct Request {
    pub script: String,
    pub reader: ResponseReader,
}

/// What a request is for `command`, with the given marker.
pub open spec fn is_request(
    request: Request,
    command: Seq<char>,
    marker: Seq<char>,
    max_output_bytes: int,
) -> bool {
    &&& request.script@ == framed(command, marker)
    &&& request.reader@ == (ReaderState { marker, max_output_bytes, incidental: Seq::empty() })
}

/// Frames `command` with a marker made of the given bytes, unless PowerShell has exited.
pub fn begin_command_with(
    command: &str,
    exited: bool,
    max_output_bytes: usize,
    random: &[u8],
) -> (r: Result<Request, ShellError>)
    ensures
        match r {
            Ok(request) => !exited && is_request(
                request,
                command@,
                marker_text(random@),
                max_output_bytes as int,
            ),
            Err(error) => exited && error is Ended,
        },
{
    if exited {
        return Err(ShellError::Ended);
    }
    let marker = frame_marker(random);
    let script = frame_command(command, marker.as_str());
    Ok(Request { script, reader: ResponseReader::new(marker, max_output_bytes) })
}

/// Frames `command` with a fresh marker of 144 random bits, unless PowerShell has exited.
pub fn begin_command(command: &str, exited: bool, max_output_bytes: usize) -> (r: Result<
    Request,
    ShellError,
>)
    ensures
        match r {
            Ok(request) => !exited && exists|random: Seq<u8>|
                random.len() == 18 && is_request(
                    request,
                    command@,
                    #[trigger] marker_text(random),
                    max_output_bytes as int,
                ),
            Err(error) => exited && error is Ended,
        },
{
    let random = random_bytes(18);
    let r = begin_command_with(command, exited, max_output_bytes, &random);
    assert(random@.len() == 18);
    r
}

/// A command reaches PowerShell verbatim: the text between the quotes of the frame contains
/// no quote, and decodes to exactly the characters of the command.
pub proof fn law_command_travels_verbatim(command: Seq<char>)
    ensures
        !base64(encode_utf8(command)).contains('\''),
        base64_bytes(base64(encode_utf8(command))) == Some(encode_utf8(command)),
        decode_utf8(encode_utf8(command)) == command,
{
    let bytes = encode_utf8(command);
    lemma_base64(bytes);
    assert forall|i: int| 0 <= i < base64(bytes).len() implies base64(bytes)[i] != '\'' by {
        assert(is_standard(base64(bytes)[i]));
    }
    encode_utf8_decode_utf8(command);
}

proof fn lemma_no_line_end(s: Seq<char>)
    requires
        s.len() > 0,
        s.last() != '\r',
        s.last() != '\n',
    ensures
        without_line_end(s) == s,
        without_line_end(s.push('\n')) == s,
        without_line_end(s.push('\r').push('\n')) == s,
{
    let a = s.push('\n');
    assert(a.last() == '\n');
    assert(a.drop_last() =~= s);
    let b = s.push('\r');
    let c = b.push('\n');
    assert(c.last() == '\n');
    assert(c.drop_last() =~= b);
    assert(b.last() == '\r');
    assert(b.drop_last() =~= s);
    assert(without_line_end(c) == without_line_end(b));
}

proof fn lemma_number_has_no_bar(s: Seq<char>)
    requires
        written_i32(s) is Some,
    ensures
        !s.contains('|'),
{
    let signed = s.len() > 0 && (s[0] == '-' || s[0] == '+');
    assert forall|i: int| 0 <= i < s.len() implies s[i] != '|' by {
        if !signed {
            assert(is_digit(s[i]));
        } else if i > 0 {
            assert(is_digit(s.skip(1)[i - 1]));
        }
    }
}

proof fn lemma_answer_in_printed(marker: Seq<char>, answer: Seq<char>)
    requires
        answer.len() > 0,
        answer.last() != '\r',
        answer.last() != '\n',
    ensures
        answer_in(marker, (marker + answer).push('\n')) == Some(answer),
        answer_in(marker, (marker + answer).push('\r').push('\n')) == Some(answer),
{
    let printed = marker + answer;
    assert(printed.last() == answer.last());
    lemma_no_line_end(printed);
    assert(printed.take(marker.len() as int) =~= marker);
    assert(marker.is_prefix_of(printed));
    assert(printed.skip(marker.len() as int) =~= answer);
}

proof fn lemma_parts_of_answer(exit_code: Seq<char>, payload: Seq<char>)
    requires
        !exit_code.contains('|'),
    ensures
        (exit_code.push('|') + payload).index_of_first('|') == Some(exit_code.len() as int),
        (exit_code.push('|') + payload).take(exit_code.len() as int) == exit_code,
        (exit_code.push('|') + payload).skip(exit_code.len() as int + 1) == payload,
{
    let answer = exit_code.push('|') + payload;
    let bar = exit_code.len() as int;
    answer.index_of_first_ensures('|');
    assert(answer[bar] == '|');
    assert forall|i: int| 0 <= i < bar implies answer[i] != '|' by {
        assert(answer[i] == exit_code[i]);
    }
    assert(answer.take(bar) =~= exit_code);
    assert(answer.skip(bar + 1) =~= payload);
}

/// What the frame makes PowerShell print for an exit code and an output.
pub open spec fn printed_answer(marker: Seq<char>, exit_code: Seq<char>, output: Seq<u8>) -> Seq<
    char,
> {
    marker + (exit_code.push('|') + base64(output))
}

/// The answer that the frame makes PowerShell print, whichever way it ends the line, is
/// found and read back: the exit code, and the output after whatever came before it.
pub proof fn law_answer_is_read_back(
    before: ReaderState,
    exit_code: Seq<char>,
    output: Seq<u8>,
    line: Seq<char>,
    after: ReaderState,
    progress: Progress,
)
    requires
        written_i32(exit_code) is Some,
        line == printed_answer(before.marker, exit_code, output).push('\n') || line
            == printed_answer(before.marker, exit_code, output).push('\r').push('\n'),
        read_outcome(before, line, after, progress),
    ensures
        progress is Done,
        progress->Done_0@ == result_of(
            written_i32(exit_code)->0,
            before.incidental + output,
            before.max_output_bytes,
        ),
{
    let payload = base64(output);
    let answer = exit_code.push('|') + payload;
    assert(answer.last() != '\r' && answer.last() != '\n') by {
        lemma_base64(output);
        if payload.len() > 0 {
            assert(is_standard(payload[payload.len() - 1]));
            assert(answer.last() == payload.last());
        } else {
            assert(answer.last() == '|');
        }
    }
    assert(base64_bytes(payload) == Some(output)) by {
        lemma_base64(output);
    }
    lemma_number_has_no_bar(exit_code);
    lemma_answer_in_printed(before.marker, answer);
    lemma_parts_of_answer(exit_code, payload);
}

/// No more than the configured number of bytes of output is passed on, and a result says so
/// if and only if something was cut off.
pub proof fn law_output_is_bounded(exit_code: int, output: Seq<u8>, max_output_bytes: int)
    requires
        0 <= max_output_bytes,
    ensures
        exists|kept: Seq<u8>|
            #![trigger decoded_text(kept)]
            kept.len() <= max_output_bytes && kept.is_prefix_of(output) && result_of(
                exit_code,
                output,
                max_output_bytes,
            ).output == decoded_text(kept) && (result_of(
                exit_code,
                output,
                max_output_bytes,
            ).truncated <==> kept.len() < output.len()),
{
    let kept = if output.len() > max_output_bytes {
        output.take(max_output_bytes)
    } else {
        output
    };
    assert(kept.is_prefix_of(output));
    assert(result_of(exit_code, output, max_output_bytes).output == decoded_text(kept));
}

/// The state after some lines that are no answer.
pub open spec fn after_lines(state: ReaderState, lines: Seq<Seq<char>>) -> ReaderState
    decreases lines.len(),
{
    if lines.len() == 0 {
        state
    } else {
        with_incidental(after_lines(state, lines.drop_last()), lines.last())
    }
}

/// The bytes of some lines, one after the other.
pub open spec fn bytes_of(lines: Seq<Seq<char>>) -> Seq<u8>
    decreases lines.len(),
{
    if lines.len() == 0 {
        Seq::empty()
    } else {
        bytes_of(lines.drop_last()) + encode_utf8(lines.last())
    }
}

proof fn lemma_kept_lines(start: ReaderState, lines: Seq<Seq<char>>)
    requires
        start.incidental.len() == 0,
    ensures
        after_lines(start, lines).max_output_bytes == start.max_output_bytes,
        after_lines(start, lines).marker == start.marker,
        after_lines(start, lines).incidental.is_prefix_of(bytes_of(lines)),
        after_lines(start, lines).incidental == bytes_of(lines) || after_lines(
            start,
            lines,
        ).incidental.len() > start.max_output_bytes,
    decreases lines.len(),
{
    if lines.len() > 0 {
        lemma_kept_lines(start, lines.drop_last());
        let before = after_lines(start, lines.drop_last()).incidental;
        let all = bytes_of(lines.drop_last());
        let line = encode_utf8(lines.last());
        if before.len() <= start.max_output_bytes {
            assert(before + line =~= (all + line));
        } else {
            assert((all + line).take(before.len() as int) =~= all.take(before.len() as int));
        }
    } else {
        assert(start.incidental =~= bytes_of(lines));
    }
}

/// Nothing within the limit is lost: though lines past the limit are dropped, the result is
/// that of everything that was written before the answer, followed by the output.
pub proof fn law_nothing_within_the_limit_is_lost(
    start: ReaderState,
    lines: Seq<Seq<char>>,
    exit_code: int,
    output: Seq<u8>,
)
    requires
        start.incidental.len() == 0,
        0 <= start.max_output_bytes,
    ensures
        result_of(
            exit_code,
            after_lines(start, lines).incidental + output,
            after_lines(start, lines).max_output_bytes,
        ) == result_of(exit_code, bytes_of(lines) + output, start.max_output_bytes),
{
    lemma_kept_lines(start, lines);
    let kept = after_lines(start, lines).incidental;
    let all = bytes_of(lines);
    let limit = start.max_output_bytes;
    if kept != all {
        assert((kept + output).take(limit) =~= kept.take(limit));
        assert((all + output).take(limit) =~= all.take(limit));
        assert(kept =~= all.take(kept.len() as int));
        assert(kept.take(limit) =~= all.take(limit));
    }
}

/// A whole exchange: whatever lines PowerShell writes before the answer, the answer that
/// the frame makes it print leads to its exit code and to everything that was written, the
/// output last, up to the limit.
pub proof fn law_exchange_gives_everything(
    start: ReaderState,
    lines: Seq<Seq<char>>,
    exit_code: Seq<char>,
    output: Seq<u8>,
    line: Seq<char>,
    after: ReaderState,
    progress: Progress,
)
    requires
        start.incidental.len() == 0,
        0 <= start.max_output_bytes,
        written_i32(exit_code) is Some,
        line == printed_answer(start.marker, exit_code, output).push('\n') || line
            == printed_answer(start.marker, exit_code, output).push('\r').push('\n'),
        read_outcome(after_lines(start, lines), line, after, progress),
    ensures
        progress is Done,
        progress->Done_0@ == result_of(
            written_i32(exit_code)->0,
            bytes_of(lines) + output,
            start.max_output_bytes,
        ),
{
    lemma_kept_lines(start, lines);
    law_answer_is_read_back(
        after_lines(start, lines),
        exit_code,
        output,
        line,
        after,
        progress,
    );
    law_nothing_within_the_limit_is_lost(start, lines, written_i32(exit_code)->0, output);
}

/// A command goes to PowerShell in UTF-8 and base64, with nothing added to it or taken from
/// it, and the answer is announced by a line that starts with the marker, which no line of
/// output is likely to hold: it is made of all the random bytes.
pub proof fn law_request_holds_the_command(
    request: Request,
    command: Seq<char>,
    random: Seq<u8>,
    max_output_bytes: int,
)
    requires
        is_request(request, command, marker_text(random), max_output_bytes),
    ensures
        request.script@ == SCRIPT_HEAD@ + base64(encode_utf8(command)) + SCRIPT_BODY@ + (
        "__SUDOSERVER_"@ + base64(random) + "__"@) + SCRIPT_TAIL@,
        request.reader@.marker == "__SUDOSERVER_"@ + base64(random) + "__"@,
        request.reader@.max_output_bytes == max_output_bytes,
        request.reader@.incidental.len() == 0,
{
}

/// Whatever the command and the marker are, the script around them is the same.
pub proof fn law_frame_is_fixed(command: Seq<char>, marker: Seq<char>)
    ensures
        framed(command, marker) == SCRIPT_HEAD@ + base64(encode_utf8(command)) + SCRIPT_BODY@
            + marker + SCRIPT_TAIL@,
{
}

proof fn lemma_line_end_is_cut(content: Seq<char>, ending: Seq<char>)
    requires
        content.len() > 0 ==> content.last() != '\r' && content.last() != '\n',
        forall|i: int| 0 <= i < ending.len() ==> #[trigger] ending[i] == '\r' || ending[i] == '\n',
    ensures
        without_line_end(content + ending) == content,
    decreases ending.len(),
{
    let line = content + ending;
    if ending.len() == 0 {
        assert(line =~= content);
    } else {
        assert(line.last() == ending[ending.len() - 1]);
        assert(line.drop_last() =~= content + ending.drop_last());
        lemma_line_end_is_cut(content, ending.drop_last());
    }
}

proof fn lemma_answer_is_found(
    marker: Seq<char>,
    exit_code: Seq<char>,
    output: Seq<u8>,
    ending: Seq<char>,
)
    requires
        written_i32(exit_code) is Some,
        forall|i: int| 0 <= i < ending.len() ==> #[trigger] ending[i] == '\r' || ending[i] == '\n',
    ensures
        ({
            let answer = exit_code + seq!['|'] + base64(output);
            &&& answer_in(marker, marker + answer + ending) == Some(answer)
            &&& answer_parts(answer) == Some((written_i32(exit_code)->0, output))
            &&& (marker + answer + ending).len() > 0
        }),
{
    let payload = base64(output);
    let answer = exit_code.push('|') + payload;
    assert(answer =~= exit_code + seq!['|'] + base64(output));
    let content = marker + answer;
    assert(base64_bytes(payload) == Some(output)) by {
        lemma_base64(output);
    }
    assert(answer.last() != '\r' && answer.last() != '\n') by {
        lemma_base64(output);
        if payload.len() > 0 {
            assert(is_standard(payload[payload.len() - 1]));
            assert(answer.last() == payload.last());
        } else {
            assert(answer.last() == '|');
        }
    }
    assert(content.last() == answer.last());
    lemma_line_end_is_cut(content, ending);
    assert(content.take(marker.len() as int) =~= marker);
    assert(content.skip(marker.len() as int) =~= answer);
    lemma_number_has_no_bar(exit_code);
    lemma_parts_of_answer(exit_code, payload);
}

/// A result holds everything that fits. Where what came before the answer and the output of
/// the command are together at most `max_output_bytes` long, all of it is passed on, and the
/// result does not say that it was cut off; where they are longer, exactly the first
/// `max_output_bytes` bytes are passed on, and the result says so. The exit code is the one
/// in the answer, and zero, and nothing else, is a success.
pub proof fn law_output_up_to_the_limit(
    before: ReaderState,
    exit_code: Seq<char>,
    output: Seq<u8>,
    ending: Seq<char>,
    after: ReaderState,
    progress: Progress,
)
    requires
        written_i32(exit_code) is Some,
        forall|i: int| 0 <= i < ending.len() ==> #[trigger] ending[i] == '\r' || ending[i] == '\n',
        read_outcome(
            before,
            before.marker + (exit_code + seq!['|'] + base64(output)) + ending,
            after,
            progress,
        ),
    ensures
        progress is Done,
        progress->Done_0.exit_code == written_i32(exit_code)->0,
        progress->Done_0.success <==> written_i32(exit_code)->0 == 0,
        before.incidental.len() + output.len() <= before.max_output_bytes ==> {
            &&& !progress->Done_0.truncated
            &&& valid_utf8(before.incidental + output) ==> progress->Done_0.output@ == decode_utf8(
                before.incidental + output,
            )
            &&& !valid_utf8(before.incidental + output) ==> progress->Done_0.output@ == utf8_lossy(
                before.incidental + output,
            )
        },
        before.incidental.len() + output.len() > before.max_output_bytes ==> {
            let kept = (before.incidental + output).take(before.max_output_bytes);
            &&& progress->Done_0.truncated
            &&& valid_utf8(kept) ==> progress->Done_0.output@ == decode_utf8(kept)
            &&& !valid_utf8(kept) ==> progress->Done_0.output@ == utf8_lossy(kept)
        },
        after == before,
{
    lemma_answer_is_found(before.marker, exit_code, output, ending);
}

/// A line that does not start with the marker is no answer. It is kept, with its line end,
/// unless more than the limit was kept already; nothing else changes, and more is awaited.
pub proof fn law_other_lines_are_kept(
    before: ReaderState,
    line: Seq<char>,
    after: ReaderState,
    progress: Progress,
)
    requires
        line.len() > 0,
        !before.marker.is_prefix_of(line),
        read_outcome(before, line, after, progress),
    ensures
        progress is Pending,
        after.marker == before.marker,
        after.max_output_bytes == before.max_output_bytes,
        before.incidental.len() <= before.max_output_bytes ==> after.incidental == before.incidental
            + encode_utf8(line),
        before.incidental.len() > before.max_output_bytes ==> after.incidental == before.incidental,
{
    law_line_end_is_cut(line);
    let content = without_line_end(line);
    if before.marker.is_prefix_of(content) {
        assert(line.take(before.marker.len() as int) =~= content.take(before.marker.len() as int));
    }
}

/// A line that starts with the marker and goes on with anything but a 32-bit number, a bar and base64 is refused.
pub proof fn law_bad_answers_are_refused(
    before: ReaderState,
    answer: Seq<char>,
    ending: Seq<char>,
    after: ReaderState,
    progress: Progress,
)
    requires
        before.marker.len() > 0,
        before.marker.last() != '\r' && before.marker.last() != '\n',
        answer.len() > 0 ==> answer.last() != '\r' && answer.last() != '\n',
        forall|i: int| 0 <= i < ending.len() ==> #[trigger] ending[i] == '\r' || ending[i] == '\n',
        forall|exit_code: Seq<char>, output: Seq<u8>|
            #![trigger exit_code.push('|'), base64(output)]
            written_i32(exit_code) is Some ==> answer != exit_code.push('|') + base64(output),
        read_outcome(before, before.marker + answer + ending, after, progress),
    ensures
        progress is Failed,
        progress->Failed_0 is InvalidResponse,
        after == before,
{
    let content = before.marker + answer;
    assert(content.last() != '\r' && content.last() != '\n') by {
        if answer.len() == 0 {
            assert(content =~= before.marker);
        } else {
            assert(content.last() == answer.last());
        }
    }
    lemma_line_end_is_cut(content, ending);
    assert(content.take(before.marker.len() as int) =~= before.marker);
    assert(content.skip(before.marker.len() as int) =~= answer);
    if answer_parts(answer) is Some {
        answer.index_of_first_ensures('|');
        let bar = answer.index_of_first('|')->0;
        let exit_code = answer.take(bar);
        let payload = answer.skip(bar + 1);
        let output = base64_bytes(payload)->0;
        law_base64_is_canonical(payload, output);
        assert(answer =~= exit_code.push('|') + payload);
        assert(answer == exit_code.push('|') + base64(output));
    }
}

/// Where PowerShell writes no more, the session has ended.
pub proof fn law_no_more_output_ends_the_session(
    before: ReaderState,
    after: ReaderState,
    progress: Progress,
)
    requires
        read_outcome(before, Seq::empty(), after, progress),
    ensures
        progress is Failed,
        progress->Failed_0 is Ended,
        after == before,
{
}

/// What each failure is called, whatever the operating system says of its cause.
pub proof fn law_shell_failures_are_named(error: ShellError, cause: Seq<char>)
    ensures
        error is Start ==> error.text(cause) == "failed to start PowerShell: "@ + cause,
        error is Ended ==> error.text(cause) == "PowerShell session ended unexpectedly"@,
        error is Io ==> error.text(cause) == "PowerShell I/O failed: "@ + cause,
        error is InvalidResponse ==> error.text(cause)
            == "PowerShell returned an invalid response"@,
        error is Timeout ==> error.text(cause) == "command exceeded the "@ + decimal(
            error->Timeout_0 as nat,
        ) + "-second timeout; the session was destroyed"@,
{
}

} // verus!
