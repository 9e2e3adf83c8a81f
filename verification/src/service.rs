//! Running as a system service: the systemd unit, the Windows service, and the access
//! rights of private files.
use vstd::prelude::*;
use vstd::string::*;

use crate::text::{chars_of, texts};

verus! {

/// The name of the service on Windows.
pub const SERVICE_NAME: &'static str = "SudoServer";

/// The access mode of a private file on Unix: reading and writing, for its owner only.
pub const PRIVATE_FILE_MODE: u32 = 0o600;

/// The access mode of a private directory on Unix: everything, for its owner only.
pub const PRIVATE_DIRECTORY_MODE: u32 = 0o700;

/// Where the systemd unit is written.
pub const SYSTEMD_UNIT_PATH: &'static str = "/etc/systemd/system/sudoserver.service";

/// The systemd unit up to the executable.
pub const UNIT_HEAD: &'static str =
    "[Unit]\nDescription=SudoServer privileged PowerShell broker\nAfter=network.target\n\n[Service]\nType=simple\nExecStart=";

/// The systemd unit between the executable and the configuration file.
pub const UNIT_ARGUMENTS: &'static str = " serve --config ";

/// The systemd unit from the configuration file on.
pub const UNIT_TAIL: &'static str =
    "\nRestart=on-failure\nRestartSec=3\nNoNewPrivileges=false\n\n[Install]\nWantedBy=multi-user.target\n";

/// A path as it stands in a systemd unit: every space is written `\x20`.
pub open spec fn escaped(path: Seq<char>) -> Seq<char>
    decreases path.len(),
{
    if path.len() == 0 {
        path
    } else if path.last() == ' ' {
        escaped(path.drop_last()) + "\\x20"@
    } else {
        escaped(path.drop_last()).push(path.last())
    }
}

/// A path as it stands in a systemd unit: every space is written `\x20`.
pub fn systemd_escape(path: &str) -> (r: String)
    ensures
        r@ == escaped(path@),
{
    let chars = chars_of(path);
    let mut r = String::new();
    let mut i: usize = 0;
    assert(path@.take(0) =~= Seq::<char>::empty());
    assert(r@ =~= escaped(path@.take(0)));
    while i < chars.len()
        invariant
            i <= chars@.len(),
            chars@ == path@,
            r@ == escaped(path@.take(i as int)),
        decreases chars@.len() - i,
    {
        assert(path@.take(i + 1).drop_last() =~= path@.take(i as int));
        if chars[i] == ' ' {
            r = r.concat("\\x20");
        } else {
            r.push(chars[i]);
        }
        i += 1;
    }
    assert(path@.take(path@.len() as int) =~= path@);
    r
}

/// The systemd unit that runs `executable` with the given configuration file.
pub open spec fn unit_text(executable: Seq<char>, config: Seq<char>) -> Seq<char> {
    UNIT_HEAD@ + escaped(executable) + UNIT_ARGUMENTS@ + escaped(config) + UNIT_TAIL@
}

/// The systemd unit that runs `executable` with the given configuration file.
pub fn systemd_unit(executable: &str, config: &str) -> (unit: String)
    ensures
        unit@ == unit_text(executable@, config@),
{
    UNIT_HEAD.to_owned().concat(systemd_escape(executable).as_str()).concat(UNIT_ARGUMENTS).concat(
        systemd_escape(config).as_str(),
    ).concat(UNIT_TAIL)
}

/// No space is left in an escaped path, so it stays one word.
pub proof fn law_escaped_path_is_one_word(path: Seq<char>)
    ensures
        !escaped(path).contains(' '),
    decreases path.len(),
{
    if path.len() > 0 {
        law_escaped_path_is_one_word(path.drop_last());
        let before = escaped(path.drop_last());
        reveal_strlit("\\x20");
        assert forall|i: int| 0 <= i < escaped(path).len() implies escaped(path)[i] != ' ' by {
            if i < before.len() {
                assert(before.contains(before[i]));
                assert(escaped(path)[i] == before[i]);
            }
        }
    }
}

fn words(first: &[&str]) -> (r: Vec<String>)
    ensures
        r@.len() == first@.len(),
        forall|i: int| 0 <= i < r@.len() ==> (#[trigger] r@[i])@ == first@[i]@,
{
    let mut r: Vec<String> = Vec::new();
    let mut i: usize = 0;
    while i < first.len()
        invariant
            i <= first@.len(),
            r@.len() == i,
            forall|j: int| 0 <= j < i ==> (#[trigger] r@[j])@ == first@[j]@,
        decreases first@.len() - i,
    {
        r.push(first[i].to_owned());
        i += 1;
    }
    r
}

/// The commands that start the systemd service, now and at every boot.
pub open spec fn systemctl_spec() -> Seq<Seq<Seq<char>>> {
    Seq::empty().push(Seq::empty().push("daemon-reload"@)).push(
        Seq::empty().push("enable"@).push("--now"@).push("sudoserver.service"@),
    )
}

/// What a list of lists of texts stands for.
pub open spec fn word_lists(lists: Seq<Vec<String>>) -> Seq<Seq<Seq<char>>> {
    Seq::new(lists.len(), |i: int| texts(lists[i]@))
}

/// The arguments of `systemctl`, call by call, that start the systemd service, now and at
/// every boot.
pub fn systemctl_calls() -> (calls: Vec<Vec<String>>)
    ensures
        word_lists(calls@) == systemctl_spec(),
{
    let mut calls: Vec<Vec<String>> = Vec::new();
    calls.push(words(&["daemon-reload"]));
    calls.push(words(&["enable", "--now", "sudoserver.service"]));
    assert(texts(calls@[0]@) =~= systemctl_spec()[0]);
    assert(texts(calls@[1]@) =~= systemctl_spec()[1]);
    assert(word_lists(calls@) =~= systemctl_spec());
    calls
}

/// The command line of the Windows service: both paths in quotes.
pub open spec fn service_command(executable: Seq<char>, config: Seq<char>) -> Seq<char> {
    "\""@ + executable + "\" service --config \""@ + config + "\""@
}

/// The arguments of `sc.exe`, call by call, that register the Windows service, describe it,
/// have it restarted when it fails, and start it.
pub open spec fn windows_spec(executable: Seq<char>, config: Seq<char>) -> Seq<Seq<Seq<char>>> {
    Seq::empty().push(
        Seq::empty().push("create"@).push(SERVICE_NAME@).push("binPath="@).push(
            service_command(executable, config),
        ).push("start="@).push("auto"@).push("DisplayName="@).push(SERVICE_NAME@),
    ).push(
        Seq::empty().push("description"@).push(SERVICE_NAME@).push(
            "User-controlled privileged PowerShell broker"@,
        ),
    ).push(
        Seq::empty().push("failure"@).push(SERVICE_NAME@).push("reset="@).push("86400"@).push(
            "actions="@,
        ).push("restart/5000/restart/15000/\"\"/0"@),
    ).push(Seq::empty().push("start"@).push(SERVICE_NAME@))
}

/// The arguments of `sc.exe`, call by call, that register the Windows service, describe it,
/// have it restarted when it fails, and start it.
pub fn windows_calls(executable: &str, config: &str) -> (calls: Vec<Vec<String>>)
    ensures
        word_lists(calls@) == windows_spec(executable@, config@),
{
    let command = "\"".to_owned().concat(executable).concat("\" service --config \"").concat(
        config,
    ).concat("\"");
    let mut calls: Vec<Vec<String>> = Vec::new();
    calls.push(
        words(
            &[
                "create",
                SERVICE_NAME,
                "binPath=",
                command.as_str(),
                "start=",
                "auto",
                "DisplayName=",
                SERVICE_NAME,
            ],
        ),
    );
    calls.push(words(&["description", SERVICE_NAME, "User-controlled privileged PowerShell broker"]));
    calls.push(
        words(
            &[
                "failure",
                SERVICE_NAME,
                "reset=",
                "86400",
                "actions=",
                "restart/5000/restart/15000/\"\"/0",
            ],
        ),
    );
    calls.push(words(&["start", SERVICE_NAME]));
    let ghost expected = windows_spec(executable@, config@);
    assert(texts(calls@[0]@) =~= expected[0]);
    assert(texts(calls@[1]@) =~= expected[1]);
    assert(texts(calls@[2]@) =~= expected[2]);
    assert(texts(calls@[3]@) =~= expected[3]);
    assert(word_lists(calls@) =~= expected);
    calls
}

/// The arguments of `icacls`, behind the path, for a private file or directory: nothing is
/// inherited, the system and administrators have full access, and nobody else has any. What
/// is in a directory has the same rights.
pub open spec fn private_rights(directory: bool) -> Seq<Seq<char>> {
    let rights = if directory {
        ":(OI)(CI)(F)"@
    } else {
        ":(F)"@
    };
    Seq::empty().push("/inheritance:r"@).push("/grant:r"@).push("*S-1-5-18"@ + rights).push(
        "*S-1-5-32-544"@ + rights,
    )
}

/// The arguments of `icacls`, behind the path, that make a file or directory private to the
/// system and to administrators.
pub fn icacls_arguments(directory: bool) -> (arguments: Vec<String>)
    ensures
        texts(arguments@) == private_rights(directory),
{
    let rights = if directory {
        ":(OI)(CI)(F)"
    } else {
        ":(F)"
    };
    let system = "*S-1-5-18".to_owned().concat(rights);
    let administrators = "*S-1-5-32-544".to_owned().concat(rights);
    let arguments = words(
        &["/inheritance:r", "/grant:r", system.as_str(), administrators.as_str()],
    );
    assert(texts(arguments@) =~= private_rights(directory));
    arguments
}

/// What the Windows service manager asks of a running service.
#[derive(Clone, Copy, Debug, PartialEq, Eq, Structural)]
pub enum ControlEvent {
    Stop,
    Shutdown,
    Interrogate,
    Other,
}

/// What a running service answers: whether it knows the request, and whether it begins to
/// shut down.
#[derive(Clone, Copy, Debug, PartialEq, Eq, Structural)]
pub struct ControlReply {
    pub known: bool,
    pub begin_shutdown: bool,
}

/// What a request does to a service: whether it is stopping afterwards, and the answer. The
/// first request to stop begins the shutdown; later ones change nothing.
pub open spec fn control_outcome(stopping: bool, event: ControlEvent) -> (bool, ControlReply) {
    let stop = event == ControlEvent::Stop || event == ControlEvent::Shutdown;
    (
        stopping || stop,
        ControlReply {
            known: event != ControlEvent::Other,
            begin_shutdown: stop && !stopping,
        },
    )
}

/// A shutdown begins at most once, whatever requests follow.
pub proof fn law_shutdown_begins_once(first: ControlEvent, second: ControlEvent)
    ensures
        ({
            let (stopping, reply) = control_outcome(false, first);
            reply.begin_shutdown ==> stopping && control_outcome(stopping, second).0
                && !control_outcome(stopping, second).1.begin_shutdown
        }),
{
}

/// How a service ended.
#[derive(Clone, Copy, Debug, PartialEq, Eq, Structural)]
pub enum ServiceExit {
    System(u32),
    Service(u32),
}

/// A running service, as its manager sees it.
pub struct ServiceController {
    stopping: bool,
}

impl View for ServiceController {
    type V = bool;

    closed spec fn view(&self) -> bool {
        self.stopping
    }
}

impl ServiceController {
    /// A service that has not been asked to stop.
    pub fn new() -> (controller: ServiceController)
        ensures
            !controller@,
    {
        ServiceController { stopping: false }
    }

    /// Answers a request. The first one to stop begins the shutdown; later ones change
    /// nothing.
    pub fn handle(&mut self, event: ControlEvent) -> (reply: ControlReply)
        ensures
            (final(self)@, reply) == control_outcome(old(self)@, event),
    {
        match event {
            ControlEvent::Stop | ControlEvent::Shutdown => {
                let begin_shutdown = !self.stopping;
                self.stopping = true;
                ControlReply { known: true, begin_shutdown }
            },
            ControlEvent::Interrogate => ControlReply { known: true, begin_shutdown: false },
            ControlEvent::Other => ControlReply { known: false, begin_shutdown: false },
        }
    }
}

/// What the service manager is told about how the service ended.
pub fn exit_report(succeeded: bool) -> (exit: ServiceExit)
    ensures
        exit == (if succeeded {
            ServiceExit::System(0)
        } else {
            ServiceExit::Service(1)
        }),
{
    if succeeded {
        ServiceExit::System(0)
    } else {
        ServiceExit::Service(1)
    }
}

/// Escaping goes character by character: a space becomes `\x20`, and every other character
/// stays.
pub proof fn law_only_spaces_are_escaped(front: Seq<char>, c: char)
    ensures
        escaped(Seq::empty()).len() == 0,
        c == ' ' ==> escaped(front.push(c)) == escaped(front) + "\\x20"@,
        c != ' ' ==> escaped(front.push(c)) == escaped(front).push(c),
{
    assert(front.push(c).drop_last() =~= front);
}

/// Whatever the two paths are, the unit around them is the same: the executable is started
/// with the configuration file, and both are escaped.
pub proof fn law_unit_runs_the_executable(executable: Seq<char>, config: Seq<char>)
    ensures
        unit_text(executable, config) == UNIT_HEAD@ + escaped(executable) + " serve --config "@
            + escaped(config) + UNIT_TAIL@,
{
}

/// Lists of words hold the words that they show.
pub proof fn law_word_lists_show_the_words(lists: Seq<Vec<String>>, i: int, j: int)
    requires
        0 <= i < lists.len(),
        0 <= j < lists[i]@.len(),
    ensures
        word_lists(lists).len() == lists.len(),
        word_lists(lists)[i].len() == lists[i]@.len(),
        word_lists(lists)[i][j] == lists[i]@[j]@,
{
}

/// The Windows service starts the executable with the configuration file, both between quotes
/// and as they are, at every boot; apart from that command line the calls are the same for
/// all paths.
pub proof fn law_windows_service_runs_the_executable(
    executable: Seq<char>,
    config: Seq<char>,
    other_executable: Seq<char>,
    other_config: Seq<char>,
)
    ensures
        ({
            let calls = windows_spec(executable, config);
            let others = windows_spec(other_executable, other_config);
            &&& calls.len() == 4
            &&& calls[0].len() == 8
            &&& calls[0][0] == "create"@
            &&& calls[0][1] == "SudoServer"@
            &&& calls[0][2] == "binPath="@
            &&& calls[0][3] == "\""@ + executable + "\" service --config \""@ + config + "\""@
            &&& calls[0][4] == "start="@
            &&& calls[0][5] == "auto"@
            &&& calls[0][6] == "DisplayName="@
            &&& calls[0][7] == "SudoServer"@
            &&& calls[1] == others[1]
            &&& calls[2] == others[2]
            &&& calls[3] == others[3]
        }),
{
}

/// A private file or directory is open to the system and to administrators, with all rights,
/// and to nobody else; what is in a private directory is private too.
pub proof fn law_private_means_administrators_only(directory: bool)
    ensures
        private_rights(directory).len() == 4,
        private_rights(directory)[0] == "/inheritance:r"@,
        private_rights(directory)[1] == "/grant:r"@,
        directory ==> private_rights(directory)[2] == "*S-1-5-18"@ + ":(OI)(CI)(F)"@,
        directory ==> private_rights(directory)[3] == "*S-1-5-32-544"@ + ":(OI)(CI)(F)"@,
        !directory ==> private_rights(directory)[2] == "*S-1-5-18"@ + ":(F)"@,
        !directory ==> private_rights(directory)[3] == "*S-1-5-32-544"@ + ":(F)"@,
{
}

/// Only a request to stop or to shut down stops a service, and the first of them begins the
/// shutdown; every request but an unknown one is known.
pub proof fn law_requests_of_the_manager(stopping: bool, event: ControlEvent)
    ensures
        event is Stop || event is Shutdown ==> control_outcome(stopping, event).0
            && control_outcome(stopping, event).1.known && control_outcome(
            stopping,
            event,
        ).1.begin_shutdown == !stopping,
        event is Interrogate || event is Other ==> control_outcome(stopping, event).0 == stopping
            && !control_outcome(stopping, event).1.begin_shutdown,
        event is Interrogate ==> control_outcome(stopping, event).1.known,
        event is Other ==> !control_outcome(stopping, event).1.known,
{
}

} // verus!
