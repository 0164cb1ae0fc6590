//! Diagnostics for first use and existing sessions: what is checked, and what the
//! findings mean.

use vstd::prelude::*;

use crate::dispatch::ConfigState;
use crate::palette;
use crate::plugins::{self, VERSION};
use crate::proto::{self, ServerMessage, PROTOCOL_VERSION};
use crate::text;

verus! {

/// How much a finding matters.
#[derive(Debug, Clone, Copy, PartialEq, Eq, Structural)]
pub enum Severity {
    Good,
    Info,
    Optional,
    Warning,
    Error,
}

pub open spec fn severity_word(severity: Severity) -> Seq<char> {
    match severity {
        Severity::Good => "ok"@,
        Severity::Info => "info"@,
        Severity::Optional => "optional"@,
        Severity::Warning => "warning"@,
        Severity::Error => "error"@,
    }
}

impl Severity {
    pub fn word(&self) -> (r: &'static str)
        ensures
            r@ == severity_word(*self),
    {
        match self {
            Severity::Good => "ok",
            Severity::Info => "info",
            Severity::Optional => "optional",
            Severity::Warning => "warning",
            Severity::Error => "error",
        }
    }
}

#[derive(Debug, Clone, PartialEq, Eq)]
pub struct Check {
    pub name: String,
    pub status: Severity,
    pub detail: String,
}

impl Check {
    pub open spec fn says(self, name: Seq<char>, status: Severity, detail: Seq<char>) -> bool {
        self.name@ == name && self.status == status && self.detail@ == detail
    }
}

/// The configuration: fine where nothing is wrong with it, also without a file.
pub fn configuration_check(path: &str, state: &ConfigState) -> (r: Check)
    ensures
        match *state {
            ConfigState::Missing => r.says(
                "configuration"@,
                Severity::Good,
                path@ + " (defaults in use)"@,
            ),
            ConfigState::Read(warnings) => if warnings@.len() == 0 {
                r.says("configuration"@, Severity::Good, path@)
            } else {
                r.says(
                    "configuration"@,
                    Severity::Warning,
                    text::joined(text::texts(warnings@), "; "@),
                )
            },
            ConfigState::Broken(error) => r.says("configuration"@, Severity::Error, error@),
        },
{
    let name = "configuration".to_owned();
    match state {
        ConfigState::Missing => Check {
            name,
            status: Severity::Good,
            detail: text::cat(path, " (defaults in use)"),
        },
        ConfigState::Read(warnings) => if warnings.len() == 0 {
            Check { name, status: Severity::Good, detail: path.to_owned() }
        } else {
            Check { name, status: Severity::Warning, detail: text::join(warnings, "; ") }
        },
        ConfigState::Broken(error) => Check {
            name,
            status: Severity::Error,
            detail: error.clone(),
        },
    }
}

/// A program: `found` is where it is, if it is anywhere.
pub fn tool_check(label: &str, command: &str, required: bool, found: &Option<String>) -> (r: Check)
    ensures
        match *found {
            Some(path) => r.says(label@, Severity::Good, path@),
            None => r.says(
                label@,
                (if required {
                    Severity::Error
                } else {
                    Severity::Optional
                }),
                command@ + " not on PATH"@,
            ),
        },
{
    match found {
        Some(path) => Check {
            name: label.to_owned(),
            status: Severity::Good,
            detail: path.clone(),
        },
        None => Check {
            name: label.to_owned(),
            status: if required {
                Severity::Error
            } else {
                Severity::Optional
            },
            detail: text::cat(command, " not on PATH"),
        },
    }
}

/// The files that a command could be: itself where it is a path, else one in each
/// directory.
pub fn candidates(command: &str, directories: &Vec<String>) -> (r: Vec<String>)
    ensures
        text::texts(r@) == (if command@.contains('/') {
            seq![command@]
        } else {
            text::texts(directories@).map_values(|d: Seq<char>| text::path_join(d, command@))
        }),
{
    if text::contains_char(command, '/') {
        let list: Vec<String> = vec![command.to_owned()];
        assert(text::texts(list@) =~= seq![command@]);
        return list;
    }
    let ghost all = text::texts(directories@).map_values(
        |d: Seq<char>| text::path_join(d, command@),
    );
    let mut out: Vec<String> = Vec::new();
    let mut i: usize = 0;
    assert(text::texts(out@) =~= all.take(0));
    while i < directories.len()
        invariant
            all == text::texts(directories@).map_values(
                |d: Seq<char>| text::path_join(d, command@),
            ),
            i <= directories@.len(),
            text::texts(out@) == all.take(i as int),
        decreases directories@.len() - i,
    {
        let ghost before = text::texts(out@);
        out.push(text::join_path(directories[i].as_str(), command));
        assert(text::texts(out@) =~= before.push(all[i as int]));
        assert(text::texts(out@) =~= all.take(i + 1));
        i += 1;
    }
    assert(all.take(i as int) =~= all);
    out
}

/// What the client itself can use, with what each program is for.
pub open spec fn own_tools() -> Seq<(Seq<char>, Seq<char>)> {
    seq![
        ("git worktrees"@, "git"@),
        ("SSH machines"@, "ssh"@),
        ("manifest refresh"@, "curl"@),
    ]
}

/// The optional programs that are looked for: those that the client can use, then
/// the agents, each with its command. `prompted` is the id of the agent whose integration
/// goes by its prompts.
pub fn tools(prompted: &str) -> (r: Vec<(String, String)>)
    ensures
        plugins::pair_texts(r@) == own_tools() + palette::agent_list(prompted@),
{
    let mut out: Vec<(String, String)> = vec![
        ("git worktrees".to_owned(), "git".to_owned()),
        ("SSH machines".to_owned(), "ssh".to_owned()),
        ("manifest refresh".to_owned(), "curl".to_owned()),
    ];
    let mut agents = palette::known_agents(prompted);
    let ghost own = out@;
    let ghost all = agents@;
    assert(plugins::pair_texts(own) =~= own_tools());
    out.append(&mut agents);
    assert(plugins::pair_texts(out@) =~= plugins::pair_texts(own) + plugins::pair_texts(all));
    out
}

/// What came of asking the daemon for its version.
#[derive(Debug, Clone, PartialEq, Eq)]
pub enum DaemonAnswer {
    Reply(ServerMessage),
    Failed { error: String, socket_exists: bool },
    TimedOut,
}

/// The daemon: not running is no error, since using a session starts it.
pub fn daemon_check(answer: &DaemonAnswer) -> (r: Check)
    ensures
        match *answer {
            DaemonAnswer::Reply(ServerMessage::Version { version }) => if version
                == PROTOCOL_VERSION {
                r.says(
                    "daemon"@,
                    Severity::Good,
                    "running · protocol "@ + text::decimal(version as nat),
                )
            } else {
                r.says(
                    "daemon"@,
                    Severity::Error,
                    "daemon protocol "@ + text::decimal(version as nat) + "; client requires "@
                        + "1"@,
                )
            },
            DaemonAnswer::Reply(message) => r.says(
                "daemon"@,
                Severity::Error,
                "unexpected daemon response: "@ + proto::server_name(message),
            ),
            DaemonAnswer::Failed { error, socket_exists } => if socket_exists {
                r.says("daemon"@, Severity::Error, error@)
            } else {
                r.says(
                    "daemon"@,
                    Severity::Info,
                    "not running; creating a workspace or attaching starts it automatically ("@
                        + error@ + ")"@,
                )
            },
            DaemonAnswer::TimedOut => r.says(
                "daemon"@,
                Severity::Error,
                "socket did not answer within 1s"@,
            ),
        },
{
    let name = "daemon".to_owned();
    match answer {
        DaemonAnswer::Reply(ServerMessage::Version { version }) => {
            let number = text::decimal_text(*version as u64);
            if *version == PROTOCOL_VERSION {
                Check {
                    name,
                    status: Severity::Good,
                    detail: text::cat("running · protocol ", number.as_str()),
                }
            } else {
                let mut detail = text::cat3(
                    "daemon protocol ",
                    number.as_str(),
                    "; client requires ",
                );
                detail.append("1");
                Check { name, status: Severity::Error, detail }
            }
        },
        DaemonAnswer::Reply(message) => Check {
            name,
            status: Severity::Error,
            detail: text::cat(
                "unexpected daemon response: ",
                proto::server_message_name(message),
            ),
        },
        DaemonAnswer::Failed { error, socket_exists } => if *socket_exists {
            Check { name, status: Severity::Error, detail: error.clone() }
        } else {
            Check {
                name,
                status: Severity::Info,
                detail: text::cat3(
                    "not running; creating a workspace or attaching starts it automatically (",
                    error.as_str(),
                    ")",
                ),
            }
        },
        DaemonAnswer::TimedOut => Check {
            name,
            status: Severity::Error,
            detail: "socket did not answer within 1s".to_owned(),
        },
    }
}

/// A note of where the daemon's log is.
pub fn log_check(log: &str) -> (r: Check)
    ensures
        r.says("daemon log"@, Severity::Info, log@),
{
    Check { name: "daemon log".to_owned(), status: Severity::Info, detail: log.to_owned() }
}

/// All that was found out about a session.
#[derive(Debug, Clone, PartialEq, Eq)]
pub struct Report {
    pub session: String,
    pub socket: String,
    pub checks: Vec<Check>,
}

pub open spec fn check_line(check: Check) -> Seq<char> {
    text::padded_to(severity_word(check.status), 7) + " "@ + text::padded_to(check.name@, 18)
        + " "@ + check.detail@
}

fn check_text(check: &Check) -> (r: String)
    ensures
        r@ == check_line(*check),
{
    let status = text::padded(check.status.word(), 7);
    let name = text::padded(check.name.as_str(), 18);
    let mut line = text::cat3(status.as_str(), " ", name.as_str());
    line.append(" ");
    line.append(check.detail.as_str());
    line
}

/// The diagnoses fail where any of them is an error.
pub open spec fn has_error(checks: Seq<Check>) -> bool {
    exists|i: int| 0 <= i < checks.len() && (#[trigger] checks[i]).status == Severity::Error
}

/// The findings in the order they are reported: the configuration, the login shell,
/// the optional programs, the daemon, and its log where there is one.
pub fn run(
    config: Check,
    shell: Check,
    programs: Vec<Check>,
    daemon: Check,
    log: Option<Check>,
    session: &str,
    socket: &str,
) -> (r: Report)
    ensures
        r.session@ == session@,
        r.socket@ == socket@,
        r.checks@ == seq![config, shell] + programs@ + seq![daemon] + (match log {
            Some(entry) => seq![entry],
            None => Seq::empty(),
        }),
{
    let ghost head = seq![config, shell];
    let ghost middle = programs@;
    let mut checks: Vec<Check> = vec![config, shell];
    assert(checks@ =~= head);
    let mut rest = programs;
    checks.append(&mut rest);
    assert(checks@ =~= head + middle);
    checks.push(daemon);
    if let Some(entry) = log {
        checks.push(entry);
    }
    assert(checks@ =~= head + middle + seq![daemon] + (match log {
        Some(entry) => seq![entry],
        None => Seq::empty(),
    }));
    Report { session: session.to_owned(), socket: socket.to_owned(), checks }
}

impl Report {
    /// The report as plain text: what it is about, then a line for each finding.
    pub fn lines(&self) -> (r: Vec<String>)
        ensures
            text::texts(r@) == seq![
                "Ködade CLI "@ + VERSION@ + " · "@ + self.session@ + "\n"@ + self.socket@ + "\n"@,
            ] + self.checks@.map_values(|c: Check| check_line(c)),
    {
        let mut head = text::cat3("Ködade CLI ", VERSION, " · ");
        head.append(self.session.as_str());
        head.append("\n");
        head.append(self.socket.as_str());
        head.append("\n");
        let ghost first = seq![head@];
        let ghost all = self.checks@.map_values(|c: Check| check_line(c));
        let mut out: Vec<String> = vec![head];
        let mut i: usize = 0;
        assert(text::texts(out@) =~= first + all.take(0));
        while i < self.checks.len()
            invariant
                all == self.checks@.map_values(|c: Check| check_line(c)),
                i <= self.checks@.len(),
                text::texts(out@) == first + all.take(i as int),
            decreases self.checks@.len() - i,
        {
            let ghost before = text::texts(out@);
            out.push(check_text(&self.checks[i]));
            assert(text::texts(out@) =~= before.push(all[i as int]));
            assert(text::texts(out@) =~= first + all.take(i + 1));
            i += 1;
        }
        assert(all.take(i as int) =~= all);
        out
    }

    /// Whether the diagnoses found nothing that must be mended.
    pub fn verdict(&self) -> (r: Result<(), String>)
        ensures
            text::fault(r) == (if has_error(self.checks@) {
                Some("diagnostics found errors"@)
            } else {
                None
            }),
    {
        let mut i: usize = 0;
        while i < self.checks.len()
            invariant
                i <= self.checks@.len(),
                forall|k: int|
                    0 <= k < i ==> (#[trigger] self.checks@[k]).status != Severity::Error,
            decreases self.checks@.len() - i,
        {
            if self.checks[i].status == Severity::Error {
                return Err("diagnostics found errors".to_owned());
            }
            i += 1;
        }
        Ok(())
    }
}

} // verus!
