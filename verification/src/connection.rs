//! Session selection and bounded local daemon startup.

use vstd::prelude::*;

use crate::cli::Cli;
use crate::text;

verus! {

/// Seconds a daemon may take to start.
pub const START_TIMEOUT_SECS: u64 = 10;

/// Takes over the session and the socket of the pane that a command runs in, but
/// only where no endpoint was selected explicitly. `session_fault` is what is
/// wrong with the inherited name.
pub fn inherited_context(
    cli: &mut Cli,
    explicit_session: bool,
    session: Option<String>,
    socket: Option<String>,
    session_fault: Option<String>,
) -> (r: Result<(), String>)
    ensures
        final(cli).command == old(cli).command,
        final(cli).remote == old(cli).remote,
        ({
            let explicit = explicit_session || old(cli).remote is Some || old(cli).socket is Some;
            if explicit {
                r is Ok && final(cli).session == old(cli).session && final(cli).socket == old(
                    cli,
                ).socket
            } else if session is Some && session_fault is Some {
                text::fault(r) == text::option_text(session_fault) && *final(cli) == *old(cli)
            } else {
                r is Ok && final(cli).socket == socket && final(cli).session == (match session {
                    Some(name) => name,
                    None => old(cli).session,
                })
            }
        }),
{
    if explicit_session || cli.remote.is_some() || cli.socket.is_some() {
        return Ok(());
    }
    if let Some(name) = session {
        if let Some(message) = session_fault {
            return Err(message);
        }
        cli.session = name;
    }
    cli.socket = socket;
    Ok(())
}

/// Where the last component of a path ends: what follows are slashes, and dots that
/// stand for a component of their own.
pub open spec fn name_end(path: Seq<char>, end: int) -> int
    decreases end,
{
    if end > 0 && (path[end - 1] == '/' || (end > 1 && path[end - 1] == '.' && path[end - 2]
        == '/')) {
        name_end(path, end - 1)
    } else {
        end
    }
}

/// Where the extension of a last component that ends at `end` starts, where it has one:
/// at its last dot that has something in front of it.
pub open spec fn suffix_start(path: Seq<char>, end: int) -> Option<int>
    decreases end,
{
    if end <= 1 || path[end - 1] == '/' {
        None
    } else if path[end - 1] == '.' && path[end - 2] != '/' {
        Some(end - 1)
    } else {
        suffix_start(path, end - 1)
    }
}

/// The path without the extension of its last component, and without what follows that.
pub open spec fn without_extension(path: Seq<char>) -> Seq<char> {
    let end = name_end(path, path.len() as int);
    match suffix_start(path, end) {
        Some(dot) => path.take(dot),
        None => path.take(end),
    }
}

/// Where a daemon writes what goes wrong while it starts: beside its socket. A path
/// that has no last component, or leads back up, stays as it is.
pub fn daemon_log(socket: &str) -> (r: String)
    ensures
        r@ == (if text::base_name(socket@) is None {
            socket@
        } else {
            without_extension(socket@) + ".log"@
        }),
{
    if text::file_name(socket).is_none() {
        return socket.to_owned();
    }
    let chars = text::chars_of(socket);
    let mut end: usize = chars.len();
    while end > 0 && (chars[end - 1] == '/' || (end > 1 && chars[end - 1] == '.' && chars[end - 2]
        == '/'))
        invariant
            end <= chars@.len(),
            name_end(chars@, chars@.len() as int) == name_end(chars@, end as int),
        decreases end,
    {
        end -= 1;
    }
    let mut cut: usize = end;
    while cut > 1 && chars[cut - 1] != '/' && !(chars[cut - 1] == '.' && chars[cut - 2] != '/')
        invariant
            cut <= end <= chars@.len(),
            suffix_start(chars@, end as int) == suffix_start(chars@, cut as int),
        decreases cut,
    {
        cut -= 1;
    }
    let kept: usize = if cut > 1 && chars[cut - 1] != '/' {
        cut - 1
    } else {
        end
    };
    let stem = text::text_of(chars.as_slice(), 0, kept);
    assert(stem@ =~= without_extension(socket@));
    text::cat(stem.as_str(), ".log")
}

/// What becomes of a first attempt to connect.
#[derive(Debug, Clone, Copy, PartialEq, Eq, Structural)]
pub enum FirstConnect {
    Connected,
    /// Start a daemon, then try again.
    Start,
    Fail,
}

/// A daemon is started only where that is allowed and nothing answers.
pub fn first_connect(connected: bool, autostart: bool, nothing_there: bool) -> (r: FirstConnect)
    ensures
        r == (if connected {
            FirstConnect::Connected
        } else if autostart && nothing_there {
            FirstConnect::Start
        } else {
            FirstConnect::Fail
        }),
{
    if connected {
        FirstConnect::Connected
    } else if autostart && nothing_there {
        FirstConnect::Start
    } else {
        FirstConnect::Fail
    }
}

/// What is said when a daemon cannot be reached.
pub fn connect_failure(socket: &str) -> (r: String)
    ensures
        r@ == "cannot connect to "@ + socket@ + "; run `kodade-cli doctor` for diagnostics"@,
{
    text::cat3("cannot connect to ", socket, "; run `kodade-cli doctor` for diagnostics")
}

/// What becomes of a later attempt, after a daemon was started.
#[derive(Debug, Clone, PartialEq, Eq)]
pub enum StartStep {
    Connected,
    /// Try again shortly.
    Again,
    /// The daemon ended by itself.
    Exited(String),
    /// Stop the daemon: it took too long.
    TimedOut(String),
}

/// Connecting to whichever daemon won a race is success; else the wait ends when
/// the child has exited, or when its time is over. `limit` is the time in words.
pub fn start_step(
    connected: bool,
    exit: &Option<String>,
    past_deadline: bool,
    limit: &str,
    log: &str,
) -> (r: StartStep)
    ensures
        if connected {
            r == StartStep::Connected
        } else {
            match *exit {
                Some(status) => r matches StartStep::Exited(message) && message@
                    == "daemon exited with "@ + status@ + "; see "@ + log@,
                None => if past_deadline {
                    r matches StartStep::TimedOut(message) && message@
                        == "daemon did not start within "@ + limit@ + "s; see "@ + log@
                } else {
                    r == StartStep::Again
                },
            }
        },
{
    if connected {
        return StartStep::Connected;
    }
    match exit {
        Some(status) => {
            let mut message = text::cat3("daemon exited with ", status.as_str(), "; see ");
            message.append(log);
            StartStep::Exited(message)
        },
        None => {
            if past_deadline {
                let mut message = text::cat3("daemon did not start within ", limit, "s; see ");
                message.append(log);
                return StartStep::TimedOut(message);
            }
            StartStep::Again
        },
    }
}

/// Only the local socket of a session may start a daemon.
pub fn may_start(socket: &str, local_socket: &str) -> (r: bool)
    ensures
        r == text::one_path(socket@, local_socket@),
{
    text::same_path(socket, local_socket)
}

} // verus!
