//! Remote sessions from a host without Unix sockets: `ssh` without a control
//! connection, bridged over standard input and output.

use vstd::prelude::*;

use crate::cli::SessionCommand;
use crate::remote as unix;
use crate::remote_prepare;
use crate::text;

verus! {

/// Checks an SSH target.
pub fn validate_host(host: &str) -> (r: Result<(), String>)
    ensures
        text::fault(r) == (if unix::is_host(host@) {
            None
        } else {
            Some("invalid SSH target: use an SSH host alias or USER@HOST"@)
        }),
{
    unix::validate_host(host)
}

/// Quotes a word for the remote shell.
pub fn word(value: &str) -> (r: String)
    ensures
        r@ == unix::quoted_word(value@),
{
    unix::remote_word(value)
}

/// Runs a command of the remote binary.
pub fn remote(args: &[&str]) -> (r: String)
    ensures
        r@ == unix::binary_command(text::strs(args@)),
{
    unix::remote_binary_command(args)
}

/// The words of a call that runs a command on a host.
pub open spec fn plain_call(host: Seq<char>, command: Seq<char>) -> Seq<Seq<char>> {
    seq!["-o"@, "BatchMode=yes"@, "-o"@, "ConnectTimeout=10"@, host, command]
}

pub fn ssh_args(host: &str, command: &str) -> (r: Vec<String>)
    ensures
        text::texts(r@) == plain_call(host@, command@),
{
    let args: Vec<String> = vec![
        "-o".to_owned(),
        "BatchMode=yes".to_owned(),
        "-o".to_owned(),
        "ConnectTimeout=10".to_owned(),
        host.to_owned(),
        command.to_owned(),
    ];
    assert(text::texts(args@) =~= plain_call(host@, command@));
    args
}

/// Asks a host what it is.
pub fn probe(host: &str) -> (r: Vec<String>)
    ensures
        text::texts(r@) == plain_call(host@, "uname -s; uname -m"@),
{
    ssh_args(host, "uname -s; uname -m")
}

/// Stages the bytes from standard input, checks their size, digest and version,
/// and only then moves them into place.
pub open spec fn upload_command(bytes: nat, digest: Seq<char>, version: Seq<char>) -> Seq<char> {
    "set -eu; umask 077; dest=\"$HOME/.local/bin/kodade-cli\"; dir=\"${dest%/*}\"; mkdir -p \"$dir\"; tmp=$(mktemp \"$dir/.kodade-cli.XXXXXX\"); trap 'rm -f \"$tmp\"' EXIT HUP INT TERM; cat >\"$tmp\"; [ \"$(wc -c <\"$tmp\" | tr -d '[:space:]')\" = \""@ + text::decimal(bytes) + "\" ]; if command -v sha256sum >/dev/null 2>&1; then actual=$(sha256sum \"$tmp\" | awk '{print $1}'); else actual=$(shasum -a 256 \"$tmp\" | awk '{print $1}'); fi; [ \"$actual\" = \""@ + digest + "\" ]; chmod 755 \"$tmp\"; LC_ALL=C \"$tmp\" --version | grep -Fx \"kodade-cli "@ + version + "\" >/dev/null; mv -f \"$tmp\" \"$dest\"; trap - EXIT"@
}

/// Uploads a verified binary.
pub fn upload(host: &str, bytes: usize, checksum: &str, version: &str) -> (r: Vec<String>)
    ensures
        text::texts(r@) == plain_call(host@, upload_command(bytes as nat, checksum@, version@)),
{
    let size = text::decimal_text(bytes as u64);
    let mut line = text::cat3(
        "set -eu; umask 077; dest=\"$HOME/.local/bin/kodade-cli\"; dir=\"${dest%/*}\"; mkdir -p \"$dir\"; tmp=$(mktemp \"$dir/.kodade-cli.XXXXXX\"); trap 'rm -f \"$tmp\"' EXIT HUP INT TERM; cat >\"$tmp\"; [ \"$(wc -c <\"$tmp\" | tr -d '[:space:]')\" = \"",
        size.as_str(),
        "\" ]; if command -v sha256sum >/dev/null 2>&1; then actual=$(sha256sum \"$tmp\" | awk '{print $1}'); else actual=$(shasum -a 256 \"$tmp\" | awk '{print $1}'); fi; [ \"$actual\" = \"",
    );
    line.append(checksum);
    line.append("\" ]; chmod 755 \"$tmp\"; LC_ALL=C \"$tmp\" --version | grep -Fx \"kodade-cli ");
    line.append(version);
    line.append("\" >/dev/null; mv -f \"$tmp\" \"$dest\"; trap - EXIT");
    ssh_args(host, line.as_str())
}

// ------------------------------------------------------------------ bridged sessions

/// Asks a host for the version of its binary, before a session is bridged.
/// `session_fault` is what is wrong with the name of the session.
pub fn bridge_probe(host: &str, session_fault: Option<String>) -> (r: Result<Vec<String>, String>)
    ensures
        match r {
            Ok(words) => unix::is_host(host@) && session_fault is None && text::texts(words@)
                == plain_call(host@, unix::binary_command(seq!["--version"@])),
            Err(message) => if !unix::is_host(host@) {
                message@ == "invalid SSH target: use an SSH host alias or USER@HOST"@
            } else {
                session_fault matches Some(fault) && message@ == fault@
            },
        },
{
    if let Err(message) = validate_host(host) {
        return Err(message);
    }
    if let Some(fault) = session_fault {
        return Err(fault);
    }
    let words: Vec<&str> = vec!["--version"];
    assert(text::strs(words@) =~= seq!["--version"@]);
    Ok(ssh_args(host, remote(words.as_slice()).as_str()))
}

/// The binary of a host ran and is one that this client works with.
pub open spec fn bridgeable(success: bool, stdout: Seq<u8>) -> bool {
    success && vstd::utf8::valid_utf8(stdout) && remote_prepare::is_compatible(
        vstd::utf8::decode_utf8(stdout),
    )
}

/// Opens the bridge to a session, from what the host answered when it was asked for the
/// version of its binary.
pub fn bridge_opening(host: &str, session: &str, success: bool, stdout: &[u8], errors: &str) -> (r:
    Result<Vec<String>, String>)
    ensures
        match r {
            Ok(words) => bridgeable(success, stdout@) && text::texts(words@) == plain_call(
                host@,
                unix::binary_command(seq!["bridge"@, "-s"@, session@]),
            ),
            Err(message) => !bridgeable(success, stdout@) && message@ == (if !success {
                "could not run kodade-cli on "@ + host@ + ": "@ + text::trim(errors@)
            } else {
                host@ + " has an incompatible kodade-cli; run `kodade-cli machine prepare "@ + host@
                    + " --install`"@
            }),
        },
{
    if !success {
        let mut message = text::cat3("could not run kodade-cli on ", host, ": ");
        message.append(text::trimmed(errors));
        return Err(message);
    }
    if !remote_prepare::version_is_compatible(stdout) {
        let mut message = text::cat3(
            host,
            " has an incompatible kodade-cli; run `kodade-cli machine prepare ",
            host,
        );
        message.append(" --install`");
        return Err(message);
    }
    let words: Vec<&str> = vec!["bridge", "-s", session];
    assert(text::strs(words@) =~= seq!["bridge"@, "-s"@, session@]);
    Ok(ssh_args(host, remote(words.as_slice()).as_str()))
}

/// The call that runs a `session` command on a host.
pub fn session_call(host: &str, session: &str, command: &SessionCommand) -> (r: Result<
    Vec<String>,
    String,
>)
    ensures
        match r {
            Ok(words) => unix::is_host(host@) && text::texts(words@) == plain_call(
                host@,
                unix::binary_command(unix::session_words(session@, *command)),
            ),
            Err(message) => !unix::is_host(host@) && message@
                == "invalid SSH target: use an SSH host alias or USER@HOST"@,
        },
{
    if let Err(message) = validate_host(host) {
        return Err(message);
    }
    let (words, _) = unix::session_args(session, command);
    Ok(ssh_args(host, remote(words.as_slice()).as_str()))
}

/// What a `session` command on a host printed, or why it failed.
pub fn session_reply(success: bool, output: String, errors: &str) -> (r: Result<String, String>)
    ensures
        match r {
            Ok(text) => success && text == output,
            Err(message) => !success && message@ == "remote session command failed: "@ + text::trim(
                errors@,
            ),
        },
{
    if !success {
        return Err(text::cat("remote session command failed: ", text::trimmed(errors)));
    }
    Ok(output)
}

/// The call that runs the diagnostics on a host.
pub fn doctor_call(host: &str, session: &str, json: bool) -> (r: Vec<String>)
    ensures
        text::texts(r@) == plain_call(
            host@,
            unix::binary_command(
                if json {
                    seq!["doctor"@, "-s"@, session@, "--json"@]
                } else {
                    seq!["doctor"@, "-s"@, session@]
                },
            ),
        ),
{
    let words = unix::doctor_args(session, json);
    ssh_args(host, remote(words.as_slice()).as_str())
}

/// What the diagnostics on a host printed, or why they failed.
pub fn doctor_reply(success: bool, output: String, errors: &str) -> (r: Result<String, String>)
    ensures
        match r {
            Ok(text) => success && text == output,
            Err(message) => !success && message@ == "remote diagnostics failed: "@ + text::trim(
                errors@,
            ),
        },
{
    if !success {
        return Err(text::cat("remote diagnostics failed: ", text::trimmed(errors)));
    }
    Ok(output)
}

} // verus!
