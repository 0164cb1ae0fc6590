//! Remote sessions over SSH: the words of every `ssh` call, and what is made of
//! what it prints.
//!
//! Everything runs through the user's own `ssh`, so there is nothing about
//! credentials here. OpenSSH joins the words for the remote host into one shell
//! command; every word that is not plain is quoted for that shell.

use vstd::prelude::*;

use crate::cli::SessionCommand;
use crate::text;

verus! {

/// Shown when the remote host has no `kodade-cli`.
pub const INSTALL_HINT: &'static str = "curl -fsSL https://raw.githubusercontent.com/Kodade/kodade-cli/main/install.sh | sh";

/// Seconds that a forwarded socket may take to accept a connection.
pub const TUNNEL_TIMEOUT_SECS: u64 = 10;

/// Where a prepared host has its binary.
pub const REMOTE_INSTALL: &'static str = "\"$HOME/.local/bin/kodade-cli\"";

// -------------------------------------------------------------------------- quoting

/// A character that every shell takes for itself.
pub open spec fn plain_char(c: char) -> bool {
    text::ascii_alnum(c) || c == '_' || c == '.' || c == '/' || c == ':' || c == '@' || c == '%'
        || c == '+' || c == '-'
}

pub open spec fn plain_word(word: Seq<char>) -> bool {
    word.len() > 0 && forall|i: int| 0 <= i < word.len() ==> plain_char(#[trigger] word[i])
}

/// A word for a shell: as it is where every character is plain, and else between
/// single quotes, with each quote inside written apart.
pub open spec fn quoted_word(word: Seq<char>) -> Seq<char> {
    if plain_word(word) {
        word
    } else {
        "'"@ + text::replace_char(word, '\'', "'\\''"@) + "'"@
    }
}

fn is_plain(word: &str) -> (r: bool)
    ensures
        r == plain_word(word@),
{
    let chars = text::chars_of(word);
    if chars.len() == 0 {
        return false;
    }
    let mut i: usize = 0;
    while i < chars.len()
        invariant
            chars@ == word@,
            i <= chars@.len(),
            forall|k: int| 0 <= k < i ==> plain_char(#[trigger] word@[k]),
        decreases chars@.len() - i,
    {
        let c = chars[i];
        if !(text::is_ascii_alnum(c) || c == '_' || c == '.' || c == '/' || c == ':' || c == '@'
            || c == '%' || c == '+' || c == '-') {
            assert(!plain_char(word@[i as int]));
            return false;
        }
        i += 1;
    }
    true
}

/// Quotes a word for the remote shell.
pub fn remote_word(word: &str) -> (r: String)
    ensures
        r@ == quoted_word(word@),
{
    if is_plain(word) {
        word.to_owned()
    } else {
        let inner = text::replaced(word, '\'', "'\\''");
        text::cat3("'", inner.as_str(), "'")
    }
}

/// What a shell makes of a word: plain characters and those after a backslash
/// stand for themselves, and so does everything between single quotes.
pub open spec fn shell_reads(s: Seq<char>, inside: bool) -> Option<Seq<char>>
    decreases s.len(),
{
    if s.len() == 0 {
        if inside {
            None
        } else {
            Some(Seq::empty())
        }
    } else if inside {
        if s[0] == '\'' {
            shell_reads(s.skip(1), false)
        } else {
            after(s[0], shell_reads(s.skip(1), true))
        }
    } else if s[0] == '\'' {
        shell_reads(s.skip(1), true)
    } else if s[0] == '\\' && s.len() > 1 {
        after(s[1], shell_reads(s.skip(2), false))
    } else if plain_char(s[0]) {
        after(s[0], shell_reads(s.skip(1), false))
    } else {
        None
    }
}

pub open spec fn after(c: char, rest: Option<Seq<char>>) -> Option<Seq<char>> {
    match rest {
        Some(s) => Some(seq![c] + s),
        None => None,
    }
}

proof fn lemma_quoted_reads(word: Seq<char>)
    ensures
        shell_reads(text::replace_char(word, '\'', "'\\''"@) + "'"@, true) == Some(word),
    decreases word.len(),
{
    reveal_strlit("'");
    reveal_strlit("'\\''");
    let body = text::replace_char(word, '\'', "'\\''"@);
    if word.len() == 0 {
        let s = body + "'"@;
        assert(s =~= seq!['\'']);
        assert(s.skip(1) =~= Seq::empty());
        assert(shell_reads(s.skip(1), false) == Some(Seq::<char>::empty()));
        assert(word =~= Seq::empty());
    } else {
        lemma_quoted_reads(word.skip(1));
        text::lemma_replace_first(word, '\'', "'\\''"@);
        let rest = text::replace_char(word.skip(1), '\'', "'\\''"@) + "'"@;
        let s = body + "'"@;
        assert(word =~= seq![word[0]] + word.skip(1));
        if word[0] == '\'' {
            assert(s =~= seq!['\'', '\\', '\'', '\''] + rest);
            let s1 = s.skip(1);
            assert(s1 =~= seq!['\\', '\'', '\''] + rest);
            let s3 = s1.skip(2);
            assert(s3 =~= seq!['\''] + rest);
            assert(s3.skip(1) =~= rest);
            assert(shell_reads(s3, false) == shell_reads(rest, true));
            assert(shell_reads(s1, false) == after('\'', shell_reads(s3, false)));
            assert(shell_reads(s, true) == shell_reads(s1, false));
        } else {
            assert(s =~= seq![word[0]] + rest);
            assert(s.skip(1) =~= rest);
        }
    }
}

proof fn lemma_plain_reads(word: Seq<char>)
    requires
        forall|i: int| 0 <= i < word.len() ==> plain_char(#[trigger] word[i]),
    ensures
        shell_reads(word, false) == Some(word),
    decreases word.len(),
{
    if word.len() > 0 {
        assert(plain_char(word[0]));
        assert forall|i: int| 0 <= i < word.skip(1).len() implies plain_char(
            #[trigger] word.skip(1)[i],
        ) by {
            assert(plain_char(word[i + 1]));
        }
        lemma_plain_reads(word.skip(1));
        assert(word =~= seq![word[0]] + word.skip(1));
    } else {
        assert(word =~= Seq::empty());
    }
}

/// The remote shell reads a quoted word back exactly as it was.
pub proof fn law_quoting_preserves_words(word: Seq<char>)
    ensures
        shell_reads(quoted_word(word), false) == Some(word),
{
    if plain_word(word) {
        lemma_plain_reads(word);
    } else {
        reveal_strlit("'");
        lemma_quoted_reads(word);
        let body = text::replace_char(word, '\'', "'\\''"@);
        let s = quoted_word(word);
        assert(s =~= seq!['\''] + (body + "'"@));
        assert(s.skip(1) =~= body + "'"@);
    }
}

// ---------------------------------------------------------------------- SSH targets

pub open spec fn bad_host_char(c: char) -> bool {
    text::white_space(c) || text::control(c)
}

pub open spec fn is_host(host: Seq<char>) -> bool {
    &&& host.len() > 0
    &&& host[0] != '-'
    &&& forall|i: int| 0 <= i < host.len() ==> !bad_host_char(#[trigger] host[i])
}

/// A target is handed to `ssh` as one word that is no option.
pub fn validate_host(host: &str) -> (r: Result<(), String>)
    ensures
        text::fault(r) == (if is_host(host@) {
            None
        } else {
            Some("invalid SSH target: use an SSH host alias or USER@HOST"@)
        }),
{
    let chars = text::chars_of(host);
    let refused = "invalid SSH target: use an SSH host alias or USER@HOST";
    if chars.len() == 0 || chars[0] == '-' {
        return Err(refused.to_owned());
    }
    let mut i: usize = 0;
    while i < chars.len()
        invariant
            chars@ == host@,
            refused@ == "invalid SSH target: use an SSH host alias or USER@HOST"@,
            i <= chars@.len(),
            forall|k: int| 0 <= k < i ==> !bad_host_char(#[trigger] host@[k]),
        decreases chars@.len() - i,
    {
        if chars[i].is_whitespace() || text::is_control(chars[i]) {
            assert(bad_host_char(host@[i as int]));
            return Err(refused.to_owned());
        }
        i += 1;
    }
    Ok(())
}

// ----------------------------------------------------------------------- directories

/// Where control sockets live. OpenSSH adds a hash to the path, so a long
/// directory gives way to a short one of the user's own.
pub fn runtime_dir(socket_parent: &str, user: u32) -> (r: String)
    ensures
        r@ == (if vstd::utf8::encode_utf8(text::path_join(socket_parent@, "ssh"@)).len() <= 35 {
            text::path_join(socket_parent@, "ssh"@)
        } else {
            "/tmp/kodade-ssh-"@ + text::decimal(user as nat)
        }),
{
    let normal = text::join_path(socket_parent, "ssh");
    if normal.as_str().as_bytes().len() <= 35 {
        normal
    } else {
        let id = text::decimal_text(user as u64);
        text::cat("/tmp/kodade-ssh-", id.as_str())
    }
}

pub open spec fn forward_path(runtime: Seq<char>, process: nat, sequence: nat) -> Seq<char> {
    text::path_join(
        text::path_join(
            runtime,
            "remote-"@ + text::decimal(process) + "-"@ + text::decimal(sequence),
        ),
        "s.sock"@,
    )
}

/// The local end of a forward: a socket in a directory of its own.
pub fn local_socket_path(runtime: &str, process: u32, sequence: u64) -> (r: String)
    ensures
        r@ == forward_path(runtime@, process as nat, sequence as nat),
{
    let id = text::decimal_text(process as u64);
    let number = text::decimal_text(sequence);
    let mut name = text::cat3("remote-", id.as_str(), "-");
    name.append(number.as_str());
    let dir = text::join_path(runtime, name.as_str());
    text::join_path(dir.as_str(), "s.sock")
}

/// Two forwards of one process never share a local socket.
pub proof fn law_forwards_have_their_own_sockets(runtime: Seq<char>, process: nat, a: nat, b: nat)
    requires
        a != b,
    ensures
        forward_path(runtime, process, a) != forward_path(runtime, process, b),
{
    reveal_strlit("remote-");
    reveal_strlit("-");
    reveal_strlit("s.sock");
    reveal_strlit("/");
    let head = "remote-"@ + text::decimal(process) + "-"@;
    let name_a = head + text::decimal(a);
    let name_b = head + text::decimal(b);
    assert(name_a[0] == 'r' && name_b[0] == 'r');
    let stem = if runtime.len() == 0 || runtime.last() == '/' {
        runtime
    } else {
        runtime + "/"@
    };
    let dir_a = text::path_join(runtime, name_a);
    let dir_b = text::path_join(runtime, name_b);
    assert(dir_a =~= stem + head + text::decimal(a));
    assert(dir_b =~= stem + head + text::decimal(b));
    text::lemma_decimal_ends(a);
    text::lemma_decimal_ends(b);
    assert(dir_a.last() == text::decimal(a).last());
    assert(dir_b.last() == text::decimal(b).last());
    let tail = "/"@ + "s.sock"@;
    assert(forward_path(runtime, process, a) =~= dir_a + tail);
    assert(forward_path(runtime, process, b) =~= dir_b + tail);
    if dir_a + tail == dir_b + tail {
        assert(dir_a =~= (dir_a + tail).take((dir_a + tail).len() - tail.len()));
        assert(dir_b =~= (dir_b + tail).take((dir_b + tail).len() - tail.len()));
        let front = stem + head;
        assert(text::decimal(a) =~= dir_a.skip(front.len() as int));
        assert(text::decimal(b) =~= dir_b.skip(front.len() as int));
        text::law_decimal_is_injective(a, b);
    }
}

/// The control socket that every call shares.
pub fn control_path(runtime: &str) -> (r: String)
    ensures
        r@ == text::path_join(runtime@, "cm-%C"@),
{
    text::join_path(runtime, "cm-%C")
}

// -------------------------------------------------------------------------- commands

/// The control options that every call carries.
pub open spec fn control_words(control: Seq<char>) -> Seq<Seq<char>> {
    seq![
        "-o"@,
        "BatchMode=yes"@,
        "-o"@,
        "ConnectTimeout=10"@,
        "-o"@,
        "ControlMaster=auto"@,
        "-o"@,
        "ControlPath="@ + control,
        "-o"@,
        "ControlPersist=60"@,
    ]
}

fn control_opts(control: &str) -> (r: Vec<String>)
    ensures
        text::texts(r@) == control_words(control@),
{
    let args: Vec<String> = vec![
        "-o".to_owned(),
        "BatchMode=yes".to_owned(),
        "-o".to_owned(),
        "ConnectTimeout=10".to_owned(),
        "-o".to_owned(),
        "ControlMaster=auto".to_owned(),
        "-o".to_owned(),
        text::cat("ControlPath=", control),
        "-o".to_owned(),
        "ControlPersist=60".to_owned(),
    ];
    assert(text::texts(args@) =~= control_words(control@));
    args
}

/// The words of a command with each quoted, and a space between them.
pub open spec fn quoted_words(words: Seq<Seq<char>>) -> Seq<char> {
    text::joined(words.map_values(|w: Seq<char>| quoted_word(w)), " "@)
}

/// Runs the prepared binary where there is one, else the one on the path.
pub open spec fn binary_command(words: Seq<Seq<char>>) -> Seq<char> {
    "if [ -x \"$HOME/.local/bin/kodade-cli\" ]; then exec \"$HOME/.local/bin/kodade-cli\" "@
        + quoted_words(words) + "; else exec kodade-cli "@ + quoted_words(words) + "; fi"@
}

pub fn remote_binary_command(args: &[&str]) -> (r: String)
    ensures
        r@ == binary_command(text::strs(args@)),
{
    let ghost all = text::strs(args@).map_values(|w: Seq<char>| quoted_word(w));
    let mut words: Vec<String> = Vec::new();
    let mut i: usize = 0;
    assert(text::texts(words@) =~= all.take(0));
    while i < args.len()
        invariant
            i <= args@.len(),
            all == text::strs(args@).map_values(|w: Seq<char>| quoted_word(w)),
            text::texts(words@) == all.take(i as int),
        decreases args@.len() - i,
    {
        let ghost before = text::texts(words@);
        words.push(remote_word(args[i]));
        assert(text::texts(words@) =~= before.push(all[i as int]));
        assert(text::texts(words@) =~= all.take(i + 1));
        i += 1;
    }
    assert(all.take(i as int) =~= all);
    let line = text::join(&words, " ");
    let mut out = text::cat3(
        "if [ -x \"$HOME/.local/bin/kodade-cli\" ]; then exec \"$HOME/.local/bin/kodade-cli\" ",
        line.as_str(),
        "; else exec kodade-cli ",
    );
    out.append(line.as_str());
    out.append("; fi");
    out
}

/// The words of a call that runs a command on a host.
pub open spec fn on_host(control: Seq<char>, host: Seq<char>, command: Seq<char>) -> Seq<Seq<char>> {
    control_words(control).push(host).push(command)
}

fn ssh_call(control: &str, host: &str, command: String) -> (r: Vec<String>)
    ensures
        text::texts(r@) == on_host(control@, host@, command@),
{
    let mut args = control_opts(control);
    let ghost start = text::texts(args@);
    let ghost line = command@;
    args.push(host.to_owned());
    args.push(command);
    assert(text::texts(args@) =~= start.push(host@).push(line));
    args
}

/// Asks for the version of the remote binary.
pub fn version_args(control: &str, host: &str) -> (r: Vec<String>)
    ensures
        text::texts(r@) == on_host(control@, host@, binary_command(seq!["--version"@])),
{
    let words: Vec<&str> = vec!["--version"];
    assert(text::strs(words@) =~= seq!["--version"@]);
    ssh_call(control, host, remote_binary_command(words.as_slice()))
}

/// Asks for the socket path of a remote session.
pub fn socket_path_args(control: &str, host: &str, session: &str) -> (r: Vec<String>)
    ensures
        text::texts(r@) == on_host(
            control@,
            host@,
            binary_command(seq!["session"@, "path"@, "-s"@, session@]),
        ),
{
    let words: Vec<&str> = vec!["session", "path", "-s", session];
    assert(text::strs(words@) =~= seq!["session"@, "path"@, "-s"@, session@]);
    ssh_call(control, host, remote_binary_command(words.as_slice()))
}

/// Starts the remote daemon in the background.
pub fn start_daemon_args(control: &str, host: &str, session: &str) -> (r: Vec<String>)
    ensures
        text::texts(r@) == on_host(
            control@,
            host@,
            "nohup sh -c "@ + quoted_word(binary_command(seq!["daemon"@, session@]))
                + " </dev/null >/dev/null 2>&1 &"@,
        ),
{
    let words: Vec<&str> = vec!["daemon", session];
    assert(text::strs(words@) =~= seq!["daemon"@, session@]);
    let command = remote_binary_command(words.as_slice());
    let word = remote_word(command.as_str());
    ssh_call(
        control,
        host,
        text::cat3("nohup sh -c ", word.as_str(), " </dev/null >/dev/null 2>&1 &"),
    )
}

/// Forwards a remote socket to a local one.
pub fn tunnel_args(control: &str, host: &str, local: &str, remote: &str) -> (r: Vec<String>)
    ensures
        text::texts(r@) == seq![
            "-N"@,
            "-L"@,
            local@ + ":"@ + remote@,
            "-o"@,
            "ExitOnForwardFailure=yes"@,
        ] + control_words(control@) + seq![host@],
{
    let mut args: Vec<String> = vec![
        "-N".to_owned(),
        "-L".to_owned(),
        text::cat3(local, ":", remote),
        "-o".to_owned(),
        "ExitOnForwardFailure=yes".to_owned(),
    ];
    let ghost head = seq![
        "-N"@,
        "-L"@,
        local@ + ":"@ + remote@,
        "-o"@,
        "ExitOnForwardFailure=yes"@,
    ];
    assert(text::texts(args@) =~= head);
    let opts = control_opts(control);
    let ghost all = control_words(control@);
    let mut i: usize = 0;
    assert(text::texts(opts@).len() == opts@.len());
    assert(head + all.take(0) =~= head);
    while i < opts.len()
        invariant
            text::texts(opts@) == all,
            opts@.len() == all.len(),
            i <= opts@.len(),
            text::texts(args@) == head + all.take(i as int),
        decreases opts@.len() - i,
    {
        let ghost before = text::texts(args@);
        args.push(opts[i].clone());
        assert(all[i as int] == opts@[i as int]@);
        assert(text::texts(args@) =~= before.push(all[i as int]));
        assert(text::texts(args@) =~= head + all.take(i + 1));
        i += 1;
    }
    assert(all.take(i as int) =~= all);
    let ghost before = text::texts(args@);
    args.push(host.to_owned());
    assert(text::texts(args@) =~= before.push(host@));
    assert(text::texts(args@) =~= head + all + seq![host@]);
    args
}

/// Runs a command of the remote binary.
pub fn run_args(control: &str, host: &str, remote_args: &[&str]) -> (r: Vec<String>)
    ensures
        text::texts(r@) == on_host(control@, host@, binary_command(text::strs(remote_args@))),
{
    ssh_call(control, host, remote_binary_command(remote_args))
}

/// Prints the system, the architecture, and where the binary is.
pub const PROBE: &'static str = "uname -s; uname -m; if [ -x \"$HOME/.local/bin/kodade-cli\" ]; then printf '%s\\n' \"$HOME/.local/bin/kodade-cli\"; else command -v kodade-cli || true; fi";

/// Asks a host what it is.
pub fn probe_args(control: &str, host: &str) -> (r: Vec<String>)
    ensures
        text::texts(r@) == on_host(control@, host@, PROBE@),
{
    ssh_call(control, host, PROBE.to_owned())
}

/// Stages the bytes from standard input, checks their size, digest and version,
/// and only then moves them into place.
pub open spec fn upload_command(bytes: nat, digest: Seq<char>, version: Seq<char>) -> Seq<char> {
    "set -eu; umask 077; dest=\"$HOME/.local/bin/kodade-cli\"; dir=\"${dest%/*}\"; mkdir -p \"$dir\"; tmp=$(mktemp \"$dir/.kodade-cli.XXXXXX\"); trap 'rm -f \"$tmp\"' EXIT HUP INT TERM; cat >\"$tmp\"; bytes=$(wc -c <\"$tmp\" | tr -d '[:space:]'); [ \"$bytes\" = \""@ + text::decimal(bytes) + "\" ]; if command -v sha256sum >/dev/null 2>&1; then actual=$(sha256sum \"$tmp\" | awk '{print $1}'); else actual=$(shasum -a 256 \"$tmp\" | awk '{print $1}'); fi; [ \"$actual\" = \""@ + digest + "\" ]; chmod 755 \"$tmp\"; LC_ALL=C \"$tmp\" --version | grep -Fx \"kodade-cli "@ + version + "\" >/dev/null; mv -f \"$tmp\" \"$dest\"; trap - EXIT"@
}

/// Uploads a verified binary.
pub fn upload_args(control: &str, host: &str, bytes: usize, digest: &str, version: &str) -> (r: Vec<
    String,
>)
    ensures
        text::texts(r@) == on_host(
            control@,
            host@,
            upload_command(bytes as nat, digest@, version@),
        ),
{
    let size = text::decimal_text(bytes as u64);
    let mut line = text::cat3(
        "set -eu; umask 077; dest=\"$HOME/.local/bin/kodade-cli\"; dir=\"${dest%/*}\"; mkdir -p \"$dir\"; tmp=$(mktemp \"$dir/.kodade-cli.XXXXXX\"); trap 'rm -f \"$tmp\"' EXIT HUP INT TERM; cat >\"$tmp\"; bytes=$(wc -c <\"$tmp\" | tr -d '[:space:]'); [ \"$bytes\" = \"",
        size.as_str(),
        "\" ]; if command -v sha256sum >/dev/null 2>&1; then actual=$(sha256sum \"$tmp\" | awk '{print $1}'); else actual=$(shasum -a 256 \"$tmp\" | awk '{print $1}'); fi; [ \"$actual\" = \"",
    );
    line.append(digest);
    line.append("\" ]; chmod 755 \"$tmp\"; LC_ALL=C \"$tmp\" --version | grep -Fx \"kodade-cli ");
    line.append(version);
    line.append("\" >/dev/null; mv -f \"$tmp\" \"$dest\"; trap - EXIT");
    ssh_call(control, host, line)
}

// --------------------------------------------------------------------- remote answers

/// What is said when the remote binary cannot be run.
pub fn probe_failure(host: &str, errors: &str) -> (r: String)
    ensures
        r@ == "could not run kodade-cli on "@ + host@ + ": "@ + text::trim(errors@)
            + "\nIf it is missing, install it there with:\n    "@ + INSTALL_HINT@,
{
    let mut message = text::cat3("could not run kodade-cli on ", host, ": ");
    message.append(text::trimmed(errors));
    message.append("\nIf it is missing, install it there with:\n    ");
    message.append(INSTALL_HINT);
    message
}

/// A path that can be forwarded: absolute, and without what would end it.
pub open spec fn forwardable(path: Seq<char>) -> bool {
    text::rooted(path) && !path.contains('\n') && !path.contains('\r') && !path.contains(':')
}

/// The socket path that a host printed.
pub fn remote_socket(host: &str, output: &str) -> (r: Result<String, String>)
    ensures
        forwardable(text::trim(output@)) ==> (r matches Ok(path) && path@ == text::trim(output@)),
        !forwardable(text::trim(output@)) ==> text::fault(r) == Some(
            host@ + " returned an invalid Unix socket path"@,
        ),
{
    let path = text::trimmed(output);
    if !text::is_rooted(path) || text::contains_char(path, '\n') || text::contains_char(path, '\r')
        || text::contains_char(path, ':') {
        return Err(text::cat(host, " returned an invalid Unix socket path"));
    }
    Ok(path.to_owned())
}

/// The words of a `session` command on a remote host.
pub open spec fn session_words(session: Seq<char>, command: SessionCommand) -> Seq<Seq<char>> {
    match command {
        SessionCommand::Path => seq!["session"@, "path"@, "-s"@, session],
        SessionCommand::Ls { json } => if json {
            seq!["session"@, "ls"@, "--json"@]
        } else {
            seq!["session"@, "ls"@]
        },
        SessionCommand::Kill { name } => match name {
            Some(name) => seq!["session"@, "kill"@, name@, "-s"@, session],
            None => seq!["session"@, "kill"@, "-s"@, session],
        },
        SessionCommand::Rename { name } => seq![
            "session"@,
            "rename"@,
            name@,
            "-s"@,
            session,
        ],
    }
}

/// The remote words of a `session` command, and whether each line it prints is
/// marked with the host.
pub fn session_args<'a>(session: &'a str, command: &'a SessionCommand) -> (r: (Vec<&'a str>, bool))
    ensures
        text::strs(r.0@) == session_words(session@, *command),
        r.1 == (*command == SessionCommand::Ls { json: false }),
{
    match command {
        SessionCommand::Path => {
            let words: Vec<&str> = vec!["session", "path", "-s", session];
            assert(text::strs(words@) =~= session_words(session@, *command));
            (words, false)
        },
        SessionCommand::Ls { json } => {
            let words: Vec<&str> = if *json {
                vec!["session", "ls", "--json"]
            } else {
                vec!["session", "ls"]
            };
            assert(text::strs(words@) =~= session_words(session@, *command));
            (words, !*json)
        },
        SessionCommand::Kill { name } => {
            let words: Vec<&str> = match name {
                Some(name) => vec!["session", "kill", name.as_str(), "-s", session],
                None => vec!["session", "kill", "-s", session],
            };
            assert(text::strs(words@) =~= session_words(session@, *command));
            (words, false)
        },
        SessionCommand::Rename { name } => {
            let words: Vec<&str> = vec!["session", "rename", name.as_str(), "-s", session];
            assert(text::strs(words@) =~= session_words(session@, *command));
            (words, false)
        },
    }
}

/// The remote words of `session upgrade`. A binary of this host cannot be handed over.
pub fn upgrade_args<'a>(session: &'a str, binary: bool) -> (r: Result<Vec<&'a str>, String>)
    ensures
        !binary ==> (r matches Ok(words) && text::strs(words@) == seq![
            "session"@,
            "upgrade"@,
            "-s"@,
            session@,
        ]),
        binary ==> text::fault(r) == Some(
            "--binary is only supported for a local daemon upgrade"@,
        ),
{
    if binary {
        return Err("--binary is only supported for a local daemon upgrade".to_owned());
    }
    let words: Vec<&str> = vec!["session", "upgrade", "-s", session];
    assert(text::strs(words@) =~= seq!["session"@, "upgrade"@, "-s"@, session@]);
    Ok(words)
}

/// The lines of a remote `session` command as they are printed.
pub fn session_output(host: &str, output: &str, prefix: bool) -> (r: Vec<String>)
    ensures
        text::texts(r@) == text::line_texts(output@).map_values(
            |line: Seq<char>|
                if prefix {
                    host@ + ":"@ + line
                } else {
                    line
                },
        ),
{
    let lines = text::lines(output);
    let ghost all = text::line_texts(output@).map_values(
        |line: Seq<char>|
            if prefix {
                host@ + ":"@ + line
            } else {
                line
            },
    );
    let mut out: Vec<String> = Vec::new();
    let mut i: usize = 0;
    assert(text::texts(lines@).len() == lines@.len());
    assert(text::texts(out@) =~= all.take(0));
    while i < lines.len()
        invariant
            text::texts(lines@) == text::line_texts(output@),
            all == text::line_texts(output@).map_values(
                |line: Seq<char>|
                    if prefix {
                        host@ + ":"@ + line
                    } else {
                        line
                    },
            ),
            lines@.len() == all.len(),
            i <= lines@.len(),
            text::texts(out@) == all.take(i as int),
        decreases lines@.len() - i,
    {
        let ghost before = text::texts(out@);
        assert(text::line_texts(output@)[i as int] == lines@[i as int]@);
        if prefix {
            out.push(text::cat3(host, ":", lines[i].as_str()));
        } else {
            out.push(lines[i].clone());
        }
        assert(text::texts(out@) =~= before.push(all[i as int]));
        assert(text::texts(out@) =~= all.take(i + 1));
        i += 1;
    }
    assert(all.take(i as int) =~= all);
    out
}

/// The remote words of `doctor`.
pub fn doctor_args<'a>(session: &'a str, json: bool) -> (r: Vec<&'a str>)
    ensures
        text::strs(r@) == (if json {
            seq!["doctor"@, "-s"@, session@, "--json"@]
        } else {
            seq!["doctor"@, "-s"@, session@]
        }),
{
    let words: Vec<&str> = if json {
        vec!["doctor", "-s", session, "--json"]
    } else {
        vec!["doctor", "-s", session]
    };
    assert(text::strs(words@) =~= (if json {
        seq!["doctor"@, "-s"@, session@, "--json"@]
    } else {
        seq!["doctor"@, "-s"@, session@]
    }));
    words
}

/// What is said when a `session` command fails on a remote host.
pub fn session_failure(host: &str, errors: &str) -> (r: String)
    ensures
        r@ == "remote `session` command on "@ + host@ + " failed: "@ + text::trim(errors@),
{
    let mut message = text::cat3("remote `session` command on ", host, " failed: ");
    message.append(text::trimmed(errors));
    message
}

// ------------------------------------------------------------------ opening a tunnel

/// How far the way to a remote session is open.
#[derive(Debug, Clone, Copy, PartialEq, Eq, Structural)]
pub enum OpenPhase {
    Fresh,
    /// The remote binary is asked for its version.
    Probing,
    /// The remote daemon is started, should it not run yet.
    Starting,
    /// The remote binary is asked for the session's socket.
    Asking,
    /// A tunnel is starting.
    Forwarding,
    Ended,
}

/// What happened on the way.
#[derive(Debug, Clone, PartialEq, Eq)]
pub enum OpenEvent {
    /// The session's name is checked; this is what is wrong with it.
    Begin { session_fault: Option<String> },
    /// An `ssh` call ended.
    Ran { success: bool, output: String, errors: String },
    /// The local end was tried, and the tunnel's process looked at.
    Polled { connected: bool, exit: Option<String>, past_deadline: bool, socket: String },
}

/// What comes next on the way.
#[derive(Debug, Clone, PartialEq, Eq)]
pub enum OpenAction {
    /// Call `ssh` with these words and report how it ended.
    Run(Vec<String>),
    /// Start a tunnel to this remote socket and try its local end.
    Forward(String),
    /// Try the local end again in a moment.
    Again,
    /// The tunnel carries connections.
    Ready,
    Fail(String),
}

/// The steps from a host's name to a tunnel that carries connections.
#[derive(Debug, Clone, PartialEq, Eq)]
pub struct Opener {
    pub host: String,
    pub session: String,
    pub control: String,
    pub phase: OpenPhase,
}

/// Whether an action runs these words.
pub open spec fn runs(action: OpenAction, words: Seq<Seq<char>>) -> bool {
    action matches OpenAction::Run(list) && text::texts(list@) == words
}

/// Whether an action fails with this message.
pub open spec fn fails(action: OpenAction, message: Seq<char>) -> bool {
    action matches OpenAction::Fail(said) && said@ == message
}

impl Opener {
    pub fn new(host: &str, session: &str, control: &str) -> (r: Self)
        ensures
            r.host@ == host@,
            r.session@ == session@,
            r.control@ == control@,
            r.phase == OpenPhase::Fresh,
    {
        Opener {
            host: host.to_owned(),
            session: session.to_owned(),
            control: control.to_owned(),
            phase: OpenPhase::Fresh,
        }
    }

    /// What an event leads to, and the phase after it. The names are checked before
    /// anything is called; that a daemon cannot be started is no fault, since one may
    /// be running already.
    pub open spec fn leads(self, event: OpenEvent, phase: OpenPhase, action: OpenAction) -> bool {
        match (self.phase, event) {
            (OpenPhase::Fresh, OpenEvent::Begin { session_fault }) => if !is_host(self.host@) {
                phase == OpenPhase::Ended && fails(
                    action,
                    "invalid SSH target: use an SSH host alias or USER@HOST"@,
                )
            } else {
                match session_fault {
                    Some(fault) => phase == OpenPhase::Ended && fails(action, fault@),
                    None => phase == OpenPhase::Probing && runs(
                        action,
                        on_host(self.control@, self.host@, binary_command(seq!["--version"@])),
                    ),
                }
            },
            (OpenPhase::Probing, OpenEvent::Ran { success, output, errors }) => if success {
                phase == OpenPhase::Starting && runs(
                    action,
                    on_host(
                        self.control@,
                        self.host@,
                        "nohup sh -c "@ + quoted_word(
                            binary_command(seq!["daemon"@, self.session@]),
                        ) + " </dev/null >/dev/null 2>&1 &"@,
                    ),
                )
            } else {
                phase == OpenPhase::Ended && fails(
                    action,
                    "could not run kodade-cli on "@ + self.host@ + ": "@ + text::trim(errors@)
                        + "\nIf it is missing, install it there with:\n    "@ + INSTALL_HINT@,
                )
            },
            (OpenPhase::Starting, OpenEvent::Ran { success, output, errors }) => phase
                == OpenPhase::Asking && runs(
                action,
                on_host(
                    self.control@,
                    self.host@,
                    binary_command(seq!["session"@, "path"@, "-s"@, self.session@]),
                ),
            ),
            (OpenPhase::Asking, OpenEvent::Ran { success, output, errors }) => if !success {
                phase == OpenPhase::Ended && fails(
                    action,
                    "could not read the remote socket path from "@ + self.host@,
                )
            } else if forwardable(text::trim(output@)) {
                phase == OpenPhase::Forwarding && (action matches OpenAction::Forward(path)
                    && path@ == text::trim(output@))
            } else {
                phase == OpenPhase::Ended && fails(
                    action,
                    self.host@ + " returned an invalid Unix socket path"@,
                )
            },
            (
                OpenPhase::Forwarding,
                OpenEvent::Polled { connected, exit, past_deadline, socket },
            ) => if connected {
                phase == OpenPhase::Ended && action == OpenAction::Ready
            } else {
                match exit {
                    Some(status) => phase == OpenPhase::Ended && fails(
                        action,
                        "SSH tunnel to "@ + self.host@ + " exited with "@ + status@,
                    ),
                    None => if past_deadline {
                        phase == OpenPhase::Ended && fails(
                            action,
                            "timed out waiting for the SSH tunnel to "@ + self.host@
                                + " (socket "@ + socket@ + ")"@,
                        )
                    } else {
                        phase == OpenPhase::Forwarding && action == OpenAction::Again
                    },
                }
            },
            _ => phase == OpenPhase::Ended && fails(
                action,
                "the way to "@ + self.host@ + " was left out of order"@,
            ),
        }
    }

    /// Takes one step.
    pub fn step(&mut self, event: OpenEvent) -> (r: OpenAction)
        ensures
            *final(self) == (Opener { phase: final(self).phase, ..*old(self) }),
            old(self).leads(event, final(self).phase, r),
    {
        let (phase, action) = match (self.phase, event) {
            (OpenPhase::Fresh, OpenEvent::Begin { session_fault }) => match validate_host(
                self.host.as_str(),
            ) {
                Err(message) => (OpenPhase::Ended, OpenAction::Fail(message)),
                Ok(_) => match session_fault {
                    Some(fault) => (OpenPhase::Ended, OpenAction::Fail(fault)),
                    None => (
                        OpenPhase::Probing,
                        OpenAction::Run(version_args(self.control.as_str(), self.host.as_str())),
                    ),
                },
            },
            (OpenPhase::Probing, OpenEvent::Ran { success, output: _, errors }) => if success {
                (
                    OpenPhase::Starting,
                    OpenAction::Run(
                        start_daemon_args(
                            self.control.as_str(),
                            self.host.as_str(),
                            self.session.as_str(),
                        ),
                    ),
                )
            } else {
                (
                    OpenPhase::Ended,
                    OpenAction::Fail(probe_failure(self.host.as_str(), errors.as_str())),
                )
            },
            (OpenPhase::Starting, OpenEvent::Ran { success: _, output: _, errors: _ }) => (
                OpenPhase::Asking,
                OpenAction::Run(
                    socket_path_args(
                        self.control.as_str(),
                        self.host.as_str(),
                        self.session.as_str(),
                    ),
                ),
            ),
            (OpenPhase::Asking, OpenEvent::Ran { success, output, errors: _ }) => if success {
                match remote_socket(self.host.as_str(), output.as_str()) {
                    Ok(path) => (OpenPhase::Forwarding, OpenAction::Forward(path)),
                    Err(message) => (OpenPhase::Ended, OpenAction::Fail(message)),
                }
            } else {
                (
                    OpenPhase::Ended,
                    OpenAction::Fail(
                        text::cat(
                            "could not read the remote socket path from ",
                            self.host.as_str(),
                        ),
                    ),
                )
            },
            (
                OpenPhase::Forwarding,
                OpenEvent::Polled { connected, exit, past_deadline, socket },
            ) => if connected {
                (OpenPhase::Ended, OpenAction::Ready)
            } else {
                match exit {
                    Some(status) => {
                        let mut message = text::cat3(
                            "SSH tunnel to ",
                            self.host.as_str(),
                            " exited with ",
                        );
                        message.append(status.as_str());
                        (OpenPhase::Ended, OpenAction::Fail(message))
                    },
                    None => if past_deadline {
                        let mut message = text::cat3(
                            "timed out waiting for the SSH tunnel to ",
                            self.host.as_str(),
                            " (socket ",
                        );
                        message.append(socket.as_str());
                        message.append(")");
                        (OpenPhase::Ended, OpenAction::Fail(message))
                    } else {
                        (OpenPhase::Forwarding, OpenAction::Again)
                    },
                }
            },
            _ => (
                OpenPhase::Ended,
                OpenAction::Fail(
                    text::cat3("the way to ", self.host.as_str(), " was left out of order"),
                ),
            ),
        };
        self.phase = phase;
        action
    }
}

/// Nothing is called for a host or a session whose name is refused.
pub proof fn law_refused_names_call_nothing(
    opener: Opener,
    fault: Option<String>,
    phase: OpenPhase,
    action: OpenAction,
)
    requires
        opener.phase == OpenPhase::Fresh,
        !is_host(opener.host@) || fault is Some,
        opener.leads((OpenEvent::Begin { session_fault: fault }), phase, action),
    ensures
        action is Fail,
        phase == OpenPhase::Ended,
{
}

/// A tunnel is opened only to an absolute path that the words of `ssh` can carry.
pub proof fn law_tunnels_lead_to_absolute_paths(
    opener: Opener,
    event: OpenEvent,
    phase: OpenPhase,
    path: String,
)
    requires
        opener.leads(event, phase, OpenAction::Forward(path)),
    ensures
        forwardable(path@),
{
}

} // verus!
