//! Reaching machines: profiles, connections, shell words and what is copied there.

use vstd::prelude::*;

use crate::clipboard;
use crate::connection;
use crate::doctor::{self, Check, Severity};
use crate::endpoints::{self, EndpointId, Routed, Router, Status, Update, UpdatePacket};
use crate::local_endpoint::Viewport;
use crate::machines::{self, MachineProfile};
use crate::proto::{ClientMessage, Event, LayoutSnapshot, Notification, ServerMessage};
use crate::remote::{self, OpenAction, OpenEvent, OpenPhase, Opener};
use crate::remote_prepare;
use crate::cli::SessionCommand;
use crate::text;

verus! {

// ------------------------------------------------------------------------------ retries

/// The pause before another try starts at a second and doubles with each failure, up to a
/// minute and four seconds.
pub proof fn law_pauses_double(retry: u8)
    ensures
        endpoints::delay_after(0) == 1,
        retry < 6 ==> endpoints::delay_after((retry + 1) as u8) == 2 * endpoints::delay_after(retry),
        retry >= 6 ==> endpoints::delay_after(retry) == 64,
{
}

/// A failure that the user must act on stays until they do, with its reason; any other is
/// counted, from none.
pub proof fn law_failures_are_counted(status: Status, reason: String)
    ensures
        ({
            let after = endpoints::after_failure(status, reason);
            let asks = text::has_part(reason@, "password"@) || text::has_part(
                reason@,
                "host key"@,
            );
            &&& asks ==> after == Status::Attention(reason)
            &&& !asks && !(status is Offline) ==> after == (Status::Offline { retry: 0 })
            &&& !asks ==> (status matches Status::Offline { retry } ==> (
            after matches Status::Offline { retry: next } && (retry < 6 ==> next == retry + 1) && (
            retry >= 6 ==> next == 6)))
        }),
{
}

/// What the sidebar says of a machine's connection.
pub proof fn law_connections_are_told(retry: u8, reason: String)
    ensures
        endpoints::status_words(Status::Connecting) == "connecting"@,
        endpoints::status_words(Status::Online) == "online"@,
        endpoints::status_words(Status::Disabled) == "disabled"@,
        endpoints::status_words(Status::Offline { retry }) == "offline · retry "@ + text::decimal(
            (retry + 1) as nat,
        ),
        reason@.is_suffix_of(endpoints::status_words(Status::Attention(reason))),
{
}

/// A machine that is switched off is not connected to; the others are, from the start.
pub proof fn law_new_machines_connect_when_enabled(profile: MachineProfile)
    ensures
        endpoints::fresh(profile).label@ == profile.label@,
        profile.enabled ==> endpoints::fresh(profile).status == Status::Connecting,
        !profile.enabled ==> endpoints::fresh(profile).status == Status::Disabled,
{
}

/// This machine stands before all others, and those by name.
pub proof fn law_this_machine_comes_first(a: Seq<char>, b: Seq<char>)
    ensures
        endpoints::id_before(None, Some(a)),
        !endpoints::id_before(Some(a), None),
        !endpoints::id_before(None, None),
        endpoints::id_before(Some(a), Some(b)) <==> text::precedes(a, b),
{
}

/// What a machine tells is shown while it is selected. That it is gone or back counts for
/// every machine, and nothing counts that a worker says after it was replaced.
pub proof fn law_updates_reach_the_screen(router: Router, packet: UpdatePacket)
    ensures
        ({
            let current = router.generation(endpoints::name_of(packet.endpoint)) == Some(
                packet.generation,
            );
            let selected = endpoints::name_of(router.selected) == endpoints::name_of(
                packet.endpoint,
            );
            &&& !current ==> router.routed(packet) == Routed::Dropped
            &&& current ==> (packet.update matches Update::EndpointFailed { reason } ==> (
            router.routed(packet) matches Routed::Lost { endpoint, reason: said } && endpoint
                == packet.endpoint && said == reason))
            &&& current && packet.update is EndpointConnected ==> router.routed(packet)
                == Routed::Joined(packet.endpoint)
            &&& current && !(packet.update is EndpointFailed)
                && !(packet.update is EndpointConnected) ==> router.routed(packet) == (if selected {
                Routed::Shown(packet.update)
            } else {
                Routed::Dropped
            })
        }),
{
}

/// What the daemon says becomes the update of the same kind, with the same contents.
pub proof fn law_messages_become_updates(
    layout: LayoutSnapshot,
    notification: Notification,
    message: String,
)
    ensures
        endpoints::update_of(ServerMessage::Layout(layout)) == Some(Update::Layout(layout)),
        endpoints::update_of(ServerMessage::Notification(notification)) == Some(
            Update::Notification(notification),
        ),
        endpoints::update_of(ServerMessage::Event(Event::Notification(notification))) == Some(
            Update::Notification(notification),
        ),
        endpoints::update_of(ServerMessage::Error { message }) == Some(
            Update::RequestError(message),
        ),
{
}

/// What is known of the viewport is the last that was said of it.
pub proof fn law_the_last_size_counts(
    viewport: Viewport,
    queued: Seq<ClientMessage>,
    cols: u16,
    rows: u16,
    enabled: bool,
)
    ensures
        ({
            let resized = viewport.after_all(queued.push(ClientMessage::Resize { cols, rows }));
            let before = viewport.after_all(queued);
            &&& resized.cols == cols
            &&& resized.rows == rows
            &&& resized.compact == before.compact
        }),
        ({
            let changed = viewport.after_all(
                queued.push(ClientMessage::SetCompactView { enabled }),
            );
            let before = viewport.after_all(queued);
            &&& changed.compact == enabled
            &&& changed.cols == before.cols
            &&& changed.rows == before.rows
        }),
        viewport.after_all(Seq::empty()) == viewport,
{
    assert(queued.push(ClientMessage::Resize { cols, rows }).drop_last() =~= queued);
    assert(queued.push(ClientMessage::SetCompactView { enabled }).drop_last() =~= queued);
}

// ----------------------------------------------------------------------------- profiles

/// A machine is meant by its id or its label: the first that has it.
pub proof fn law_machines_are_found(list: Seq<MachineProfile>, id: Seq<char>)
    ensures
        match machines::machine_at(list, id) {
            Some(i) => 0 <= i < list.len() && (list[i].id@ == id || list[i].label@ == id) && forall|
                j: int,
            |
                0 <= j < i ==> (#[trigger] list[j]).id@ != id && list[j].label@ != id,
            None => forall|j: int|
                0 <= j < list.len() ==> (#[trigger] list[j]).id@ != id && list[j].label@ != id,
        },
    decreases list.len(),
{
    if list.len() > 0 && list[0].id@ != id && list[0].label@ != id {
        let rest = list.skip(1);
        law_machines_are_found(rest, id);
        let bound = match machines::machine_at(rest, id) {
            Some(i) => i + 1,
            None => list.len() as int,
        };
        assert forall|j: int| 0 <= j < bound implies (#[trigger] list[j]).id@ != id
            && list[j].label@ != id by {
            if j > 0 {
                assert(rest[j - 1] == list[j]);
            }
        }
    }
}

/// A profile is in order exactly when it has a label that can be shown, a target that can
/// be called, and nothing is wrong with its session.
pub proof fn law_profiles_in_order(
    label: Seq<char>,
    target: Seq<char>,
    session_fault: Option<Seq<char>>,
)
    ensures
        machines::profile_fault(label, target, session_fault) is None <==> !text::blank(label) && (
        forall|i: int| 0 <= i < label.len() ==> !text::control(#[trigger] label[i])) && target.len()
            > 0 && target[0] != '-' && (forall|i: int|
            0 <= i < target.len() ==> !text::white_space(#[trigger] target[i]) && !text::control(
                target[i],
            )) && session_fault is None,
{
    if machines::profile_fault(label, target, session_fault) is None {
        assert forall|i: int| 0 <= i < label.len() implies !text::control(#[trigger] label[i]) by {}
        assert forall|i: int| 0 <= i < target.len() implies !text::white_space(#[trigger] target[i])
            && !text::control(target[i]) by {
            assert(!remote::bad_host_char(target[i]));
        }
    }
}

/// A list of machines in which each is in order and no two share an id or a label is
/// accepted.
pub proof fn law_catalogs_in_order_are_accepted(
    list: Seq<MachineProfile>,
    session_faults: Seq<Option<String>>,
    count: int,
)
    requires
        0 <= count <= list.len(),
        forall|i: int, j: int|
            0 <= i < j < list.len() ==> (#[trigger] list[i]).id@ != (#[trigger] list[j]).id@
                && list[i].label@ != list[j].label@,
        forall|i: int|
            0 <= i < list.len() ==> (#[trigger] list[i]).id@.len() > 0 && !machines::has_control(
                list[i].id@,
            ) && machines::profile_fault(
                list[i].label@,
                list[i].target@,
                text::option_text(session_faults[i]),
            ) is None,
    ensures
        machines::catalog_fault(list, session_faults, count) is None,
    decreases count,
{
    if count > 0 {
        law_catalogs_in_order_are_accepted(list, session_faults, count - 1);
        let before = list.take(count - 1);
        let profile = list[count - 1];
        if machines::has_id(before, profile.id@) {
            let i = choose|i: int| 0 <= i < before.len() && (#[trigger] before[i]).id@ == profile.id@;
            assert(list[i].id@ != list[count - 1].id@);
        }
        if machines::has_label(before, profile.label@) {
            let i = choose|i: int|
                0 <= i < before.len() && (#[trigger] before[i]).label@ == profile.label@;
            assert(list[i].label@ != list[count - 1].label@);
        }
    }
}

// ------------------------------------------------------------------------------- shells

/// Nothing that a shell reads otherwise than as itself goes unquoted; letters and digits
/// do.
pub proof fn law_only_plain_characters_go_unquoted(c: char)
    ensures
        'a' <= c <= 'z' || 'A' <= c <= 'Z' || '0' <= c <= '9' ==> remote::plain_char(c),
        c == ' ' || c == '\t' || c == '\n' || c == '\'' || c == '"' || c == '`' || c == '$' || c
            == '\\' || c == ';' || c == '&' || c == '|' || c == '<' || c == '>' || c == '(' || c
            == ')' || c == '{' || c == '}' || c == '[' || c == ']' || c == '*' || c == '?' || c
            == '~' || c == '#' || c == '!' || c == '=' || c == '^' ==> !remote::plain_char(c),
        c as u32 >= 0x80 ==> !remote::plain_char(c),
{
}

/// A word in need of quotes stands in them whole; one that is plain is left as it is.
pub proof fn law_words_are_quoted(word: Seq<char>)
    ensures
        remote::plain_word(word) ==> remote::quoted_word(word) == word,
        !remote::plain_word(word) ==> remote::quoted_word(word)[0] == '\'' && remote::quoted_word(
            word,
        ).last() == '\'' && remote::quoted_word(word).len() >= 2,
        !remote::plain_word(Seq::empty()),
{
    reveal_strlit("'");
}

/// A socket can be forwarded when it has a place of its own and no sign in its path that
/// would end it.
pub proof fn law_forwardable_paths(path: Seq<char>)
    ensures
        remote::forwardable(path) ==> path.len() > 0 && path[0] == '/',
        path.contains(':') || path.contains('\n') || path.contains('\r') ==> !remote::forwardable(
            path,
        ),
{
}

/// What is said about a session on another host names the session, unless it is about all
/// of them.
pub proof fn law_remote_sessions_are_named(session: Seq<char>, name: String, json: bool)
    ensures
        remote::session_words(session, SessionCommand::Path) == seq![
            "session"@,
            "path"@,
            "-s"@,
            session,
        ],
        remote::session_words(session, SessionCommand::Rename { name }) == seq![
            "session"@,
            "rename"@,
            name@,
            "-s"@,
            session,
        ],
        remote::session_words(session, SessionCommand::Kill { name: Some(name) }) == seq![
            "session"@,
            "kill"@,
            name@,
            "-s"@,
            session,
        ],
        remote::session_words(session, SessionCommand::Kill { name: None }).last() == session,
        remote::session_words(session, SessionCommand::Ls { json }).contains("--json"@) <==> json,
{
    reveal_strlit("session");
    reveal_strlit("ls");
    reveal_strlit("--json");
    let words = remote::session_words(session, SessionCommand::Ls { json });
    if json {
        assert(words[2] == "--json"@);
    } else {
        assert("session"@.len() == 7 && "ls"@.len() == 2 && "--json"@.len() == 6);
        assert forall|i: int| 0 <= i < words.len() implies words[i] != "--json"@ by {}
    }
}

/// A release's version is its tag without the letter in front.
pub proof fn law_versions_are_tags_without_letter(tag: Seq<char>)
    ensures
        remote_prepare::untagged(tag).is_suffix_of(tag),
        remote_prepare::untagged(tag).len() > 0 ==> remote_prepare::untagged(tag)[0] != 'v',
        tag.len() > 0 && tag[0] != 'v' ==> remote_prepare::untagged(tag) == tag,
        remote_prepare::untagged(seq!['v'] + tag) == remote_prepare::untagged(tag),
    decreases tag.len(),
{
    let more = seq!['v'] + tag;
    assert(more.skip(1) =~= tag);
    if tag.len() > 0 && tag[0] == 'v' {
        let rest = tag.skip(1);
        law_versions_are_tags_without_letter(rest);
        let b = remote_prepare::untagged(rest);
        assert(b =~= rest.subrange(rest.len() - b.len(), rest.len() as int));
        assert(b =~= tag.subrange(tag.len() - b.len(), tag.len() as int));
    } else {
        assert(tag =~= tag.subrange(0, tag.len() as int));
    }
}

/// The systems and machines that a release is built for, by what they call themselves.
pub proof fn law_systems_are_known(value: Seq<char>)
    ensures
        remote_prepare::system_named("Linux"@) == Some("linux"@),
        remote_prepare::system_named("Darwin"@) == Some("macos"@),
        remote_prepare::system_named(value) is Some ==> value == "Linux"@ || value == "Darwin"@,
        remote_prepare::machine_named("x86_64"@) == Some("x86_64"@),
        remote_prepare::machine_named("amd64"@) == Some("x86_64"@),
        remote_prepare::machine_named("aarch64"@) == Some("aarch64"@),
        remote_prepare::machine_named("arm64"@) == Some("aarch64"@),
{
    reveal_strlit("Linux");
    reveal_strlit("Darwin");
    reveal_strlit("x86_64");
    reveal_strlit("amd64");
    reveal_strlit("aarch64");
    reveal_strlit("arm64");
    assert("Linux"@.len() == 5 && "Darwin"@.len() == 6);
    assert("x86_64"@.len() == 6 && "amd64"@.len() == 5 && "aarch64"@.len() == 7 && "arm64"@.len()
        == 5);
    assert("amd64"@[1] == 'm' && "arm64"@[1] == 'r');
}

/// The file for macOS ends as Apple's do, and every other as for Linux.
pub proof fn law_files_are_named_for_their_system(version: Seq<char>, os: Seq<char>, arch: Seq<char>)
    ensures
        ("kodade-cli-"@ + version + "-"@ + arch).is_prefix_of(
            remote_prepare::asset_name(version, os, arch),
        ),
        os == "macos"@ ==> "-apple-darwin.tar.gz"@.is_suffix_of(
            remote_prepare::asset_name(version, os, arch),
        ),
        os != "macos"@ ==> "-unknown-linux-gnu.tar.gz"@.is_suffix_of(
            remote_prepare::asset_name(version, os, arch),
        ),
{
}

/// The checksum of a file is the one in front of its name.
pub proof fn law_checksums_stand_before_names(lines: Seq<Seq<char>>, name: Seq<char>)
    ensures
        match remote_prepare::listed_sum(lines, name) {
            Some(sum) => exists|i: int|
                0 <= i < lines.len() && (#[trigger] lines[i]) == sum + seq![' ', ' '] + name,
            None => forall|i: int|
                0 <= i < lines.len() ==> (match text::cut_at(#[trigger] lines[i], ' ') {
                    Some((sum, rest)) => rest != seq![' '] + name,
                    None => true,
                }),
        },
    decreases lines.len(),
{
    reveal_strlit(" ");
    assert(" "@ =~= seq![' ']);
    if lines.len() > 0 {
        let rest = lines.skip(1);
        crate::laws::wording::law_cutting_finds_the_first(lines[0], ' ');
        law_checksums_stand_before_names(rest, name);
        match text::cut_at(lines[0], ' ') {
            Some((sum, behind)) if behind == " "@ + name => {
                assert(lines[0] =~= sum + seq![' ', ' '] + name);
            },
            _ => {
                if let Some(sum) = remote_prepare::listed_sum(rest, name) {
                    let i = choose|i: int|
                        0 <= i < rest.len() && (#[trigger] rest[i]) == sum + seq![' ', ' '] + name;
                    assert(lines[i + 1] == rest[i]);
                } else {
                    assert forall|i: int| 0 <= i < lines.len() implies (match text::cut_at(
                        #[trigger] lines[i],
                        ' ',
                    ) {
                        Some((sum, behind)) => behind != seq![' '] + name,
                        None => true,
                    }) by {
                        if i > 0 {
                            assert(rest[i - 1] == lines[i]);
                        }
                    }
                }
            },
        }
    }
}

// ------------------------------------------------------------------------------ copying

/// What Windows is handed reads back: each character is one unit, or two whose bits are
/// put together; the lower byte of a unit comes first.
pub proof fn law_units_read_back(c: char)
    ensures
        ({
            let n = c as int;
            let units = clipboard::utf16_of(c);
            let bytes = clipboard::utf16_bytes(c);
            &&& n < 0x10000 ==> units.len() == 1 && units[0] == n
            &&& n >= 0x10000 ==> units.len() == 2 && 0xd800 <= units[0] < 0xdc00 && 0xdc00
                <= units[1] < 0xe000 && n == 0x10000 + (units[0] - 0xd800) * 0x400 + (units[1]
                - 0xdc00)
            &&& bytes.len() == 2 * units.len()
            &&& bytes[0] + 256 * bytes[1] == units[0]
            &&& n >= 0x10000 ==> bytes[2] + 256 * bytes[3] == units[1]
        }),
{
}

/// A text is handed over character by character, in order.
pub proof fn law_units_are_in_order(s: Seq<char>, c: char)
    ensures
        clipboard::utf16_units(s.push(c)) == clipboard::utf16_units(s) + clipboard::utf16_of(c),
        clipboard::utf16_text(s.push(c)) == clipboard::utf16_text(s) + clipboard::utf16_bytes(c),
        clipboard::utf16_units(Seq::empty()).len() == 0,
        clipboard::utf16_text(Seq::empty()).len() == 0,
{
    assert(s.push(c).drop_last() =~= s);
}

// -------------------------------------------------------------------------------- paths

proof fn lemma_suffix(path: Seq<char>, dot: int, end: int)
    requires
        1 <= dot < end <= path.len(),
        path[dot] == '.',
        path[dot - 1] != '/',
        forall|i: int| dot < i < end ==> (#[trigger] path[i]) != '.' && path[i] != '/',
    ensures
        connection::suffix_start(path, end) == Some(dot),
    decreases end,
{
    if end - 1 > dot {
        assert(path[end - 1] != '.' && path[end - 1] != '/');
        lemma_suffix(path, dot, end - 1);
    }
}

/// A path without its extension is what stands before the last dot of its name.
pub proof fn law_extensions_are_taken_off(path: Seq<char>, extension: Seq<char>)
    requires
        path.len() > 0,
        path.last() != '/',
        extension.len() > 0,
        forall|i: int| 0 <= i < extension.len() ==> (#[trigger] extension[i]) != '.' && extension[i]
            != '/',
    ensures
        connection::without_extension(path + seq!['.'] + extension) == path,
{
    let whole = path + seq!['.'] + extension;
    let end = whole.len() as int;
    assert(whole[end - 1] == extension[extension.len() - 1]);
    assert(connection::name_end(whole, end) == end);
    assert forall|i: int| path.len() < i < end implies (#[trigger] whole[i]) != '.' && whole[i]
        != '/' by {
        assert(whole[i] == extension[i - path.len() - 1]);
    }
    lemma_suffix(whole, path.len() as int, end);
    assert(whole.take(path.len() as int) =~= path);
}

// ------------------------------------------------------------------------------- checks

/// A check's line tells how it went, then what was checked and what was found.
pub proof fn law_checks_are_told(check: Check)
    ensures
        doctor::severity_word(Severity::Good) == "ok"@,
        doctor::severity_word(Severity::Info) == "info"@,
        doctor::severity_word(Severity::Optional) == "optional"@,
        doctor::severity_word(Severity::Warning) == "warning"@,
        doctor::severity_word(Severity::Error) == "error"@,
        doctor::severity_word(check.status).is_prefix_of(doctor::check_line(check)),
        check.detail@.is_suffix_of(doctor::check_line(check)),
{
    crate::laws::wording::law_filling_up_keeps_the_text(doctor::severity_word(check.status), 7);
}

/// A report fails exactly when one of its checks found an error.
pub proof fn law_reports_fail_on_errors(checks: Seq<Check>, one: Check)
    ensures
        doctor::has_error(checks.push(one)) <==> doctor::has_error(checks) || one.status
            == Severity::Error,
        !doctor::has_error(Seq::empty()),
{
    let all = checks.push(one);
    if doctor::has_error(checks) {
        let i = choose|i: int|
            0 <= i < checks.len() && (#[trigger] checks[i]).status == Severity::Error;
        assert(all[i].status == Severity::Error);
    }
    if one.status == Severity::Error {
        assert(all[checks.len() as int].status == Severity::Error);
    }
    if doctor::has_error(all) {
        let i = choose|i: int| 0 <= i < all.len() && (#[trigger] all[i]).status == Severity::Error;
        if i < checks.len() {
            assert(checks[i].status == Severity::Error);
        }
    }
}

/// A machine is listed exactly when it was put on the list.
pub proof fn law_machines_are_listed(ids: Seq<EndpointId>, one: EndpointId, id: Option<Seq<char>>)
    ensures
        endpoints::listed(ids.push(one), id) <==> endpoints::listed(ids, id) || endpoints::name_of(
            one,
        ) == id,
        !endpoints::listed(Seq::empty(), id),
        endpoints::name_of(EndpointId::Local) is None,
{
    let more = ids.push(one);
    if endpoints::listed(ids, id) {
        let i = choose|i: int| 0 <= i < ids.len() && endpoints::name_of(#[trigger] ids[i]) == id;
        assert(endpoints::name_of(more[i]) == id);
    }
    if endpoints::name_of(one) == id {
        assert(endpoints::name_of(more[ids.len() as int]) == id);
    }
    if endpoints::listed(more, id) {
        let i = choose|i: int| 0 <= i < more.len() && endpoints::name_of(#[trigger] more[i]) == id;
        if i < ids.len() {
            assert(endpoints::name_of(ids[i]) == id);
        }
    }
}

/// A call to another host never asks for a password, gives up after ten seconds, and shares
/// the connection at the path that it is given; the host comes before the command.
pub proof fn law_calls_do_not_wait(control: Seq<char>, host: Seq<char>, command: Seq<char>)
    ensures
        ({
            let words = remote::on_host(control, host, command);
            &&& words.contains("BatchMode=yes"@)
            &&& words.contains("ConnectTimeout=10"@)
            &&& words.contains("ControlPath="@ + control)
            &&& words.last() == command
            &&& words[words.len() - 2] == host
        }),
{
    let words = remote::on_host(control, host, command);
    assert(words[1] == "BatchMode=yes"@);
    assert(words[3] == "ConnectTimeout=10"@);
    assert(words[7] == "ControlPath="@ + control);
}

/// What keeps a release from being installed is told, the first thing first.
pub proof fn law_missing_releases_are_told(
    release: remote_prepare::Release,
    os: Seq<char>,
    arch: Seq<char>,
)
    ensures
        ({
            let same = remote_prepare::untagged(release.tag_name@) == crate::plugins::VERSION@;
            let fault = remote_prepare::download_fault(release, os, arch);
            &&& !same ==> fault == Some(
                "published release "@ + release.tag_name@ + " does not match local kodade-cli "@
                    + crate::plugins::VERSION@,
            )
            &&& same && remote_prepare::system_named(os) is None ==> fault == Some(
                "remote OS "@ + text::quoted(os) + " has no standalone preparation artifact"@,
            )
            &&& same && remote_prepare::system_named(os) is Some && remote_prepare::machine_named(
                arch,
            ) is None ==> fault == Some(
                "remote architecture "@ + text::quoted(arch)
                    + " has no standalone preparation artifact"@,
            )
            &&& same && remote_prepare::system_named(os) is Some && remote_prepare::machine_named(
                arch,
            ) is Some && remote_prepare::asset_address(release.assets@, "SHA256SUMS"@) is None
                ==> fault == Some("published release is missing "@ + "SHA256SUMS"@)
        }),
{
}

/// The way to a session on another host: the program is asked for its version, the daemon is
/// started, the socket is asked for and forwarded, and the tunnel is tried until it answers,
/// ends or takes too long. Each step names the host, and a step that fails ends the way.
pub proof fn law_the_way_to_a_host(
    opener: Opener,
    event: OpenEvent,
    phase: OpenPhase,
    action: OpenAction,
)
    requires
        opener.leads(event, phase, action),
    ensures
        action is Fail ==> phase == OpenPhase::Ended,
        action is Ready ==> phase == OpenPhase::Ended && opener.phase == OpenPhase::Forwarding && (
        event matches OpenEvent::Polled { connected, .. } && connected),
        action is Again ==> phase == OpenPhase::Forwarding && (event matches OpenEvent::Polled {
            connected,
            exit,
            past_deadline,
            ..
        } && !connected && exit is None && !past_deadline),
        action is Run ==> (opener.phase == OpenPhase::Fresh && phase == OpenPhase::Probing) || (
        opener.phase == OpenPhase::Probing && phase == OpenPhase::Starting) || (opener.phase
            == OpenPhase::Starting && phase == OpenPhase::Asking),
        action matches OpenAction::Run(list) ==> text::texts(list@).len() == 12 && text::texts(
            list@,
        )[10] == opener.host@,
        action matches OpenAction::Forward(path) ==> opener.phase == OpenPhase::Asking && phase
            == OpenPhase::Forwarding && (event matches OpenEvent::Ran { success, output, .. }
            && success && path@ == text::trim(output@)),
        opener.phase == OpenPhase::Probing || opener.phase == OpenPhase::Asking ==> (
        event matches OpenEvent::Ran { success, .. } ==> !success ==> action is Fail),
        opener.phase == OpenPhase::Probing ==> (event matches OpenEvent::Ran { success, .. }
            ==> success ==> action is Run),
        opener.phase == OpenPhase::Starting && event is Ran ==> action is Run,
        opener.phase == OpenPhase::Fresh && remote::is_host(opener.host@) ==> (
        event matches OpenEvent::Begin { session_fault } ==> session_fault is None ==> action is Run),
        opener.phase == OpenPhase::Fresh && remote::is_host(opener.host@) ==> (
        event matches OpenEvent::Begin { session_fault } ==> (session_fault matches Some(fault)
            ==> (action matches OpenAction::Fail(said) && said@ == fault@))),
        opener.phase == OpenPhase::Ended ==> action is Fail,
{
}

/// Each failure doubles the pause after the one before, until the pause is a minute and four
/// seconds; then it stays.
pub proof fn law_failures_in_a_row(
    first: endpoints::Backoff,
    pause: u64,
    second: endpoints::Backoff,
    next: u64,
    third: endpoints::Backoff,
)
    requires
        first.backs_off(pause, second),
        second.backs_off(next, third),
    ensures
        pause < 64 ==> next == 2 * pause,
        pause >= 64 ==> next == 64,
        first.retry == 0 ==> pause == 1,
{
}

/// A machine is connected from when its worker says so until it says otherwise; what a
/// replaced worker says changes nothing.
pub proof fn law_connections_come_and_go(
    router: Router,
    up: UpdatePacket,
    then: Router,
    down: UpdatePacket,
    after: Router,
    other: Option<Seq<char>>,
)
    requires
        router.hears(up, then),
        then.hears(down, after),
        up.update is EndpointConnected,
        down.update is EndpointFailed,
        endpoints::name_of(up.endpoint) == endpoints::name_of(down.endpoint),
    ensures
        router.generation(endpoints::name_of(up.endpoint)) == Some(up.generation) ==> then.is_online(
            endpoints::name_of(up.endpoint),
        ),
        then.generation(endpoints::name_of(down.endpoint)) == Some(down.generation)
            ==> !after.is_online(endpoints::name_of(down.endpoint)),
        then.generation(endpoints::name_of(down.endpoint)) != Some(down.generation)
            ==> after.is_online(endpoints::name_of(down.endpoint)) == then.is_online(
            endpoints::name_of(down.endpoint),
        ),
        other != endpoints::name_of(up.endpoint) ==> after.is_online(other) == router.is_online(
            other,
        ),
{
}

/// A machine that is taken out is not found any more, and the others are found as before.
pub proof fn law_removed_machines_are_gone(
    catalog: machines::Catalog,
    id: Seq<char>,
    profile: MachineProfile,
    after: machines::Catalog,
    other: int,
)
    requires
        catalog.loses(id, profile, after),
        machines::unambiguous(catalog.machines@),
        0 <= other < catalog.machines@.len(),
    ensures
        profile.id@ == id || profile.label@ == id,
        catalog.machines@[other].id@ != profile.id@ ==> after.machines@.contains(
            catalog.machines@[other],
        ),
        !machines::has_id(after.machines@, profile.id@),
        after.machines@.len() == catalog.machines@.len() - 1,
{
    let list = catalog.machines@;
    let left = after.machines@;
    law_machines_are_found(list, id);
    let i = machines::machine_at(list, id)->0;
    if list[other].id@ != profile.id@ {
        if other < i {
            assert(left[other] == list[other]);
        } else {
            assert(left[other - 1] == list[other]);
        }
    }
    if machines::has_id(left, profile.id@) {
        let k = choose|k: int| 0 <= k < left.len() && (#[trigger] left[k]).id@ == profile.id@;
        if k < i {
            assert(list[k].id@ != list[i].id@);
        } else {
            assert(list[i].id@ != list[k + 1].id@);
        }
    }
}

/// A machine that is changed is the one that was named, and no other is touched.
pub proof fn law_only_the_named_machine_changes(
    catalog: machines::Catalog,
    id: Seq<char>,
    profile: MachineProfile,
    after: machines::Catalog,
    other: int,
)
    requires
        catalog.changes(id, profile, after),
        0 <= other < catalog.machines@.len(),
    ensures
        after.machines@.contains(profile),
        after.machines@.len() == catalog.machines@.len(),
        catalog.machines@[other].id@ != id && catalog.machines@[other].label@ != id
            ==> after.machines@[other] == catalog.machines@[other],
{
    law_machines_are_found(catalog.machines@, id);
    let i = machines::machine_at(catalog.machines@, id)->0;
    assert(after.machines@[i] == profile);
}

/// A single plain character needs no quotes.
pub proof fn law_plain_characters_are_plain_words(c: char, word: Seq<char>)
    ensures
        remote::plain_char(c) ==> remote::quoted_word(seq![c]) == seq![c],
        remote::plain_word(word) && remote::plain_char(c) ==> remote::plain_word(word.push(c)),
        remote::plain_word(word.push(c)) ==> remote::plain_char(c),
{
    if remote::plain_word(word) && remote::plain_char(c) {
        assert forall|i: int| 0 <= i < word.push(c).len() implies remote::plain_char(
            #[trigger] word.push(c)[i],
        ) by {
            if i < word.len() {
                assert(remote::plain_char(word[i]));
            }
        }
    }
    if remote::plain_word(word.push(c)) {
        assert(remote::plain_char(word.push(c)[word.len() as int]));
    }
}

} // verus!
