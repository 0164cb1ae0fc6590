//! Extensions, saved sessions and integrations.

use vstd::prelude::*;

use crate::cli::PluginCommand;
use crate::integrations::{self, EntryView, HookView};
use crate::laws::{drawing, finding};
use crate::layout;
use crate::manifest::{self, InvocationContext, PluginAction, PluginActionContext, PluginPane};
use crate::plugins::{self, InstalledPlugin, LoadedPlugin, PluginStep};
use crate::proto::{LayoutSnapshot, LayoutTree};
use crate::session_file;
use crate::text;

verus! {

// ------------------------------------------------------------------------------ versions

/// One version is newer than another when it is at the first number in which they differ,
/// or when it goes on where the other ends.
pub proof fn law_newer_versions(a: Seq<u64>, b: Seq<u64>)
    ensures
        manifest::lex_gt(a, b) <==> exists|k: int|
            0 <= k < a.len() && k <= b.len() && #[trigger] a.take(k) == b.take(k) && (k == b.len()
                || a[k] > b[k]),
    decreases a.len(),
{
    if a.len() > 0 {
        if b.len() == 0 {
            assert(a.take(0) =~= b.take(0));
        } else if a[0] != b[0] {
            if a[0] > b[0] {
                assert(a.take(0) =~= b.take(0));
            }
            if exists|k: int|
                0 <= k < a.len() && k <= b.len() && #[trigger] a.take(k) == b.take(k) && (k
                    == b.len() || a[k] > b[k]) {
                let k = choose|k: int|
                    0 <= k < a.len() && k <= b.len() && #[trigger] a.take(k) == b.take(k) && (k
                        == b.len() || a[k] > b[k]);
                if k > 0 {
                    assert(a.take(k)[0] == b.take(k)[0]);
                }
            }
        } else {
            let x = a.skip(1);
            let y = b.skip(1);
            law_newer_versions(x, y);
            if manifest::lex_gt(x, y) {
                let k = choose|k: int|
                    0 <= k < x.len() && k <= y.len() && #[trigger] x.take(k) == y.take(k) && (k
                        == y.len() || x[k] > y[k]);
                assert forall|i: int| 0 <= i < k + 1 implies #[trigger] a[i] == b[i] by {
                    if i > 0 {
                        assert(x.take(k)[i - 1] == y.take(k)[i - 1]);
                    }
                }
                assert(a.take(k + 1) =~= b.take(k + 1));
            }
            if exists|k: int|
                0 <= k < a.len() && k <= b.len() && #[trigger] a.take(k) == b.take(k) && (k
                    == b.len() || a[k] > b[k]) {
                let k = choose|k: int|
                    0 <= k < a.len() && k <= b.len() && #[trigger] a.take(k) == b.take(k) && (k
                        == b.len() || a[k] > b[k]);
                assert(k > 0);
                assert forall|i: int| 0 <= i < k - 1 implies #[trigger] x[i] == y[i] by {
                    assert(a.take(k)[i + 1] == b.take(k)[i + 1]);
                }
                assert(x.take(k - 1) =~= y.take(k - 1));
            }
        }
    }
}

// ---------------------------------------------------------------------------- extensions

/// The id of an extension is made of small letters, digits, dashes and underscores.
pub proof fn law_extension_ids(c: char, s: Seq<char>)
    ensures
        manifest::plugin_id_char(c) <==> 'a' <= c <= 'z' || '0' <= c <= '9' || c == '-' || c == '_',
        manifest::is_plugin_id(s.push(c)) <==> (s.len() == 0 || manifest::is_plugin_id(s))
            && manifest::plugin_id_char(c),
        !manifest::is_plugin_id(Seq::empty()),
{
    let more = s.push(c);
    if manifest::is_plugin_id(more) {
        assert(manifest::plugin_id_char(more[s.len() as int]));
        assert forall|i: int| 0 <= i < s.len() implies manifest::plugin_id_char(#[trigger] s[i]) by {
            assert(manifest::plugin_id_char(more[i]));
        }
    }
    if (s.len() == 0 || manifest::is_plugin_id(s)) && manifest::plugin_id_char(c) {
        assert forall|i: int| 0 <= i < more.len() implies manifest::plugin_id_char(
            #[trigger] more[i],
        ) by {
            if i < s.len() {
                assert(manifest::plugin_id_char(s[i]));
            }
        }
    }
}

/// An action is offered where what it works on is there: a workspace, a tab, a pane, or
/// text that is selected.
pub proof fn law_actions_need_what_they_work_on(context: InvocationContext)
    ensures
        context.has_scope(PluginActionContext::Global),
        context.has_scope(PluginActionContext::Workspace) <==> context.workspace_id is Some,
        context.has_scope(PluginActionContext::Tab) <==> context.tab_id is Some,
        context.has_scope(PluginActionContext::Pane) <==> context.pane is Some,
        context.has_scope(PluginActionContext::Selection) <==> (
        context.selected_text matches Some(selected) && selected@.len() > 0),
        context.has_scopes(Seq::empty()),
{
}

/// An extension is found by its id wherever it is registered.
pub proof fn law_extensions_are_found(entries: Seq<(String, InstalledPlugin)>, id: Seq<char>)
    ensures
        match plugins::slot(entries, id) {
            Some(i) => 0 <= i < entries.len() && entries[i].0@ == id && forall|j: int|
                0 <= j < i ==> (#[trigger] entries[j]).0@ != id,
            None => forall|j: int| 0 <= j < entries.len() ==> (#[trigger] entries[j]).0@ != id,
        },
    decreases entries.len(),
{
    if entries.len() > 0 && entries[0].0@ != id {
        let rest = entries.skip(1);
        law_extensions_are_found(rest, id);
        let bound = match plugins::slot(rest, id) {
            Some(i) => i + 1,
            None => entries.len() as int,
        };
        assert forall|j: int| 0 <= j < bound implies (#[trigger] entries[j]).0@ != id by {
            if j > 0 {
                assert(rest[j - 1] == entries[j]);
            }
        }
    }
}

/// A loaded extension is found by the id in its manifest.
pub proof fn law_loaded_extensions_are_found(list: Seq<LoadedPlugin>, id: Seq<char>)
    ensures
        match plugins::plugin_with(list, id) {
            Some(i) => 0 <= i < list.len() && list[i].manifest.id@ == id && forall|j: int|
                0 <= j < i ==> (#[trigger] list[j]).manifest.id@ != id,
            None => forall|j: int| 0 <= j < list.len() ==> (#[trigger] list[j]).manifest.id@ != id,
        },
        plugins::plugin_fault(list, id) is None ==> exists|i: int|
            0 <= i < list.len() && (#[trigger] list[i]).manifest.id@ == id
                && list[i].installed.enabled,
    decreases list.len(),
{
    if list.len() > 0 && list[0].manifest.id@ != id {
        let rest = list.skip(1);
        law_loaded_extensions_are_found(rest, id);
        let bound = match plugins::plugin_with(rest, id) {
            Some(i) => i + 1,
            None => list.len() as int,
        };
        assert forall|j: int| 0 <= j < bound implies (#[trigger] list[j]).manifest.id@ != id by {
            if j > 0 {
                assert(rest[j - 1] == list[j]);
            }
        }
    }
    if plugins::plugin_fault(list, id) is None {
        let i = plugins::plugin_with(list, id)->0;
        assert(list[i].manifest.id@ == id);
    }
}

/// An action is found by its id.
pub proof fn law_actions_are_found(actions: Seq<PluginAction>, id: Seq<char>)
    ensures
        match plugins::action_with(actions, id) {
            Some(i) => 0 <= i < actions.len() && actions[i].id@ == id && forall|j: int|
                0 <= j < i ==> (#[trigger] actions[j]).id@ != id,
            None => forall|j: int| 0 <= j < actions.len() ==> (#[trigger] actions[j]).id@ != id,
        },
    decreases actions.len(),
{
    if actions.len() > 0 && actions[0].id@ != id {
        let rest = actions.skip(1);
        law_actions_are_found(rest, id);
        let bound = match plugins::action_with(rest, id) {
            Some(i) => i + 1,
            None => actions.len() as int,
        };
        assert forall|j: int| 0 <= j < bound implies (#[trigger] actions[j]).id@ != id by {
            if j > 0 {
                assert(rest[j - 1] == actions[j]);
            }
        }
    }
}

/// A pane of an extension is found by its name.
pub proof fn law_extension_panes_are_found(panes: Seq<PluginPane>, name: Seq<char>)
    ensures
        match plugins::pane_with(panes, name) {
            Some(i) => 0 <= i < panes.len() && panes[i].name@ == name && forall|j: int|
                0 <= j < i ==> (#[trigger] panes[j]).name@ != name,
            None => forall|j: int| 0 <= j < panes.len() ==> (#[trigger] panes[j]).name@ != name,
        },
    decreases panes.len(),
{
    if panes.len() > 0 && panes[0].name@ != name {
        let rest = panes.skip(1);
        law_extension_panes_are_found(rest, name);
        let bound = match plugins::pane_with(rest, name) {
            Some(i) => i + 1,
            None => panes.len() as int,
        };
        assert forall|j: int| 0 <= j < bound implies (#[trigger] panes[j]).name@ != name by {
            if j > 0 {
                assert(rest[j - 1] == panes[j]);
            }
        }
    }
}

/// The directory that is removed with an extension lies directly in the managed one, on the
/// way to the extension, and is never the managed one itself or above it.
pub proof fn law_only_own_directories_are_removed(managed: Seq<char>, path: Seq<char>)
    ensures
        plugins::owned_root(managed, path) matches Ok(root) ==> exists|name: Seq<char>|
            root == #[trigger] text::path_join(managed, name) && name != ".."@ && (
            text::path_parts(managed).push(name)).is_prefix_of(text::path_parts(path)),
        text::path_parts(managed) == text::path_parts(path) ==> plugins::owned_root(
            managed,
            path,
        ) is Err,
{
    let base = text::path_parts(managed);
    let parts = text::path_parts(path);
    if plugins::owned_root(managed, path) is Ok {
        let name = parts[base.len() as int];
        assert(base.push(name) =~= parts.subrange(0, base.len() as int + 1)) by {
            assert(base =~= parts.subrange(0, base.len() as int));
            assert forall|i: int| 0 <= i < base.len() implies base[i] == parts[i] by {
                assert(parts.subrange(0, base.len() as int)[i] == parts[i]);
            }
        }
        assert(plugins::owned_root(managed, path)->Ok_0 == text::path_join(managed, name));
    }
}

/// What a command of extensions does first.
pub proof fn law_extension_commands(command: PluginCommand)
    ensures
        command is Enable ==> plugins::first_step(command) == (PluginStep::SetEnabled {
            enabled: true,
        }),
        command is Disable ==> plugins::first_step(command) == (PluginStep::SetEnabled {
            enabled: false,
        }),
        command is Link ==> plugins::first_step(command) is Link,
        command is Unlink ==> plugins::first_step(command) is Unlink,
        command is Install ==> plugins::first_step(command) is Install,
        command is Uninstall ==> plugins::first_step(command) is Uninstall,
        (plugins::refusal(command, true) is Some) <==> command is Pane || command is Run,
        plugins::refusal(command, false) is None,
{
}

/// What an extension is told of where it runs: the active workspace by name and the focused
/// pane by number.
pub proof fn law_extensions_are_told_where_they_run(layout: LayoutSnapshot)
    ensures
        layout::workspace_with(layout.workspaces@, layout.active_workspace) matches Some(w) ==> w.id
            == layout.active_workspace && plugins::origin(layout).0 == w.name@,
        layout::pane_in_focus(layout.panes@) matches Some(pane) ==> pane.focused && plugins::origin(
            layout,
        ).1 == text::decimal(pane.id.0 as nat),
{
    finding::law_workspaces_are_found(layout.workspaces@, layout.active_workspace);
    finding::law_the_focus_is_found(layout.panes@);
}

// ------------------------------------------------------------------------------ sessions

/// The leaves of a tree are the panes that are in it.
pub proof fn law_leaves_are_the_panes(tree: LayoutTree, pane: u64)
    ensures
        session_file::leaves(tree).contains(pane) <==> drawing::grows(tree, pane),
    decreases tree,
{
    match tree {
        LayoutTree::Leaf { pane: leaf } => {
            assert(session_file::leaves(tree)[0] == leaf.0);
        },
        LayoutTree::Split { first, second, .. } => {
            law_leaves_are_the_panes(*first, pane);
            law_leaves_are_the_panes(*second, pane);
            let a = session_file::leaves(*first);
            let b = session_file::leaves(*second);
            let all = session_file::leaves(tree);
            if a.contains(pane) {
                assert(all[a.index_of(pane)] == pane);
            }
            if b.contains(pane) {
                assert(all[a.len() + b.index_of(pane)] == pane);
            }
            if all.contains(pane) {
                let i = all.index_of(pane);
                if i < a.len() {
                    assert(a[i] == pane);
                } else {
                    assert(b[i - a.len()] == pane);
                }
            }
        },
    }
}

// -------------------------------------------------------------------------- integrations

/// The entries of an index are its lines without blanks around them; blank ones are none.
pub proof fn law_blank_lines_are_no_entries(lines: Seq<Seq<char>>, line: Seq<char>)
    ensures
        text::trim(line).len() == 0 ==> integrations::index_entries(lines.push(line))
            == integrations::index_entries(lines),
        text::trim(line).len() > 0 ==> integrations::index_entries(lines.push(line))
            == integrations::index_entries(lines).push(text::trim(line)),
        integrations::index_entries(Seq::empty()).len() == 0,
{
    assert(lines.push(line).drop_last() =~= lines);
}

/// The name that is refused is the first that is no file name or stands there already.
pub proof fn law_the_first_bad_name_is_told(names: Seq<Seq<char>>, from: int)
    requires
        0 <= from <= names.len(),
    ensures
        match integrations::first_bad(names, from) {
            Some(name) => exists|i: int|
                from <= i < names.len() && #[trigger] names[i] == name && (
                !integrations::is_manifest_name(name) || exists|j: int|
                    0 <= j < i && #[trigger] names[j] == name),
            None => forall|i: int|
                from <= i < names.len() ==> integrations::is_manifest_name(#[trigger] names[i]) && (
                forall|j: int| 0 <= j < i ==> #[trigger] names[j] != names[i]),
        },
    decreases names.len() - from,
{
    if from < names.len() {
        let taken = names.take(from);
        if !integrations::is_manifest_name(names[from]) {
            assert(names[from] == names[from]);
        } else if taken.contains(names[from]) {
            let j = taken.index_of(names[from]);
            assert(names[j] == names[from]);
        } else {
            law_the_first_bad_name_is_told(names, from + 1);
            assert forall|j: int| 0 <= j < from implies #[trigger] names[j] != names[from] by {
                assert(taken[j] == names[j]);
            }
        }
    }
}

/// A hook is our own when its command reports to us, and only our own are taken out.
pub proof fn law_only_own_hooks_are_taken_out(hooks: Seq<HookView>, k: int)
    ensures
        forall|i: int| 0 <= i < integrations::others(hooks).len() ==> hooks.contains(
            #[trigger] integrations::others(hooks)[i],
        ) && !integrations::ours(integrations::others(hooks)[i]),
        0 <= k < hooks.len() && hooks[k].command is None ==> !integrations::ours(hooks[k]),
    decreases hooks.len(),
{
    if hooks.len() > 0 {
        let front = hooks.drop_last();
        law_only_own_hooks_are_taken_out(front, 0);
        let before = integrations::others(front);
        let left = integrations::others(hooks);
        assert forall|i: int| 0 <= i < left.len() implies hooks.contains(#[trigger] left[i])
            && !integrations::ours(left[i]) by {
            if i < before.len() {
                assert(left[i] == before[i]);
                assert(hooks[front.index_of(before[i])] == left[i]);
            } else {
                assert(hooks[hooks.len() - 1] == left[i]);
            }
        }
    }
}

/// An agent reports that it is done where its turn ends, that it works where one begins,
/// and that it is blocked when it asks for attention.
pub proof fn law_agents_report_their_states(ends: Seq<char>, begins: Seq<char>, rest: Seq<char>)
    ensures
        ({
            let hooks = integrations::lifecycle(ends, begins, rest);
            &&& hooks.len() == 3
            &&& hooks[0].0 == ends
            &&& hooks[1].0 == begins
            &&& hooks[2].0 == "Notification"@
            &&& told(hooks[0].1) == Some(integrations::report_line("done"@))
            &&& told(hooks[1].1) == Some(integrations::report_line("working"@))
            &&& told(hooks[2].1) == Some(integrations::report_line("blocked"@))
        }),
{
}

/// The command of the first hook of the first entry.
pub open spec fn told(entries: Seq<EntryView>) -> Option<Seq<char>> {
    match entries[0].hooks {
        Some(hooks) => hooks[0].command,
        None => None,
    }
}

/// What a program is to run at the end of a turn is replaced when there is nothing yet, when
/// it is our own, or when the user insists.
pub proof fn law_others_are_not_replaced(present: bool, third: Option<Seq<char>>)
    ensures
        integrations::may_replace(present, third, true),
        integrations::may_replace(false, third, false),
        integrations::may_replace(true, None, false) == false,
        third matches Some(command) ==> (integrations::may_replace(true, third, false)
            <==> integrations::ours((HookView { command: Some(command), json: command }))),
{
}

/// A file of the index is named by letters, digits, dashes and underscores, at least one,
/// before its ending.
pub proof fn law_index_names(stem: Seq<char>)
    ensures
        integrations::is_manifest_name(stem + ".toml"@) <==> stem.len() > 0 && forall|i: int|
            0 <= i < stem.len() ==> 'a' <= #[trigger] stem[i] <= 'z' || 'A' <= stem[i] <= 'Z' || '0'
                <= stem[i] <= '9' || stem[i] == '-' || stem[i] == '_',
{
    reveal_strlit(".toml");
    let name = stem + ".toml"@;
    assert(name.subrange(stem.len() as int, name.len() as int) =~= ".toml"@);
    if integrations::is_manifest_name(name) {
        assert forall|i: int| 0 <= i < stem.len() implies 'a' <= #[trigger] stem[i] <= 'z' || 'A'
            <= stem[i] <= 'Z' || '0' <= stem[i] <= '9' || stem[i] == '-' || stem[i] == '_' by {
            assert(integrations::stem_char(name[i]));
        }
    }
    if stem.len() > 0 && forall|i: int|
        0 <= i < stem.len() ==> 'a' <= #[trigger] stem[i] <= 'z' || 'A' <= stem[i] <= 'Z' || '0'
            <= stem[i] <= '9' || stem[i] == '-' || stem[i] == '_' {
        assert forall|i: int| 0 <= i < name.len() - 5 implies integrations::stem_char(
            #[trigger] name[i],
        ) by {
            assert(name[i] == stem[i]);
        }
    }
}

/// A hook that reports is written as a command, with the line that it runs.
pub proof fn law_reports_are_commands(state: Seq<char>)
    ensures
        integrations::report_hook(state).command == Some(integrations::report_line(state)),
        integrations::report_hook(state).json == integrations::json_object(
            seq![
                ("command"@, integrations::json_text(integrations::report_line(state))),
                ("type"@, integrations::json_text("command"@)),
            ],
        ),
        integrations::report_line(state) == "kodade-cli agent report $KODADE_PANE "@ + state
            + " -s \"$KODADE_SESSION\""@,
        integrations::notify_words() == seq![
            "sh"@,
            "-c"@,
            integrations::report_line("done"@),
        ],
{
}

/// What is wrong with a saved session is told with the number that it is wrong of: one that
/// stands there twice, or a pane that is only in the tree or only in the list.
pub proof fn law_repeated_numbers_are_told(ids: Seq<u64>, seen: Set<u64>)
    ensures
        match session_file::first_repeat(ids, seen) {
            Some(id) => exists|i: int|
                0 <= i < ids.len() && #[trigger] ids[i] == id && (seen.contains(id) || exists|
                    j: int,
                |
                    0 <= j < i && #[trigger] ids[j] == id),
            None => forall|i: int|
                0 <= i < ids.len() ==> !seen.contains(#[trigger] ids[i]) && (forall|j: int|
                    0 <= j < i ==> #[trigger] ids[j] != ids[i]),
        },
    decreases ids.len(),
{
    if ids.len() > 0 && !seen.contains(ids[0]) {
        let rest = ids.skip(1);
        let more = seen.insert(ids[0]);
        law_repeated_numbers_are_told(rest, more);
        if let Some(id) = session_file::first_repeat(rest, more) {
            let i = choose|i: int|
                0 <= i < rest.len() && #[trigger] rest[i] == id && (more.contains(id) || exists|
                    j: int,
                |
                    0 <= j < i && #[trigger] rest[j] == id);
            assert(ids[i + 1] == id);
            if !seen.contains(id) {
                if ids[0] == id {
                    assert(ids[0] == id);
                } else {
                    let j = choose|j: int| 0 <= j < i && #[trigger] rest[j] == id;
                    assert(ids[j + 1] == id);
                }
            }
        } else {
            assert forall|i: int| 0 <= i < ids.len() implies !seen.contains(#[trigger] ids[i]) && (
            forall|j: int| 0 <= j < i ==> #[trigger] ids[j] != ids[i]) by {
                if i > 0 {
                    assert(rest[i - 1] == ids[i]);
                    assert(!more.contains(rest[i - 1]));
                    assert forall|j: int| 0 <= j < i implies #[trigger] ids[j] != ids[i] by {
                        if j > 0 {
                            assert(rest[j - 1] == ids[j]);
                        }
                    }
                }
            }
        }
    } else if ids.len() > 0 {
        assert(ids[0] == ids[0]);
    }
}

/// The number that is missing is the first that is not in the set.
pub proof fn law_missing_numbers_are_told(ids: Seq<u64>, set: Set<u64>)
    ensures
        match session_file::first_missing(ids, set) {
            Some(id) => ids.contains(id) && !set.contains(id),
            None => forall|i: int| 0 <= i < ids.len() ==> set.contains(#[trigger] ids[i]),
        },
    decreases ids.len(),
{
    if ids.len() > 0 && set.contains(ids[0]) {
        let rest = ids.skip(1);
        law_missing_numbers_are_told(rest, set);
        if let Some(id) = session_file::first_missing(rest, set) {
            assert(ids[rest.index_of(id) + 1] == id);
        } else {
            assert forall|i: int| 0 <= i < ids.len() implies set.contains(#[trigger] ids[i]) by {
                if i > 0 {
                    assert(rest[i - 1] == ids[i]);
                }
            }
        }
    } else if ids.len() > 0 {
        assert(ids[0] == ids[0]);
    }
}

/// What is wrong with a tab is told of that tab.
pub proof fn law_faults_name_their_tab(
    tab: session_file::TabFile,
    tab_seen: Set<u64>,
    pane_seen: Set<u64>,
)
    ensures
        match session_file::tab_fault(tab, tab_seen, pane_seen) {
            Some(session_file::SessionFault::DuplicateTab(id)) => id == tab.id && tab_seen.contains(
                id,
            ),
            Some(session_file::SessionFault::NoPanes(id)) => id == tab.id && tab.panes@.len() == 0,
            Some(session_file::SessionFault::RepeatedLeaf(id)) => id == tab.id,
            Some(session_file::SessionFault::UnknownLeaf { tab: id, pane }) => id == tab.id
                && session_file::leaves(tab.tree).contains(pane) && !session_file::pane_ids(
                tab.panes@,
            ).contains(pane),
            Some(session_file::SessionFault::OutsideTree { tab: id, pane }) => id == tab.id
                && session_file::pane_ids(tab.panes@).contains(pane) && !session_file::leaves(
                tab.tree,
            ).contains(pane),
            Some(session_file::SessionFault::DuplicatePane(pane)) => session_file::pane_ids(
                tab.panes@,
            ).contains(pane),
            Some(_) => false,
            None => tab.panes@.len() > 0,
        },
{
    let ids = session_file::pane_ids(tab.panes@);
    let named = session_file::leaves(tab.tree);
    law_repeated_numbers_are_told(ids, pane_seen);
    law_missing_numbers_are_told(named, ids.to_set());
    law_missing_numbers_are_told(ids, named.to_set());
}

/// What is said of an extension that cannot be used.
pub proof fn law_unusable_extensions_are_told(list: Seq<LoadedPlugin>, id: Seq<char>)
    ensures
        plugins::plugin_with(list, id) is None ==> plugins::plugin_fault(list, id) == Some(
            "plugin "@ + id + " is not installed"@,
        ),
        plugins::plugin_with(list, id) matches Some(i) ==> !list[i].installed.enabled
            ==> plugins::plugin_fault(list, id) == Some("plugin "@ + id + " is disabled"@),
        plugins::plugin_with(list, id) matches Some(i) ==> list[i].installed.enabled
            ==> plugins::plugin_fault(list, id) is None,
{
}

/// What a command of extensions says when it is done.
pub proof fn law_done_commands_are_told(command: PluginCommand, id: Seq<char>, version: Seq<char>)
    ensures
        command is Link ==> plugins::report_text(command, id, version) == Some(
            "linked "@ + id + " "@ + version,
        ),
        command is Install ==> plugins::report_text(command, id, version) == Some(
            "installed "@ + id + " "@ + version,
        ),
        command matches PluginCommand::Enable { id: given } ==> plugins::report_text(
            command,
            id,
            version,
        ) == Some("enabled "@ + given@),
        command matches PluginCommand::Disable { id: given } ==> plugins::report_text(
            command,
            id,
            version,
        ) == Some("disabled "@ + given@),
{
}

} // verus!
