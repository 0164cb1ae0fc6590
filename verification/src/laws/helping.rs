//! The help: what it calls the actions, how it groups them, and which keys it shows.

use vstd::prelude::*;

use crate::app;
use crate::config::{self, Action};
use crate::event::KeyEvent;
use crate::help::{self, Binding, BoundAction, Group, RowView};
use crate::overlay::OverlayTarget;
use crate::text;

verus! {

/// A text with blanks for its underscores.
pub open spec fn spaced(s: Seq<char>) -> Seq<char> {
    Seq::new(
        s.len(),
        |k: int|
            if s[k] == '_' {
                ' '
            } else {
                s[k]
            },
    )
}

/// The actions by the names that a configuration gives them.
pub proof fn law_actions_have_names()
    ensures
        config::action_name(Action::SplitRight) == "split_right"@,
        config::action_name(Action::SplitDown) == "split_down"@,
        config::action_name(Action::ClosePane) == "close_pane"@,
        config::action_name(Action::NewTab) == "new_tab"@,
        config::action_name(Action::NextTab) == "next_tab"@,
        config::action_name(Action::PrevTab) == "prev_tab"@,
        config::action_name(Action::Zoom) == "zoom"@,
        config::action_name(Action::Detach) == "detach"@,
        config::action_name(Action::Rename) == "rename"@,
        config::action_name(Action::WorkspaceNext) == "workspace_next"@,
        config::action_name(Action::NewWorkspace) == "new_workspace"@,
        config::action_name(Action::SidebarToggle) == "sidebar_toggle"@,
        config::action_name(Action::FocusUp) == "focus_up"@,
        config::action_name(Action::FocusDown) == "focus_down"@,
        config::action_name(Action::FocusLeft) == "focus_left"@,
        config::action_name(Action::FocusRight) == "focus_right"@,
        config::action_name(Action::ResizeUp) == "resize_up"@,
        config::action_name(Action::ResizeDown) == "resize_down"@,
        config::action_name(Action::ResizeLeft) == "resize_left"@,
        config::action_name(Action::ResizeRight) == "resize_right"@,
        config::action_name(Action::Navigate) == "navigate"@,
        config::action_name(Action::CopyMode) == "copy_mode"@,
        config::action_name(Action::Help) == "help"@,
{
}

/// What the help calls an action is its name in the configuration, with blanks.
pub proof fn law_labels_are_names_with_blanks(action: Action)
    requires
        !(action is PrevTab || action is Zoom || action is Rename || action is WorkspaceNext || action is SidebarToggle),
    ensures
        help::label_text(app::as_bound(action)) == spaced(config::action_name(action)),
{
    match action {
        Action::SplitRight => {
            reveal_strlit("split_right");
            reveal_strlit("split right");
            assert("split right"@ =~= spaced("split_right"@));
        },
        Action::SplitDown => {
            reveal_strlit("split_down");
            reveal_strlit("split down");
            assert("split down"@ =~= spaced("split_down"@));
        },
        Action::ClosePane => {
            reveal_strlit("close_pane");
            reveal_strlit("close pane");
            assert("close pane"@ =~= spaced("close_pane"@));
        },
        Action::NewTab => {
            reveal_strlit("new_tab");
            reveal_strlit("new tab");
            assert("new tab"@ =~= spaced("new_tab"@));
        },
        Action::NextTab => {
            reveal_strlit("next_tab");
            reveal_strlit("next tab");
            assert("next tab"@ =~= spaced("next_tab"@));
        },
        Action::Detach => {
            reveal_strlit("detach");
            assert("detach"@ =~= spaced("detach"@));
        },
        Action::NewWorkspace => {
            reveal_strlit("new_workspace");
            reveal_strlit("new workspace");
            assert("new workspace"@ =~= spaced("new_workspace"@));
        },
        Action::FocusUp => {
            reveal_strlit("focus_up");
            reveal_strlit("focus up");
            assert("focus up"@ =~= spaced("focus_up"@));
        },
        Action::FocusDown => {
            reveal_strlit("focus_down");
            reveal_strlit("focus down");
            assert("focus down"@ =~= spaced("focus_down"@));
        },
        Action::FocusLeft => {
            reveal_strlit("focus_left");
            reveal_strlit("focus left");
            assert("focus left"@ =~= spaced("focus_left"@));
        },
        Action::FocusRight => {
            reveal_strlit("focus_right");
            reveal_strlit("focus right");
            assert("focus right"@ =~= spaced("focus_right"@));
        },
        Action::ResizeUp => {
            reveal_strlit("resize_up");
            reveal_strlit("resize up");
            assert("resize up"@ =~= spaced("resize_up"@));
        },
        Action::ResizeDown => {
            reveal_strlit("resize_down");
            reveal_strlit("resize down");
            assert("resize down"@ =~= spaced("resize_down"@));
        },
        Action::ResizeLeft => {
            reveal_strlit("resize_left");
            reveal_strlit("resize left");
            assert("resize left"@ =~= spaced("resize_left"@));
        },
        Action::ResizeRight => {
            reveal_strlit("resize_right");
            reveal_strlit("resize right");
            assert("resize right"@ =~= spaced("resize_right"@));
        },
        Action::Navigate => {
            reveal_strlit("navigate");
            assert("navigate"@ =~= spaced("navigate"@));
        },
        Action::CopyMode => {
            reveal_strlit("copy_mode");
            reveal_strlit("copy mode");
            assert("copy mode"@ =~= spaced("copy_mode"@));
        },
        Action::Help => {
            reveal_strlit("help");
            assert("help"@ =~= spaced("help"@));
        },
        _ => {},
    }
}

/// The actions that the help calls otherwise, and those that a configuration cannot bind.
pub proof fn law_other_labels(index: u8)
    ensures
        help::label_text(BoundAction::PrevTab) == "previous tab"@,
        help::label_text(BoundAction::Zoom) == "zoom pane"@,
        help::label_text(BoundAction::Rename) == "rename pane"@,
        help::label_text(BoundAction::WorkspaceNext) == "next workspace"@,
        help::label_text(BoundAction::WorkspacePrev) == "previous workspace"@,
        help::label_text(BoundAction::SidebarToggle) == "toggle sidebar"@,
        help::label_text(BoundAction::SwapUp) == "swap up"@,
        help::label_text(BoundAction::SwapDown) == "swap down"@,
        help::label_text(BoundAction::SwapLeft) == "swap left"@,
        help::label_text(BoundAction::SwapRight) == "swap right"@,
        help::label_text(BoundAction::MoveTabLeft) == "move tab left"@,
        help::label_text(BoundAction::MoveTabRight) == "move tab right"@,
        help::label_text(BoundAction::NextPane) == "next pane"@,
        help::label_text(BoundAction::PrevPane) == "previous pane"@,
        help::label_text(BoundAction::LastPane) == "last pane"@,
        help::label_text(BoundAction::CloseTab) == "close tab"@,
        help::label_text(BoundAction::CloseWorkspace) == "close workspace"@,
        help::label_text(BoundAction::RenameTab) == "rename tab"@,
        help::label_text(BoundAction::RenameWorkspace) == "rename workspace"@,
        help::label_text(BoundAction::SelectTabIndex(index)) == "select tab "@ + text::decimal(
            index as nat,
        ),
{
}

/// An action that is about panes, tabs or workspaces stands with its like.
pub proof fn law_actions_are_grouped(index: u8)
    ensures
        help::grouped(BoundAction::SplitRight) == Group::Panes,
        help::grouped(BoundAction::SplitDown) == Group::Panes,
        help::grouped(BoundAction::ClosePane) == Group::Panes,
        help::grouped(BoundAction::Zoom) == Group::Panes,
        help::grouped(BoundAction::Rename) == Group::Panes,
        help::grouped(BoundAction::FocusUp) == Group::Panes,
        help::grouped(BoundAction::FocusDown) == Group::Panes,
        help::grouped(BoundAction::FocusLeft) == Group::Panes,
        help::grouped(BoundAction::FocusRight) == Group::Panes,
        help::grouped(BoundAction::ResizeUp) == Group::Panes,
        help::grouped(BoundAction::ResizeDown) == Group::Panes,
        help::grouped(BoundAction::ResizeLeft) == Group::Panes,
        help::grouped(BoundAction::ResizeRight) == Group::Panes,
        help::grouped(BoundAction::NewTab) == Group::Tabs,
        help::grouped(BoundAction::NextTab) == Group::Tabs,
        help::grouped(BoundAction::PrevTab) == Group::Tabs,
        help::grouped(BoundAction::CloseTab) == Group::Tabs,
        help::grouped(BoundAction::RenameTab) == Group::Tabs,
        help::grouped(BoundAction::SelectTabIndex(index)) == Group::Tabs,
        help::grouped(BoundAction::WorkspaceNext) == Group::Workspaces,
        help::grouped(BoundAction::WorkspacePrev) == Group::Workspaces,
        help::grouped(BoundAction::NewWorkspace) == Group::Workspaces,
        help::grouped(BoundAction::CloseWorkspace) == Group::Workspaces,
        help::grouped(BoundAction::RenameWorkspace) == Group::Workspaces,
        help::grouped(BoundAction::Navigate) == Group::Modes,
        help::grouped(BoundAction::CopyMode) == Group::Modes,
        help::grouped(BoundAction::Help) == Group::Modes,
        help::grouped(BoundAction::Detach) == Group::Other,
        help::grouped(BoundAction::SidebarToggle) == Group::Other,
        Group::Panes.heading() == "panes"@,
        Group::Tabs.heading() == "tabs"@,
        Group::Workspaces.heading() == "workspaces"@,
        Group::Modes.heading() == "modes"@,
        Group::Other.heading() == "other"@,
        Group::Panes.capitals() == "PANES"@,
        Group::Tabs.capitals() == "TABS"@,
        Group::Workspaces.capitals() == "WORKSPACES"@,
        Group::Modes.capitals() == "MODES"@,
        Group::Other.capitals() == "OTHER"@,
{
}

/// A group of the help holds the rows of its own actions, all of them, in the order in
/// which they are bound.
pub proof fn law_groups_hold_their_actions(bindings: Seq<Binding>, group: Group, count: int) -> (at:
    Seq<int>)
    requires
        0 <= count <= bindings.len(),
    ensures
        ({
            let rows = help::rows_in(bindings, group, count);
            &&& at.len() == rows.len()
            &&& forall|k: int|
                0 <= k < at.len() ==> 0 <= #[trigger] at[k] < count && help::grouped(
                    bindings[at[k]].action,
                ) == group && rows[k].action == bindings[at[k]].name@ && rows[k].label
                    == help::label_text(bindings[at[k]].action) && rows[k].chords == text::texts(
                    bindings[at[k]].chords@,
                )
            &&& forall|i: int, j: int| 0 <= i < j < at.len() ==> #[trigger] at[i] < #[trigger] at[j]
            &&& forall|b: int|
                0 <= b < count && help::grouped((#[trigger] bindings[b]).action) == group
                    ==> at.contains(b)
        }),
    decreases count,
{
    if count <= 0 {
        Seq::empty()
    } else {
        let before = law_groups_hold_their_actions(bindings, group, count - 1);
        if help::grouped(bindings[count - 1].action) == group {
            let at = before.push(count - 1);
            assert forall|b: int|
                0 <= b < count && help::grouped((#[trigger] bindings[b]).action)
                    == group implies at.contains(b) by {
                if b < count - 1 {
                    assert(at[before.index_of(b)] == b);
                } else {
                    assert(at[at.len() - 1] == b);
                }
            }
            at
        } else {
            before
        }
    }
}

/// A chord works everywhere when it holds control or alt and does not ask for the prefix;
/// the help says so of it, and of no other.
pub proof fn law_global_chords_say_so(chord: Seq<char>)
    ensures
        "prefix+"@.is_prefix_of(chord) ==> help::shown_chord(chord) == chord,
        help::global(chord) ==> help::shown_chord(chord) == chord + " (global)"@,
        !help::global(chord) ==> help::shown_chord(chord) == chord,
        !"prefix+"@.is_prefix_of(chord) && "ctrl+"@.is_prefix_of(chord) ==> help::global(chord),
        !"prefix+"@.is_prefix_of(chord) && "alt+"@.is_prefix_of(chord) ==> help::global(chord),
{
    if "ctrl+"@.is_prefix_of(chord) {
        assert(text::occurs_at(chord, "ctrl+"@, 0));
    }
    if "alt+"@.is_prefix_of(chord) {
        assert(text::occurs_at(chord, "alt+"@, 0));
    }
}

/// A filter keeps the rows in which it occurs, all of them, in order.
pub proof fn law_filters_keep_what_they_occur_in(
    entries: Seq<(Seq<char>, (Seq<char>, Seq<char>, OverlayTarget))>,
    needle: Seq<char>,
    count: int,
) -> (at: Seq<int>)
    requires
        0 <= count <= entries.len(),
    ensures
        ({
            let kept = help::kept(entries, needle, count);
            &&& at.len() == kept.len()
            &&& forall|k: int|
                0 <= k < at.len() ==> 0 <= #[trigger] at[k] < count && kept[k] == entries[at[k]].1
                    && text::has_part(entries[at[k]].0, needle)
            &&& forall|i: int, j: int| 0 <= i < j < at.len() ==> #[trigger] at[i] < #[trigger] at[j]
            &&& forall|e: int|
                0 <= e < count && text::has_part((#[trigger] entries[e]).0, needle) ==> at.contains(
                    e,
                )
        }),
    decreases count,
{
    if count <= 0 {
        Seq::empty()
    } else {
        let before = law_filters_keep_what_they_occur_in(entries, needle, count - 1);
        if text::has_part(entries[count - 1].0, needle) {
            let at = before.push(count - 1);
            assert forall|e: int|
                0 <= e < count && text::has_part(
                    (#[trigger] entries[e]).0,
                    needle,
                ) implies at.contains(e) by {
                if e < count - 1 {
                    assert(at[before.index_of(e)] == e);
                } else {
                    assert(at[at.len() - 1] == e);
                }
            }
            at
        } else {
            before
        }
    }
}

/// A chord is shown bare: without the prefix, however often it was written.
pub proof fn law_bare_chords_have_no_prefix(chord: Seq<char>)
    ensures
        !"prefix+"@.is_prefix_of(help::bare(chord)),
        help::bare(chord).is_suffix_of(chord),
        !"prefix+"@.is_prefix_of(chord) ==> help::bare(chord) == chord,
        help::bare("prefix+"@ + chord) == help::bare(chord),
    decreases chord.len(),
{
    reveal_strlit("prefix+");
    let more = "prefix+"@ + chord;
    assert(more.subrange(0, 7) =~= "prefix+"@);
    assert(more.skip(7) =~= chord);
    if "prefix+"@.is_prefix_of(chord) {
        let rest = chord.skip(7);
        law_bare_chords_have_no_prefix(rest);
        let b = help::bare(rest);
        assert(b =~= rest.subrange(rest.len() - b.len(), rest.len() as int));
        assert(b =~= chord.subrange(chord.len() - b.len(), chord.len() as int));
    } else {
        assert(chord =~= chord.subrange(0, chord.len() as int));
    }
}

/// The hint names at most a dozen keys.
pub proof fn law_hints_are_short(bindings: Seq<Binding>)
    ensures
        help::hint(bindings).len() <= 12,
        help::hint(bindings).is_prefix_of(help::hint_chords(bindings, 13)),
{
}

/// The key that is shown for an action is the first of its binding.
pub proof fn law_the_first_key_is_shown(bindings: Seq<Binding>, action: BoundAction, from: int)
    requires
        0 <= from,
    ensures
        help::chord_from(bindings, action, from) matches Some(chord) ==> exists|b: int|
            from <= b < bindings.len() && (#[trigger] bindings[b]).action == action
                && bindings[b].chords@.len() > 0 && bindings[b].chords@[0]@ == chord && (forall|
                j: int,
            |
                from <= j < b ==> (#[trigger] bindings[j]).action != action),
        (forall|b: int| from <= b < bindings.len() ==> (#[trigger] bindings[b]).action != action)
            ==> help::chord_from(bindings, action, from) is None,
    decreases bindings.len() - from,
{
    if from < bindings.len() {
        if bindings[from].action == action {
            assert(bindings[from].action == action);
        } else {
            law_the_first_key_is_shown(bindings, action, from + 1);
            if let Some(chord) = help::chord_from(bindings, action, from) {
                let b = choose|b: int|
                    from + 1 <= b < bindings.len() && (#[trigger] bindings[b]).action == action
                        && bindings[b].chords@.len() > 0 && bindings[b].chords@[0]@ == chord && (
                    forall|j: int| from + 1 <= j < b ==> (#[trigger] bindings[j]).action != action);
                assert(bindings[b].action == action);
            }
        }
    }
}

/// The labels are padded to the widest of them.
pub proof fn law_labels_are_padded_to_the_widest(rows: Seq<RowView>, count: int, r: int)
    requires
        0 <= r < count <= rows.len(),
    ensures
        rows[r].label.len() <= help::widest(rows, count),
        exists|k: int|
            0 <= k < count && (#[trigger] rows[k]).label.len() == help::widest(rows, count),
    decreases count,
{
    if count > 1 {
        let other = if r < count - 1 {
            r
        } else {
            0
        };
        law_labels_are_padded_to_the_widest(rows, count - 1, other);
        let k = choose|k: int|
            0 <= k < count - 1 && (#[trigger] rows[k]).label.len() == help::widest(rows, count - 1);
        assert(rows[k].label.len() == help::widest(rows, count - 1));
        assert(rows[count - 1].label.len() >= 0);
    } else {
        assert(help::widest(rows, 0) == 0);
        assert(rows[0].label.len() == help::widest(rows, count));
    }
}

/// The chords of an action are those of the keys that are bound to it, all of them.
pub proof fn law_chords_are_those_of_the_bound_keys(
    bindings: Seq<(KeyEvent, Action)>,
    after: bool,
    action: Action,
    count: int,
    b: int,
)
    requires
        0 <= b < count <= bindings.len(),
    ensures
        bindings[b].1 == action ==> help::chords_of(bindings, after, action, count).contains(
            if after {
                help::prefixed_text(bindings[b].0)
            } else {
                help::chord_text(bindings[b].0)
            },
        ),
        forall|k: int|
            0 <= k < help::chords_of(bindings, after, action, count).len() ==> exists|j: int|
                0 <= j < count && (#[trigger] bindings[j]).1 == action && #[trigger] help::chords_of(
                    bindings,
                    after,
                    action,
                    count,
                )[k] == (if after {
                    help::prefixed_text(bindings[j].0)
                } else {
                    help::chord_text(bindings[j].0)
                }),
    decreases count,
{
    let now = help::chords_of(bindings, after, action, count);
    let before = help::chords_of(bindings, after, action, count - 1);
    let said = |j: int|
        if after {
            help::prefixed_text(bindings[j].0)
        } else {
            help::chord_text(bindings[j].0)
        };
    if count > 1 {
        law_chords_are_those_of_the_bound_keys(
            bindings,
            after,
            action,
            count - 1,
            if b < count - 1 {
                b
            } else {
                0
            },
        );
    } else {
        assert(before.len() == 0);
    }
    if bindings[b].1 == action {
        if b < count - 1 {
            assert(now[before.index_of(said(b))] == said(b));
        } else {
            assert(now[now.len() - 1] == said(b));
        }
    }
    assert forall|k: int| 0 <= k < now.len() implies exists|j: int|
        0 <= j < count && (#[trigger] bindings[j]).1 == action && #[trigger] now[k] == (if after {
            help::prefixed_text(bindings[j].0)
        } else {
            help::chord_text(bindings[j].0)
        }) by {
        if k < before.len() {
            assert(now[k] == before[k]);
            let j = choose|j: int|
                0 <= j < count - 1 && (#[trigger] bindings[j]).1 == action && before[k] == (
                if after {
                    help::prefixed_text(bindings[j].0)
                } else {
                    help::chord_text(bindings[j].0)
                });
            assert(bindings[j].1 == action);
        } else {
            assert(bindings[count - 1].1 == action);
        }
    }
}

/// An action works everywhere when one of its keys does.
pub proof fn law_actions_with_a_global_key(binding: Binding)
    ensures
        help::row_of(binding).global <==> exists|k: int|
            0 <= k < binding.chords@.len() && help::global((#[trigger] binding.chords@[k])@),
{
    let chords = text::texts(binding.chords@);
    if help::row_of(binding).global {
        let k = choose|k: int| 0 <= k < chords.len() && help::global(#[trigger] chords[k]);
        assert(help::global(binding.chords@[k]@));
    }
    if exists|k: int|
        0 <= k < binding.chords@.len() && help::global((#[trigger] binding.chords@[k])@) {
        let k = choose|k: int|
            0 <= k < binding.chords@.len() && help::global((#[trigger] binding.chords@[k])@);
        assert(help::global(chords[k]));
    }
}

/// The labels of all groups are padded to the widest of all.
pub proof fn law_groups_are_padded_alike(table: Seq<(Group, Seq<RowView>)>, count: int)
    requires
        0 <= count <= table.len(),
    ensures
        help::label_width(table, count) == 0 || exists|g: int, r: int|
            0 <= g < count && 0 <= r < table[g].1.len() && (#[trigger] table[g].1[r]).label.len()
                == help::label_width(table, count),
    decreases count,
{
    if count > 0 {
        law_groups_are_padded_alike(table, count - 1);
        let before = help::label_width(table, count - 1);
        let rows = table[count - 1].1;
        if rows.len() > 0 {
            law_labels_are_padded_to_the_widest(rows, rows.len() as int, 0);
            let r = choose|r: int|
                0 <= r < rows.len() && (#[trigger] rows[r]).label.len() == help::widest(
                    rows,
                    rows.len() as int,
                );
            assert(table[count - 1].1[r].label.len() == help::widest(rows, rows.len() as int));
        }
        if before > 0 {
            let (g, r) = choose|g: int, r: int|
                0 <= g < count - 1 && 0 <= r < table[g].1.len() && (
                #[trigger] table[g].1[r]).label.len() == before;
            assert(table[g].1[r].label.len() == before);
        }
    }
}

/// A line of the key table has the label, padded, and the keys.
pub proof fn law_key_lines(row: RowView, width: int, rows: Seq<RowView>, count: int)
    requires
        0 < count <= rows.len(),
    ensures
        help::key_line(row, width) == seq![' ', ' '] + text::padded_to(row.label, width) + seq![
            ' ',
            ' ',
        ] + help::shown_chords(row.chords) + seq!['\n'],
        help::key_lines(rows, width, count) == help::key_lines(rows, width, count - 1)
            + help::key_line(rows[count - 1], width),
        help::table_line(row) == "| `"@ + row.action + "` | "@ + help::quoted_chords(row.chords)
            + " |\n"@,
{
    reveal_strlit("  ");
    reveal_strlit("\n");
    assert("  "@ =~= seq![' ', ' ']);
    assert("\n"@ =~= seq!['\n']);
}

} // verus!
