//! What lists hold: the palette, the pickers, the key tables and the rows on the screen.

use vstd::prelude::*;

use crate::cli::{self, AgentCommand};
use crate::clipboard::{self, Platform};
use crate::commands::OutputMatcher;
use crate::config::{self, Action};
use crate::dispatch::{self, Next, Request, TargetWork, Then};
use crate::doctor;
use crate::endpoints::{self, Endpoint, EndpointId};
use crate::geometry::Rect;
use crate::graphics::{self, PlacementView};
use crate::help::{self, Binding, Group, RowView};
use crate::integrations;
use crate::machines::MachineProfile;
use crate::manifest::{InvocationContext, PluginAction};
use crate::mode::{self, Menu};
use crate::palette::{self, TargetView};
use crate::picker;
use crate::plugins::{self, LoadedPlugin, ReadPlugin};
use crate::proto::{
    AgentStateKind, ClientMessage, ImageData, ImagePlacement, PaneId, QueryKind, Run, TabInfo,
    WorkspaceInfo,
};
use crate::remote_prepare::{self, Release};
use crate::render::{self, SidebarTarget, StatusWidget, Style};
use crate::selection::Selection;
use crate::text;
use crate::theme::{self, Theme, ThemeFile};

verus! {

// ------------------------------------------------------------------------------- palette

/// The palette offers every agent, a shell, every action of an extension that can run here,
/// and every action that can be bound.
pub proof fn law_the_palette_offers_everything(
    agents: Seq<(Seq<char>, Seq<char>)>,
    loaded: Vec<LoadedPlugin>,
    context: InvocationContext,
    bindings: Seq<Binding>,
    a: int,
    p: int,
    k: int,
    b: int,
)
    requires
        0 <= a < agents.len(),
        0 <= p < loaded@.len(),
        0 <= k < loaded@[p].manifest.actions@.len(),
        loaded@[p].installed.enabled,
        context.has_scopes(loaded@[p].manifest.actions@[k].contexts@),
        0 <= b < bindings.len(),
    ensures
        ({
            let items = palette::all_items(agents, Ok(loaded), context, bindings);
            &&& exists|i: int|
                0 <= i < items.len() && (#[trigger] items[i]).target == (TargetView::Agent {
                    name: agents[a].0,
                    command: seq![agents[a].1],
                }) && items[i].label == "agent · "@ + agents[a].0
            &&& exists|i: int| 0 <= i < items.len() && (#[trigger] items[i]).target is Shell
            &&& exists|i: int|
                0 <= i < items.len() && (#[trigger] items[i]).target == (TargetView::PluginAction {
                    plugin: loaded@[p].manifest.id@,
                    directory: loaded@[p].installed.path@,
                    action: loaded@[p].manifest.actions@[k].id@,
                    command: loaded@[p].manifest.actions@[k].command@,
                    pane: loaded@[p].manifest.actions@[k].pane,
                })
            &&& exists|i: int|
                0 <= i < items.len() && (#[trigger] items[i]).target == TargetView::Action(
                    bindings[b].action,
                )
        }),
{
    let items = palette::all_items(agents, Ok(loaded), context, bindings);
    let of_plugins = palette::plugin_items(loaded@, context);
    plugins::law_actions_keep_to_their_contexts(loaded@, context, p, k);
    let available = plugins::available(loaded@, context);
    let at = available.index_of((p, k));
    assert(items[a] == palette::agent_item(agents[a]));
    assert(items[agents.len() as int] == palette::shell_item());
    assert(of_plugins[at] == palette::plugin_item(
        loaded@[p].manifest.id@,
        loaded@[p].installed.path@,
        loaded@[p].manifest.actions@[k],
    ));
    assert(items[agents.len() + 1 + at] == of_plugins[at]);
    assert(items[agents.len() + 1 + of_plugins.len() + b] == palette::action_item(bindings[b]));
}

/// An entry for an action shows its name with blanks, and the first of its keys.
pub proof fn law_actions_show_their_first_key(binding: Binding)
    ensures
        binding.chords@.len() > 0 ==> palette::action_item(binding).hint == binding.chords@[0]@,
        binding.chords@.len() == 0 ==> palette::action_item(binding).hint.len() == 0,
        palette::action_item(binding).label == "action · "@ + text::replace_char(
            binding.name@,
            '_',
            seq![' '],
        ),
{
    reveal_strlit(" ");
    assert(" "@ =~= seq![' ']);
}

/// A workspace's entry in a picker leads to it, and tells how many tabs it has and where it
/// is, if that is not its name.
pub proof fn law_workspaces_have_entries(workspace: WorkspaceInfo)
    ensures
        ({
            let entry = picker::workspace_entry(workspace);
            let count = text::decimal(workspace.tabs@.len());
            let base = match workspace.root {
                Some(root) => text::base_name(root@),
                None => None,
            };
            let tabs = if workspace.tabs@.len() == 1 {
                " tab"@
            } else {
                " tabs"@
            };
            &&& entry.0 == workspace.name@
            &&& entry.2 == workspace.state
            &&& entry.3 == picker::PickTarget::Workspace(workspace.id)
            &&& base is None || base == Some(workspace.name@) ==> entry.1 == count + tabs
            &&& base is Some && base != Some(workspace.name@) ==> entry.1 == count + tabs + " · "@
                + base->0
        }),
{
    reveal_strlit(" ");
    reveal_strlit("tab");
    reveal_strlit("tabs");
    reveal_strlit(" tab");
    reveal_strlit(" tabs");
    assert(" "@ + "tab"@ =~= " tab"@);
    assert(" "@ + "tabs"@ =~= " tabs"@);
    let count = text::decimal(workspace.tabs@.len());
    assert(count + " "@ + "tab"@ =~= count + " tab"@);
    assert(count + " "@ + "tabs"@ =~= count + " tabs"@);
}

// ---------------------------------------------------------------------------- key tables

/// The key table has its groups in order, each with its own rows.
pub proof fn law_the_table_is_grouped(bindings: Seq<Binding>, g: int)
    requires
        0 <= g < 5,
    ensures
        help::table_of(bindings).len() == 5,
        help::table_of(bindings)[0].0 == Group::Panes,
        help::table_of(bindings)[1].0 == Group::Tabs,
        help::table_of(bindings)[2].0 == Group::Workspaces,
        help::table_of(bindings)[3].0 == Group::Modes,
        help::table_of(bindings)[4].0 == Group::Other,
        help::table_of(bindings)[g].1 == help::rows_in(
            bindings,
            help::table_of(bindings)[g].0,
            bindings.len() as int,
        ),
{
}

/// Every row of the table is shown in the help under the heading of its group, can be
/// searched for, and is in the list of keys.
pub proof fn law_every_row_is_shown(
    table: Seq<(Group, Seq<RowView>)>,
    count: int,
    g: int,
    r: int,
)
    requires
        0 <= g < count <= table.len(),
        0 <= r < table[g].1.len(),
    ensures
        help::full_rows(table, count).contains(help::action_row(table[g].1[r])),
        help::full_rows(table, count).contains(help::heading_row(table[g].0)),
        help::entry_rows(table, count).contains(
            (help::search_key(table[g].1[r]), help::action_row(table[g].1[r])),
        ),
        help::flat(table, count).contains((table[g].0, table[g].1[r])),
        table[g].1[r].label.len() <= help::label_width(table, count),
    decreases count,
{
    let (group, rows) = table[count - 1];
    let full = help::full_rows(table, count);
    let full_before = help::full_rows(table, count - 1);
    let entries = help::entry_rows(table, count);
    let entries_before = help::entry_rows(table, count - 1);
    let flat = help::flat(table, count);
    let flat_before = help::flat(table, count - 1);
    let row = table[g].1[r];
    if g < count - 1 {
        law_every_row_is_shown(table, count - 1, g, r);
        let x = help::action_row(row);
        assert(full[full_before.index_of(x)] == x);
        let h = help::heading_row(table[g].0);
        assert(full[full_before.index_of(h)] == h);
        let e = (help::search_key(row), help::action_row(row));
        assert(entries[entries_before.index_of(e)] == e);
        let f = (table[g].0, row);
        assert(flat[flat_before.index_of(f)] == f);
    } else {
        crate::laws::helping::law_labels_are_padded_to_the_widest(rows, rows.len() as int, r);
        assert(full[full_before.len() as int] == help::heading_row(group));
        assert(help::action_rows(rows)[r] == help::action_row(row));
        assert(full[full_before.len() + 1 + r] == help::action_row(row));
        assert(help::search_rows(rows)[r] == (help::search_key(row), help::action_row(row)));
        assert(entries[entries_before.len() + r] == help::search_rows(rows)[r]);
        assert(flat[flat_before.len() + r] == (group, row));
    }
}

/// A row shows what the action is called and its keys; an action without a key says so.
pub proof fn law_rows_show_their_keys(row: RowView, chord: Seq<char>)
    ensures
        help::action_row(row).0 == seq![' '] + row.label,
        help::action_row(row).1 == help::shown_chords(row.chords) + seq![' '],
        help::shown_chords(Seq::empty()) == "unbound"@,
        help::shown_chords(seq![chord]) == help::shown_chord(chord),
        row.chords.len() > 0 ==> help::shown_chords(row.chords.push(chord)) == help::shown_chords(
            row.chords,
        ) + ", "@ + help::shown_chord(chord),
        help::quoted_chords(Seq::empty()) == "unbound"@,
        help::quoted_chords(seq![chord]) == seq!['`'] + chord + seq!['`'],
        help::search_key(row) == text::lowercase(
            row.action + seq![' '] + row.label + seq![' '] + help::shown_chords(row.chords),
        ),
{
    reveal_strlit(" ");
    reveal_strlit("`");
    assert(" "@ =~= seq![' ']);
    assert("`"@ =~= seq!['`']);
    let shown = |c: Seq<char>| help::shown_chord(c);
    assert(seq![chord].map_values(shown) =~= seq![help::shown_chord(chord)]);
    let more = row.chords.push(chord);
    assert(more.map_values(shown).drop_last() =~= row.chords.map_values(shown));
    assert(more.map_values(shown).last() == help::shown_chord(chord));
    let quoted = |c: Seq<char>| "`"@ + c + "`"@;
    assert(seq![chord].map_values(quoted) =~= seq!["`"@ + chord + "`"@]);
}

/// Only the line ends at the end of a text are taken off.
pub proof fn law_line_ends_are_taken_off(s: Seq<char>)
    ensures
        help::unended(s).is_prefix_of(s),
        help::unended(s).len() > 0 ==> help::unended(s).last() != '\n',
        forall|i: int| help::unended(s).len() <= i < s.len() ==> #[trigger] s[i] == '\n',
    decreases s.len(),
{
    if s.len() > 0 && s.last() == '\n' {
        let front = s.drop_last();
        law_line_ends_are_taken_off(front);
        let left = help::unended(front);
        assert(left =~= front.subrange(0, left.len() as int));
        assert(left =~= s.subrange(0, left.len() as int));
        assert forall|i: int| left.len() <= i < s.len() implies #[trigger] s[i] == '\n' by {
            if i < front.len() {
                assert(front[i] == s[i]);
            }
        }
    } else {
        assert(s =~= s.subrange(0, s.len() as int));
    }
}

/// Every action is listed, once.
pub proof fn law_every_action_is_listed(action: Action)
    ensures
        Action::listed().contains(action),
        Action::listed().len() == 23,
        config::default_keys().globals.len() == 0,
        config::default_keys().warnings.len() == 0,
{
    let all = Action::listed();
    match action {
        Action::SplitRight => assert(all[0] == action),
        Action::SplitDown => assert(all[1] == action),
        Action::ClosePane => assert(all[2] == action),
        Action::NewTab => assert(all[3] == action),
        Action::NextTab => assert(all[4] == action),
        Action::PrevTab => assert(all[5] == action),
        Action::Zoom => assert(all[6] == action),
        Action::Detach => assert(all[7] == action),
        Action::Rename => assert(all[8] == action),
        Action::WorkspaceNext => assert(all[9] == action),
        Action::NewWorkspace => assert(all[10] == action),
        Action::SidebarToggle => assert(all[11] == action),
        Action::FocusUp => assert(all[12] == action),
        Action::FocusDown => assert(all[13] == action),
        Action::FocusLeft => assert(all[14] == action),
        Action::FocusRight => assert(all[15] == action),
        Action::ResizeUp => assert(all[16] == action),
        Action::ResizeDown => assert(all[17] == action),
        Action::ResizeLeft => assert(all[18] == action),
        Action::ResizeRight => assert(all[19] == action),
        Action::Navigate => assert(all[20] == action),
        Action::CopyMode => assert(all[21] == action),
        Action::Help => assert(all[22] == action),
    }
}

// ---------------------------------------------------------------------------------- rows

/// The sidebar shows as many rows as there is room for below its heading.
pub proof fn law_rows_are_shown_as_far_as_they_fit(count: int, area: Rect, menu: Menu, height: int)
    requires
        area.fits(),
        0 <= count,
    ensures
        ({
            let shown = render::rows_shown(count, area);
            &&& 0 <= shown <= count
            &&& shown < count ==> area.height == 0 && shown == 0 || shown + 1 == area.height
            &&& area.height > 0 ==> shown + 1 <= area.height || shown == 0
        }),
        ({
            let all = mode::menu_actions(menu.target).len();
            let shown = render::entries_shown(menu, height);
            &&& 0 <= shown <= all
            &&& shown > 0 ==> menu.y + shown <= height
            &&& shown < all && menu.y <= height ==> menu.y + shown == height
        }),
{
}

/// A row of the sidebar stands in its line below the heading, cut to the width; the one that
/// is walked to stands out, and every other has the color of its state.
pub proof fn law_sidebar_rows_are_drawn(
    row: (SidebarTarget, Seq<char>, AgentStateKind),
    index: int,
    area: Rect,
    navigate: Option<usize>,
    theme: Theme,
)
    ensures
        ({
            let ((said, style), line) = render::sidebar_line(row, index, area, navigate, theme);
            let walked = navigate matches Some(at) && at == index;
            &&& line == area.y + 1 + index
            &&& said == render::ellipsized(
                row.1 + seq![' '] + render::row_mark(row.2),
                area.width as int,
            )
            &&& walked ==> style.bg == Some(theme.accent) && style.fg == Some(theme.sidebar_bg)
            &&& !walked ==> style.bg == Some(theme.sidebar_bg) && style.fg == Some(
                render::tint(theme, row.2),
            )
        }),
{
    reveal_strlit(" ");
    assert(" "@ =~= seq![' ']);
}

/// The labels of the tabs are drawn in order with a blank between two.
pub proof fn law_tab_labels_are_in_order(tabs: Seq<TabInfo>, theme: Theme, count: int, t: int)
    requires
        0 <= t < count <= tabs.len(),
    ensures
        ({
            let labels = render::tab_labels(tabs, theme, count);
            &&& labels.len() == 2 * count - 1
            &&& labels[2 * t] == (
                render::tab_text(tabs[t].name@, tabs[t].active, tabs[t].state),
                render::tab_style(tabs[t], theme),
            )
            &&& t > 0 ==> labels[2 * t - 1].0 == seq![' ']
        }),
    decreases count,
{
    reveal_strlit(" ");
    assert(" "@ =~= seq![' ']);
    if count > 1 {
        law_tab_labels_are_in_order(
            tabs,
            theme,
            count - 1,
            if t < count - 1 {
                t
            } else {
                0
            },
        );
    } else {
        assert(render::tab_labels(tabs, theme, 0).len() == 0);
    }
}

/// The text of a run of cells.
pub open spec fn spelled(pieces: Seq<(Seq<char>, Style)>) -> Seq<char>
    decreases pieces.len(),
{
    if pieces.len() == 0 {
        Seq::empty()
    } else {
        spelled(pieces.drop_last()) + pieces.last().0
    }
}

/// The text of the runs of a row.
pub open spec fn row_text(runs: Seq<Run>, count: int) -> Seq<char>
    decreases count,
{
    if count <= 0 {
        Seq::empty()
    } else {
        row_text(runs, count - 1) + runs[count - 1].text@
    }
}

proof fn lemma_spelled_more(a: Seq<(Seq<char>, Style)>, b: Seq<(Seq<char>, Style)>)
    ensures
        spelled(a + b) == spelled(a) + spelled(b),
    decreases b.len(),
{
    if b.len() > 0 {
        assert((a + b).drop_last() =~= a + b.drop_last());
        lemma_spelled_more(a, b.drop_last());
        assert(spelled(a + b) =~= spelled(a) + spelled(b));
    } else {
        assert(a + b =~= a);
        assert(spelled(a + b) =~= spelled(a) + spelled(b));
    }
}

proof fn lemma_drawn_spelled(
    s: Seq<char>,
    selection: Selection,
    row: int,
    column: int,
    style: Style,
    theme: Theme,
)
    ensures
        spelled(render::drawn(render::stretches(s, selection, row, column), style, theme)) == s,
    decreases s.len(),
{
    let pieces = render::stretches(s, selection, row, column);
    let all = render::drawn(pieces, style, theme);
    if s.len() > 0 {
        let front = s.drop_last();
        lemma_drawn_spelled(front, selection, row, column, style, theme);
        let before = render::stretches(front, selection, row, column);
        let now = render::selected_cell(selection, row, column + s.len() - 1);
        let shown = render::drawn(before, style, theme);
        if before.len() > 0 && before.last().1 == now {
            assert(all.drop_last() =~= shown.drop_last());
            assert(all.last().0 =~= shown.last().0.push(s.last()));
            assert(spelled(all) =~= spelled(shown).push(s.last()));
        } else {
            assert(all.drop_last() =~= shown);
            assert(all.last().0 =~= seq![s.last()]);
            assert(spelled(all) =~= spelled(shown).push(s.last()));
        }
        assert(front.push(s.last()) =~= s);
    } else {
        assert(all.len() == 0);
        assert(spelled(all) =~= s);
    }
}

/// A row of the screen spells what its runs say, selected or not.
pub proof fn law_rows_spell_their_runs(
    runs: Seq<Run>,
    theme: Theme,
    row: int,
    selection: Option<Selection>,
    count: int,
)
    requires
        0 <= count <= runs.len(),
    ensures
        spelled(render::row_pieces(runs, theme, row, selection, count)) == row_text(runs, count),
        row_text(runs, count).len() <= usize::MAX ==> render::columns_before(runs, count)
            == row_text(runs, count).len(),
    decreases count,
{
    if count > 0 {
        law_rows_spell_their_runs(runs, theme, row, selection, count - 1);
        let before = render::row_pieces(runs, theme, row, selection, count - 1);
        let column = render::columns_before(runs, count - 1);
        let one = render::run_pieces(runs[count - 1], theme, row, column, selection);
        lemma_spelled_more(before, one);
        let style = render::run_style(runs[count - 1], theme);
        match selection {
            None => {
                assert(one.drop_last() =~= Seq::empty());
                assert(spelled(one.drop_last()) =~= Seq::empty());
                assert(spelled(one) =~= runs[count - 1].text@);
            },
            Some(selection) => {
                lemma_drawn_spelled(
                    runs[count - 1].text@,
                    selection,
                    row,
                    column,
                    style,
                    theme,
                );
            },
        }
    }
}

/// The parts of the status line stand in the order that is configured, with two blanks
/// between two that show something.
pub proof fn law_status_parts_are_in_order(
    widgets: Seq<StatusWidget>,
    zoomed: bool,
    blocked: u64,
    host: Seq<char>,
    time: Seq<char>,
    theme: Theme,
    count: int,
)
    requires
        0 < count <= widgets.len(),
    ensures
        ({
            let before = render::widget_pieces(
                widgets,
                zoomed,
                blocked,
                host,
                time,
                theme,
                count - 1,
            );
            let after = render::widget_pieces(widgets, zoomed, blocked, host, time, theme, count);
            match render::widget_piece(widgets[count - 1], zoomed, blocked, host, time, theme) {
                Some(piece) => after.last() == piece && before.is_prefix_of(after) && (before.len()
                    > 0 ==> after.len() == before.len() + 2 && after[before.len() as int].0 == seq![
                    ' ',
                    ' ',
                ]) && (before.len() == 0 ==> after.len() == 1),
                None => after == before,
            }
        }),
{
    reveal_strlit("  ");
    assert("  "@ =~= seq![' ', ' ']);
}

// ----------------------------------------------------------------------------- pictures

/// A picture on the screen of a pane is put there under a name that tells it apart: whose it
/// is, in which pane, which picture and which version.
pub proof fn law_pictures_are_told_apart(
    socket: Seq<char>,
    pane: PaneId,
    images: Seq<ImagePlacement>,
    inner: Rect,
    count: int,
    i: int,
)
    requires
        0 <= i < count <= images.len(),
    ensures
        graphics::clipped(images[i], inner) matches Some((part, area))
            ==> graphics::pane_placements(socket, pane, images, inner, count).contains(
            (PlacementView {
                key: graphics::KeyView {
                    socket,
                    pane,
                    image: images[i].image,
                    revision: images[i].revision,
                },
                source: part,
                area,
            }),
        ),
    decreases count,
{
    if let Some((part, area)) = graphics::clipped(images[i], inner) {
        let before = graphics::pane_placements(socket, pane, images, inner, count - 1);
        let after = graphics::pane_placements(socket, pane, images, inner, count);
        let put = PlacementView {
            key: graphics::KeyView {
                socket,
                pane,
                image: images[i].image,
                revision: images[i].revision,
            },
            source: part,
            area,
        };
        if i < count - 1 {
            law_pictures_are_told_apart(socket, pane, images, inner, count - 1, i);
            assert(after[before.index_of(put)] == put);
        } else {
            assert(after[after.len() - 1] == put);
        }
    }
}

/// A picture is refused that is empty, larger than a side of sixteen thousand pixels, or
/// longer than its limit can be when written out.
pub proof fn law_pictures_are_limited(image: ImageData, limit: int)
    ensures
        graphics::plausible(image, limit) <==> 1 <= image.width <= 16384 && 1 <= image.height
            <= 16384 && vstd::utf8::encode_utf8(image.data@).len() <= limit * 4 / 3 + 4,
{
}

// ------------------------------------------------------------------------------- requests

/// A command of an agent is about the agent that is named.
pub proof fn law_agent_commands_name_their_agent(
    target: String,
    text: String,
    wait: bool,
    until: Option<AgentStateKind>,
    timeout: Option<u64>,
    json: bool,
    keys: Vec<String>,
    literal: bool,
)
    ensures
        dispatch::agent_start(
            AgentCommand::Prompt { target, text, wait, until, timeout, json },
        ) == (Next::Target {
            target,
            work: TargetWork::Prompt { text, wait, until, timeout, json },
        }),
        dispatch::agent_start(AgentCommand::SendKeys { target, literal, keys }) == (Next::Target {
            target,
            work: TargetWork::SendKeys { literal, keys },
        }),
        dispatch::agent_start(AgentCommand::Focus { target, json }) == (Next::Target {
            target,
            work: TargetWork::Focus { json },
        }),
        dispatch::agent_start(AgentCommand::Attach { target }) == (Next::Target {
            target,
            work: TargetWork::Attach,
        }),
        dispatch::agent_start(AgentCommand::Rename { target, name: text }) == (Next::Target {
            target,
            work: TargetWork::Rename { name: text },
        }),
        dispatch::agent_start(AgentCommand::Explain { target, json }) == (Next::Target {
            target,
            work: TargetWork::Explain { json },
        }),
        dispatch::agent_start(AgentCommand::Manifests { reload: true, json }) == (Next::Ask {
            request: Request::Message(ClientMessage::ReloadManifests),
            then: Then::Manifests { json },
        }),
        dispatch::agent_start(AgentCommand::Manifests { reload: false, json }) == (Next::Ask {
            request: Request::Message(ClientMessage::Query(QueryKind::Manifests)),
            then: Then::Manifests { json },
        }),
{
}

/// A conversation is reported when the agent says who it is and which conversation it is in.
pub proof fn law_conversations_are_reported(
    source: String,
    agent: Option<String>,
    id: Option<String>,
    path: Option<String>,
)
    ensures
        match dispatch::native_of(source, agent, id, path) {
            Some(session) => session.source == source && agent == Some(session.agent) && session.id
                == id && session.path == path && (id is Some || path is Some),
            None => agent is None || (id is None && path is None),
        },
{
}

/// Output is waited for as it is written.
pub proof fn law_output_is_waited_for(needle: String, before: Seq<char>, after: Seq<char>)
    ensures
        OutputMatcher::Literal(needle).accepts(before + needle@ + after),
{
    let s = before + needle@ + after;
    assert(s.subrange(before.len() as int, before.len() as int + needle@.len()) =~= needle@);
    assert(text::occurs_at(s, needle@, before.len() as int));
}

// ------------------------------------------------------------------------------- machines

/// At the start every machine that is configured is there as its profile says, and this one
/// too.
pub proof fn law_machines_are_there_from_the_start(
    s: Seq<(EndpointId, Endpoint)>,
    profiles: Seq<MachineProfile>,
    count: int,
    p: int,
)
    requires
        endpoints::rising(s),
        0 <= p < count <= profiles.len(),
        endpoints::distinct_ids(profiles),
    ensures
        endpoints::value_of(
            endpoints::with_profiles(s, profiles, count),
            Some(profiles[p].id@),
        ) == Some(endpoints::fresh(profiles[p])),
        endpoints::value_of(endpoints::with_profiles(s, profiles, count), None)
            == endpoints::value_of(s, None),
    decreases count,
{
    lemma_profiles_rise(s, profiles, count - 1);
    let before = endpoints::with_profiles(s, profiles, count - 1);
    let last = profiles[count - 1];
    endpoints::law_put_is_visible(
        before,
        EndpointId::Machine(last.id),
        endpoints::fresh(last),
        Some(profiles[p].id@),
    );
    endpoints::law_put_is_visible(
        before,
        EndpointId::Machine(last.id),
        endpoints::fresh(last),
        None,
    );
    if p < count - 1 {
        law_machines_are_there_from_the_start(s, profiles, count - 1, p);
        assert(profiles[p].id@ != profiles[count - 1].id@);
    } else if count > 1 {
        law_machines_are_there_from_the_start(s, profiles, count - 1, 0);
    }
}

proof fn lemma_profiles_rise(
    s: Seq<(EndpointId, Endpoint)>,
    profiles: Seq<MachineProfile>,
    count: int,
)
    requires
        endpoints::rising(s),
        count <= profiles.len(),
    ensures
        endpoints::rising(endpoints::with_profiles(s, profiles, count)),
    decreases count,
{
    if count > 0 {
        lemma_profiles_rise(s, profiles, count - 1);
        endpoints::lemma_put_rising(
            endpoints::with_profiles(s, profiles, count - 1),
            EndpointId::Machine(profiles[count - 1].id),
            endpoints::fresh(profiles[count - 1]),
        );
    }
}

/// The address of a file of a release is the one that stands with its name.
pub proof fn law_files_are_found(assets: Seq<(String, String)>, name: Seq<char>)
    ensures
        match remote_prepare::asset_address(assets, name) {
            Some(address) => exists|i: int|
                0 <= i < assets.len() && (#[trigger] assets[i]).0@ == name && assets[i].1@
                    == address,
            None => forall|i: int| 0 <= i < assets.len() ==> (#[trigger] assets[i]).0@ != name,
        },
    decreases assets.len(),
{
    if assets.len() > 0 && assets[0].0@ != name {
        let rest = assets.skip(1);
        law_files_are_found(rest, name);
        if let Some(address) = remote_prepare::asset_address(rest, name) {
            let i = choose|i: int|
                0 <= i < rest.len() && (#[trigger] rest[i]).0@ == name && rest[i].1@ == address;
            assert(assets[i + 1] == rest[i]);
        } else {
            assert forall|i: int| 0 <= i < assets.len() implies (#[trigger] assets[i]).0@ != name by {
                if i > 0 {
                    assert(rest[i - 1] == assets[i]);
                }
            }
        }
    } else if assets.len() > 0 {
        assert(assets[0].0@ == name);
    }
}

/// A release can be installed when it is of our own version, for a system and a machine that
/// are known, and has its checksums and the file for them.
pub proof fn law_releases_can_be_installed(release: Release, os: Seq<char>, arch: Seq<char>)
    ensures
        remote_prepare::download_fault(release, os, arch) is None <==> remote_prepare::untagged(
            release.tag_name@,
        ) == plugins::VERSION@ && remote_prepare::system_named(os) is Some
            && remote_prepare::machine_named(arch) is Some && remote_prepare::asset_address(
            release.assets@,
            "SHA256SUMS"@,
        ) is Some && remote_prepare::asset_address(
            release.assets@,
            remote_prepare::asset_name(
                plugins::VERSION@,
                remote_prepare::system_named(os)->0,
                remote_prepare::machine_named(arch)->0,
            ),
        ) is Some,
{
}

// -------------------------------------------------------------------------------- others

/// Each platform copies with its own program.
pub proof fn law_platforms_copy_with_their_own()
    ensures
        clipboard::copy_words(Platform::MacOs)[0] == "pbcopy"@,
        clipboard::copy_words(Platform::Windows)[0] == "clip.exe"@,
        clipboard::copy_words(Platform::Wayland)[0] == "wl-copy"@,
        clipboard::copy_words(Platform::X11)[0] == "xclip"@,
        clipboard::copy_words(Platform::X11).last() == "-in"@,
        clipboard::image_words(Platform::MacOs)[0] == "pngpaste"@,
        clipboard::image_words(Platform::Wayland)[0] == "wl-paste"@,
        clipboard::image_words(Platform::X11)[0] == "xclip"@,
        clipboard::image_words(Platform::X11).last() == "-o"@,
{
}

/// A name that a shell takes: letters, digits and underscores, and no digit first.
pub proof fn law_identifiers(s: Seq<char>)
    ensures
        cli::is_identifier(s) <==> s.len() > 0 && !('0' <= s[0] <= '9') && forall|i: int|
            0 <= i < s.len() ==> 'a' <= #[trigger] s[i] <= 'z' || 'A' <= s[i] <= 'Z' || '0' <= s[i]
                <= '9' || s[i] == '_',
{
    if cli::is_identifier(s) {
        assert forall|i: int| 0 <= i < s.len() implies 'a' <= #[trigger] s[i] <= 'z' || 'A' <= s[i]
            <= 'Z' || '0' <= s[i] <= '9' || s[i] == '_' by {
            assert(s[i] == '_' || text::ascii_alnum(s[i]));
        }
    }
}

/// An extension that was read is in order when its manifest could be read and names the id
/// under which it is registered; the first that is not is told.
pub proof fn law_read_extensions(reads: Seq<ReadPlugin>)
    ensures
        plugins::first_load_fault(reads) is None <==> forall|i: int|
            0 <= i < reads.len() ==> ((#[trigger] reads[i]).manifest matches Ok(manifest)
                && manifest.id@ == reads[i].id@),
    decreases reads.len(),
{
    if reads.len() > 0 {
        let rest = reads.skip(1);
        law_read_extensions(rest);
        if plugins::first_load_fault(reads) is None {
            assert forall|i: int| 0 <= i < reads.len() implies (
            (#[trigger] reads[i]).manifest matches Ok(manifest) && manifest.id@ == reads[i].id@) by {
                if i > 0 {
                    assert(rest[i - 1] == reads[i]);
                }
            }
        }
        if forall|i: int|
            0 <= i < reads.len() ==> ((#[trigger] reads[i]).manifest matches Ok(manifest)
                && manifest.id@ == reads[i].id@) {
            assert(reads[0].manifest is Ok);
            assert forall|i: int| 0 <= i < rest.len() implies (
            (#[trigger] rest[i]).manifest matches Ok(manifest) && manifest.id@ == rest[i].id@) by {
                assert(rest[i] == reads[i + 1]);
            }
        }
    }
}

/// What an action of an extension finds in its environment.
pub proof fn law_actions_have_an_environment(
    plugin: Seq<char>,
    action: Seq<char>,
    session: Seq<char>,
    socket: Seq<char>,
    layout: crate::proto::LayoutSnapshot,
)
    ensures
        ({
            let env = plugins::action_environment(plugin, action, session, socket, layout);
            &&& env.contains(("KODADE_PLUGIN"@, plugin))
            &&& env.contains(("KODADE_ACTION"@, action))
            &&& env.contains(("KODADE_SESSION"@, session))
            &&& env.contains(("KODADE_SOCKET"@, socket))
            &&& env.contains(("KODADE_WORKSPACE"@, plugins::origin(layout).0))
            &&& env.contains(("KODADE_TAB"@, text::decimal(layout.active_tab.0 as nat)))
            &&& env.contains(("KODADE_PANE"@, plugins::origin(layout).1))
        }),
{
    let env = plugins::action_environment(plugin, action, session, socket, layout);
    assert(env[0] == ("KODADE_PLUGIN"@, plugin));
    assert(env[1] == ("KODADE_ACTION"@, action));
    assert(env[2] == ("KODADE_SESSION"@, session));
    assert(env[3] == ("KODADE_SOCKET"@, socket));
    assert(env[4] == ("KODADE_WORKSPACE"@, plugins::origin(layout).0));
    assert(env[5] == ("KODADE_TAB"@, text::decimal(layout.active_tab.0 as nat)));
    assert(env[6] == ("KODADE_PANE"@, plugins::origin(layout).1));
}

/// Where agents keep their settings.
pub proof fn law_integrations_are_known(prompted: Seq<char>)
    ensures
        integrations::integration_list(prompted).len() == 3,
        integrations::integration_list(prompted)[0].0 == prompted,
        integrations::integration_list(prompted)[1].0 == "codex"@,
        integrations::integration_list(prompted)[1].1 == ".codex/config.toml"@,
        integrations::integration_list(prompted)[2].0 == "gemini-cli"@,
        integrations::integration_list(prompted)[2].1 == ".gemini/settings.json"@,
        !prompted.contains('-') ==> integrations::vendor(prompted) == prompted,
{
    crate::laws::wording::law_cutting_finds_the_first(prompted, '-');
    if !prompted.contains('-') {
        if let Some((before, after)) = text::cut_at(prompted, '-') {
            assert((before + seq!['-'] + after)[before.len() as int] == '-');
        }
    }
}

/// The vendor of an agent is what stands before the first dash of its id.
pub proof fn law_vendors_come_first(vendor: Seq<char>, rest: Seq<char>)
    requires
        !vendor.contains('-'),
    ensures
        integrations::vendor(vendor + seq!['-'] + rest) == vendor,
{
    let id = vendor + seq!['-'] + rest;
    crate::laws::wording::law_cutting_finds_the_first(id, '-');
    assert(id[vendor.len() as int] == '-');
    if let Some((before, after)) = text::cut_at(id, '-') {
        if before.len() < vendor.len() {
            assert(id[before.len() as int] == (before + seq!['-'] + after)[before.len() as int]);
            assert(vendor[before.len() as int] == '-');
        } else if before.len() > vendor.len() {
            assert(before[vendor.len() as int] == (before + seq!['-'] + after)[vendor.len() as int]);
        }
        assert forall|i: int| 0 <= i < vendor.len() implies vendor[i] == before[i] by {
            assert(id[i] == (before + seq!['-'] + after)[i]);
        }
        assert(before =~= vendor);
    }
}

/// What the terminal says of its background ends where an escape sequence starts.
pub proof fn law_replies_end_at_an_escape(s: Seq<char>, from: int)
    requires
        0 <= from <= s.len(),
        forall|i: int| 0 <= i < from ==> #[trigger] s[i] != '\x1b',
    ensures
        !theme::before_escape(s, from).contains('\x1b'),
        theme::before_escape(s, from).is_prefix_of(s),
        theme::before_escape(s, from).len() < s.len() ==> s[theme::before_escape(
            s,
            from,
        ).len() as int] == '\x1b',
    decreases s.len() - from,
{
    if from >= s.len() {
        assert(s =~= s.subrange(0, s.len() as int));
    } else if s[from] == '\x1b' {
        assert(s.take(from) =~= s.subrange(0, from));
        assert forall|i: int| 0 <= i < from implies s.take(from)[i] != '\x1b' by {
            assert(s[i] != '\x1b');
        }
    } else {
        law_replies_end_at_an_escape(s, from + 1);
    }
}

/// The themes that need no file.
pub proof fn law_built_in_themes(name: Seq<char>)
    ensures
        theme::is_built_in("kodade-dark"@),
        theme::is_built_in("kodade-light"@),
        theme::is_built_in("tokyo-night"@),
        theme::is_built_in(name) ==> name == "kodade-dark"@ || name == "kodade-light"@ || name
            == "tokyo-night"@,
{
}

/// Every color that a theme must give is read, and is wrong where it is no color.
pub proof fn law_given_colors_are_read(raw: ThemeFile)
    ensures
        theme::colors_read(raw).contains(raw.accent@),
        theme::colors_read(raw).contains(raw.border@),
        theme::colors_read(raw).contains(raw.text@),
        theme::colors_read(raw).contains(raw.dim@),
        theme::colors_read(raw).contains(raw.blocked@),
        theme::colors_read(raw).contains(raw.working@),
        theme::colors_read(raw).contains(raw.done@),
        theme::colors_read(raw).contains(raw.idle@),
        theme::colors_read(raw).contains(raw.tabbar_bg@),
        theme::colors_read(raw).contains(raw.status_bg@),
{
    let all = theme::colors_read(raw);
    assert(all[0] == raw.accent@);
    assert(all[1] == raw.border@);
    assert(all[2] == raw.text@);
    assert(all[3] == raw.tabbar_bg@);
    assert(all[4] == raw.status_bg@);
    assert(all[5] == raw.dim@);
    assert(all[6] == raw.blocked@);
    assert(all[7] == raw.working@);
    assert(all[8] == raw.done@);
    assert(all[9] == raw.idle@);
}

/// The tools that the client calls itself.
pub proof fn law_own_tools()
    ensures
        doctor::own_tools().contains(("git worktrees"@, "git"@)),
        doctor::own_tools().contains(("SSH machines"@, "ssh"@)),
        doctor::own_tools().contains(("manifest refresh"@, "curl"@)),
{
    let all = doctor::own_tools();
    assert(all[0] == ("git worktrees"@, "git"@));
    assert(all[1] == ("SSH machines"@, "ssh"@));
    assert(all[2] == ("manifest refresh"@, "curl"@));
}

/// What a plugin's entry shows, and what stands there when none can be read.
pub proof fn law_extensions_have_entries(
    plugin: Seq<char>,
    directory: Seq<char>,
    action: PluginAction,
    error: Seq<char>,
)
    ensures
        palette::plugin_item(plugin, directory, action).label == "plugin · "@ + plugin + " · "@
            + action.name@,
        action.pane ==> palette::plugin_item(plugin, directory, action).hint == "open pane"@,
        !action.pane ==> palette::plugin_item(plugin, directory, action).hint == "run"@,
        palette::unavailable_item(error).label == "plugin registry unavailable"@,
        palette::unavailable_item(error).hint == error,
        palette::unavailable_item(error).target == TargetView::PluginUnavailable(error),
{
}

/// The limits and the steps of the client.
pub proof fn law_limits()
    ensures
        crate::app::SCROLL_STEP == 3,
        crate::automation::POLL_MILLIS == 250,
        crate::automation::MAX_PROMPT_BYTES == 64 * 1024,
        crate::commands::EXPLAIN_LINES == 8,
        crate::connection::START_TIMEOUT_SECS == 10,
        crate::mode::OSC52_LIMIT == 100_000,
        crate::mode::MENU_WIDTH == 14,
        crate::paste::CHUNK_SIZE == 64 * 1024,
        crate::plugins::INSTALL_TIMEOUT_SECS == 60,
        crate::plugins::ACTION_TIMEOUT_SECS == 30,
        crate::remote::TUNNEL_TIMEOUT_SECS == 10,
        render::SIDEBAR_WIDTH == 24,
        render::SIDEBAR_HEADER_ROWS == 1,
        render::gutter(true) == 24,
        render::gutter(false) == 1,
{
}

} // verus!
