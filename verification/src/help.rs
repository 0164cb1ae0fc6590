//! The binding table, shown four ways: the help overlay, the hint after the prefix
//! key, the list of keys, and a table for the documentation.

use vstd::prelude::*;

use crate::app;
use crate::config::{self, Config};
use crate::event::{KeyCode, KeyEvent};
use crate::num;
use crate::overlay::{self, Overlay, OverlayRow, OverlayTarget};
use crate::text;

verus! {

/// A named section of the binding table.
#[derive(Debug, Clone, Copy, PartialEq, Eq, Structural)]
pub enum Group {
    Panes,
    Tabs,
    Workspaces,
    Modes,
    Other,
}

impl Group {
    /// The groups in the order in which they are shown.
    pub open spec fn ordered() -> Seq<Group> {
        seq![Group::Panes, Group::Tabs, Group::Workspaces, Group::Modes, Group::Other]
    }

    pub fn order() -> (r: Vec<Group>)
        ensures
            r@ == Self::ordered(),
    {
        let groups: Vec<Group> = vec![
            Group::Panes,
            Group::Tabs,
            Group::Workspaces,
            Group::Modes,
            Group::Other,
        ];
        assert(groups@ =~= Self::ordered());
        groups
    }

    pub open spec fn heading(self) -> Seq<char> {
        match self {
            Group::Panes => "panes"@,
            Group::Tabs => "tabs"@,
            Group::Workspaces => "workspaces"@,
            Group::Modes => "modes"@,
            Group::Other => "other"@,
        }
    }

    pub fn label(self) -> (r: &'static str)
        ensures
            r@ == self.heading(),
    {
        match self {
            Group::Panes => "panes",
            Group::Tabs => "tabs",
            Group::Workspaces => "workspaces",
            Group::Modes => "modes",
            Group::Other => "other",
        }
    }

    /// The label in capitals.
    pub open spec fn capitals(self) -> Seq<char> {
        match self {
            Group::Panes => "PANES"@,
            Group::Tabs => "TABS"@,
            Group::Workspaces => "WORKSPACES"@,
            Group::Modes => "MODES"@,
            Group::Other => "OTHER"@,
        }
    }

    fn capital_label(self) -> (r: &'static str)
        ensures
            r@ == self.capitals(),
    {
        match self {
            Group::Panes => "PANES",
            Group::Tabs => "TABS",
            Group::Workspaces => "WORKSPACES",
            Group::Modes => "MODES",
            Group::Other => "OTHER",
        }
    }
}

/// Everything that a key can be bound to.
#[derive(Debug, Clone, Copy, PartialEq, Eq, Structural)]
pub enum BoundAction {
    SplitRight,
    SplitDown,
    ClosePane,
    NewTab,
    NextTab,
    PrevTab,
    Zoom,
    Detach,
    Rename,
    WorkspaceNext,
    WorkspacePicker,
    Goto,
    NewWorkspace,
    WorktreeNew,
    SidebarToggle,
    FocusUp,
    FocusDown,
    FocusLeft,
    FocusRight,
    ResizeUp,
    ResizeDown,
    ResizeLeft,
    ResizeRight,
    Navigate,
    CopyMode,
    /// One-based.
    SelectTabIndex(u8),
    CloseTab,
    RenameTab,
    RenameWorkspace,
    CloseWorkspace,
    SwapUp,
    SwapDown,
    SwapLeft,
    SwapRight,
    MoveTabLeft,
    MoveTabRight,
    NextPane,
    PrevPane,
    LastPane,
    WorkspacePrev,
    ResizeMode,
    BreakPane,
    LayoutEven,
    ReloadConfig,
    Settings,
    Help,
    DisplayPanes,
    PasteBuffer,
    MouseToggle,
    NotificationJump,
}

/// The group that an action belongs to.
pub open spec fn grouped(action: BoundAction) -> Group {
    match action {
        BoundAction::SplitRight
        | BoundAction::SplitDown
        | BoundAction::ClosePane
        | BoundAction::Zoom
        | BoundAction::Rename
        | BoundAction::FocusUp
        | BoundAction::FocusDown
        | BoundAction::FocusLeft
        | BoundAction::FocusRight
        | BoundAction::ResizeUp
        | BoundAction::ResizeDown
        | BoundAction::ResizeLeft
        | BoundAction::ResizeRight
        | BoundAction::SwapUp
        | BoundAction::SwapDown
        | BoundAction::SwapLeft
        | BoundAction::SwapRight
        | BoundAction::NextPane
        | BoundAction::PrevPane
        | BoundAction::LastPane
        | BoundAction::BreakPane
        | BoundAction::LayoutEven
        | BoundAction::DisplayPanes => Group::Panes,
        BoundAction::NewTab
        | BoundAction::NextTab
        | BoundAction::PrevTab
        | BoundAction::SelectTabIndex(_)
        | BoundAction::CloseTab
        | BoundAction::RenameTab
        | BoundAction::MoveTabLeft
        | BoundAction::MoveTabRight => Group::Tabs,
        BoundAction::WorkspaceNext
        | BoundAction::WorkspacePrev
        | BoundAction::WorkspacePicker
        | BoundAction::NewWorkspace
        | BoundAction::WorktreeNew
        | BoundAction::RenameWorkspace
        | BoundAction::CloseWorkspace => Group::Workspaces,
        BoundAction::Navigate
        | BoundAction::Goto
        | BoundAction::CopyMode
        | BoundAction::ResizeMode
        | BoundAction::Settings
        | BoundAction::Help => Group::Modes,
        BoundAction::Detach
        | BoundAction::SidebarToggle
        | BoundAction::ReloadConfig
        | BoundAction::PasteBuffer
        | BoundAction::MouseToggle
        | BoundAction::NotificationJump => Group::Other,
    }
}

pub fn group_of(action: BoundAction) -> (r: Group)
    ensures
        r == grouped(action),
{
    match action {
        BoundAction::SplitRight
        | BoundAction::SplitDown
        | BoundAction::ClosePane
        | BoundAction::Zoom
        | BoundAction::Rename
        | BoundAction::FocusUp
        | BoundAction::FocusDown
        | BoundAction::FocusLeft
        | BoundAction::FocusRight
        | BoundAction::ResizeUp
        | BoundAction::ResizeDown
        | BoundAction::ResizeLeft
        | BoundAction::ResizeRight
        | BoundAction::SwapUp
        | BoundAction::SwapDown
        | BoundAction::SwapLeft
        | BoundAction::SwapRight
        | BoundAction::NextPane
        | BoundAction::PrevPane
        | BoundAction::LastPane
        | BoundAction::BreakPane
        | BoundAction::LayoutEven
        | BoundAction::DisplayPanes => Group::Panes,
        BoundAction::NewTab
        | BoundAction::NextTab
        | BoundAction::PrevTab
        | BoundAction::SelectTabIndex(_)
        | BoundAction::CloseTab
        | BoundAction::RenameTab
        | BoundAction::MoveTabLeft
        | BoundAction::MoveTabRight => Group::Tabs,
        BoundAction::WorkspaceNext
        | BoundAction::WorkspacePrev
        | BoundAction::WorkspacePicker
        | BoundAction::NewWorkspace
        | BoundAction::WorktreeNew
        | BoundAction::RenameWorkspace
        | BoundAction::CloseWorkspace => Group::Workspaces,
        BoundAction::Navigate
        | BoundAction::Goto
        | BoundAction::CopyMode
        | BoundAction::ResizeMode
        | BoundAction::Settings
        | BoundAction::Help => Group::Modes,
        BoundAction::Detach
        | BoundAction::SidebarToggle
        | BoundAction::ReloadConfig
        | BoundAction::PasteBuffer
        | BoundAction::MouseToggle
        | BoundAction::NotificationJump => Group::Other,
    }
}

/// What an action is called where people read it.
pub open spec fn label_text(action: BoundAction) -> Seq<char> {
    match action {
        BoundAction::SplitRight => "split right"@,
        BoundAction::SplitDown => "split down"@,
        BoundAction::ClosePane => "close pane"@,
        BoundAction::NewTab => "new tab"@,
        BoundAction::NextTab => "next tab"@,
        BoundAction::PrevTab => "previous tab"@,
        BoundAction::Zoom => "zoom pane"@,
        BoundAction::Detach => "detach"@,
        BoundAction::Rename => "rename pane"@,
        BoundAction::WorkspaceNext => "next workspace"@,
        BoundAction::WorkspacePicker => "workspace picker"@,
        BoundAction::Goto => "go to"@,
        BoundAction::NewWorkspace => "new workspace"@,
        BoundAction::WorktreeNew => "new worktree workspace"@,
        BoundAction::SidebarToggle => "toggle sidebar"@,
        BoundAction::FocusUp => "focus up"@,
        BoundAction::FocusDown => "focus down"@,
        BoundAction::FocusLeft => "focus left"@,
        BoundAction::FocusRight => "focus right"@,
        BoundAction::ResizeUp => "resize up"@,
        BoundAction::ResizeDown => "resize down"@,
        BoundAction::ResizeLeft => "resize left"@,
        BoundAction::ResizeRight => "resize right"@,
        BoundAction::Navigate => "navigate"@,
        BoundAction::CopyMode => "copy mode"@,
        BoundAction::CloseTab => "close tab"@,
        BoundAction::RenameTab => "rename tab"@,
        BoundAction::RenameWorkspace => "rename workspace"@,
        BoundAction::CloseWorkspace => "close workspace"@,
        BoundAction::SwapUp => "swap up"@,
        BoundAction::SwapDown => "swap down"@,
        BoundAction::SwapLeft => "swap left"@,
        BoundAction::SwapRight => "swap right"@,
        BoundAction::MoveTabLeft => "move tab left"@,
        BoundAction::MoveTabRight => "move tab right"@,
        BoundAction::NextPane => "next pane"@,
        BoundAction::PrevPane => "previous pane"@,
        BoundAction::LastPane => "last pane"@,
        BoundAction::WorkspacePrev => "previous workspace"@,
        BoundAction::ResizeMode => "resize mode"@,
        BoundAction::BreakPane => "break pane to tab"@,
        BoundAction::LayoutEven => "even layout"@,
        BoundAction::ReloadConfig => "reload config"@,
        BoundAction::Settings => "settings"@,
        BoundAction::Help => "help"@,
        BoundAction::DisplayPanes => "show pane ids"@,
        BoundAction::PasteBuffer => "paste buffer"@,
        BoundAction::MouseToggle => "toggle mouse capture"@,
        BoundAction::NotificationJump => "jump to notification"@,
        BoundAction::SelectTabIndex(index) => "select tab "@ + text::decimal(index as nat),
    }
}

pub fn label_of(action: BoundAction) -> (r: String)
    ensures
        r@ == label_text(action),
{
    match action {
        BoundAction::SplitRight => "split right".to_owned(),
        BoundAction::SplitDown => "split down".to_owned(),
        BoundAction::ClosePane => "close pane".to_owned(),
        BoundAction::NewTab => "new tab".to_owned(),
        BoundAction::NextTab => "next tab".to_owned(),
        BoundAction::PrevTab => "previous tab".to_owned(),
        BoundAction::Zoom => "zoom pane".to_owned(),
        BoundAction::Detach => "detach".to_owned(),
        BoundAction::Rename => "rename pane".to_owned(),
        BoundAction::WorkspaceNext => "next workspace".to_owned(),
        BoundAction::WorkspacePicker => "workspace picker".to_owned(),
        BoundAction::Goto => "go to".to_owned(),
        BoundAction::NewWorkspace => "new workspace".to_owned(),
        BoundAction::WorktreeNew => "new worktree workspace".to_owned(),
        BoundAction::SidebarToggle => "toggle sidebar".to_owned(),
        BoundAction::FocusUp => "focus up".to_owned(),
        BoundAction::FocusDown => "focus down".to_owned(),
        BoundAction::FocusLeft => "focus left".to_owned(),
        BoundAction::FocusRight => "focus right".to_owned(),
        BoundAction::ResizeUp => "resize up".to_owned(),
        BoundAction::ResizeDown => "resize down".to_owned(),
        BoundAction::ResizeLeft => "resize left".to_owned(),
        BoundAction::ResizeRight => "resize right".to_owned(),
        BoundAction::Navigate => "navigate".to_owned(),
        BoundAction::CopyMode => "copy mode".to_owned(),
        BoundAction::CloseTab => "close tab".to_owned(),
        BoundAction::RenameTab => "rename tab".to_owned(),
        BoundAction::RenameWorkspace => "rename workspace".to_owned(),
        BoundAction::CloseWorkspace => "close workspace".to_owned(),
        BoundAction::SwapUp => "swap up".to_owned(),
        BoundAction::SwapDown => "swap down".to_owned(),
        BoundAction::SwapLeft => "swap left".to_owned(),
        BoundAction::SwapRight => "swap right".to_owned(),
        BoundAction::MoveTabLeft => "move tab left".to_owned(),
        BoundAction::MoveTabRight => "move tab right".to_owned(),
        BoundAction::NextPane => "next pane".to_owned(),
        BoundAction::PrevPane => "previous pane".to_owned(),
        BoundAction::LastPane => "last pane".to_owned(),
        BoundAction::WorkspacePrev => "previous workspace".to_owned(),
        BoundAction::ResizeMode => "resize mode".to_owned(),
        BoundAction::BreakPane => "break pane to tab".to_owned(),
        BoundAction::LayoutEven => "even layout".to_owned(),
        BoundAction::ReloadConfig => "reload config".to_owned(),
        BoundAction::Settings => "settings".to_owned(),
        BoundAction::Help => "help".to_owned(),
        BoundAction::DisplayPanes => "show pane ids".to_owned(),
        BoundAction::PasteBuffer => "paste buffer".to_owned(),
        BoundAction::MouseToggle => "toggle mouse capture".to_owned(),
        BoundAction::NotificationJump => "jump to notification".to_owned(),
        BoundAction::SelectTabIndex(index) => {
            let number = text::decimal_text(index as u64);
            text::cat("select tab ", number.as_str())
        },
    }
}

/// An action with its name in the configuration and the chords that are bound to it.
#[derive(Debug, PartialEq, Eq)]
pub struct Binding {
    pub name: String,
    pub action: BoundAction,
    pub chords: Vec<String>,
}

/// One row of the table. `global` says that a chord works without the prefix.
#[derive(Debug, PartialEq, Eq)]
pub struct HelpRow {
    pub action: String,
    pub label: String,
    pub chords: Vec<String>,
    pub global: bool,
}

/// A row as plain values.
pub struct RowView {
    pub action: Seq<char>,
    pub label: Seq<char>,
    pub chords: Seq<Seq<char>>,
    pub global: bool,
}

impl View for HelpRow {
    type V = RowView;

    open spec fn view(&self) -> RowView {
        RowView {
            action: self.action@,
            label: self.label@,
            chords: text::texts(self.chords@),
            global: self.global,
        }
    }
}

/// A group with its rows.
#[derive(Debug, PartialEq, Eq)]
pub struct HelpGroup {
    pub group: Group,
    pub rows: Vec<HelpRow>,
}

pub open spec fn row_views(rows: Seq<HelpRow>) -> Seq<RowView> {
    rows.map_values(|row: HelpRow| row@)
}

pub open spec fn group_views(groups: Seq<HelpGroup>) -> Seq<(Group, Seq<RowView>)> {
    groups.map_values(|g: HelpGroup| (g.group, row_views(g.rows@)))
}

/// A chord with a modifier that is not written after the prefix works on its own.
pub open spec fn global(chord: Seq<char>) -> bool {
    !"prefix+"@.is_prefix_of(chord) && (text::has_part(chord, "ctrl+"@) || text::has_part(
        chord,
        "alt+"@,
    ))
}

fn is_global(chord: &str) -> (r: bool)
    ensures
        r == global(chord@),
{
    !text::starts_with(chord, "prefix+") && (text::contains(chord, "ctrl+") || text::contains(
        chord,
        "alt+",
    ))
}

pub open spec fn any_global(chords: Seq<Seq<char>>) -> bool {
    exists|i: int| 0 <= i < chords.len() && global(#[trigger] chords[i])
}

/// The row of a binding.
pub open spec fn row_of(binding: Binding) -> RowView {
    RowView {
        action: binding.name@,
        label: label_text(binding.action),
        chords: text::texts(binding.chords@),
        global: any_global(text::texts(binding.chords@)),
    }
}

/// The rows of one group among the first `count` bindings, in their order.
pub open spec fn rows_in(bindings: Seq<Binding>, group: Group, count: int) -> Seq<RowView>
    decreases count,
{
    if count <= 0 {
        Seq::empty()
    } else {
        let before = rows_in(bindings, group, count - 1);
        if grouped(bindings[count - 1].action) == group {
            before.push(row_of(bindings[count - 1]))
        } else {
            before
        }
    }
}

/// The whole table.
pub open spec fn table_of(bindings: Seq<Binding>) -> Seq<(Group, Seq<RowView>)> {
    Group::ordered().map_values(
        |group: Group| (group, rows_in(bindings, group, bindings.len() as int)),
    )
}

fn has_global(chords: &Vec<String>) -> (r: bool)
    ensures
        r == any_global(text::texts(chords@)),
{
    let ghost all = text::texts(chords@);
    let mut i: usize = 0;
    while i < chords.len()
        invariant
            i <= chords@.len(),
            all == text::texts(chords@),
            forall|k: int| 0 <= k < i ==> !global(#[trigger] all[k]),
        decreases chords@.len() - i,
    {
        assert(all[i as int] == chords@[i as int]@);
        if is_global(chords[i].as_str()) {
            return true;
        }
        i += 1;
    }
    false
}

fn help_row(binding: &Binding) -> (r: HelpRow)
    ensures
        r@ == row_of(*binding),
{
    HelpRow {
        action: binding.name.clone(),
        label: label_of(binding.action),
        chords: text::copied(&binding.chords),
        global: has_global(&binding.chords),
    }
}

fn group_rows(bindings: &Vec<Binding>, group: Group) -> (r: Vec<HelpRow>)
    ensures
        row_views(r@) == rows_in(bindings@, group, bindings@.len() as int),
{
    let mut rows: Vec<HelpRow> = Vec::new();
    let mut i: usize = 0;
    assert(row_views(rows@) =~= Seq::empty());
    while i < bindings.len()
        invariant
            i <= bindings@.len(),
            row_views(rows@) == rows_in(bindings@, group, i as int),
        decreases bindings@.len() - i,
    {
        if group_of(bindings[i].action) == group {
            let ghost before = row_views(rows@);
            let row = help_row(&bindings[i]);
            let ghost seen = row@;
            rows.push(row);
            assert(row_views(rows@) =~= before.push(seen));
        }
        i += 1;
    }
    rows
}

/// The whole binding table, in groups. Everything that shows bindings is made from
/// it.
pub fn help_table(bindings: &Vec<Binding>) -> (r: Vec<HelpGroup>)
    ensures
        group_views(r@) == table_of(bindings@),
{
    let order = Group::order();
    let mut out: Vec<HelpGroup> = Vec::new();
    let ghost all = table_of(bindings@);
    let mut i: usize = 0;
    assert(group_views(out@) =~= all.take(0));
    while i < order.len()
        invariant
            i <= order@.len(),
            order@ == Group::ordered(),
            all == table_of(bindings@),
            group_views(out@) == all.take(i as int),
        decreases order@.len() - i,
    {
        let ghost before = group_views(out@);
        let group = order[i];
        let rows = group_rows(bindings, group);
        let ghost seen = (group, row_views(rows@));
        out.push(HelpGroup { group, rows });
        assert(group_views(out@) =~= before.push(seen));
        assert(all.take(i + 1) =~= all.take(i as int).push(all[i as int]));
        i += 1;
    }
    assert(all.take(i as int) =~= all);
    out
}

/// Every binding has exactly one row, in the group of its action.
pub proof fn law_every_action_has_one_row(bindings: Seq<Binding>)
    ensures
        rows_in(bindings, Group::Panes, bindings.len() as int).len() + rows_in(
            bindings,
            Group::Tabs,
            bindings.len() as int,
        ).len() + rows_in(bindings, Group::Workspaces, bindings.len() as int).len() + rows_in(
            bindings,
            Group::Modes,
            bindings.len() as int,
        ).len() + rows_in(bindings, Group::Other, bindings.len() as int).len() == bindings.len(),
{
    lemma_row_count(bindings, bindings.len() as int);
}

proof fn lemma_row_count(bindings: Seq<Binding>, count: int)
    requires
        0 <= count <= bindings.len(),
    ensures
        rows_in(bindings, Group::Panes, count).len() + rows_in(bindings, Group::Tabs, count).len()
            + rows_in(bindings, Group::Workspaces, count).len() + rows_in(
            bindings,
            Group::Modes,
            count,
        ).len() + rows_in(bindings, Group::Other, count).len() == count,
    decreases count,
{
    if count > 0 {
        lemma_row_count(bindings, count - 1);
    }
}

/// How a chord is shown.
pub open spec fn shown_chord(chord: Seq<char>) -> Seq<char> {
    if global(chord) {
        chord + " (global)"@
    } else {
        chord
    }
}

pub open spec fn shown_chords(chords: Seq<Seq<char>>) -> Seq<char> {
    if chords.len() == 0 {
        "unbound"@
    } else {
        text::joined(chords.map_values(|chord: Seq<char>| shown_chord(chord)), ", "@)
    }
}

fn joined(row: &HelpRow) -> (r: String)
    ensures
        r@ == shown_chords(row@.chords),
{
    let ghost all = row@.chords.map_values(|chord: Seq<char>| shown_chord(chord));
    assert(row@.chords.len() == row.chords@.len());
    if row.chords.len() == 0 {
        return "unbound".to_owned();
    }
    let mut parts: Vec<String> = Vec::new();
    let mut i: usize = 0;
    assert(text::texts(parts@) =~= all.take(0));
    while i < row.chords.len()
        invariant
            i <= row.chords@.len(),
            row.chords@.len() == all.len(),
            all == row@.chords.map_values(|chord: Seq<char>| shown_chord(chord)),
            text::texts(parts@) == all.take(i as int),
        decreases row.chords@.len() - i,
    {
        let ghost before = text::texts(parts@);
        let chord = row.chords[i].as_str();
        assert(row@.chords[i as int] == chord@);
        let shown = if is_global(chord) {
            text::cat(chord, " (global)")
        } else {
            chord.to_owned()
        };
        let ghost seen = shown@;
        parts.push(shown);
        assert(text::texts(parts@) =~= before.push(seen));
        assert(all.take(i + 1) =~= all.take(i as int).push(all[i as int]));
        i += 1;
    }
    assert(all.take(i as int) =~= all);
    text::join(&parts, ", ")
}

// ----------------------------------------------------------------------------- overlay

/// The help overlay, with all rows behind it so that filtering can rebuild the view.
pub struct HelpOverlay {
    /// Every row, headings too; shown while the filter is empty.
    pub full: Vec<OverlayRow>,
    /// The action rows with what a filter looks in.
    pub entries: Vec<(String, OverlayRow)>,
    pub overlay: Overlay,
}

/// The parts of entries.
pub open spec fn entry_parts(entries: Seq<(String, OverlayRow)>) -> Seq<
    (Seq<char>, (Seq<char>, Seq<char>, OverlayTarget)),
> {
    entries.map_values(|e: (String, OverlayRow)| (e.0@, e.1.parts()))
}

/// The rows of the first `count` entries that a filter keeps.
pub open spec fn kept(
    entries: Seq<(Seq<char>, (Seq<char>, Seq<char>, OverlayTarget))>,
    needle: Seq<char>,
    count: int,
) -> Seq<(Seq<char>, Seq<char>, OverlayTarget)>
    decreases count,
{
    if count <= 0 {
        Seq::empty()
    } else {
        let before = kept(entries, needle, count - 1);
        if text::has_part(entries[count - 1].0, needle) {
            before.push(entries[count - 1].1)
        } else {
            before
        }
    }
}

fn copied_row(row: &OverlayRow) -> (r: OverlayRow)
    ensures
        r.parts() == row.parts(),
{
    OverlayRow::new(row.label.clone(), row.hint.clone(), row.target)
}

fn copied_rows(rows: &Vec<OverlayRow>) -> (r: Vec<OverlayRow>)
    ensures
        overlay::row_parts(r@) == overlay::row_parts(rows@),
{
    let mut out: Vec<OverlayRow> = Vec::new();
    let mut i: usize = 0;
    let ghost all = overlay::row_parts(rows@);
    assert(overlay::row_parts(out@) =~= all.take(0));
    while i < rows.len()
        invariant
            i <= rows@.len(),
            all == overlay::row_parts(rows@),
            overlay::row_parts(out@) == all.take(i as int),
        decreases rows@.len() - i,
    {
        let ghost before = overlay::row_parts(out@);
        out.push(copied_row(&rows[i]));
        assert(overlay::row_parts(out@) =~= before.push(all[i as int]));
        assert(all.take(i + 1) =~= all.take(i as int).push(all[i as int]));
        i += 1;
    }
    assert(all.take(i as int) =~= all);
    out
}

impl HelpOverlay {
    /// What is shown for a filter text.
    pub open spec fn visible(self, query: Seq<char>) -> Seq<
        (Seq<char>, Seq<char>, OverlayTarget),
    > {
        if query.len() == 0 {
            overlay::row_parts(self.full@)
        } else {
            kept(entry_parts(self.entries@), text::lowercase(query), self.entries@.len() as int)
        }
    }

    /// Rebuilds the visible rows from the filter text, keeping the selection in range.
    pub fn apply_filter(&mut self)
        ensures
            final(self).full == old(self).full,
            final(self).entries == old(self).entries,
            final(self).overlay.title == old(self).overlay.title,
            final(self).overlay.filter == old(self).overlay.filter,
            overlay::row_parts(final(self).overlay.rows@) == old(self).visible(
                match old(self).overlay.filter {
                    Some(query) => query@,
                    None => Seq::empty(),
                },
            ),
            final(self).overlay.selected == num::min(
                old(self).overlay.selected as int,
                num::max(final(self).overlay.rows@.len() - 1, 0),
            ),
    {
        let query = match &self.overlay.filter {
            Some(query) => query.clone(),
            None => String::new(),
        };
        let rows = if query.as_str().is_empty() {
            copied_rows(&self.full)
        } else {
            let needle = query.as_str().to_lowercase();
            let mut rows: Vec<OverlayRow> = Vec::new();
            let ghost all = entry_parts(self.entries@);
            let mut i: usize = 0;
            assert(overlay::row_parts(rows@) =~= Seq::empty());
            while i < self.entries.len()
                invariant
                    i <= self.entries@.len(),
                    all == entry_parts(self.entries@),
                    overlay::row_parts(rows@) == kept(all, needle@, i as int),
                decreases self.entries@.len() - i,
            {
                assert(all[i as int].0 == self.entries@[i as int].0@);
                if text::contains(self.entries[i].0.as_str(), needle.as_str()) {
                    let ghost before = overlay::row_parts(rows@);
                    rows.push(copied_row(&self.entries[i].1));
                    assert(overlay::row_parts(rows@) =~= before.push(all[i as int].1));
                }
                i += 1;
            }
            rows
        };
        let last: usize = rows.len().saturating_sub(1);
        self.overlay.rows = rows;
        if self.overlay.selected > last {
            self.overlay.selected = last;
        }
    }
}

/// The row of a heading.
pub open spec fn heading_row(group: Group) -> (Seq<char>, Seq<char>, OverlayTarget) {
    ("— "@ + group.heading() + " —"@, Seq::empty(), OverlayTarget::Nothing)
}

/// The row of an action.
pub open spec fn action_row(row: RowView) -> (Seq<char>, Seq<char>, OverlayTarget) {
    (" "@ + row.label, shown_chords(row.chords) + " "@, OverlayTarget::Nothing)
}

/// What a filter looks in for an action.
pub open spec fn search_key(row: RowView) -> Seq<char> {
    text::lowercase(row.action + " "@ + row.label + " "@ + shown_chords(row.chords))
}

pub open spec fn action_rows(rows: Seq<RowView>) -> Seq<(Seq<char>, Seq<char>, OverlayTarget)> {
    rows.map_values(|row: RowView| action_row(row))
}

pub open spec fn search_rows(rows: Seq<RowView>) -> Seq<
    (Seq<char>, (Seq<char>, Seq<char>, OverlayTarget)),
> {
    rows.map_values(|row: RowView| (search_key(row), action_row(row)))
}

/// The rows of the first `count` groups: a heading and the actions of each group that
/// has any.
pub open spec fn full_rows(table: Seq<(Group, Seq<RowView>)>, count: int) -> Seq<
    (Seq<char>, Seq<char>, OverlayTarget),
>
    decreases count,
{
    if count <= 0 {
        Seq::empty()
    } else {
        let (group, rows) = table[count - 1];
        let before = full_rows(table, count - 1);
        if rows.len() == 0 {
            before
        } else {
            before.push(heading_row(group)) + action_rows(rows)
        }
    }
}

/// The action rows of the first `count` groups.
pub open spec fn entry_rows(table: Seq<(Group, Seq<RowView>)>, count: int) -> Seq<
    (Seq<char>, (Seq<char>, Seq<char>, OverlayTarget)),
>
    decreases count,
{
    if count <= 0 {
        Seq::empty()
    } else {
        entry_rows(table, count - 1) + search_rows(table[count - 1].1)
    }
}

fn display_row(row: &HelpRow) -> (r: OverlayRow)
    ensures
        r.parts() == action_row(row@),
{
    let chords = joined(row);
    OverlayRow::new(
        text::cat(" ", row.label.as_str()),
        text::cat(chords.as_str(), " "),
        OverlayTarget::Nothing,
    )
}

fn search_text(row: &HelpRow) -> (r: String)
    ensures
        r@ == search_key(row@),
{
    let chords = joined(row);
    let mut key = text::cat3(row.action.as_str(), " ", row.label.as_str());
    key.append(" ");
    key.append(chords.as_str());
    key.as_str().to_lowercase()
}

/// Builds the help overlay: a filter line, a heading for each group, and a row for
/// each binding.
pub fn overlay(bindings: &Vec<Binding>) -> (r: HelpOverlay)
    ensures
        overlay::row_parts(r.full@) == full_rows(table_of(bindings@), 5),
        entry_parts(r.entries@) == entry_rows(table_of(bindings@), 5),
        overlay::row_parts(r.overlay.rows@) == overlay::row_parts(r.full@),
        r.overlay.title@ == "help · type to filter · esc closes"@,
        text::option_text(r.overlay.filter) == Some(Seq::<char>::empty()),
        r.overlay.selected == 0,
{
    let table = help_table(bindings);
    let ghost view = table_of(bindings@);
    assert(group_views(table@).len() == table@.len());
    let mut full: Vec<OverlayRow> = Vec::new();
    let mut entries: Vec<(String, OverlayRow)> = Vec::new();
    let mut g: usize = 0;
    assert(overlay::row_parts(full@) =~= Seq::empty());
    assert(entry_parts(entries@) =~= Seq::empty());
    while g < table.len()
        invariant
            g <= table@.len(),
            table@.len() == view.len(),
            group_views(table@) == view,
            overlay::row_parts(full@) == full_rows(view, g as int),
            entry_parts(entries@) == entry_rows(view, g as int),
        decreases table@.len() - g,
    {
        let group = table[g].group;
        let ghost rows = view[g as int].1;
        assert(view[g as int] == (table@[g as int].group, row_views(table@[g as int].rows@)));
        assert(rows.len() == table@[g as int].rows@.len());
        let ghost done = entry_parts(entries@);
        if table[g].rows.len() == 0 {
            assert(search_rows(rows) =~= Seq::empty());
            assert(done + search_rows(rows) =~= done);
        } else {
            let ghost before = overlay::row_parts(full@);
            let heading = OverlayRow::new(
                text::cat3("— ", group.label(), " —"),
                String::new(),
                OverlayTarget::Nothing,
            );
            assert(heading.parts().1 =~= Seq::<char>::empty());
            let ghost head = heading.parts();
            full.push(heading);
            let ghost base = before.push(head);
            assert(overlay::row_parts(full@) =~= base);
            let mut i: usize = 0;
            assert(base + action_rows(rows).take(0) =~= base);
            assert(done + search_rows(rows).take(0) =~= done);
            while i < table[g].rows.len()
                invariant
                    g < table@.len(),
                    i <= table@[g as int].rows@.len(),
                    rows == row_views(table@[g as int].rows@),
                    rows.len() == table@[g as int].rows@.len(),
                    overlay::row_parts(full@) == base + action_rows(rows).take(i as int),
                    entry_parts(entries@) == done + search_rows(rows).take(i as int),
                decreases table@[g as int].rows@.len() - i,
            {
                let row = &table[g].rows[i];
                assert(rows[i as int] == row@);
                let ghost shown = overlay::row_parts(full@);
                let ghost found = entry_parts(entries@);
                let display = display_row(row);
                let ghost parts = display.parts();
                let copy = copied_row(&display);
                let key = search_text(row);
                let ghost entry = (key@, copy.parts());
                full.push(display);
                entries.push((key, copy));
                assert(overlay::row_parts(full@) =~= shown.push(parts));
                assert(entry_parts(entries@) =~= found.push(entry));
                assert(base + action_rows(rows).take(i + 1) =~= (base + action_rows(rows).take(
                    i as int,
                )).push(action_rows(rows)[i as int]));
                assert(done + search_rows(rows).take(i + 1) =~= (done + search_rows(rows).take(
                    i as int,
                )).push(search_rows(rows)[i as int]));
                i += 1;
            }
            assert(action_rows(rows).take(i as int) =~= action_rows(rows));
            assert(search_rows(rows).take(i as int) =~= search_rows(rows));
        }
        g += 1;
    }
    let rows = copied_rows(&full);
    let mut overlay = Overlay::new("help · type to filter · esc closes", rows);
    overlay.filter = Some(String::new());
    HelpOverlay { full, entries, overlay }
}

// ------------------------------------------------------------------------------- hints

/// What the hint after the prefix key shows, in order.
pub open spec fn hinted() -> Seq<BoundAction> {
    seq![
        BoundAction::SplitRight,
        BoundAction::SplitDown,
        BoundAction::NewTab,
        BoundAction::ClosePane,
        BoundAction::Zoom,
        BoundAction::Navigate,
        BoundAction::NextPane,
        BoundAction::WorkspacePicker,
        BoundAction::NewWorkspace,
        BoundAction::Rename,
        BoundAction::Detach,
        BoundAction::Settings,
        BoundAction::Help,
    ]
}

fn hint_actions() -> (r: Vec<BoundAction>)
    ensures
        r@ == hinted(),
{
    let actions: Vec<BoundAction> = vec![
        BoundAction::SplitRight,
        BoundAction::SplitDown,
        BoundAction::NewTab,
        BoundAction::ClosePane,
        BoundAction::Zoom,
        BoundAction::Navigate,
        BoundAction::NextPane,
        BoundAction::WorkspacePicker,
        BoundAction::NewWorkspace,
        BoundAction::Rename,
        BoundAction::Detach,
        BoundAction::Settings,
        BoundAction::Help,
    ];
    assert(actions@ =~= hinted());
    actions
}

/// The first chord of an action, from binding `from` on.
pub open spec fn chord_from(bindings: Seq<Binding>, action: BoundAction, from: int) -> Option<
    Seq<char>,
>
    decreases bindings.len() - from,
{
    if from < 0 || from >= bindings.len() {
        None
    } else if bindings[from].action == action {
        if bindings[from].chords@.len() > 0 {
            Some(bindings[from].chords@[0]@)
        } else {
            None
        }
    } else {
        chord_from(bindings, action, from + 1)
    }
}

/// A chord without the words for the prefix in front.
pub open spec fn bare(chord: Seq<char>) -> Seq<char>
    decreases chord.len(),
    via bare_shrinks
{
    if "prefix+"@.is_prefix_of(chord) {
        bare(chord.skip("prefix+"@.len() as int))
    } else {
        chord
    }
}

#[via_fn]
proof fn bare_shrinks(chord: Seq<char>) {
    reveal_strlit("prefix+");
}

/// The first chord of an action, without the prefix.
pub open spec fn first_chord(bindings: Seq<Binding>, action: BoundAction) -> Option<Seq<char>> {
    match chord_from(bindings, action, 0) {
        Some(chord) => Some(bare(chord)),
        None => None,
    }
}

fn bare_chord(chord: &str) -> (r: String)
    ensures
        r@ == bare(chord@),
{
    proof {
        reveal_strlit("prefix+");
    }
    let mut left = chord;
    while text::starts_with(left, "prefix+")
        invariant
            bare(left@) == bare(chord@),
            "prefix+"@.len() == 7,
        decreases left@.len(),
    {
        if let Some(rest) = text::strip_prefix(left, "prefix+") {
            assert(rest@ == left@.skip("prefix+"@.len() as int));
            left = rest;
        }
    }
    left.to_owned()
}

fn find_chord(bindings: &Vec<Binding>, action: BoundAction) -> (r: Option<String>)
    ensures
        text::option_text(r) == first_chord(bindings@, action),
{
    let mut i: usize = 0;
    while i < bindings.len()
        invariant
            i <= bindings@.len(),
            chord_from(bindings@, action, 0) == chord_from(bindings@, action, i as int),
        decreases bindings@.len() - i,
    {
        if bindings[i].action == action {
            if bindings[i].chords.len() > 0 {
                return Some(bare_chord(bindings[i].chords[0].as_str()));
            }
            return None;
        }
        i += 1;
    }
    None
}

/// The chords of the first `count` hinted actions that have one.
pub open spec fn hint_chords(bindings: Seq<Binding>, count: int) -> Seq<Seq<char>>
    decreases count,
{
    if count <= 0 {
        Seq::empty()
    } else {
        let before = hint_chords(bindings, count - 1);
        match first_chord(bindings, hinted()[count - 1]) {
            Some(chord) => before.push(chord),
            None => before,
        }
    }
}

/// At most twelve chords, so that the status bar stays one line.
pub open spec fn hint(bindings: Seq<Binding>) -> Seq<Seq<char>> {
    let chords = hint_chords(bindings, 13);
    if chords.len() > 12 {
        chords.take(12)
    } else {
        chords
    }
}

/// The chords shown after the prefix key.
pub fn prefix_hint(bindings: &Vec<Binding>) -> (r: String)
    ensures
        r@ == text::joined(hint(bindings@), " "@),
{
    let actions = hint_actions();
    let mut chords: Vec<String> = Vec::new();
    let mut i: usize = 0;
    assert(text::texts(chords@) =~= Seq::empty());
    while i < actions.len()
        invariant
            i <= actions@.len(),
            actions@ == hinted(),
            text::texts(chords@) == hint_chords(bindings@, i as int),
        decreases actions@.len() - i,
    {
        if let Some(chord) = find_chord(bindings, actions[i]) {
            let ghost before = text::texts(chords@);
            let ghost seen = chord@;
            chords.push(chord);
            assert(text::texts(chords@) =~= before.push(seen));
        }
        i += 1;
    }
    assert(text::texts(chords@).len() == chords@.len());
    if chords.len() > 12 {
        chords.truncate(12);
        assert(text::texts(chords@) =~= hint_chords(bindings@, 13).take(12));
    }
    text::join(&chords, " ")
}

/// The hint of a first attach. `prefix` is the prefix key as it is written.
pub fn attach_hint(prefix: &str, bindings: &Vec<Binding>) -> (r: String)
    ensures
        r@ == prefix@ + " "@ + (match first_chord(bindings@, BoundAction::Help) {
            Some(chord) => chord,
            None => "?"@,
        }) + " for help"@,
{
    let chord = match find_chord(bindings, BoundAction::Help) {
        Some(chord) => chord,
        None => "?".to_owned(),
    };
    let mut out = text::cat3(prefix, " ", chord.as_str());
    out.append(" for help");
    out
}

// -------------------------------------------------------------------------- key lists

/// The longest label among the first `count` rows.
pub open spec fn widest(rows: Seq<RowView>, count: int) -> int
    decreases count,
{
    if count <= 0 {
        0
    } else {
        num::max(widest(rows, count - 1), rows[count - 1].label.len() as int)
    }
}

/// The longest label of the first `count` groups.
pub open spec fn label_width(table: Seq<(Group, Seq<RowView>)>, count: int) -> int
    decreases count,
{
    if count <= 0 {
        0
    } else {
        num::max(
            label_width(table, count - 1),
            widest(table[count - 1].1, table[count - 1].1.len() as int),
        )
    }
}

/// The line of an action, its label padded to a width.
pub open spec fn key_line(row: RowView, width: int) -> Seq<char> {
    "  "@ + text::padded_to(row.label, width) + "  "@ + shown_chords(row.chords) + "\n"@
}

pub open spec fn key_lines(rows: Seq<RowView>, width: int, count: int) -> Seq<char>
    decreases count,
{
    if count <= 0 {
        Seq::empty()
    } else {
        key_lines(rows, width, count - 1) + key_line(rows[count - 1], width)
    }
}

/// The text of the first `count` groups that have rows, a blank line after each.
pub open spec fn key_groups(table: Seq<(Group, Seq<RowView>)>, width: int, count: int) -> Seq<char>
    decreases count,
{
    if count <= 0 {
        Seq::empty()
    } else {
        let (group, rows) = table[count - 1];
        let before = key_groups(table, width, count - 1);
        if rows.len() == 0 {
            before
        } else {
            before + group.capitals() + "\n"@ + key_lines(rows, width, rows.len() as int) + "\n"@
        }
    }
}

/// A text without the line ends at its end.
pub open spec fn unended(s: Seq<char>) -> Seq<char>
    decreases s.len(),
{
    if s.len() > 0 && s.last() == '\n' {
        unended(s.drop_last())
    } else {
        s
    }
}

fn row_width(rows: &Vec<HelpRow>) -> (r: usize)
    ensures
        r == widest(row_views(rows@), rows@.len() as int),
{
    let mut width: usize = 0;
    let ghost all = row_views(rows@);
    let mut i: usize = 0;
    while i < rows.len()
        invariant
            i <= rows@.len(),
            all == row_views(rows@),
            width == widest(all, i as int),
        decreases rows@.len() - i,
    {
        assert(all[i as int] == rows@[i as int]@);
        width = num::max_usize(width, rows[i].label.as_str().unicode_len());
        i += 1;
    }
    width
}

/// The binding table as aligned text.
pub fn keys_text(bindings: &Vec<Binding>) -> (r: String)
    ensures
        r@ == unended(
            key_groups(table_of(bindings@), label_width(table_of(bindings@), 5), 5),
        ) + "\n"@,
{
    let table = help_table(bindings);
    let ghost view = table_of(bindings@);
    assert(group_views(table@).len() == table@.len());
    let mut width: usize = 0;
    let mut g: usize = 0;
    while g < table.len()
        invariant
            g <= table@.len(),
            group_views(table@) == view,
            table@.len() == view.len(),
            width == label_width(view, g as int),
        decreases table@.len() - g,
    {
        assert(view[g as int] == (table@[g as int].group, row_views(table@[g as int].rows@)));
        width = num::max_usize(width, row_width(&table[g].rows));
        g += 1;
    }
    let mut out = String::new();
    let mut k: usize = 0;
    assert(out@ =~= Seq::empty());
    while k < table.len()
        invariant
            k <= table@.len(),
            group_views(table@) == view,
            table@.len() == view.len(),
            width == label_width(view, 5),
            out@ == key_groups(view, width as int, k as int),
        decreases table@.len() - k,
    {
        let ghost rows = view[k as int].1;
        assert(view[k as int] == (table@[k as int].group, row_views(table@[k as int].rows@)));
        assert(rows.len() == table@[k as int].rows@.len());
        if table[k].rows.len() > 0 {
            out.append(table[k].group.capital_label());
            out.append("\n");
            let ghost base = out@;
            let mut i: usize = 0;
            assert(base + key_lines(rows, width as int, 0) =~= base);
            while i < table[k].rows.len()
                invariant
                    k < table@.len(),
                    i <= table@[k as int].rows@.len(),
                    rows == row_views(table@[k as int].rows@),
                    out@ == base + key_lines(rows, width as int, i as int),
                decreases table@[k as int].rows@.len() - i,
            {
                let row = &table[k].rows[i];
                assert(rows[i as int] == row@);
                let label = text::padded(row.label.as_str(), width);
                let chords = joined(row);
                let mut line = text::cat3("  ", label.as_str(), "  ");
                line.append(chords.as_str());
                line.append("\n");
                out.append(line.as_str());
                assert(out@ =~= base + key_lines(rows, width as int, i + 1));
                i += 1;
            }
            out.append("\n");
        }
        k += 1;
    }
    let ghost whole = out@;
    let mut going = true;
    while going
        invariant
            unended(out@) == unended(whole),
            !going ==> out@ == unended(whole),
        decreases out@.len(), (if going {
            1int
        } else {
            0int
        }),
    {
        let count = out.as_str().unicode_len();
        if count > 0 && out.as_str().get_char(count - 1) == '\n' {
            assert(out@.last() == '\n');
            let ghost before = out@;
            let _ = out.pop();
            assert(out@ =~= before.drop_last());
        } else {
            going = false;
        }
    }
    out.append("\n");
    out
}

/// One entry of the list of keys.
#[derive(Debug, PartialEq, Eq)]
pub struct KeyEntry {
    pub group: String,
    pub action: String,
    pub label: String,
    pub chords: Vec<String>,
    pub global: bool,
}

impl KeyEntry {
    /// Whether an entry is the one of a row in a group.
    pub open spec fn of(self, group: Group, row: RowView) -> bool {
        &&& self.group@ == group.heading()
        &&& self.action@ == row.action
        &&& self.label@ == row.label
        &&& text::texts(self.chords@) == row.chords
        &&& self.global == row.global
    }
}

/// The rows of the first `count` groups, each with its group.
pub open spec fn flat(table: Seq<(Group, Seq<RowView>)>, count: int) -> Seq<(Group, RowView)>
    decreases count,
{
    if count <= 0 {
        Seq::empty()
    } else {
        let (group, rows) = table[count - 1];
        flat(table, count - 1) + rows.map_values(|row: RowView| (group, row))
    }
}

/// The binding table as one list.
pub fn key_entries(bindings: &Vec<Binding>) -> (r: Vec<KeyEntry>)
    ensures
        r@.len() == flat(table_of(bindings@), 5).len(),
        forall|k: int|
            0 <= k < r@.len() ==> (#[trigger] r@[k]).of(
                flat(table_of(bindings@), 5)[k].0,
                flat(table_of(bindings@), 5)[k].1,
            ),
{
    let table = help_table(bindings);
    let ghost view = table_of(bindings@);
    assert(group_views(table@).len() == table@.len());
    let mut out: Vec<KeyEntry> = Vec::new();
    let mut g: usize = 0;
    while g < table.len()
        invariant
            g <= table@.len(),
            group_views(table@) == view,
            table@.len() == view.len(),
            out@.len() == flat(view, g as int).len(),
            forall|k: int|
                0 <= k < out@.len() ==> (#[trigger] out@[k]).of(
                    flat(view, g as int)[k].0,
                    flat(view, g as int)[k].1,
                ),
        decreases table@.len() - g,
    {
        let group = table[g].group;
        let ghost rows = view[g as int].1;
        assert(view[g as int] == (table@[g as int].group, row_views(table@[g as int].rows@)));
        let ghost base = flat(view, g as int);
        let ghost whole = flat(view, g + 1);
        assert(whole == base + rows.map_values(|row: RowView| (group, row)));
        let mut i: usize = 0;
        while i < table[g].rows.len()
            invariant
                g < table@.len(),
                i <= table@[g as int].rows@.len(),
                rows == row_views(table@[g as int].rows@),
                rows.len() == table@[g as int].rows@.len(),
                whole == base + rows.map_values(|row: RowView| (group, row)),
                out@.len() == base.len() + i,
                forall|k: int|
                    0 <= k < out@.len() ==> (#[trigger] out@[k]).of(whole[k].0, whole[k].1),
            decreases table@[g as int].rows@.len() - i,
        {
            let row = &table[g].rows[i];
            assert(rows[i as int] == row@);
            assert(whole[base.len() + i] == (group, row@));
            out.push(
                KeyEntry {
                    group: group.label().to_owned(),
                    action: row.action.clone(),
                    label: row.label.clone(),
                    chords: text::copied(&row.chords),
                    global: row.global,
                },
            );
            i += 1;
        }
        g += 1;
    }
    out
}

/// The chords of a table row in the documentation.
pub open spec fn quoted_chords(chords: Seq<Seq<char>>) -> Seq<char> {
    if chords.len() == 0 {
        "unbound"@
    } else {
        text::joined(chords.map_values(|chord: Seq<char>| "`"@ + chord + "`"@), ", "@)
    }
}

/// The line of an action in the documentation.
pub open spec fn table_line(row: RowView) -> Seq<char> {
    "| `"@ + row.action + "` | "@ + quoted_chords(row.chords) + " |\n"@
}

pub open spec fn table_lines(rows: Seq<(Group, RowView)>, count: int) -> Seq<char>
    decreases count,
{
    if count <= 0 {
        Seq::empty()
    } else {
        table_lines(rows, count - 1) + table_line(rows[count - 1].1)
    }
}

fn quoted(chords: &Vec<String>) -> (r: String)
    ensures
        r@ == quoted_chords(text::texts(chords@)),
{
    let ghost list = text::texts(chords@);
    let ghost all = list.map_values(|chord: Seq<char>| "`"@ + chord + "`"@);
    assert(list.len() == chords@.len());
    if chords.len() == 0 {
        return "unbound".to_owned();
    }
    let mut parts: Vec<String> = Vec::new();
    let mut i: usize = 0;
    assert(text::texts(parts@) =~= all.take(0));
    while i < chords.len()
        invariant
            i <= chords@.len(),
            list == text::texts(chords@),
            chords@.len() == all.len(),
            all == list.map_values(|chord: Seq<char>| "`"@ + chord + "`"@),
            text::texts(parts@) == all.take(i as int),
        decreases chords@.len() - i,
    {
        let ghost before = text::texts(parts@);
        assert(list[i as int] == chords@[i as int]@);
        let part = text::cat3("`", chords[i].as_str(), "`");
        let ghost seen = part@;
        parts.push(part);
        assert(text::texts(parts@) =~= before.push(seen));
        assert(all.take(i + 1) =~= all.take(i as int).push(all[i as int]));
        i += 1;
    }
    assert(all.take(i as int) =~= all);
    text::join(&parts, ", ")
}

/// The key table of the documentation.
pub fn markdown_table(bindings: &Vec<Binding>) -> (r: String)
    ensures
        r@ == "| Action name | Default |\n|---|---|\n"@ + table_lines(
            flat(table_of(bindings@), 5),
            flat(table_of(bindings@), 5).len() as int,
        ),
{
    let entries = key_entries(bindings);
    let ghost rows = flat(table_of(bindings@), 5);
    let mut out = "| Action name | Default |\n|---|---|\n".to_owned();
    let ghost base = out@;
    let mut i: usize = 0;
    assert(base + table_lines(rows, 0) =~= base);
    while i < entries.len()
        invariant
            i <= entries@.len(),
            entries@.len() == rows.len(),
            forall|k: int|
                0 <= k < entries@.len() ==> (#[trigger] entries@[k]).of(rows[k].0, rows[k].1),
            out@ == base + table_lines(rows, i as int),
        decreases entries@.len() - i,
    {
        assert(entries@[i as int].of(rows[i as int].0, rows[i as int].1));
        let chords = quoted(&entries[i].chords);
        let mut line = text::cat3("| `", entries[i].action.as_str(), "` | ");
        line.append(chords.as_str());
        line.append(" |\n");
        out.append(line.as_str());
        assert(out@ =~= base + table_lines(rows, i + 1));
        i += 1;
    }
    out
}

// -------------------------------------------------------------------------- state file

/// What the `toml` crate reads under a key of a document: a truth value, or something
/// else or nothing. No answer at all where the text is not a document.
pub uninterp spec fn toml_flag(source: Seq<char>, key: Seq<char>) -> Option<Option<bool>>;

/// The document that the `toml` crate writes once a truth value stands under a key; an
/// unreadable document counts as an empty one. Nothing where it cannot be written.
pub uninterp spec fn toml_with_flag(source: Seq<char>, key: Seq<char>, value: bool) -> Option<
    Seq<char>,
>;

/// Parses a `toml::Table` and looks a truth value up with `Table::get` and
/// `Value::as_bool`; named by `toml_flag`.
#[verifier::external_body]
fn read_flag(source: &str, key: &str) -> (r: Option<Option<bool>>)
    ensures
        r == toml_flag(source@, key@),
{
    let table = source.parse::<toml::Table>().ok()?;
    Some(table.get(key).and_then(toml::Value::as_bool))
}

pub open spec fn blank(c: char) -> bool {
    c == ' ' || c == '\t' || c == '\n' || c == '\r'
}

/// A quote as a code of four digits, without its backslash.
pub open spec fn short_code(quote: char) -> Seq<char> {
    seq!['u', '0', '0', '2', if quote == '"' { '2' } else { '7' }]
}

/// A quote as a code of eight digits, without its backslash.
pub open spec fn long_code(quote: char) -> Seq<char> {
    seq!['U', '0', '0', '0', '0', '0', '0', '2', if quote == '"' { '2' } else { '7' }]
}

/// How many quotes of one kind a text of a document would have in a row, were it
/// written from position `i` on: plain, behind a backslash or as a code, with line ends
/// behind a backslash left out. While `folding`, blanks are left out too.
pub open spec fn quotes_at(s: Seq<char>, quote: char, i: int, folding: bool) -> int
    decreases s.len() - i,
{
    if i < 0 || i >= s.len() {
        0
    } else if folding && blank(s[i]) {
        quotes_at(s, quote, i + 1, true)
    } else if s[i] == quote {
        1 + quotes_at(s, quote, i + 1, false)
    } else if s[i] != '\\' || i + 1 >= s.len() {
        0
    } else if s[i + 1] == '"' && quote == '"' {
        1 + quotes_at(s, quote, i + 2, false)
    } else if blank(s[i + 1]) {
        quotes_at(s, quote, i + 1, true)
    } else if text::occurs_at(s, short_code(quote), i + 1) {
        1 + quotes_at(s, quote, i + 6, false)
    } else if text::occurs_at(s, long_code(quote), i + 1) {
        1 + quotes_at(s, quote, i + 10, false)
    } else {
        0
    }
}

/// Nowhere in `s` do 256 quotes of one kind read one after the other, so that no text
/// of the document has as many in a row.
pub open spec fn short_runs(s: Seq<char>) -> bool {
    forall|i: int|
        0 <= i < s.len() ==> #[trigger] quotes_at(s, '"', i, false) < 256 && quotes_at(
            s,
            '\'',
            i,
            false,
        ) < 256
}

fn is_blank(c: char) -> (r: bool)
    ensures
        r == blank(c),
{
    c == ' ' || c == '\t' || c == '\n' || c == '\r'
}

/// Counts the quotes that come one after the other from a position.
fn count_quotes(chars: &Vec<char>, quote: char, start: usize) -> (r: usize)
    requires
        start < chars@.len(),
    ensures
        r == quotes_at(chars@, quote, start as int, false),
{
    let digit = if quote == '"' {
        '2'
    } else {
        '7'
    };
    let short: Vec<char> = vec!['u', '0', '0', '2', digit];
    let long: Vec<char> = vec!['U', '0', '0', '0', '0', '0', '0', '2', digit];
    assert(short@ =~= short_code(quote));
    assert(long@ =~= long_code(quote));
    let mut count: usize = 0;
    let mut i: usize = start;
    let mut folding = false;
    while i < chars.len()
        invariant
            short@ == short_code(quote),
            long@ == long_code(quote),
            start <= i <= chars@.len(),
            count <= i,
            count + quotes_at(chars@, quote, i as int, folding) == quotes_at(
                chars@,
                quote,
                start as int,
                false,
            ),
        decreases chars@.len() - i,
    {
        if folding && is_blank(chars[i]) {
            i += 1;
        } else if chars[i] == quote {
            count += 1;
            i += 1;
            folding = false;
        } else if chars[i] != '\\' || i + 1 >= chars.len() {
            return count;
        } else if chars[i + 1] == '"' && quote == '"' {
            count += 1;
            i += 2;
            folding = false;
        } else if is_blank(chars[i + 1]) {
            i += 1;
            folding = true;
        } else if text::part_at(chars, &short, i + 1) {
            count += 1;
            i += 6;
            folding = false;
        } else if text::part_at(chars, &long, i + 1) {
            count += 1;
            i += 10;
            folding = false;
        } else {
            return count;
        }
    }
    count
}

fn has_short_runs(s: &str) -> (r: bool)
    ensures
        r == short_runs(s@),
{
    let chars = text::chars_of(s);
    let mut i: usize = 0;
    while i < chars.len()
        invariant
            chars@ == s@,
            i <= chars@.len(),
            forall|k: int|
                0 <= k < i ==> #[trigger] quotes_at(s@, '"', k, false) < 256 && quotes_at(
                    s@,
                    '\'',
                    k,
                    false,
                ) < 256,
        decreases chars@.len() - i,
    {
        if count_quotes(&chars, '"', i) >= 256 || count_quotes(&chars, '\'', i) >= 256 {
            assert(quotes_at(s@, '"', i as int, false) >= 256 || quotes_at(
                s@,
                '\'',
                i as int,
                false,
            ) >= 256);
            return false;
        }
        i += 1;
    }
    true
}

/// A document says a truth value under a key, and under every other key what another
/// document says there.
pub open spec fn flag_set(source: Seq<char>, key: Seq<char>, value: bool, out: Seq<char>) -> bool {
    toml_flag(out, key) == Some(Some(value)) && forall|other: Seq<char>|
        other != key ==> #[trigger] toml_flag(out, other) == Some(
            match toml_flag(source, other) {
                Some(found) => found,
                None => None,
            },
        )
}

/// Parses a `toml::Table`, puts a truth value into it with `Table::insert` and writes
/// it with `toml::to_string`. What comes out is named by `toml_with_flag`. Out of an
/// empty or unreadable document and a key of plain characters comes one that gives the
/// value back. Of other documents it is claimed only that what comes out gives the value
/// back if it parses, and under other keys what was there: the parser limits how deep a
/// path may nest, and the writer does not. The writer counts the quotes that follow each
/// other in a text with a byte, so documents with long runs of them are left out.
#[verifier::external_body]
fn write_flag(source: &str, key: &str, value: bool) -> (r: Option<String>)
    requires
        toml_flag(source@, key@) is None || short_runs(source@),
    ensures
        text::option_text(r) == toml_with_flag(source@, key@, value),
        (source@.len() == 0 || toml_flag(source@, key@) is None) && text::bare_key(key@) ==> r is Some
            && toml_flag(r->0@, key@) is Some,
        r matches Some(out) ==> text::bare_key(key@) && toml_flag(out@, key@) is Some ==> flag_set(
            source@,
            key@,
            value,
            out@,
        ),
{
    let mut table = source.parse::<toml::Table>().unwrap_or_default();
    table.insert(key.to_owned(), toml::Value::Boolean(value));
    toml::to_string(&table).ok()
}

/// What a state file says of the help overlay.
pub open spec fn seen_in(source: Option<String>) -> bool {
    match source {
        Some(text) => toml_flag(text@, "help_seen"@) == Some(Some(true)),
        None => false,
    }
}

/// Whether the help overlay was opened before. A missing or unreadable file reads as
/// not opened.
pub fn state_seen(source: &Option<String>) -> (r: bool)
    ensures
        r == seen_in(*source),
{
    match source {
        Some(source) => read_flag(source.as_str(), "help_seen") == Some(Some(true)),
        None => false,
    }
}

/// The state file once the help overlay was opened; everything else in it stays.
/// Nothing where it cannot be written, which holds of a text with hundreds of quotes in
/// a row. A file that was missing or unreadable says that the overlay was opened, and so
/// does any other that can be read again.
pub fn mark_seen(source: &Option<String>) -> (r: Option<String>)
    ensures
        text::option_text(r) == (match *source {
            Some(text) => if toml_flag(text@, "help_seen"@) is None || short_runs(text@) {
                toml_with_flag(text@, "help_seen"@, true)
            } else {
                None
            },
            None => toml_with_flag(Seq::empty(), "help_seen"@, true),
        }),
        (*source matches Some(text) ==> toml_flag(text@, "help_seen"@) is None) ==> r is Some
            && seen_in(r),
        r matches Some(out) ==> toml_flag(out@, "help_seen"@) is Some ==> flag_set(
            (match *source {
                Some(text) => text@,
                None => Seq::empty(),
            }),
            "help_seen"@,
            true,
            out@,
        ),
{
    let empty = String::new();
    assert(empty@ =~= Seq::<char>::empty());
    proof {
        reveal_strlit("help_seen");
    }
    match source {
        Some(source) => if read_flag(source.as_str(), "help_seen").is_none() || has_short_runs(
            source.as_str(),
        ) {
            write_flag(source.as_str(), "help_seen", true)
        } else {
            None
        },
        None => write_flag(empty.as_str(), "help_seen", true),
    }
}

// ---------------------------------------------------------------------- configuration

/// What a key is called in a chord.
pub open spec fn key_text(code: KeyCode) -> Seq<char> {
    match code {
        KeyCode::Up => "up"@,
        KeyCode::Down => "down"@,
        KeyCode::Left => "left"@,
        KeyCode::Right => "right"@,
        KeyCode::Tab => "tab"@,
        KeyCode::F(n) => "F"@ + text::decimal(n as nat),
        KeyCode::Char(' ') => "space"@,
        KeyCode::Char(c) => seq![c],
        _ => "?"@,
    }
}

/// A chord as it is written.
pub open spec fn chord_text(key: KeyEvent) -> Seq<char> {
    (if key.modifiers.control {
        "ctrl+"@
    } else {
        ""@
    }) + (if key.modifiers.alt {
        "alt+"@
    } else {
        ""@
    }) + key_text(key.code)
}

/// A chord as it is written.
pub fn render_chord(key: KeyEvent) -> (r: String)
    ensures
        r@ == chord_text(key),
{
    let control = if key.modifiers.control {
        "ctrl+"
    } else {
        ""
    };
    let alt = if key.modifiers.alt {
        "alt+"
    } else {
        ""
    };
    let name = match key.code {
        KeyCode::Up => "up".to_owned(),
        KeyCode::Down => "down".to_owned(),
        KeyCode::Left => "left".to_owned(),
        KeyCode::Right => "right".to_owned(),
        KeyCode::Tab => "tab".to_owned(),
        KeyCode::F(n) => {
            let number = text::decimal_text(n as u64);
            text::cat("F", number.as_str())
        },
        KeyCode::Char(' ') => "space".to_owned(),
        KeyCode::Char(c) => {
            let mut one = String::new();
            one.push(c);
            assert(one@ =~= seq![c]);
            one
        },
        _ => "?".to_owned(),
    };
    text::cat3(control, alt, name.as_str())
}

/// A chord that follows the prefix, as it is written: one with a modifier says so, lest
/// it be taken for one that works on its own.
pub open spec fn prefixed_text(key: KeyEvent) -> Seq<char> {
    (if key.modifiers.control || key.modifiers.alt {
        "prefix+"@
    } else {
        ""@
    }) + chord_text(key)
}

fn render_prefixed(key: KeyEvent) -> (r: String)
    ensures
        r@ == prefixed_text(key),
{
    let lead = if key.modifiers.control || key.modifiers.alt {
        "prefix+"
    } else {
        ""
    };
    text::cat(lead, render_chord(key).as_str())
}

/// The chords of an action among the first `count` bindings; `after` where they follow
/// the prefix.
pub open spec fn chords_of(
    bindings: Seq<(KeyEvent, config::Action)>,
    after: bool,
    action: config::Action,
    count: int,
) -> Seq<Seq<char>>
    decreases count,
{
    if count <= 0 {
        Seq::empty()
    } else {
        let before = chords_of(bindings, after, action, count - 1);
        if bindings[count - 1].1 == action {
            before.push(
                if after {
                    prefixed_text(bindings[count - 1].0)
                } else {
                    chord_text(bindings[count - 1].0)
                },
            )
        } else {
            before
        }
    }
}

fn list_chords(
    bindings: &Vec<(KeyEvent, config::Action)>,
    after: bool,
    action: config::Action,
) -> (r: Vec<String>)
    ensures
        text::texts(r@) == chords_of(bindings@, after, action, bindings@.len() as int),
{
    let mut out: Vec<String> = Vec::new();
    let mut i: usize = 0;
    assert(text::texts(out@) =~= Seq::empty());
    while i < bindings.len()
        invariant
            i <= bindings@.len(),
            text::texts(out@) == chords_of(bindings@, after, action, i as int),
        decreases bindings@.len() - i,
    {
        let (key, bound) = bindings[i];
        if bound == action {
            let ghost before = text::texts(out@);
            let chord = if after {
                render_prefixed(key)
            } else {
                render_chord(key)
            };
            let ghost seen = chord@;
            out.push(chord);
            assert(text::texts(out@) =~= before.push(seen));
        }
        i += 1;
    }
    out
}

/// The chords that an action is bound to: those after the prefix, then those that work
/// on their own.
pub open spec fn all_chords(config: Config, action: config::Action) -> Seq<Seq<char>> {
    chords_of(config.bindings@, true, action, config.bindings@.len() as int) + chords_of(
        config.globals@,
        false,
        action,
        config.globals@.len() as int,
    )
}

/// The chords that an action is bound to.
pub fn chords_for(config: &Config, action: config::Action) -> (r: Vec<String>)
    ensures
        text::texts(r@) == all_chords(*config, action),
{
    let mut out = list_chords(&config.bindings, true, action);
    let mut alone = list_chords(&config.globals, false, action);
    let ghost first = out@;
    let ghost second = alone@;
    out.append(&mut alone);
    assert(text::texts(out@) =~= text::texts(first) + text::texts(second));
    out
}

/// Whether a binding is the one of a configured action.
pub open spec fn binds(binding: Binding, config: Config, action: config::Action) -> bool {
    &&& binding.name@ == config::action_name(action)
    &&& binding.action == app::as_bound(action)
    &&& text::texts(binding.chords@) == all_chords(config, action)
}

/// Every configured action with its chords.
pub fn config_bindings(config: &Config) -> (r: Vec<Binding>)
    ensures
        r@.len() == config::Action::listed().len(),
        forall|k: int|
            0 <= k < r@.len() ==> binds(#[trigger] r@[k], *config, config::Action::listed()[k]),
{
    let actions = config::Action::all();
    let mut out: Vec<Binding> = Vec::new();
    let mut i: usize = 0;
    while i < actions.len()
        invariant
            i <= actions@.len(),
            actions@ == config::Action::listed(),
            out@.len() == i,
            forall|k: int|
                0 <= k < out@.len() ==> binds(
                    #[trigger] out@[k],
                    *config,
                    config::Action::listed()[k],
                ),
        decreases actions@.len() - i,
    {
        let action = actions[i];
        out.push(
            Binding {
                name: action.name().to_owned(),
                action: app::bound_action(action),
                chords: chords_for(config, action),
            },
        );
        i += 1;
    }
    out
}

/// The keys that a chord can name.
pub open spec fn nameable(code: KeyCode) -> bool {
    match code {
        KeyCode::Up | KeyCode::Down | KeyCode::Left | KeyCode::Right | KeyCode::Tab => true,
        KeyCode::F(n) => n <= 9,
        KeyCode::Char(c) => c == ' ' || !text::white_space(c),
        _ => false,
    }
}

proof fn lemma_no_prefix(part: Seq<char>, s: Seq<char>, i: int)
    requires
        0 <= i < part.len(),
        i < s.len() ==> part[i] != s[i],
    ensures
        !part.is_prefix_of(s),
{
    if part.is_prefix_of(s) {
        assert(s.subrange(0, part.len() as int)[i] == s[i]);
    }
}

proof fn lemma_no_part(part: Seq<char>, s: Seq<char>)
    requires
        part.len() > 1,
        part.last() == '+',
        s.len() > 1 ==> forall|i: int| 0 <= i < s.len() ==> #[trigger] s[i] != '+',
    ensures
        !text::has_part(s, part),
{
    assert forall|at: int| !(#[trigger] text::occurs_at(s, part, at)) by {
        if text::occurs_at(s, part, at) {
            let end = at + part.len();
            assert(s.subrange(at, end)[part.len() - 1] == s[end - 1]);
        }
    }
}

proof fn lemma_key_text(code: KeyCode)
    requires
        nameable(code),
    ensures
        0 < key_text(code).len() <= 5,
        !text::white_space(key_text(code)[0]),
        !text::white_space(key_text(code).last()),
        config::chord_code(key_text(code)) == Some(code),
        !"ctrl+"@.is_prefix_of(key_text(code)),
        !"alt+"@.is_prefix_of(key_text(code)),
        key_text(code).len() > 1 ==> forall|i: int|
            0 <= i < key_text(code).len() ==> #[trigger] key_text(code)[i] != '+',
{
    reveal_strlit("up");
    reveal_strlit("down");
    reveal_strlit("left");
    reveal_strlit("right");
    reveal_strlit("tab");
    reveal_strlit("space");
    reveal_strlit("F");
    reveal_strlit("ctrl+");
    reveal_strlit("alt+");
    if let KeyCode::F(n) = code {
        reveal_with_fuel(text::decimal, 2);
        assert(key_text(code).len() == 2);
        assert(key_text(code)[0] == 'F');
    }
    lemma_no_prefix("ctrl+"@, key_text(code), 4);
    lemma_no_prefix("alt+"@, key_text(code), 3);
}

/// A chord as it is written is read back as the same key.
pub proof fn law_written_chords_are_read_back(key: KeyEvent)
    requires
        nameable(key.code),
        !key.modifiers.shift,
    ensures
        config::chord(chord_text(key)) == Some(key),
{
    let name = key_text(key.code);
    let written = chord_text(key);
    lemma_key_text(key.code);
    reveal_strlit("ctrl+");
    reveal_strlit("alt+");
    reveal_strlit("");
    assert(written.len() > 0);
    assert(written.last() == name.last());
    assert(!text::white_space(written[0]));
    assert(text::trim(written) == written);
    let alt = if key.modifiers.alt {
        "alt+"@ + name
    } else {
        name
    };
    if key.modifiers.control {
        assert(written =~= "ctrl+"@ + alt);
        assert(written.subrange(0, 5) =~= "ctrl+"@);
        assert(written.skip(5) =~= alt);
    } else {
        assert(written =~= alt);
        if key.modifiers.alt {
            assert(written[0] == 'a');
            lemma_no_prefix("ctrl+"@, written, 0);
        }
    }
    if key.modifiers.alt {
        assert(alt.subrange(0, 4) =~= "alt+"@);
        assert(alt.skip(4) =~= name);
    }
}

/// A chord counts as one that works on its own exactly where it was bound so: a key
/// without a modifier and a chord after the prefix never do, a key with a modifier
/// that is bound on its own does.
pub proof fn law_only_global_chords_are_marked(key: KeyEvent)
    requires
        nameable(key.code),
    ensures
        !global(prefixed_text(key)),
        global(chord_text(key)) == (key.modifiers.control || key.modifiers.alt),
{
    let name = key_text(key.code);
    let written = chord_text(key);
    lemma_key_text(key.code);
    reveal_strlit("ctrl+");
    reveal_strlit("alt+");
    reveal_strlit("prefix+");
    reveal_strlit("");
    if key.modifiers.control || key.modifiers.alt {
        let after = prefixed_text(key);
        assert(after.subrange(0, 7) =~= "prefix+"@);
        assert(written[0] == 'c' || written[0] == 'a');
        lemma_no_prefix("prefix+"@, written, 0);
        if key.modifiers.control {
            assert(written.subrange(0, 5) =~= "ctrl+"@);
            assert(text::occurs_at(written, "ctrl+"@, 0));
        } else {
            assert(written.subrange(0, 4) =~= "alt+"@);
            assert(text::occurs_at(written, "alt+"@, 0));
        }
    } else {
        assert(written =~= name);
        assert(prefixed_text(key) =~= name);
        lemma_no_part("ctrl+"@, name);
        lemma_no_part("alt+"@, name);
    }
}

} // verus!
