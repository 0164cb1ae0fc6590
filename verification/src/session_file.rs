//! Persisted session layouts, and when one describes a single unambiguous layout.

use std::collections::HashSet;
use vstd::prelude::*;

use crate::proto::{LayoutTree, NativeSession};
use crate::text;

verus! {

broadcast use vstd::std_specs::hash::group_hash_axioms;

/// Persisted-session file version understood by this build.
pub const SESSION_FILE_VERSION: u32 = 1;

/// Settings shared by client and daemon; both features are opt-in because they
/// can retain terminal data.
#[derive(Debug, Clone, Copy, PartialEq, Eq, Structural)]
pub struct SessionSettings {
    pub resume_agents: bool,
    pub pane_history: bool,
}

impl Default for SessionSettings {
    fn default() -> (r: Self)
        ensures
            r == (SessionSettings { resume_agents: false, pane_history: false }),
    {
        SessionSettings { resume_agents: false, pane_history: false }
    }
}

/// A persisted session layout.
#[derive(Debug, Clone, PartialEq, Eq)]
pub struct SessionFile {
    pub version: u32,
    pub name: String,
    pub active_workspace: u64,
    pub workspaces: Vec<WorkspaceFile>,
}

#[derive(Debug, Clone, PartialEq, Eq)]
pub struct WorkspaceFile {
    pub id: u64,
    pub name: String,
    pub root: Option<String>,
    /// Sidebar swatch color as `#rrggbb`, if the user set one.
    pub color: Option<String>,
    pub active_tab: u64,
    pub tabs: Vec<TabFile>,
}

#[derive(Debug, Clone, PartialEq, Eq)]
pub struct TabFile {
    pub id: u64,
    pub name: String,
    pub zoomed: bool,
    pub focused: u64,
    /// Pane tree; its leaf ids reference the `panes` list below.
    pub tree: LayoutTree,
    pub panes: Vec<PaneFile>,
}

#[derive(Debug, Clone, PartialEq, Eq)]
pub struct PaneFile {
    pub id: u64,
    pub title: String,
    pub cwd: Option<String>,
    /// The command this pane was spawned with, if any.
    pub command: Option<Vec<String>>,
    /// Hook-reported native conversation identity, when the agent supports it.
    pub native_session: Option<NativeSession>,
}

/// Why a session file is not usable.
#[derive(Debug, Clone, Copy, PartialEq, Eq, Structural)]
pub enum SessionFault {
    Version(u32),
    NoWorkspaces,
    DuplicateWorkspace(u64),
    NoTabs(u64),
    DuplicateTab(u64),
    NoPanes(u64),
    DuplicatePane(u64),
    RepeatedLeaf(u64),
    UnknownLeaf { tab: u64, pane: u64 },
    OutsideTree { tab: u64, pane: u64 },
}

impl SessionFault {
    pub open spec fn text(self) -> Seq<char> {
        match self {
            SessionFault::Version(v) => "unsupported session file version "@ + text::decimal(v as nat),
            SessionFault::NoWorkspaces => "session file has no workspaces"@,
            SessionFault::DuplicateWorkspace(id) => "duplicate workspace id "@ + text::decimal(id as nat),
            SessionFault::NoTabs(id) => "workspace "@ + text::decimal(id as nat) + " has no tabs"@,
            SessionFault::DuplicateTab(id) => "duplicate tab id "@ + text::decimal(id as nat),
            SessionFault::NoPanes(id) => "tab "@ + text::decimal(id as nat) + " has no panes"@,
            SessionFault::DuplicatePane(id) => "duplicate pane id "@ + text::decimal(id as nat),
            SessionFault::RepeatedLeaf(id) => "tab "@ + text::decimal(id as nat)
                + " names a pane twice in its tree"@,
            SessionFault::UnknownLeaf { tab, pane } => "tab "@ + text::decimal(tab as nat)
                + " tree references unknown pane "@ + text::decimal(pane as nat),
            SessionFault::OutsideTree { tab, pane } => "tab "@ + text::decimal(tab as nat) + " has pane "@
                + text::decimal(pane as nat) + " outside its tree"@,
        }
    }

    /// The message shown for this fault.
    pub fn message(&self) -> (r: String)
        ensures
            r@ == self.text(),
    {
        match *self {
            SessionFault::Version(v) => text::cat(
                "unsupported session file version ",
                text::decimal_text(v as u64).as_str(),
            ),
            SessionFault::NoWorkspaces => "session file has no workspaces".to_owned(),
            SessionFault::DuplicateWorkspace(id) => text::cat(
                "duplicate workspace id ",
                text::decimal_text(id).as_str(),
            ),
            SessionFault::NoTabs(id) => text::cat3(
                "workspace ",
                text::decimal_text(id).as_str(),
                " has no tabs",
            ),
            SessionFault::DuplicateTab(id) => text::cat(
                "duplicate tab id ",
                text::decimal_text(id).as_str(),
            ),
            SessionFault::NoPanes(id) => text::cat3(
                "tab ",
                text::decimal_text(id).as_str(),
                " has no panes",
            ),
            SessionFault::DuplicatePane(id) => text::cat(
                "duplicate pane id ",
                text::decimal_text(id).as_str(),
            ),
            SessionFault::RepeatedLeaf(id) => text::cat3(
                "tab ",
                text::decimal_text(id).as_str(),
                " names a pane twice in its tree",
            ),
            SessionFault::UnknownLeaf { tab, pane } => {
                let mut out = text::cat3(
                    "tab ",
                    text::decimal_text(tab).as_str(),
                    " tree references unknown pane ",
                );
                out.append(text::decimal_text(pane).as_str());
                out
            },
            SessionFault::OutsideTree { tab, pane } => {
                let mut out = text::cat3("tab ", text::decimal_text(tab).as_str(), " has pane ");
                out.append(text::decimal_text(pane).as_str());
                out.append(" outside its tree");
                out
            },
        }
    }
}

// --------------------------------------------------------------- pane trees

/// The pane ids of a tree's leaves, left to right.
pub open spec fn leaves(tree: LayoutTree) -> Seq<u64>
    decreases tree,
{
    match tree {
        LayoutTree::Leaf { pane } => seq![pane.0],
        LayoutTree::Split { first, second, .. } => leaves(*first) + leaves(*second),
    }
}

/// Appends the pane ids referenced by a tree's leaves, left to right.
pub fn tree_leaves(tree: &LayoutTree, output: &mut Vec<u64>)
    ensures
        final(output)@ == old(output)@ + leaves(*tree),
    decreases tree,
{
    match tree {
        LayoutTree::Leaf { pane } => {
            output.push(pane.0);
            assert(output@ =~= old(output)@ + leaves(*tree));
        },
        LayoutTree::Split { first, second, .. } => {
            tree_leaves(first, output);
            tree_leaves(second, output);
            assert(output@ =~= old(output)@ + leaves(*tree));
        },
    }
}

/// Every tree has at least one leaf.
pub proof fn law_trees_have_leaves(tree: LayoutTree)
    ensures
        leaves(tree).len() > 0,
    decreases tree,
{
    match tree {
        LayoutTree::Leaf { .. } => {},
        LayoutTree::Split { first, second, .. } => {
            law_trees_have_leaves(*first);
        },
    }
}

// ------------------------------------------------------------- the first fault

pub open spec fn pane_ids(panes: Seq<PaneFile>) -> Seq<u64> {
    panes.map_values(|p: PaneFile| p.id)
}

/// The first id that is in `seen` or occurred before.
pub open spec fn first_repeat(ids: Seq<u64>, seen: Set<u64>) -> Option<u64>
    decreases ids.len(),
{
    if ids.len() == 0 {
        None
    } else if seen.contains(ids[0]) {
        Some(ids[0])
    } else {
        first_repeat(ids.skip(1), seen.insert(ids[0]))
    }
}

/// The first id outside the set.
pub open spec fn first_missing(ids: Seq<u64>, set: Set<u64>) -> Option<u64>
    decreases ids.len(),
{
    if ids.len() == 0 {
        None
    } else if !set.contains(ids[0]) {
        Some(ids[0])
    } else {
        first_missing(ids.skip(1), set)
    }
}

/// The first fault of one tab, where `tab_seen` and `pane_seen` hold the ids
/// met before it.
pub open spec fn tab_fault(
    tab: TabFile,
    tab_seen: Set<u64>,
    pane_seen: Set<u64>,
) -> Option<SessionFault> {
    let ids = pane_ids(tab.panes@);
    let named = leaves(tab.tree);
    if tab_seen.contains(tab.id) {
        Some(SessionFault::DuplicateTab(tab.id))
    } else if ids.len() == 0 {
        Some(SessionFault::NoPanes(tab.id))
    } else if first_repeat(ids, pane_seen) is Some {
        Some(SessionFault::DuplicatePane(first_repeat(ids, pane_seen)->0))
    } else if first_repeat(named, Set::empty()) is Some {
        Some(SessionFault::RepeatedLeaf(tab.id))
    } else if first_missing(named, ids.to_set()) is Some {
        Some(SessionFault::UnknownLeaf { tab: tab.id, pane: first_missing(named, ids.to_set())->0 })
    } else if first_missing(ids, named.to_set()) is Some {
        Some(SessionFault::OutsideTree { tab: tab.id, pane: first_missing(ids, named.to_set())->0 })
    } else {
        None
    }
}

pub open spec fn tabs_fault(
    tabs: Seq<TabFile>,
    tab_seen: Set<u64>,
    pane_seen: Set<u64>,
) -> Option<SessionFault>
    decreases tabs.len(),
{
    if tabs.len() == 0 {
        None
    } else if tab_fault(tabs[0], tab_seen, pane_seen) is Some {
        tab_fault(tabs[0], tab_seen, pane_seen)
    } else {
        tabs_fault(
            tabs.skip(1),
            tab_seen.insert(tabs[0].id),
            pane_seen + pane_ids(tabs[0].panes@).to_set(),
        )
    }
}

/// The tab ids of a list of tabs.
pub open spec fn tab_ids(tabs: Seq<TabFile>) -> Seq<u64> {
    tabs.map_values(|t: TabFile| t.id)
}

/// The pane ids of a list of tabs, tab by tab.
pub open spec fn tabs_panes(tabs: Seq<TabFile>) -> Seq<u64>
    decreases tabs.len(),
{
    if tabs.len() == 0 {
        Seq::empty()
    } else {
        pane_ids(tabs[0].panes@) + tabs_panes(tabs.skip(1))
    }
}

pub open spec fn workspaces_fault(
    list: Seq<WorkspaceFile>,
    seen: Set<u64>,
    tab_seen: Set<u64>,
    pane_seen: Set<u64>,
) -> Option<SessionFault>
    decreases list.len(),
{
    if list.len() == 0 {
        None
    } else if seen.contains(list[0].id) {
        Some(SessionFault::DuplicateWorkspace(list[0].id))
    } else if list[0].tabs@.len() == 0 {
        Some(SessionFault::NoTabs(list[0].id))
    } else if tabs_fault(list[0].tabs@, tab_seen, pane_seen) is Some {
        tabs_fault(list[0].tabs@, tab_seen, pane_seen)
    } else {
        workspaces_fault(
            list.skip(1),
            seen.insert(list[0].id),
            tab_seen + tab_ids(list[0].tabs@).to_set(),
            pane_seen + tabs_panes(list[0].tabs@).to_set(),
        )
    }
}

/// The first fault of a file, reading it from the top.
pub open spec fn session_fault(file: SessionFile) -> Option<SessionFault> {
    if file.version != SESSION_FILE_VERSION {
        Some(SessionFault::Version(file.version))
    } else if file.workspaces@.len() == 0 {
        Some(SessionFault::NoWorkspaces)
    } else {
        workspaces_fault(file.workspaces@, Set::empty(), Set::empty(), Set::empty())
    }
}

// ------------------------------------------------------------------ validation

fn find_missing(ids: &Vec<u64>, set: &HashSet<u64>) -> (r: Option<u64>)
    ensures
        r == first_missing(ids@, set@),
{
    let mut i: usize = 0;
    assert(ids@.skip(0) =~= ids@);
    while i < ids.len()
        invariant
            i <= ids@.len(),
            first_missing(ids@, set@) == first_missing(ids@.skip(i as int), set@),
        decreases ids@.len() - i,
    {
        assert(ids@.skip(i as int)[0] == ids@[i as int]);
        assert(ids@.skip(i as int).skip(1) =~= ids@.skip(i + 1));
        if !set.contains(&ids[i]) {
            return Some(ids[i]);
        }
        i += 1;
    }
    None
}

/// Inserts the ids one by one; the first that was there already is returned.
fn insert_all(ids: &Vec<u64>, set: &mut HashSet<u64>) -> (r: Option<u64>)
    ensures
        r == first_repeat(ids@, old(set)@),
        r is None ==> final(set)@ == old(set)@ + ids@.to_set(),
{
    let mut i: usize = 0;
    assert(ids@.skip(0) =~= ids@);
    assert(set@ =~= old(set)@ + ids@.take(0).to_set());
    while i < ids.len()
        invariant
            i <= ids@.len(),
            first_repeat(ids@, old(set)@) == first_repeat(ids@.skip(i as int), set@),
            set@ == old(set)@ + ids@.take(i as int).to_set(),
        decreases ids@.len() - i,
    {
        assert(ids@.skip(i as int)[0] == ids@[i as int]);
        assert(ids@.skip(i as int).skip(1) =~= ids@.skip(i + 1));
        let ghost before = set@;
        if !set.insert(ids[i]) {
            return Some(ids[i]);
        }
        proof {
            lemma_take_to_set(ids@, i as int);
        }
        assert(set@ =~= old(set)@ + ids@.take(i + 1).to_set());
        i += 1;
    }
    assert(ids@.take(i as int) =~= ids@);
    None
}

proof fn lemma_take_to_set(ids: Seq<u64>, i: int)
    requires
        0 <= i < ids.len(),
    ensures
        ids.take(i + 1).to_set() =~= ids.take(i).to_set().insert(ids[i]),
{
    let a = ids.take(i + 1);
    let b = ids.take(i);
    assert forall|x: u64| a.to_set().contains(x) <==> b.to_set().insert(ids[i]).contains(x) by {
        if a.contains(x) {
            let k = choose|k: int| 0 <= k < a.len() && a[k] == x;
            if k < i {
                assert(b[k] == x);
            }
        }
        if b.contains(x) {
            let k = choose|k: int| 0 <= k < b.len() && b[k] == x;
            assert(a[k] == x);
        }
        assert(a[i] == ids[i]);
    }
}

fn validate_tab(tab: &TabFile, tab_seen: &mut HashSet<u64>, pane_seen: &mut HashSet<u64>) -> (r:
    Option<SessionFault>)
    ensures
        r == tab_fault(*tab, old(tab_seen)@, old(pane_seen)@),
        r is None ==> final(tab_seen)@ == old(tab_seen)@.insert(tab.id),
        r is None ==> final(pane_seen)@ == old(pane_seen)@ + pane_ids(tab.panes@).to_set(),
{
    if !tab_seen.insert(tab.id) {
        return Some(SessionFault::DuplicateTab(tab.id));
    }
    if tab.panes.len() == 0 {
        return Some(SessionFault::NoPanes(tab.id));
    }
    let mut ids: Vec<u64> = Vec::new();
    let mut i: usize = 0;
    while i < tab.panes.len()
        invariant
            i <= tab.panes@.len(),
            ids@ == pane_ids(tab.panes@).take(i as int),
        decreases tab.panes@.len() - i,
    {
        ids.push(tab.panes[i].id);
        i += 1;
    }
    assert(ids@ =~= pane_ids(tab.panes@));
    if let Some(id) = insert_all(&ids, pane_seen) {
        return Some(SessionFault::DuplicatePane(id));
    }
    let mut known: HashSet<u64> = HashSet::new();
    let mut k: usize = 0;
    assert(known@ =~= ids@.take(0).to_set());
    while k < ids.len()
        invariant
            k <= ids@.len(),
            known@ == ids@.take(k as int).to_set(),
        decreases ids@.len() - k,
    {
        known.insert(ids[k]);
        proof {
            lemma_take_to_set(ids@, k as int);
        }
        assert(known@ =~= ids@.take(k + 1).to_set());
        k += 1;
    }
    assert(ids@.take(k as int) =~= ids@);
    let mut named: Vec<u64> = Vec::new();
    tree_leaves(&tab.tree, &mut named);
    assert(named@ =~= leaves(tab.tree));
    let mut reachable: HashSet<u64> = HashSet::new();
    if insert_all(&named, &mut reachable).is_some() {
        return Some(SessionFault::RepeatedLeaf(tab.id));
    }
    assert(reachable@ =~= named@.to_set());
    if let Some(pane) = find_missing(&named, &known) {
        return Some(SessionFault::UnknownLeaf { tab: tab.id, pane });
    }
    // An entry no tree names would be spawned and never drawn.
    if let Some(pane) = find_missing(&ids, &reachable) {
        return Some(SessionFault::OutsideTree { tab: tab.id, pane });
    }
    None
}

proof fn lemma_tabs_panes_split(tabs: Seq<TabFile>, i: int)
    requires
        0 <= i < tabs.len(),
    ensures
        tabs_panes(tabs.take(i + 1)) == tabs_panes(tabs.take(i)) + pane_ids(tabs[i].panes@),
    decreases i,
{
    let a = tabs.take(i + 1);
    let b = tabs.take(i);
    if i == 0 {
        assert(a.skip(1) =~= Seq::<TabFile>::empty());
        assert(b =~= Seq::<TabFile>::empty());
        assert(tabs_panes(a) =~= tabs_panes(b) + pane_ids(tabs[i].panes@));
    } else {
        lemma_tabs_panes_split(tabs.skip(1), i - 1);
        assert(a.skip(1) =~= tabs.skip(1).take(i));
        assert(b.skip(1) =~= tabs.skip(1).take(i - 1));
        assert(a[0] == b[0]);
        assert(tabs_panes(a) =~= tabs_panes(b) + pane_ids(tabs[i].panes@));
    }
}

proof fn lemma_concat_to_set(a: Seq<u64>, b: Seq<u64>)
    ensures
        (a + b).to_set() =~= a.to_set() + b.to_set(),
{
    assert forall|x: u64| (a + b).to_set().contains(x) <==> (a.to_set() + b.to_set()).contains(
        x,
    ) by {
        if (a + b).contains(x) {
            let k = choose|k: int| 0 <= k < (a + b).len() && (a + b)[k] == x;
            if k < a.len() {
                assert(a[k] == x);
            } else {
                assert(b[k - a.len()] == x);
            }
        }
        if a.contains(x) {
            let k = choose|k: int| 0 <= k < a.len() && a[k] == x;
            assert((a + b)[k] == x);
        }
        if b.contains(x) {
            let k = choose|k: int| 0 <= k < b.len() && b[k] == x;
            assert((a + b)[a.len() + k] == x);
        }
    }
}

fn validate_tabs(
    tabs: &Vec<TabFile>,
    tab_seen: &mut HashSet<u64>,
    pane_seen: &mut HashSet<u64>,
) -> (r: Option<SessionFault>)
    ensures
        r == tabs_fault(tabs@, old(tab_seen)@, old(pane_seen)@),
        r is None ==> final(tab_seen)@ == old(tab_seen)@ + tab_ids(tabs@).to_set(),
        r is None ==> final(pane_seen)@ == old(pane_seen)@ + tabs_panes(tabs@).to_set(),
{
    let mut i: usize = 0;
    assert(tabs@.skip(0) =~= tabs@);
    assert(tabs@.take(0) =~= Seq::<TabFile>::empty());
    assert(tab_seen@ =~= old(tab_seen)@ + tab_ids(tabs@).take(0).to_set());
    assert(pane_seen@ =~= old(pane_seen)@ + tabs_panes(tabs@.take(0)).to_set());
    while i < tabs.len()
        invariant
            i <= tabs@.len(),
            tabs_fault(tabs@, old(tab_seen)@, old(pane_seen)@) == tabs_fault(
                tabs@.skip(i as int),
                tab_seen@,
                pane_seen@,
            ),
            tab_seen@ == old(tab_seen)@ + tab_ids(tabs@).take(i as int).to_set(),
            pane_seen@ == old(pane_seen)@ + tabs_panes(tabs@.take(i as int)).to_set(),
        decreases tabs@.len() - i,
    {
        assert(tabs@.skip(i as int)[0] == tabs@[i as int]);
        assert(tabs@.skip(i as int).skip(1) =~= tabs@.skip(i + 1));
        let fault = validate_tab(&tabs[i], tab_seen, pane_seen);
        if fault.is_some() {
            return fault;
        }
        proof {
            lemma_take_to_set(tab_ids(tabs@), i as int);
            lemma_tabs_panes_split(tabs@, i as int);
            lemma_concat_to_set(
                tabs_panes(tabs@.take(i as int)),
                pane_ids(tabs@[i as int].panes@),
            );
        }
        assert(tab_seen@ =~= old(tab_seen)@ + tab_ids(tabs@).take(i + 1).to_set());
        assert(pane_seen@ =~= old(pane_seen)@ + tabs_panes(tabs@.take(i + 1)).to_set());
        i += 1;
    }
    assert(tabs@.take(i as int) =~= tabs@);
    assert(tab_ids(tabs@).take(i as int) =~= tab_ids(tabs@));
    None
}

impl SessionFile {
    /// A file is usable only if it describes one unambiguous layout. The first
    /// rule that it breaks is reported.
    pub fn validate(&self) -> (r: Result<(), SessionFault>)
        ensures
            match r {
                Ok(_) => session_fault(*self) is None,
                Err(e) => session_fault(*self) == Some(e),
            },
    {
        if self.version != SESSION_FILE_VERSION {
            return Err(SessionFault::Version(self.version));
        }
        if self.workspaces.len() == 0 {
            return Err(SessionFault::NoWorkspaces);
        }
        let mut seen: HashSet<u64> = HashSet::new();
        let mut tab_seen: HashSet<u64> = HashSet::new();
        let mut pane_seen: HashSet<u64> = HashSet::new();
        assert(seen@ =~= Set::empty());
        assert(tab_seen@ =~= Set::empty());
        assert(pane_seen@ =~= Set::empty());
        let mut i: usize = 0;
        let ghost list = self.workspaces@;
        assert(list.skip(0) =~= list);
        while i < self.workspaces.len()
            invariant
                list == self.workspaces@,
                i <= list.len(),
                self.version == SESSION_FILE_VERSION,
                list.len() > 0,
                workspaces_fault(list, Set::empty(), Set::empty(), Set::empty())
                    == workspaces_fault(list.skip(i as int), seen@, tab_seen@, pane_seen@),
            decreases list.len() - i,
        {
            assert(list.skip(i as int)[0] == list[i as int]);
            assert(list.skip(i as int).skip(1) =~= list.skip(i + 1));
            let workspace = &self.workspaces[i];
            if !seen.insert(workspace.id) {
                return Err(SessionFault::DuplicateWorkspace(workspace.id));
            }
            if workspace.tabs.len() == 0 {
                return Err(SessionFault::NoTabs(workspace.id));
            }
            if let Some(fault) = validate_tabs(&workspace.tabs, &mut tab_seen, &mut pane_seen) {
                return Err(fault);
            }
            i += 1;
        }
        Ok(())
    }
}

// ------------------------------------------------------- what acceptance means

/// The workspace ids of a file.
pub open spec fn workspace_ids(list: Seq<WorkspaceFile>) -> Seq<u64> {
    list.map_values(|w: WorkspaceFile| w.id)
}

/// The tab ids of a list of workspaces, workspace by workspace.
pub open spec fn workspaces_tabs(list: Seq<WorkspaceFile>) -> Seq<u64>
    decreases list.len(),
{
    if list.len() == 0 {
        Seq::empty()
    } else {
        tab_ids(list[0].tabs@) + workspaces_tabs(list.skip(1))
    }
}

/// The pane ids of a list of workspaces, in file order.
pub open spec fn workspaces_panes(list: Seq<WorkspaceFile>) -> Seq<u64>
    decreases list.len(),
{
    if list.len() == 0 {
        Seq::empty()
    } else {
        tabs_panes(list[0].tabs@) + workspaces_panes(list.skip(1))
    }
}

/// A tab has panes, its tree names each of them exactly once and nothing else.
pub open spec fn tab_is_sound(tab: TabFile) -> bool {
    &&& tab.panes@.len() > 0
    &&& leaves(tab.tree).no_duplicates()
    &&& leaves(tab.tree).to_set() == pane_ids(tab.panes@).to_set()
}

pub open spec fn workspace_is_sound(workspace: WorkspaceFile) -> bool {
    &&& workspace.tabs@.len() > 0
    &&& forall|i: int| 0 <= i < workspace.tabs@.len() ==> tab_is_sound(#[trigger] workspace.tabs@[i])
}

/// One unambiguous layout: something to show at every level, trees and pane
/// lists that agree, and no id used twice anywhere in the file.
pub open spec fn unambiguous(file: SessionFile) -> bool {
    &&& file.version == SESSION_FILE_VERSION
    &&& file.workspaces@.len() > 0
    &&& forall|i: int|
        0 <= i < file.workspaces@.len() ==> workspace_is_sound(#[trigger] file.workspaces@[i])
    &&& workspace_ids(file.workspaces@).no_duplicates()
    &&& workspaces_tabs(file.workspaces@).no_duplicates()
    &&& workspaces_panes(file.workspaces@).no_duplicates()
}

/// No element of `ids` is in `seen`.
spec fn fresh(ids: Seq<u64>, seen: Set<u64>) -> bool {
    forall|i: int| 0 <= i < ids.len() ==> !seen.contains(#[trigger] ids[i])
}

proof fn lemma_fresh_cons(ids: Seq<u64>, seen: Set<u64>)
    requires
        ids.len() > 0,
    ensures
        (ids.no_duplicates() && fresh(ids, seen)) <==> (!seen.contains(ids[0])
            && ids.skip(1).no_duplicates() && fresh(ids.skip(1), seen.insert(ids[0]))),
{
    let t = ids.skip(1);
    if ids.no_duplicates() && fresh(ids, seen) {
        assert forall|i: int| 0 <= i < t.len() implies !seen.insert(ids[0]).contains(
            #[trigger] t[i],
        ) by {
            assert(t[i] == ids[i + 1]);
        }
        assert forall|i: int, j: int| 0 <= i < t.len() && 0 <= j < t.len() && i != j implies t[i]
            != t[j] by {
            assert(ids[i + 1] != ids[j + 1]);
        }
        assert(!seen.contains(ids[0]));
    }
    if !seen.contains(ids[0]) && t.no_duplicates() && fresh(t, seen.insert(ids[0])) {
        assert forall|i: int| 0 <= i < ids.len() implies !seen.contains(#[trigger] ids[i]) by {
            if i > 0 {
                assert(ids[i] == t[i - 1]);
            }
        }
        assert forall|i: int, j: int|
            0 <= i < ids.len() && 0 <= j < ids.len() && i != j implies ids[i] != ids[j] by {
            if i == 0 {
                assert(t[j - 1] == ids[j]);
            } else if j == 0 {
                assert(t[i - 1] == ids[i]);
            } else {
                assert(t[i - 1] != t[j - 1]);
            }
        }
    }
}

proof fn lemma_first_repeat(ids: Seq<u64>, seen: Set<u64>)
    ensures
        first_repeat(ids, seen) is None <==> ids.no_duplicates() && fresh(ids, seen),
    decreases ids.len(),
{
    if ids.len() > 0 {
        lemma_fresh_cons(ids, seen);
        if !seen.contains(ids[0]) {
            lemma_first_repeat(ids.skip(1), seen.insert(ids[0]));
        }
    }
}

proof fn lemma_first_missing(ids: Seq<u64>, set: Set<u64>)
    ensures
        first_missing(ids, set) is None <==> ids.to_set().subset_of(set),
    decreases ids.len(),
{
    if ids.len() > 0 {
        let t = ids.skip(1);
        lemma_first_missing(t, set);
        assert(ids.contains(ids[0]));
        if t.to_set().subset_of(set) && set.contains(ids[0]) {
            assert forall|x: u64| ids.to_set().contains(x) implies set.contains(x) by {
                let k = choose|k: int| 0 <= k < ids.len() && ids[k] == x;
                if k > 0 {
                    assert(t[k - 1] == x);
                    assert(t.to_set().contains(x));
                }
            }
        }
        if ids.to_set().subset_of(set) {
            assert(ids.to_set().contains(ids[0]));
            assert forall|x: u64| t.to_set().contains(x) implies set.contains(x) by {
                let k = choose|k: int| 0 <= k < t.len() && t[k] == x;
                assert(ids[k + 1] == x);
                assert(ids.to_set().contains(x));
            }
        }
    } else {
        assert(ids.to_set() =~= Set::empty());
    }
}

/// Freshness and absence of repeats split over a concatenation.
proof fn lemma_fresh_concat(a: Seq<u64>, b: Seq<u64>, seen: Set<u64>)
    ensures
        ((a + b).no_duplicates() && fresh(a + b, seen)) <==> (a.no_duplicates() && fresh(a, seen)
            && b.no_duplicates() && fresh(b, seen + a.to_set())),
{
    let c = a + b;
    if c.no_duplicates() && fresh(c, seen) {
        assert forall|i: int| 0 <= i < a.len() implies !seen.contains(#[trigger] a[i]) by {
            assert(c[i] == a[i]);
        }
        assert forall|i: int, j: int| 0 <= i < a.len() && 0 <= j < a.len() && i != j implies a[i]
            != a[j] by {
            assert(c[i] != c[j]);
        }
        assert forall|i: int, j: int| 0 <= i < b.len() && 0 <= j < b.len() && i != j implies b[i]
            != b[j] by {
            assert(c[a.len() + i] != c[a.len() + j]);
        }
        assert forall|i: int| 0 <= i < b.len() implies !(seen + a.to_set()).contains(
            #[trigger] b[i],
        ) by {
            assert(c[a.len() + i] == b[i]);
            if a.contains(b[i]) {
                let k = choose|k: int| 0 <= k < a.len() && a[k] == b[i];
                assert(c[k] != c[a.len() + i]);
            }
        }
    }
    if a.no_duplicates() && fresh(a, seen) && b.no_duplicates() && fresh(b, seen + a.to_set()) {
        assert forall|i: int| 0 <= i < c.len() implies !seen.contains(#[trigger] c[i]) by {
            if i < a.len() {
                assert(c[i] == a[i]);
            } else {
                assert(c[i] == b[i - a.len()]);
            }
        }
        assert forall|i: int, j: int| 0 <= i < j < c.len() implies c[i] != c[j] by {
            if j < a.len() {
                assert(a[i] != a[j]);
            } else if i >= a.len() {
                assert(b[i - a.len()] != b[j - a.len()]);
            } else {
                assert(a.to_set().contains(a[i]));
                assert(!(seen + a.to_set()).contains(b[j - a.len()]));
            }
        }
        assert(c.no_duplicates());
    }
}

proof fn lemma_tab(tab: TabFile, tab_seen: Set<u64>, pane_seen: Set<u64>)
    ensures
        tab_fault(tab, tab_seen, pane_seen) is None <==> (!tab_seen.contains(tab.id)
            && tab_is_sound(tab) && pane_ids(tab.panes@).no_duplicates() && fresh(
            pane_ids(tab.panes@),
            pane_seen,
        )),
{
    let ids = pane_ids(tab.panes@);
    let named = leaves(tab.tree);
    lemma_first_repeat(ids, pane_seen);
    lemma_first_repeat(named, Set::empty());
    lemma_first_missing(named, ids.to_set());
    lemma_first_missing(ids, named.to_set());
    assert(named.to_set() == ids.to_set() <==> named.to_set().subset_of(ids.to_set())
        && ids.to_set().subset_of(named.to_set())) by {
        if named.to_set().subset_of(ids.to_set()) && ids.to_set().subset_of(named.to_set()) {
            assert(named.to_set() =~= ids.to_set());
        }
    }
}

spec fn tabs_are_sound(tabs: Seq<TabFile>) -> bool {
    forall|i: int| 0 <= i < tabs.len() ==> tab_is_sound(#[trigger] tabs[i])
}

proof fn lemma_tabs(tabs: Seq<TabFile>, tab_seen: Set<u64>, pane_seen: Set<u64>)
    ensures
        tabs_fault(tabs, tab_seen, pane_seen) is None <==> (tabs_are_sound(tabs) && tab_ids(
            tabs,
        ).no_duplicates() && fresh(tab_ids(tabs), tab_seen) && tabs_panes(tabs).no_duplicates()
            && fresh(tabs_panes(tabs), pane_seen)),
    decreases tabs.len(),
{
    if tabs.len() > 0 {
        let rest = tabs.skip(1);
        let here = pane_ids(tabs[0].panes@);
        lemma_tab(tabs[0], tab_seen, pane_seen);
        lemma_tabs(rest, tab_seen.insert(tabs[0].id), pane_seen + here.to_set());
        lemma_fresh_cons(tab_ids(tabs), tab_seen);
        assert(tab_ids(tabs).skip(1) =~= tab_ids(rest));
        lemma_fresh_concat(here, tabs_panes(rest), pane_seen);
        assert(tabs_are_sound(tabs) <==> tab_is_sound(tabs[0]) && tabs_are_sound(rest)) by {
            if tab_is_sound(tabs[0]) && tabs_are_sound(rest) {
                assert forall|i: int| 0 <= i < tabs.len() implies tab_is_sound(
                    #[trigger] tabs[i],
                ) by {
                    if i > 0 {
                        assert(tabs[i] == rest[i - 1]);
                    }
                }
            }
            if tabs_are_sound(tabs) {
                assert forall|i: int| 0 <= i < rest.len() implies tab_is_sound(
                    #[trigger] rest[i],
                ) by {
                    assert(rest[i] == tabs[i + 1]);
                }
            }
        }
    }
}

spec fn workspaces_are_sound(list: Seq<WorkspaceFile>) -> bool {
    forall|i: int| 0 <= i < list.len() ==> workspace_is_sound(#[trigger] list[i])
}

proof fn lemma_workspaces(
    list: Seq<WorkspaceFile>,
    seen: Set<u64>,
    tab_seen: Set<u64>,
    pane_seen: Set<u64>,
)
    ensures
        workspaces_fault(list, seen, tab_seen, pane_seen) is None <==> (workspaces_are_sound(list)
            && workspace_ids(list).no_duplicates() && fresh(workspace_ids(list), seen)
            && workspaces_tabs(list).no_duplicates() && fresh(workspaces_tabs(list), tab_seen)
            && workspaces_panes(list).no_duplicates() && fresh(workspaces_panes(list), pane_seen)),
    decreases list.len(),
{
    if list.len() > 0 {
        let rest = list.skip(1);
        let tabs = list[0].tabs@;
        lemma_tabs(tabs, tab_seen, pane_seen);
        lemma_workspaces(
            rest,
            seen.insert(list[0].id),
            tab_seen + tab_ids(tabs).to_set(),
            pane_seen + tabs_panes(tabs).to_set(),
        );
        lemma_fresh_cons(workspace_ids(list), seen);
        assert(workspace_ids(list).skip(1) =~= workspace_ids(rest));
        lemma_fresh_concat(tab_ids(tabs), workspaces_tabs(rest), tab_seen);
        lemma_fresh_concat(tabs_panes(tabs), workspaces_panes(rest), pane_seen);
        assert(workspaces_are_sound(list) <==> workspace_is_sound(list[0]) && workspaces_are_sound(
            rest,
        )) by {
            if workspace_is_sound(list[0]) && workspaces_are_sound(rest) {
                assert forall|i: int| 0 <= i < list.len() implies workspace_is_sound(
                    #[trigger] list[i],
                ) by {
                    if i > 0 {
                        assert(list[i] == rest[i - 1]);
                    }
                }
            }
            if workspaces_are_sound(list) {
                assert forall|i: int| 0 <= i < rest.len() implies workspace_is_sound(
                    #[trigger] rest[i],
                ) by {
                    assert(rest[i] == list[i + 1]);
                }
            }
        }
    }
}

/// A file is accepted exactly when it describes one unambiguous layout.
pub proof fn law_accepted_files_are_unambiguous(file: SessionFile)
    ensures
        session_fault(file) is None <==> unambiguous(file),
{
    if file.workspaces@.len() > 0 {
        lemma_workspaces(file.workspaces@, Set::empty(), Set::empty(), Set::empty());
    }
}

} // verus!
