//! Scripting commands: reading replies, resolving targets, printing listings.

use vstd::prelude::*;

use crate::layout;
use crate::picker;
use crate::proto;
use crate::proto::{
    AgentStateKind, ClientMessage, Event, LayoutSnapshot, PaneId, PaneSnapshot, QueryKind,
    ServerMessage, SidebarTabInfo, TabId, TabInfo, WorkspaceId, WorkspaceInfo,
};
use crate::rank;
use crate::rank::Rank;
use crate::session_file::SessionFile;
use crate::text;

verus! {

// ------------------------------------------------------------------- agent states

pub open spec fn state_named(value: Seq<char>) -> Option<AgentStateKind> {
    if value == "blocked"@ {
        Some(AgentStateKind::Blocked)
    } else if value == "working"@ {
        Some(AgentStateKind::Working)
    } else if value == "done"@ {
        Some(AgentStateKind::Done)
    } else if value == "idle"@ {
        Some(AgentStateKind::Idle)
    } else if value == "unknown"@ {
        Some(AgentStateKind::Unknown)
    } else {
        None
    }
}

pub fn parse_state(value: &str) -> (r: Result<AgentStateKind, String>)
    ensures
        match state_named(value@) {
            Some(state) => r == Ok::<AgentStateKind, String>(state),
            None => text::fault(r) == Some("unknown agent state '"@ + value@ + "'"@),
        },
{
    if text::same(value, "blocked") {
        Ok(AgentStateKind::Blocked)
    } else if text::same(value, "working") {
        Ok(AgentStateKind::Working)
    } else if text::same(value, "done") {
        Ok(AgentStateKind::Done)
    } else if text::same(value, "idle") {
        Ok(AgentStateKind::Idle)
    } else if text::same(value, "unknown") {
        Ok(AgentStateKind::Unknown)
    } else {
        Err(text::cat3("unknown agent state '", value, "'"))
    }
}

/// The plain name of an agent state.
pub fn state_name(state: AgentStateKind) -> (r: &'static str)
    ensures
        r@ == layout::state_text(state),
{
    layout::state_name(state)
}

/// The name of a state parses back to it, and no two states share a name.
pub proof fn law_state_names_parse_back(state: AgentStateKind)
    ensures
        state_named(layout::state_text(state)) == Some(state),
{
    reveal_strlit("blocked");
    reveal_strlit("working");
    reveal_strlit("done");
    reveal_strlit("idle");
    reveal_strlit("unknown");
    assert("blocked"@[0] == 'b' && "working"@[0] == 'w' && "done"@[0] == 'd' && "idle"@[0] == 'i'
        && "unknown"@[0] == 'u');
}

// ------------------------------------------------------------------------ replies

pub fn layout_query() -> (r: ClientMessage)
    ensures
        r == ClientMessage::Query(QueryKind::Layout),
{
    ClientMessage::Query(QueryKind::Layout)
}

/// The message for a reply of a kind that was not asked for.
pub open spec fn unexpected(reply: ServerMessage) -> Seq<char> {
    "daemon sent an unexpected "@ + proto::server_name(reply)
}

fn unexpected_reply(reply: &ServerMessage) -> (r: String)
    ensures
        r@ == unexpected(*reply),
{
    text::cat("daemon sent an unexpected ", proto::server_message_name(reply))
}

/// A reply, unless it reports an error.
pub fn checked_reply(reply: ServerMessage) -> (r: Result<ServerMessage, String>)
    ensures
        match reply {
            ServerMessage::Error { message } => r == Err::<ServerMessage, String>(message),
            _ => r == Ok::<ServerMessage, String>(reply),
        },
{
    match reply {
        ServerMessage::Error { message } => Err(message),
        other => Ok(other),
    }
}

/// Extracts the layout of a reply.
pub fn layout(reply: ServerMessage) -> (r: Result<LayoutSnapshot, String>)
    ensures
        match reply {
            ServerMessage::Layout(snapshot) => r == Ok::<LayoutSnapshot, String>(snapshot),
            ServerMessage::Shutdown => text::fault(r) == Some("daemon shut down"@),
            ServerMessage::Error { message } => text::fault(r) == Some(message@),
            _ => text::fault(r) == Some(unexpected(reply)),
        },
{
    match reply {
        ServerMessage::Layout(snapshot) => Ok(snapshot),
        ServerMessage::Shutdown => Err("daemon shut down".to_owned()),
        ServerMessage::Error { message } => Err(message),
        other => Err(unexpected_reply(&other)),
    }
}

/// Extracts the pane of a reply.
pub fn pane_snapshot(reply: ServerMessage) -> (r: Result<PaneSnapshot, String>)
    ensures
        match reply {
            ServerMessage::Pane(pane) => r == Ok::<PaneSnapshot, String>(pane),
            ServerMessage::Error { message } => text::fault(r) == Some(message@),
            _ => text::fault(r) == Some(unexpected(reply)),
        },
{
    match reply {
        ServerMessage::Pane(pane) => Ok(pane),
        ServerMessage::Error { message } => Err(message),
        other => Err(unexpected_reply(&other)),
    }
}

/// Extracts the persisted layout of a reply.
pub fn session_file(reply: ServerMessage) -> (r: Result<SessionFile, String>)
    ensures
        match reply {
            ServerMessage::Session(file) => r == Ok::<SessionFile, String>(file),
            ServerMessage::Error { message } => text::fault(r) == Some(message@),
            _ => text::fault(r) == Some(unexpected(reply)),
        },
{
    match reply {
        ServerMessage::Session(file) => Ok(file),
        ServerMessage::Error { message } => Err(message),
        other => Err(unexpected_reply(&other)),
    }
}

/// Extracts the text of a `ReadPane` reply.
pub fn pane_text(reply: ServerMessage) -> (r: Result<String, String>)
    ensures
        match reply {
            ServerMessage::PaneText { text, .. } => r == Ok::<String, String>(text),
            _ => text::fault(r) == Some(unexpected(reply)),
        },
{
    match reply {
        ServerMessage::PaneText { text, .. } => Ok(text),
        other => Err(unexpected_reply(&other)),
    }
}

/// What a polling loop does next.
#[derive(Debug, Clone, Copy, PartialEq, Eq, Structural)]
pub enum PollStep {
    Finish(bool),
    Sleep,
}

/// A wait ends as soon as the pane is accepted, and otherwise once its deadline
/// has passed; without a deadline it goes on.
pub fn poll_step(accepted: bool, past_deadline: Option<bool>) -> (r: PollStep)
    ensures
        r == (if accepted {
            PollStep::Finish(true)
        } else if past_deadline == Some(true) {
            PollStep::Finish(false)
        } else {
            PollStep::Sleep
        }),
{
    if accepted {
        return PollStep::Finish(true);
    }
    match past_deadline {
        Some(past) => if past {
            PollStep::Finish(false)
        } else {
            PollStep::Sleep
        },
        None => PollStep::Sleep,
    }
}

// ----------------------------------------------------------------------- matchers

/// Whether a pattern is a regular expression that the `regex` crate compiles.
pub uninterp spec fn regex_compiles(pattern: Seq<char>) -> bool;

/// Whether a pattern compiles and has a match in a text.
pub uninterp spec fn regex_finds(pattern: Seq<char>, text: Seq<char>) -> bool;

/// `regex::Regex::new` accepts the patterns that compile.
#[verifier::external_body]
fn compiles(pattern: &str) -> (r: bool)
    ensures
        r == regex_compiles(pattern@),
{
    regex::Regex::new(pattern).is_ok()
}

/// `regex::Regex::is_match` of the compiled pattern; a pattern that does not
/// compile has no match.
#[verifier::external_body]
fn finds(pattern: &str, text: &str) -> (r: bool)
    ensures
        r == regex_finds(pattern@, text@),
{
    match regex::Regex::new(pattern) {
        Ok(regex) => regex.is_match(text),
        Err(_) => false,
    }
}

/// What a script waits for in a pane's output.
#[derive(Debug, Clone, PartialEq, Eq)]
pub enum OutputMatcher {
    Literal(String),
    Regex(String),
}

impl OutputMatcher {
    pub open spec fn accepts(self, text: Seq<char>) -> bool {
        match self {
            OutputMatcher::Literal(needle) => text::has_part(text, needle@),
            OutputMatcher::Regex(pattern) => regex_finds(pattern@, text),
        }
    }

    pub fn matches(&self, text: &str) -> (r: bool)
        ensures
            r == self.accepts(text@),
    {
        match self {
            OutputMatcher::Literal(needle) => text::contains(text, needle.as_str()),
            OutputMatcher::Regex(pattern) => finds(pattern.as_str(), text),
        }
    }
}

/// The matcher that a caller asked for, given whether its pattern compiles.
pub fn matcher_for(text: &str, regex: bool, valid: bool) -> (r: Result<OutputMatcher, String>)
    ensures
        regex && !valid ==> text::fault(r) == Some("invalid --regex pattern"@),
        regex && valid ==> (r matches Ok(OutputMatcher::Regex(pattern)) && pattern@ == text@),
        !regex ==> (r matches Ok(OutputMatcher::Literal(needle)) && needle@ == text@),
{
    if !regex {
        Ok(OutputMatcher::Literal(text.to_owned()))
    } else if valid {
        Ok(OutputMatcher::Regex(text.to_owned()))
    } else {
        Err("invalid --regex pattern".to_owned())
    }
}

/// Checks the caller's requested output matcher once before polling.
pub fn output_matcher(text: &str, regex: bool) -> (r: Result<OutputMatcher, String>)
    ensures
        regex && !regex_compiles(text@) ==> text::fault(r) == Some("invalid --regex pattern"@),
        regex && regex_compiles(text@) ==> (r matches Ok(OutputMatcher::Regex(pattern))
            && pattern@ == text@),
        !regex ==> (r matches Ok(OutputMatcher::Literal(needle)) && needle@ == text@),
{
    let valid = regex && compiles(text);
    matcher_for(text, regex, valid)
}

// ----------------------------------------------------------------------- listings

pub open spec fn star(on: bool) -> Seq<char> {
    if on {
        "*"@
    } else {
        " "@
    }
}

fn star_text(on: bool) -> (r: &'static str)
    ensures
        r@ == star(on),
{
    if on {
        "*"
    } else {
        " "
    }
}

/// The agent in a pane, or that it is a plain shell.
pub open spec fn agent_or_shell(pane: PaneSnapshot) -> Seq<char> {
    match pane.agent {
        Some(agent) => agent@,
        None => "shell"@,
    }
}

fn agent_label(pane: &PaneSnapshot) -> (r: &str)
    ensures
        r@ == agent_or_shell(*pane),
{
    match &pane.agent {
        Some(agent) => agent.as_str(),
        None => "shell",
    }
}

/// The ranks that put panes in order of their ids; with `agents` only panes with
/// a recognized agent.
pub open spec fn pane_ranks(panes: Seq<PaneSnapshot>, agents: bool, count: int) -> Seq<Rank>
    decreases count,
{
    if count <= 0 {
        Seq::empty()
    } else {
        let before = pane_ranks(panes, agents, count - 1);
        if !agents || panes[count - 1].agent is Some {
            before.push(
                Rank { group: panes[count - 1].id.0, weight: 0, index: (count - 1) as usize },
            )
        } else {
            before
        }
    }
}

/// Panes by id, equal ids as they were; with `agents` only panes with a
/// recognized agent.
pub open spec fn panes_by_id(panes: Seq<PaneSnapshot>, agents: bool) -> Seq<PaneSnapshot> {
    rank::sort(pane_ranks(panes, agents, panes.len() as int)).map_values(
        |r: Rank| panes[r.index as int],
    )
}

pub open spec fn pane_targets(refs: Seq<&PaneSnapshot>) -> Seq<PaneSnapshot> {
    refs.map_values(|p: &PaneSnapshot| *p)
}

fn ordered_panes(panes: &Vec<PaneSnapshot>, agents: bool) -> (r: Vec<&PaneSnapshot>)
    ensures
        pane_targets(r@) == panes_by_id(panes@, agents),
{
    let mut ranks: Vec<Rank> = Vec::new();
    let mut i: usize = 0;
    while i < panes.len()
        invariant
            i <= panes@.len(),
            ranks@ == pane_ranks(panes@, agents, i as int),
            forall|k: int| 0 <= k < ranks@.len() ==> (#[trigger] ranks@[k]).index < i,
        decreases panes@.len() - i,
    {
        if !agents || panes[i].agent.is_some() {
            ranks.push(Rank { group: panes[i].id.0, weight: 0, index: i });
        }
        i += 1;
    }
    let order = rank::sorted(&ranks);
    proof {
        picker::lemma_sorted_in_range(ranks@, panes@.len() as int);
    }
    let ghost all = panes_by_id(panes@, agents);
    let mut out: Vec<&PaneSnapshot> = Vec::new();
    let mut k: usize = 0;
    while k < order.len()
        invariant
            k <= order@.len(),
            order@.len() == all.len(),
            forall|j: int| 0 <= j < order@.len() ==> (#[trigger] order@[j]).index < panes@.len(),
            forall|j: int|
                0 <= j < order@.len() ==> all[j] == panes@[(#[trigger] order@[j]).index as int],
            pane_targets(out@) == all.take(k as int),
        decreases order@.len() - k,
    {
        let ghost before = pane_targets(out@);
        out.push(&panes[order[k].index]);
        assert(pane_targets(out@) =~= before.push(all[k as int]));
        assert(all.take(k + 1) =~= all.take(k as int).push(all[k as int]));
        k += 1;
    }
    assert(all.take(k as int) =~= all);
    out
}

/// Panes with a recognized agent, ordered by pane id.
pub fn agent_panes(layout: &LayoutSnapshot) -> (r: Vec<&PaneSnapshot>)
    ensures
        pane_targets(r@) == panes_by_id(layout.panes@, true),
{
    ordered_panes(&layout.panes, true)
}

pub open spec fn pane_line(pane: PaneSnapshot) -> Seq<char> {
    text::decimal(pane.id.0 as nat) + star(pane.focused) + "  "@ + pane.title@ + "  "@
        + agent_or_shell(pane) + "  "@ + layout::state_text(pane.state)
}

/// Panes of the active tab, ordered by id.
pub fn format_panes(layout: &LayoutSnapshot) -> (r: String)
    ensures
        r@ == text::joined(
            panes_by_id(layout.panes@, false).map_values(|p: PaneSnapshot| pane_line(p)),
            "\n"@,
        ),
{
    let panes = ordered_panes(&layout.panes, false);
    let ghost all = panes_by_id(layout.panes@, false).map_values(|p: PaneSnapshot| pane_line(p));
    let mut lines: Vec<String> = Vec::new();
    let mut i: usize = 0;
    while i < panes.len()
        invariant
            pane_targets(panes@) == panes_by_id(layout.panes@, false),
            all == panes_by_id(layout.panes@, false).map_values(|p: PaneSnapshot| pane_line(p)),
            i <= panes@.len(),
            text::texts(lines@) == all.take(i as int),
        decreases panes@.len() - i,
    {
        let pane = panes[i];
        assert(pane_targets(panes@)[i as int] == *pane);
        let mut line = text::decimal_text(pane.id.0);
        line.append(star_text(pane.focused));
        line.append("  ");
        line.append(pane.title.as_str());
        line.append("  ");
        line.append(agent_label(pane));
        line.append("  ");
        line.append(state_name(pane.state));
        let ghost before = text::texts(lines@);
        let ghost made = line@;
        lines.push(line);
        assert(text::texts(lines@) =~= before.push(made));
        assert(all.take(i + 1) =~= all.take(i as int).push(all[i as int]));
        i += 1;
    }
    assert(pane_targets(panes@).len() == all.len());
    assert(all.take(i as int) =~= all);
    text::join(&lines, "\n")
}

pub open spec fn agent_line(pane: PaneSnapshot) -> Seq<char> {
    text::decimal(pane.id.0 as nat) + "  "@ + agent_or_shell(pane) + "  "@ + layout::state_text(
        pane.state,
    ) + "  "@ + pane.state_reason@
}

/// Recognized agents, ordered by pane id.
pub fn format_agents(layout: &LayoutSnapshot) -> (r: String)
    ensures
        r@ == text::joined(
            panes_by_id(layout.panes@, true).map_values(|p: PaneSnapshot| agent_line(p)),
            "\n"@,
        ),
{
    let panes = agent_panes(layout);
    let ghost all = panes_by_id(layout.panes@, true).map_values(|p: PaneSnapshot| agent_line(p));
    let mut lines: Vec<String> = Vec::new();
    let mut i: usize = 0;
    while i < panes.len()
        invariant
            pane_targets(panes@) == panes_by_id(layout.panes@, true),
            all == panes_by_id(layout.panes@, true).map_values(|p: PaneSnapshot| agent_line(p)),
            i <= panes@.len(),
            text::texts(lines@) == all.take(i as int),
        decreases panes@.len() - i,
    {
        let pane = panes[i];
        assert(pane_targets(panes@)[i as int] == *pane);
        let mut line = text::decimal_text(pane.id.0);
        line.append("  ");
        line.append(agent_label(pane));
        line.append("  ");
        line.append(state_name(pane.state));
        line.append("  ");
        line.append(pane.state_reason.as_str());
        let ghost before = text::texts(lines@);
        let ghost made = line@;
        lines.push(line);
        assert(text::texts(lines@) =~= before.push(made));
        assert(all.take(i + 1) =~= all.take(i as int).push(all[i as int]));
        i += 1;
    }
    assert(pane_targets(panes@).len() == all.len());
    assert(all.take(i as int) =~= all);
    text::join(&lines, "\n")
}

pub open spec fn tab_line(tab: TabInfo) -> Seq<char> {
    text::decimal(tab.id.0 as nat) + star(tab.active) + "  "@ + tab.name@ + "  "@
        + layout::state_text(tab.state)
}

/// Tabs of the active workspace.
pub fn format_tabs(tabs: &[TabInfo]) -> (r: String)
    ensures
        r@ == text::joined(tabs@.map_values(|t: TabInfo| tab_line(t)), "\n"@),
{
    let ghost all = tabs@.map_values(|t: TabInfo| tab_line(t));
    let mut lines: Vec<String> = Vec::new();
    let mut i: usize = 0;
    while i < tabs.len()
        invariant
            all == tabs@.map_values(|t: TabInfo| tab_line(t)),
            i <= tabs@.len(),
            text::texts(lines@) == all.take(i as int),
        decreases tabs@.len() - i,
    {
        let tab = &tabs[i];
        let mut line = text::decimal_text(tab.id.0);
        line.append(star_text(tab.active));
        line.append("  ");
        line.append(tab.name.as_str());
        line.append("  ");
        line.append(state_name(tab.state));
        let ghost before = text::texts(lines@);
        let ghost made = line@;
        lines.push(line);
        assert(text::texts(lines@) =~= before.push(made));
        assert(all.take(i + 1) =~= all.take(i as int).push(all[i as int]));
        i += 1;
    }
    assert(all.take(i as int) =~= all);
    text::join(&lines, "\n")
}

pub open spec fn workspace_line(w: WorkspaceInfo) -> Seq<char> {
    text::decimal(w.id.0 as nat) + star(w.active) + "  "@ + w.name@ + "  "@ + layout::state_text(
        w.state,
    ) + "  "@ + text::decimal(w.tabs@.len()) + " tab(s)"@
}

/// Workspaces and their tab counts.
pub fn format_workspaces(workspaces: &[WorkspaceInfo]) -> (r: String)
    ensures
        r@ == text::joined(workspaces@.map_values(|w: WorkspaceInfo| workspace_line(w)), "\n"@),
{
    let ghost all = workspaces@.map_values(|w: WorkspaceInfo| workspace_line(w));
    let mut lines: Vec<String> = Vec::new();
    let mut i: usize = 0;
    while i < workspaces.len()
        invariant
            all == workspaces@.map_values(|w: WorkspaceInfo| workspace_line(w)),
            i <= workspaces@.len(),
            text::texts(lines@) == all.take(i as int),
        decreases workspaces@.len() - i,
    {
        let workspace = &workspaces[i];
        let mut line = text::decimal_text(workspace.id.0);
        line.append(star_text(workspace.active));
        line.append("  ");
        line.append(workspace.name.as_str());
        line.append("  ");
        line.append(state_name(workspace.state));
        line.append("  ");
        line.append(text::decimal_text(workspace.tabs.len() as u64).as_str());
        line.append(" tab(s)");
        let ghost before = text::texts(lines@);
        let ghost made = line@;
        lines.push(line);
        assert(text::texts(lines@) =~= before.push(made));
        assert(all.take(i + 1) =~= all.take(i as int).push(all[i as int]));
        i += 1;
    }
    assert(all.take(i as int) =~= all);
    text::join(&lines, "\n")
}

pub open spec fn ls_pane_line(pane: PaneSnapshot) -> Seq<char> {
    "    "@ + text::decimal(pane.id.0 as nat) + " · "@ + pane.title@ + " · "@ + agent_or_shell(
        pane,
    ) + " · "@ + layout::state_text(pane.state)
}

/// The lines of one tab: its panes follow where it is active.
pub open spec fn ls_tab_lines(tab: TabInfo, panes: Seq<PaneSnapshot>) -> Seq<Seq<char>> {
    let head = seq!["  "@ + tab.name@ + " ("@ + layout::state_text(tab.state) + ")"@];
    if tab.active {
        head + panes.map_values(|p: PaneSnapshot| ls_pane_line(p))
    } else {
        head
    }
}

pub open spec fn ls_tabs_lines(
    tabs: Seq<TabInfo>,
    panes: Seq<PaneSnapshot>,
    count: int,
) -> Seq<Seq<char>>
    decreases count,
{
    if count <= 0 {
        Seq::empty()
    } else {
        ls_tabs_lines(tabs, panes, count - 1) + ls_tab_lines(tabs[count - 1], panes)
    }
}

/// The lines of the first `count` workspaces: the tabs follow the active one.
pub open spec fn ls_lines(layout: LayoutSnapshot, count: int) -> Seq<Seq<char>>
    decreases count,
{
    if count <= 0 {
        Seq::empty()
    } else {
        let w = layout.workspaces@[count - 1];
        let head = ls_lines(layout, count - 1).push(
            w.name@ + " ("@ + layout::state_text(w.state) + ")"@,
        );
        if w.active {
            head + ls_tabs_lines(layout.tabs@, layout.panes@, layout.tabs@.len() as int)
        } else {
            head
        }
    }
}

fn push_line(lines: &mut Vec<String>, line: String)
    ensures
        text::texts(final(lines)@) == text::texts(old(lines)@).push(line@),
{
    let ghost before = text::texts(lines@);
    let ghost made = line@;
    lines.push(line);
    assert(text::texts(lines@) =~= before.push(made));
}

fn push_tab_lines(lines: &mut Vec<String>, tab: &TabInfo, panes: &Vec<PaneSnapshot>)
    ensures
        text::texts(final(lines)@) == text::texts(old(lines)@) + ls_tab_lines(*tab, panes@),
{
    let ghost start = text::texts(lines@);
    let mut head = text::cat3("  ", tab.name.as_str(), " (");
    head.append(state_name(tab.state));
    head.append(")");
    let ghost first = start.push(head@);
    push_line(lines, head);
    if tab.active {
        let ghost all = panes@.map_values(|p: PaneSnapshot| ls_pane_line(p));
        let mut i: usize = 0;
        assert(first + all.take(0) =~= first);
        while i < panes.len()
            invariant
                all == panes@.map_values(|p: PaneSnapshot| ls_pane_line(p)),
                i <= panes@.len(),
                text::texts(lines@) == first + all.take(i as int),
            decreases panes@.len() - i,
        {
            let pane = &panes[i];
            let mut line = text::cat("    ", text::decimal_text(pane.id.0).as_str());
            line.append(" · ");
            line.append(pane.title.as_str());
            line.append(" · ");
            line.append(agent_label(pane));
            line.append(" · ");
            line.append(state_name(pane.state));
            push_line(lines, line);
            assert(all.take(i + 1) =~= all.take(i as int).push(all[i as int]));
            assert(text::texts(lines@) =~= first + all.take(i + 1));
            i += 1;
        }
        assert(all.take(i as int) =~= all);
    }
    assert(text::texts(lines@) =~= start + ls_tab_lines(*tab, panes@));
}

/// Workspaces, the tabs of the active one, and the panes of its active tab.
pub fn format_ls(layout: &LayoutSnapshot) -> (r: String)
    ensures
        r@ == text::joined(ls_lines(*layout, layout.workspaces@.len() as int), "\n"@),
{
    let mut lines: Vec<String> = Vec::new();
    let mut i: usize = 0;
    assert(text::texts(lines@) =~= Seq::empty());
    while i < layout.workspaces.len()
        invariant
            i <= layout.workspaces@.len(),
            text::texts(lines@) == ls_lines(*layout, i as int),
        decreases layout.workspaces@.len() - i,
    {
        let workspace = &layout.workspaces[i];
        let mut head = text::cat3(workspace.name.as_str(), " (", state_name(workspace.state));
        head.append(")");
        push_line(&mut lines, head);
        if workspace.active {
            let ghost first = text::texts(lines@);
            let mut k: usize = 0;
            assert(first + ls_tabs_lines(layout.tabs@, layout.panes@, 0) =~= first);
            while k < layout.tabs.len()
                invariant
                    k <= layout.tabs@.len(),
                    text::texts(lines@) == first + ls_tabs_lines(
                        layout.tabs@,
                        layout.panes@,
                        k as int,
                    ),
                decreases layout.tabs@.len() - k,
            {
                push_tab_lines(&mut lines, &layout.tabs[k], &layout.panes);
                assert(text::texts(lines@) =~= first + ls_tabs_lines(
                    layout.tabs@,
                    layout.panes@,
                    k + 1,
                ));
                k += 1;
            }
        }
        i += 1;
    }
    text::join(&lines, "\n")
}

// ----------------------------------------------------------------------- sessions

/// A session socket found in the runtime directory, with the result of probing
/// it.
#[derive(Debug, Clone, PartialEq, Eq)]
pub struct SessionEntry {
    pub name: String,
    pub path: String,
    /// False when nothing answers on the socket.
    pub alive: bool,
    /// True when the daemon rebuilt this session and no client has attached yet.
    pub restored: bool,
    pub workspaces: usize,
    pub tabs: usize,
    pub panes: usize,
}

/// Whether a directory entry is a session socket: its extension is `sock`.
pub fn is_session_socket(file_name: &str) -> (r: bool)
    ensures
        r == (text::extension_of(file_name@) == Some("sock"@)),
{
    match text::extension(file_name) {
        Some(extension) => text::same(extension.as_str(), "sock"),
        None => false,
    }
}

/// The listing entry of a socket, given what it answered to a layout query.
pub fn session_entry(file_name: &str, path: &str, probe: &Option<LayoutSnapshot>) -> (r:
    SessionEntry)
    ensures
        r.name@ == text::stem_of(file_name@),
        r.path@ == path@,
        r.alive == (probe is Some),
        probe matches Some(l) ==> r.restored == l.restored && r.workspaces == l.workspaces@.len()
            && r.tabs == l.tabs@.len() && r.panes == l.panes@.len(),
        probe is None ==> !r.restored && r.workspaces == 0 && r.tabs == 0 && r.panes == 0,
{
    let name = text::stem(file_name);
    match probe {
        Some(layout) => SessionEntry {
            name,
            path: path.to_owned(),
            alive: true,
            restored: layout.restored,
            workspaces: layout.workspaces.len(),
            tabs: layout.tabs.len(),
            panes: layout.panes.len(),
        },
        None => SessionEntry {
            name,
            path: path.to_owned(),
            alive: false,
            restored: false,
            workspaces: 0,
            tabs: 0,
            panes: 0,
        },
    }
}

pub open spec fn session_line(e: SessionEntry) -> Seq<char> {
    e.name@ + "  "@ + text::decimal(e.workspaces as nat) + " workspace(s)  "@ + text::decimal(
        e.tabs as nat,
    ) + " tab(s)  "@ + text::decimal(e.panes as nat) + " pane(s)"@ + (if !e.alive {
        " (dead)"@
    } else if e.restored {
        " (restored)"@
    } else {
        ""@
    })
}

/// One line per socket with its size and status.
pub fn format_sessions(entries: &[SessionEntry]) -> (r: String)
    ensures
        r@ == text::joined(entries@.map_values(|e: SessionEntry| session_line(e)), "\n"@),
{
    let ghost all = entries@.map_values(|e: SessionEntry| session_line(e));
    let mut lines: Vec<String> = Vec::new();
    let mut i: usize = 0;
    while i < entries.len()
        invariant
            all == entries@.map_values(|e: SessionEntry| session_line(e)),
            i <= entries@.len(),
            text::texts(lines@) == all.take(i as int),
        decreases entries@.len() - i,
    {
        let entry = &entries[i];
        let mut line = text::cat(entry.name.as_str(), "  ");
        line.append(text::decimal_text(entry.workspaces as u64).as_str());
        line.append(" workspace(s)  ");
        line.append(text::decimal_text(entry.tabs as u64).as_str());
        line.append(" tab(s)  ");
        line.append(text::decimal_text(entry.panes as u64).as_str());
        line.append(" pane(s)");
        line.append(
            if !entry.alive {
                " (dead)"
            } else if entry.restored {
                " (restored)"
            } else {
                ""
            },
        );
        push_line(&mut lines, line);
        assert(all.take(i + 1) =~= all.take(i as int).push(all[i as int]));
        i += 1;
    }
    assert(all.take(i as int) =~= all);
    text::join(&lines, "\n")
}

// ------------------------------------------------------------------------- events

/// One event as one line.
pub open spec fn event_line(event: Event) -> Seq<char> {
    match event {
        Event::AgentStateChanged { pane, from, to } => "agent_state_changed  pane "@
            + text::decimal(pane.0 as nat) + "  "@ + layout::state_text(from) + " -> "@
            + layout::state_text(to),
        Event::PaneOpened { pane } => "pane_opened  pane "@ + text::decimal(pane.0 as nat),
        Event::PaneClosed { pane } => "pane_closed  pane "@ + text::decimal(pane.0 as nat),
        Event::TabOpened { tab } => "tab_opened  tab "@ + text::decimal(tab.0 as nat),
        Event::TabClosed { tab } => "tab_closed  tab "@ + text::decimal(tab.0 as nat),
        Event::TabRenamed { tab, name } => "tab_renamed  tab "@ + text::decimal(tab.0 as nat)
            + "  "@ + name@,
        Event::WorkspaceOpened { workspace } => "workspace_opened  workspace "@ + text::decimal(
            workspace.0 as nat,
        ),
        Event::WorkspaceClosed { workspace } => "workspace_closed  workspace "@ + text::decimal(
            workspace.0 as nat,
        ),
        Event::WorkspaceRenamed { workspace, name } => "workspace_renamed  workspace "@
            + text::decimal(workspace.0 as nat) + "  "@ + name@,
        Event::SessionRenamed { name, socket } => "session_renamed  "@ + name@ + "  "@ + socket@,
        Event::Notification(n) => "notification  pane "@ + text::decimal(n.pane.0 as nat) + "  "@
            + n.agent@ + "  "@ + layout::state_text(n.state),
    }
}

/// One event as one line.
pub fn format_event(event: &Event) -> (r: String)
    ensures
        r@ == event_line(*event),
{
    match event {
        Event::AgentStateChanged { pane, from, to } => {
            let mut out = text::cat3(
                "agent_state_changed  pane ",
                text::decimal_text(pane.0).as_str(),
                "  ",
            );
            out.append(state_name(*from));
            out.append(" -> ");
            out.append(state_name(*to));
            out
        },
        Event::PaneOpened { pane } => text::cat(
            "pane_opened  pane ",
            text::decimal_text(pane.0).as_str(),
        ),
        Event::PaneClosed { pane } => text::cat(
            "pane_closed  pane ",
            text::decimal_text(pane.0).as_str(),
        ),
        Event::TabOpened { tab } => text::cat(
            "tab_opened  tab ",
            text::decimal_text(tab.0).as_str(),
        ),
        Event::TabClosed { tab } => text::cat(
            "tab_closed  tab ",
            text::decimal_text(tab.0).as_str(),
        ),
        Event::TabRenamed { tab, name } => {
            let mut out = text::cat3("tab_renamed  tab ", text::decimal_text(tab.0).as_str(), "  ");
            out.append(name.as_str());
            out
        },
        Event::WorkspaceOpened { workspace } => text::cat(
            "workspace_opened  workspace ",
            text::decimal_text(workspace.0).as_str(),
        ),
        Event::WorkspaceClosed { workspace } => text::cat(
            "workspace_closed  workspace ",
            text::decimal_text(workspace.0).as_str(),
        ),
        Event::WorkspaceRenamed { workspace, name } => {
            let mut out = text::cat3(
                "workspace_renamed  workspace ",
                text::decimal_text(workspace.0).as_str(),
                "  ",
            );
            out.append(name.as_str());
            out
        },
        Event::SessionRenamed { name, socket } => {
            let mut out = text::cat3("session_renamed  ", name.as_str(), "  ");
            out.append(socket.as_str());
            out
        },
        Event::Notification(n) => {
            let mut out = text::cat3(
                "notification  pane ",
                text::decimal_text(n.pane.0).as_str(),
                "  ",
            );
            out.append(n.agent.as_str());
            out.append("  ");
            out.append(state_name(n.state));
            out
        },
    }
}

/// What an event stream does with one message.
pub enum StreamStep {
    /// Print this event.
    Show(Event),
    /// The daemon went away in good order.
    End,
    Fail(String),
    /// Not an event: the reply to the subscription and later layouts.
    Skip,
}

/// What an event stream does with one message.
pub fn stream_step(message: ServerMessage) -> (r: StreamStep)
    ensures
        match message {
            ServerMessage::Event(event) => r == StreamStep::Show(event),
            ServerMessage::Shutdown => r == StreamStep::End,
            ServerMessage::Error { message } => r == StreamStep::Fail(message),
            _ => r == StreamStep::Skip,
        },
{
    match message {
        ServerMessage::Event(event) => StreamStep::Show(event),
        ServerMessage::Shutdown => StreamStep::End,
        ServerMessage::Error { message } => StreamStep::Fail(message),
        _ => StreamStep::Skip,
    }
}

// ------------------------------------------------------------------------ explain

/// Detection lines examined for a manifest rule.
pub const EXPLAIN_LINES: usize = 8;

/// The last lines of a text.
pub open spec fn last_lines(contents: Seq<char>, lines: int) -> Seq<char> {
    let all = text::line_texts(contents);
    text::joined(all.skip(crate::num::max(all.len() - lines, 0)), "\n"@)
}

pub fn bottom_lines(contents: &str, lines: usize) -> (r: String)
    ensures
        r@ == last_lines(contents@, lines as int),
{
    let all = text::lines(contents);
    let start: usize = all.len().saturating_sub(lines);
    let mut kept: Vec<String> = Vec::new();
    let mut i: usize = start;
    let ghost texts = text::line_texts(contents@);
    assert(texts.len() == all@.len());
    assert(texts.skip(start as int).take(0) =~= Seq::empty());
    while i < all.len()
        invariant
            text::texts(all@) == texts,
            texts.len() == all@.len(),
            start <= i <= all@.len(),
            text::texts(kept@) == texts.skip(start as int).take(i - start),
        decreases all@.len() - i,
    {
        assert(texts[i as int] == all@[i as int]@);
        push_line(&mut kept, all[i].clone());
        assert(texts.skip(start as int).take(i + 1 - start) =~= texts.skip(start as int).take(
            i - start,
        ).push(texts[i as int]));
        i += 1;
    }
    assert(texts.skip(start as int).take(i - start) =~= texts.skip(start as int));
    text::join(&kept, "\n")
}

/// The chosen state and reason, the agent, and the lines they were read from.
pub fn format_explain(pane: &PaneSnapshot) -> (r: String)
    ensures
        r@ == layout::state_text(pane.state) + "  "@ + pane.state_reason@ + "\nagent: "@ + (
        match pane.agent {
            Some(agent) => agent@,
            None => "none"@,
        }) + "\nmatched window (bottom 8 lines):\n"@ + last_lines(
            pane.screen.contents@,
            EXPLAIN_LINES as int,
        ),
{
    let mut out = text::cat3(state_name(pane.state), "  ", pane.state_reason.as_str());
    out.append("\nagent: ");
    match &pane.agent {
        Some(agent) => out.append(agent.as_str()),
        None => out.append("none"),
    }
    out.append("\nmatched window (bottom 8 lines):\n");
    out.append(bottom_lines(pane.screen.contents.as_str(), EXPLAIN_LINES).as_str());
    out
}

// -------------------------------------------------------------- resolving targets

/// The first workspace with a name.
pub open spec fn workspace_named(list: Seq<WorkspaceInfo>, name: Seq<char>) -> Option<WorkspaceId>
    decreases list.len(),
{
    if list.len() == 0 {
        None
    } else if list[0].name@ == name {
        Some(list[0].id)
    } else {
        workspace_named(list.skip(1), name)
    }
}

/// A workspace by its number where it names one, else by its name.
pub open spec fn workspace_for(list: Seq<WorkspaceInfo>, needle: Seq<char>) -> Option<WorkspaceId> {
    match text::parse_unsigned(needle) {
        Some(id) => if layout::workspace_with(list, WorkspaceId(id)) is Some {
            Some(WorkspaceId(id))
        } else {
            workspace_named(list, needle)
        },
        None => workspace_named(list, needle),
    }
}

fn find_workspace_named(list: &Vec<WorkspaceInfo>, name: &str) -> (r: Option<WorkspaceId>)
    ensures
        r == workspace_named(list@, name@),
{
    let mut i: usize = 0;
    assert(list@.skip(0) =~= list@);
    while i < list.len()
        invariant
            i <= list@.len(),
            workspace_named(list@, name@) == workspace_named(list@.skip(i as int), name@),
        decreases list@.len() - i,
    {
        assert(list@.skip(i as int)[0] == list@[i as int]);
        assert(list@.skip(i as int).skip(1) =~= list@.skip(i + 1));
        if text::same(list[i].name.as_str(), name) {
            return Some(list[i].id);
        }
        i += 1;
    }
    None
}

/// Resolves a workspace name or numeric id to a workspace id.
pub fn resolve_workspace(layout: &LayoutSnapshot, needle: &str) -> (r: Result<WorkspaceId, String>)
    ensures
        match workspace_for(layout.workspaces@, needle@) {
            Some(id) => r == Ok::<WorkspaceId, String>(id),
            None => text::fault(r) == Some("workspace '"@ + needle@ + "' not found"@),
        },
{
    if let Some(id) = text::parse_u64(needle) {
        if layout::find_workspace(&layout.workspaces, WorkspaceId(id)).is_some() {
            return Ok(WorkspaceId(id));
        }
    }
    match find_workspace_named(&layout.workspaces, needle) {
        Some(id) => Ok(id),
        None => Err(text::cat3("workspace '", needle, "' not found")),
    }
}

/// The first tab with a name.
pub open spec fn tab_named(list: Seq<SidebarTabInfo>, name: Seq<char>) -> Option<TabId>
    decreases list.len(),
{
    if list.len() == 0 {
        None
    } else if list[0].name@ == name {
        Some(list[0].id)
    } else {
        tab_named(list.skip(1), name)
    }
}

/// A tab of a workspace by its number where it names one, else by its name.
pub open spec fn tab_for(list: Seq<SidebarTabInfo>, needle: Seq<char>) -> Option<TabId> {
    match text::parse_unsigned(needle) {
        Some(id) => if layout::tab_with(list, TabId(id)) is Some {
            Some(TabId(id))
        } else {
            tab_named(list, needle)
        },
        None => tab_named(list, needle),
    }
}

fn find_tab_named(list: &Vec<SidebarTabInfo>, name: &str) -> (r: Option<TabId>)
    ensures
        r == tab_named(list@, name@),
{
    let mut i: usize = 0;
    assert(list@.skip(0) =~= list@);
    while i < list.len()
        invariant
            i <= list@.len(),
            tab_named(list@, name@) == tab_named(list@.skip(i as int), name@),
        decreases list@.len() - i,
    {
        assert(list@.skip(i as int)[0] == list@[i as int]);
        assert(list@.skip(i as int).skip(1) =~= list@.skip(i + 1));
        if text::same(list[i].name.as_str(), name) {
            return Some(list[i].id);
        }
        i += 1;
    }
    None
}

/// Resolves a tab name or numeric id within a workspace, or within the active
/// one.
pub fn resolve_tab(
    layout: &LayoutSnapshot,
    workspace: Option<WorkspaceId>,
    needle: &str,
) -> (r: Result<TabId, String>)
    ensures
        ({
            let target = match workspace {
                Some(id) => id,
                None => layout.active_workspace,
            };
            match layout::workspace_with(layout.workspaces@, target) {
                None => text::fault(r) == Some("workspace not found"@),
                Some(w) => match tab_for(w.tabs@, needle@) {
                    Some(id) => r == Ok::<TabId, String>(id),
                    None => text::fault(r) == Some("tab '"@ + needle@ + "' not found"@),
                },
            }
        }),
{
    let target = match workspace {
        Some(id) => id,
        None => layout.active_workspace,
    };
    let workspace = match layout::find_workspace(&layout.workspaces, target) {
        Some(w) => w,
        None => return Err("workspace not found".to_owned()),
    };
    if let Some(id) = text::parse_u64(needle) {
        if layout::find_tab(&workspace.tabs, TabId(id)).is_some() {
            return Ok(TabId(id));
        }
    }
    match find_tab_named(&workspace.tabs, needle) {
        Some(id) => Ok(id),
        None => Err(text::cat3("tab '", needle, "' not found")),
    }
}

/// All tabs of the first `count` workspaces, in order.
pub open spec fn all_tabs(list: Seq<WorkspaceInfo>, count: int) -> Seq<SidebarTabInfo>
    decreases count,
{
    if count <= 0 {
        Seq::empty()
    } else {
        all_tabs(list, count - 1) + list[count - 1].tabs@
    }
}

/// The ids of the tabs with a name, in order.
pub open spec fn tabs_named(tabs: Seq<SidebarTabInfo>, name: Seq<char>) -> Seq<TabId>
    decreases tabs.len(),
{
    if tabs.len() == 0 {
        Seq::empty()
    } else {
        let before = tabs_named(tabs.drop_last(), name);
        if tabs.last().name@ == name {
            before.push(tabs.last().id)
        } else {
            before
        }
    }
}

pub open spec fn has_tab(tabs: Seq<SidebarTabInfo>, id: TabId) -> bool {
    exists|i: int| 0 <= i < tabs.len() && (#[trigger] tabs[i]).id == id
}

/// The tabs of all workspaces, as references.
fn tab_refs(layout: &LayoutSnapshot) -> (r: Vec<&SidebarTabInfo>)
    ensures
        r@.map_values(|t: &SidebarTabInfo| *t) == all_tabs(
            layout.workspaces@,
            layout.workspaces@.len() as int,
        ),
{
    let mut out: Vec<&SidebarTabInfo> = Vec::new();
    let mut i: usize = 0;
    assert(out@.map_values(|t: &SidebarTabInfo| *t) =~= Seq::empty());
    while i < layout.workspaces.len()
        invariant
            i <= layout.workspaces@.len(),
            out@.map_values(|t: &SidebarTabInfo| *t) == all_tabs(layout.workspaces@, i as int),
        decreases layout.workspaces@.len() - i,
    {
        let tabs = &layout.workspaces[i].tabs;
        let ghost start = out@.map_values(|t: &SidebarTabInfo| *t);
        let mut k: usize = 0;
        assert(start + tabs@.take(0) =~= start);
        while k < tabs.len()
            invariant
                k <= tabs@.len(),
                out@.map_values(|t: &SidebarTabInfo| *t) == start + tabs@.take(k as int),
            decreases tabs@.len() - k,
        {
            let ghost before = out@.map_values(|t: &SidebarTabInfo| *t);
            out.push(&tabs[k]);
            assert(out@.map_values(|t: &SidebarTabInfo| *t) =~= before.push(tabs@[k as int]));
            assert(start + tabs@.take(k + 1) =~= (start + tabs@.take(k as int)).push(
                tabs@[k as int],
            ));
            k += 1;
        }
        assert(tabs@.take(k as int) =~= tabs@);
        i += 1;
    }
    out
}

/// Resolves a tab name or id anywhere in the session. Tab ids are global; a name
/// must be unique.
pub fn resolve_tab_anywhere(layout: &LayoutSnapshot, needle: &str) -> (r: Result<TabId, String>)
    ensures
        ({
            let tabs = all_tabs(layout.workspaces@, layout.workspaces@.len() as int);
            let number = text::parse_unsigned(needle@);
            let named = tabs_named(tabs, needle@);
            if number is Some && has_tab(tabs, TabId(number->0)) {
                r == Ok::<TabId, String>(TabId(number->0))
            } else if named.len() == 0 {
                text::fault(r) == Some("tab '"@ + needle@ + "' not found"@)
            } else if named.len() > 1 {
                text::fault(r) == Some("tab name '"@ + needle@ + "' is ambiguous; use its id"@)
            } else {
                r == Ok::<TabId, String>(named[0])
            }
        }),
{
    let refs = tab_refs(layout);
    let ghost tabs = all_tabs(layout.workspaces@, layout.workspaces@.len() as int);
    assert(refs@.len() == tabs.len());
    if let Some(id) = text::parse_u64(needle) {
        let mut i: usize = 0;
        while i < refs.len()
            invariant
                tabs == all_tabs(layout.workspaces@, layout.workspaces@.len() as int),
                refs@.map_values(|t: &SidebarTabInfo| *t) == tabs,
                refs@.len() == tabs.len(),
                text::parse_unsigned(needle@) == Some(id),
                i <= refs@.len(),
                forall|k: int| 0 <= k < i ==> (#[trigger] tabs[k]).id != TabId(id),
            decreases refs@.len() - i,
        {
            assert(tabs[i as int] == *refs@[i as int]);
            if refs[i].id == TabId(id) {
                assert(has_tab(tabs, TabId(id)));
                return Ok(TabId(id));
            }
            i += 1;
        }
    }
    let mut found: Vec<TabId> = Vec::new();
    let mut i: usize = 0;
    assert(tabs.take(0) =~= Seq::empty());
    while i < refs.len()
        invariant
            refs@.map_values(|t: &SidebarTabInfo| *t) == tabs,
            refs@.len() == tabs.len(),
            i <= refs@.len(),
            found@ == tabs_named(tabs.take(i as int), needle@),
        decreases refs@.len() - i,
    {
        assert(tabs[i as int] == *refs@[i as int]);
        assert(tabs.take(i + 1).drop_last() =~= tabs.take(i as int));
        assert(tabs.take(i + 1).last() == tabs[i as int]);
        if text::same(refs[i].name.as_str(), needle) {
            found.push(refs[i].id);
        }
        i += 1;
    }
    assert(tabs.take(i as int) =~= tabs);
    if found.len() == 0 {
        Err(text::cat3("tab '", needle, "' not found"))
    } else if found.len() > 1 {
        Err(text::cat3("tab name '", needle, "' is ambiguous; use its id"))
    } else {
        Ok(found[0])
    }
}

/// The workspaces that carry a git branch.
pub open spec fn branch_workspaces(list: Seq<WorkspaceInfo>) -> Seq<WorkspaceInfo>
    decreases list.len(),
{
    if list.len() == 0 {
        Seq::empty()
    } else {
        let before = branch_workspaces(list.drop_last());
        if list.last().branch is Some {
            before.push(list.last())
        } else {
            before
        }
    }
}

pub open spec fn workspace_targets(refs: Seq<&WorkspaceInfo>) -> Seq<WorkspaceInfo> {
    refs.map_values(|w: &WorkspaceInfo| *w)
}

/// Workspaces that carry a git branch: any that is rooted in a repository, not
/// just linked worktrees.
pub fn worktree_workspaces(layout: &LayoutSnapshot) -> (r: Vec<&WorkspaceInfo>)
    ensures
        workspace_targets(r@) == branch_workspaces(layout.workspaces@),
{
    let mut out: Vec<&WorkspaceInfo> = Vec::new();
    let mut i: usize = 0;
    let ghost list = layout.workspaces@;
    assert(list.take(0) =~= Seq::empty());
    assert(workspace_targets(out@) =~= Seq::empty());
    while i < layout.workspaces.len()
        invariant
            list == layout.workspaces@,
            i <= list.len(),
            workspace_targets(out@) == branch_workspaces(list.take(i as int)),
        decreases list.len() - i,
    {
        assert(list.take(i + 1).drop_last() =~= list.take(i as int));
        assert(list.take(i + 1).last() == list[i as int]);
        let ghost before = workspace_targets(out@);
        if layout.workspaces[i].branch.is_some() {
            out.push(&layout.workspaces[i]);
            assert(workspace_targets(out@) =~= before.push(list[i as int]));
        }
        i += 1;
    }
    assert(list.take(i as int) =~= list);
    out
}

/// The first workspace on a branch.
pub open spec fn workspace_on(list: Seq<WorkspaceInfo>, branch: Seq<char>) -> Option<WorkspaceId>
    decreases list.len(),
{
    if list.len() == 0 {
        None
    } else if text::option_text(list[0].branch) == Some(branch) {
        Some(list[0].id)
    } else {
        workspace_on(list.skip(1), branch)
    }
}

/// Resolves a worktree target: a workspace id, a workspace name, or a branch.
pub fn resolve_worktree(layout: &LayoutSnapshot, needle: &str) -> (r: Result<WorkspaceId, String>)
    ensures
        ({
            let list = layout.workspaces@;
            match workspace_for(list, needle@) {
                Some(id) => r == Ok::<WorkspaceId, String>(id),
                None => match workspace_on(list, needle@) {
                    Some(id) => r == Ok::<WorkspaceId, String>(id),
                    None => text::fault(r) == Some("no worktree workspace for '"@ + needle@ + "'"@),
                },
            }
        }),
{
    if let Ok(id) = resolve_workspace(layout, needle) {
        return Ok(id);
    }
    let ghost list = layout.workspaces@;
    let mut i: usize = 0;
    assert(list.skip(0) =~= list);
    while i < layout.workspaces.len()
        invariant
            list == layout.workspaces@,
            workspace_for(list, needle@) is None,
            i <= list.len(),
            workspace_on(list, needle@) == workspace_on(list.skip(i as int), needle@),
        decreases list.len() - i,
    {
        assert(list.skip(i as int)[0] == list[i as int]);
        assert(list.skip(i as int).skip(1) =~= list.skip(i + 1));
        if let Some(branch) = &layout.workspaces[i].branch {
            if text::same(branch.as_str(), needle) {
                return Ok(layout.workspaces[i].id);
            }
        }
        i += 1;
    }
    Err(text::cat3("no worktree workspace for '", needle, "'"))
}

/// The listing line of a branch workspace.
pub open spec fn worktree_line(list: Seq<WorkspaceInfo>, w: WorkspaceInfo) -> Seq<char> {
    let parent = match w.parent {
        Some(id) => layout::workspace_with(list, id),
        None => None,
    };
    text::decimal(w.id.0 as nat) + "  "@ + w.name@ + "  ⎇ "@ + (match w.branch {
        Some(branch) => branch@,
        None => "-"@,
    }) + "  "@ + (match w.root {
        Some(root) => root@,
        None => Seq::empty(),
    }) + (match parent {
        Some(p) => "  parent "@ + p.name@,
        None => Seq::empty(),
    })
}

fn worktree_text(layout: &LayoutSnapshot, w: &WorkspaceInfo) -> (r: String)
    ensures
        r@ == worktree_line(layout.workspaces@, *w),
{
    let mut line = text::decimal_text(w.id.0);
    line.append("  ");
    line.append(w.name.as_str());
    line.append("  ⎇ ");
    match &w.branch {
        Some(branch) => line.append(branch.as_str()),
        None => line.append("-"),
    }
    line.append("  ");
    let ghost before = line@;
    if let Some(root) = &w.root {
        line.append(root.as_str());
    } else {
        assert(line@ =~= before + Seq::<char>::empty());
    }
    let ghost rooted = line@;
    if let Some(id) = w.parent {
        if let Some(parent) = layout::find_workspace(&layout.workspaces, id) {
            line.append(text::cat("  parent ", parent.name.as_str()).as_str());
            return line;
        }
    }
    assert(line@ =~= rooted + Seq::<char>::empty());
    line
}

/// One line per branch workspace with its id, name, branch, root, and the name
/// of its parent when nested.
pub fn format_worktrees(layout: &LayoutSnapshot) -> (r: String)
    ensures
        r@ == text::joined(
            branch_workspaces(layout.workspaces@).map_values(
                |w: WorkspaceInfo| worktree_line(layout.workspaces@, w),
            ),
            "\n"@,
        ),
{
    let list = worktree_workspaces(layout);
    let ghost shown = branch_workspaces(layout.workspaces@);
    let ghost all = shown.map_values(|w: WorkspaceInfo| worktree_line(layout.workspaces@, w));
    assert(list@.len() == shown.len());
    let mut lines: Vec<String> = Vec::new();
    let mut i: usize = 0;
    while i < list.len()
        invariant
            workspace_targets(list@) == shown,
            list@.len() == shown.len(),
            all == shown.map_values(|w: WorkspaceInfo| worktree_line(layout.workspaces@, w)),
            i <= list@.len(),
            text::texts(lines@) == all.take(i as int),
        decreases list@.len() - i,
    {
        assert(shown[i as int] == *list@[i as int]);
        push_line(&mut lines, worktree_text(layout, list[i]));
        assert(all.take(i + 1) =~= all.take(i as int).push(all[i as int]));
        i += 1;
    }
    assert(all.take(i as int) =~= all);
    text::join(&lines, "\n")
}

/// The focused pane in a snapshot: the one that a `NewPane` reply just created.
pub fn focused_pane(layout: &LayoutSnapshot) -> (r: Result<PaneId, String>)
    ensures
        match layout::pane_in_focus(layout.panes@) {
            Some(pane) => r == Ok::<PaneId, String>(pane.id),
            None => text::fault(r) == Some("no focused pane in reply"@),
        },
{
    match layout::find_focused(&layout.panes) {
        Some(pane) => Ok(pane.id),
        None => Err("no focused pane in reply".to_owned()),
    }
}

// ------------------------------------------------------------------ agent targets

/// The panes that an agent target could mean: those of recognized agents
/// anywhere, and those on screen.
pub open spec fn is_candidate(layout: LayoutSnapshot, pane: PaneId) -> bool {
    ||| exists|i: int, j: int, k: int|
        0 <= i < layout.workspaces@.len() && 0 <= j < layout.workspaces@[i].tabs@.len() && 0 <= k
            < layout.workspaces@[i].tabs@[j].agents@.len()
            && #[trigger] layout.workspaces@[i].tabs@[j].agents@[k].pane == pane
    ||| exists|i: int| 0 <= i < layout.panes@.len() && (#[trigger] layout.panes@[i]).id == pane
}

fn add_once(ids: &mut Vec<PaneId>, id: PaneId)
    requires
        old(ids)@.no_duplicates(),
    ensures
        final(ids)@.no_duplicates(),
        forall|p: PaneId|
            #[trigger] final(ids)@.contains(p) <==> old(ids)@.contains(p) || p == id,
{
    let mut i: usize = 0;
    while i < ids.len()
        invariant
            ids@ == old(ids)@,
            ids@.no_duplicates(),
            i <= ids@.len(),
            forall|k: int| 0 <= k < i ==> ids@[k] != id,
        decreases ids@.len() - i,
    {
        if ids[i] == id {
            assert(ids@.contains(id));
            return ;
        }
        i += 1;
    }
    let ghost before = ids@;
    ids.push(id);
    assert forall|p: PaneId| #[trigger] ids@.contains(p) <==> before.contains(p) || p == id by {
        if before.contains(p) {
            let k = choose|k: int| 0 <= k < before.len() && before[k] == p;
            assert(ids@[k] == p);
        }
        assert(ids@[before.len() as int] == id);
        if ids@.contains(p) {
            let k = choose|k: int| 0 <= k < ids@.len() && ids@[k] == p;
            if k < before.len() {
                assert(before[k] == p);
            }
        }
    }
}

/// The panes to ask about for an agent target that is no number, each once.
pub fn agent_candidates(layout: &LayoutSnapshot) -> (r: Vec<PaneId>)
    ensures
        r@.no_duplicates(),
        forall|p: PaneId| #[trigger] r@.contains(p) <==> is_candidate(*layout, p),
{
    let mut ids: Vec<PaneId> = Vec::new();
    let mut i: usize = 0;
    while i < layout.workspaces.len()
        invariant
            i <= layout.workspaces@.len(),
            ids@.no_duplicates(),
            forall|p: PaneId|
                #[trigger] ids@.contains(p) <==> agent_before(*layout, p, i as int, 0, 0),
        decreases layout.workspaces@.len() - i,
    {
        let tabs = &layout.workspaces[i].tabs;
        let mut j: usize = 0;
        while j < tabs.len()
            invariant
                i < layout.workspaces@.len(),
                *tabs == layout.workspaces@[i as int].tabs,
                j <= tabs@.len(),
                ids@.no_duplicates(),
                forall|p: PaneId|
                    #[trigger] ids@.contains(p) <==> agent_before(*layout, p, i as int, j as int, 0),
            decreases tabs@.len() - j,
        {
            let agents = &tabs[j].agents;
            let mut k: usize = 0;
            while k < agents.len()
                invariant
                    i < layout.workspaces@.len(),
                    *tabs == layout.workspaces@[i as int].tabs,
                    j < tabs@.len(),
                    *agents == tabs@[j as int].agents,
                    k <= agents@.len(),
                    ids@.no_duplicates(),
                    forall|p: PaneId|
                        #[trigger] ids@.contains(p) <==> agent_before(
                            *layout,
                            p,
                            i as int,
                            j as int,
                            k as int,
                        ),
                decreases agents@.len() - k,
            {
                let ghost before = ids@;
                add_once(&mut ids, agents[k].pane);
                assert forall|p: PaneId| #[trigger] ids@.contains(p) <==> agent_before(
                    *layout,
                    p,
                    i as int,
                    j as int,
                    k + 1,
                ) by {
                    lemma_agent_step(*layout, p, i as int, j as int, k as int);
                    assert(before.contains(p) <==> agent_before(
                        *layout,
                        p,
                        i as int,
                        j as int,
                        k as int,
                    ));
                }
                k += 1;
            }
            assert forall|p: PaneId| #[trigger] ids@.contains(p) <==> agent_before(
                *layout,
                p,
                i as int,
                j + 1,
                0,
            ) by {
                lemma_agent_tab(*layout, p, i as int, j as int);
            }
            j += 1;
        }
        assert forall|p: PaneId| #[trigger] ids@.contains(p) <==> agent_before(
            *layout,
            p,
            i + 1,
            0,
            0,
        ) by {
            lemma_agent_workspace(*layout, p, i as int);
        }
        i += 1;
    }
    let ghost agents_only = ids@;
    let mut n: usize = 0;
    while n < layout.panes.len()
        invariant
            n <= layout.panes@.len(),
            ids@.no_duplicates(),
            forall|p: PaneId|
                #[trigger] ids@.contains(p) <==> agents_only.contains(p) || exists|m: int|
                    0 <= m < n && (#[trigger] layout.panes@[m]).id == p,
        decreases layout.panes@.len() - n,
    {
        let ghost before = ids@;
        add_once(&mut ids, layout.panes[n].id);
        assert forall|p: PaneId| #[trigger] ids@.contains(p) <==> agents_only.contains(p)
            || exists|m: int| 0 <= m < n + 1 && (#[trigger] layout.panes@[m]).id == p by {
            assert(before.contains(p) <==> agents_only.contains(p) || exists|m: int|
                0 <= m < n && (#[trigger] layout.panes@[m]).id == p);
            if layout.panes@[n as int].id == p {
                assert(0 <= n < n + 1);
            }
        }
        n += 1;
    }
    assert forall|p: PaneId| #[trigger] ids@.contains(p) <==> is_candidate(*layout, p) by {
        assert(agents_only.contains(p) <==> agent_before(
            *layout,
            p,
            layout.workspaces@.len() as int,
            0,
            0,
        ));
    }
    ids
}

/// Whether a pane holds an agent that comes before position `(w, t, a)`.
spec fn agent_before(layout: LayoutSnapshot, pane: PaneId, w: int, t: int, a: int) -> bool {
    exists|i: int, j: int, k: int|
        0 <= i < layout.workspaces@.len() && 0 <= j < layout.workspaces@[i].tabs@.len() && 0 <= k
            < layout.workspaces@[i].tabs@[j].agents@.len() && (i < w || (i == w && (j < t || (j == t
            && k < a)))) && #[trigger] layout.workspaces@[i].tabs@[j].agents@[k].pane == pane
}

proof fn lemma_agent_step(layout: LayoutSnapshot, pane: PaneId, w: int, t: int, a: int)
    requires
        0 <= w < layout.workspaces@.len(),
        0 <= t < layout.workspaces@[w].tabs@.len(),
        0 <= a < layout.workspaces@[w].tabs@[t].agents@.len(),
    ensures
        agent_before(layout, pane, w, t, a + 1) <==> agent_before(layout, pane, w, t, a)
            || layout.workspaces@[w].tabs@[t].agents@[a].pane == pane,
{
}

proof fn lemma_agent_tab(layout: LayoutSnapshot, pane: PaneId, w: int, t: int)
    requires
        0 <= w < layout.workspaces@.len(),
        0 <= t < layout.workspaces@[w].tabs@.len(),
    ensures
        agent_before(layout, pane, w, t + 1, 0) <==> agent_before(
            layout,
            pane,
            w,
            t,
            layout.workspaces@[w].tabs@[t].agents@.len() as int,
        ),
{
}

proof fn lemma_agent_workspace(layout: LayoutSnapshot, pane: PaneId, w: int)
    requires
        0 <= w < layout.workspaces@.len(),
    ensures
        agent_before(layout, pane, w + 1, 0, 0) <==> agent_before(
            layout,
            pane,
            w,
            layout.workspaces@[w].tabs@.len() as int,
            0,
        ),
{
}

/// Whether a pane answers to a target: by its agent's name or its title.
pub open spec fn answers_to(pane: PaneSnapshot, target: Seq<char>) -> bool {
    text::option_text(pane.agent) == Some(target) || pane.title@ == target
}

/// The indices of the panes that answer to a target, in order.
pub open spec fn answering(panes: Seq<PaneSnapshot>, target: Seq<char>) -> Seq<int>
    decreases panes.len(),
{
    if panes.len() == 0 {
        Seq::empty()
    } else {
        let before = answering(panes.drop_last(), target);
        if answers_to(panes.last(), target) {
            before.push(panes.len() - 1)
        } else {
            before
        }
    }
}

proof fn lemma_answering(panes: Seq<PaneSnapshot>, target: Seq<char>)
    ensures
        forall|i: int|
            0 <= i < answering(panes, target).len() ==> 0 <= #[trigger] answering(panes, target)[i]
                < panes.len(),
    decreases panes.len(),
{
    if panes.len() > 0 {
        let front = answering(panes.drop_last(), target);
        let all = answering(panes, target);
        lemma_answering(panes.drop_last(), target);
        assert forall|i: int| 0 <= i < all.len() implies 0 <= #[trigger] all[i] < panes.len() by {
            if i < front.len() {
                assert(all[i] == front[i]);
            }
        }
    }
}

/// The one pane among the candidates that answers to a target, by its index.
pub fn pick_agent_target(panes: &Vec<PaneSnapshot>, target: &str) -> (r: Result<usize, String>)
    ensures
        ({
            let found = answering(panes@, target@);
            if found.len() == 0 {
                text::fault(r) == Some(
                    "agent target '"@ + target@
                        + "' not found; use a pane id, agent name, or pane title"@,
                )
            } else if found.len() > 1 {
                text::fault(r) == Some(
                    "agent target '"@ + target@ + "' is ambiguous; use a pane id"@,
                )
            } else {
                r matches Ok(index) && index == found[0] && index < panes@.len()
            }
        }),
{
    let mut found: Vec<usize> = Vec::new();
    let mut i: usize = 0;
    assert(panes@.take(0) =~= Seq::empty());
    assert(found@.map_values(|n: usize| n as int) =~= Seq::empty());
    while i < panes.len()
        invariant
            i <= panes@.len(),
            found@.map_values(|n: usize| n as int) == answering(panes@.take(i as int), target@),
        decreases panes@.len() - i,
    {
        assert(panes@.take(i + 1).drop_last() =~= panes@.take(i as int));
        assert(panes@.take(i + 1).last() == panes@[i as int]);
        let named = match &panes[i].agent {
            Some(agent) => text::same(agent.as_str(), target),
            None => false,
        };
        let ghost before = found@.map_values(|n: usize| n as int);
        if named || text::same(panes[i].title.as_str(), target) {
            found.push(i);
            assert(found@.map_values(|n: usize| n as int) =~= before.push(i as int));
        }
        i += 1;
    }
    assert(panes@.take(i as int) =~= panes@);
    proof {
        lemma_answering(panes@, target@);
        assert(found@.map_values(|n: usize| n as int).len() == found@.len());
    }
    if found.len() == 0 {
        Err(
            text::cat3(
                "agent target '",
                target,
                "' not found; use a pane id, agent name, or pane title",
            ),
        )
    } else if found.len() > 1 {
        Err(text::cat3("agent target '", target, "' is ambiguous; use a pane id"))
    } else {
        assert(found@.map_values(|n: usize| n as int)[0] == found@[0]);
        Ok(found[0])
    }
}

} // verus!
