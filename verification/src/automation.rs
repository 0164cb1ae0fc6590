//! Script-safe agent control on top of the pane protocol.
//!
//! Targeting and the prompt lifecycle are decided here, so that callers never
//! need to race a focus change just to address a pane.

use vstd::prelude::*;

use crate::commands;
use crate::paste;
use crate::proto::{
    AgentStateKind, ClientMessage, LayoutSnapshot, PaneId, PaneSnapshot, TabId,
    WorkspaceId,
};
use crate::text;

verus! {

/// Milliseconds between two looks at a pane.
pub const POLL_MILLIS: u64 = 250;

/// One prompt is one write, so that concurrent scripts cannot mix their pastes.
/// Larger input should use files.
pub const MAX_PROMPT_BYTES: usize = 65536;

// -------------------------------------------------------------------------- targets

/// The panes to look at for a target.
#[derive(Debug, Clone, PartialEq, Eq)]
pub enum TargetQuery {
    /// The target is a pane id.
    One(PaneId),
    /// The target is a name: look at each of these.
    Each(Vec<PaneId>),
}

/// Which panes a target could mean.
pub fn target_query(layout: &LayoutSnapshot, target: &str) -> (r: TargetQuery)
    ensures
        match text::parse_unsigned(target@) {
            Some(id) => r == TargetQuery::One(PaneId(id)),
            None => r matches TargetQuery::Each(ids) && ids@.no_duplicates() && forall|p: PaneId|
                #[trigger] ids@.contains(p) <==> commands::is_candidate(*layout, p),
        },
{
    match text::parse_u64(target) {
        Some(id) => TargetQuery::One(PaneId(id)),
        None => TargetQuery::Each(commands::agent_candidates(layout)),
    }
}

/// Rejects shells and unknown processes before an automation action can write
/// to them.
pub fn recognized(pane: PaneSnapshot, target: &str) -> (r: Result<PaneSnapshot, String>)
    ensures
        pane.agent is Some ==> r == Ok::<PaneSnapshot, String>(pane),
        pane.agent is None ==> text::fault(r) == Some(
            "target '"@ + target@ + "' is not a recognized agent pane"@,
        ),
{
    if pane.agent.is_none() {
        return Err(text::cat3("target '", target, "' is not a recognized agent pane"));
    }
    Ok(pane)
}

/// The request that starts a command, always in a new pane: a busy shell is never
/// mistaken for an idle agent.
pub fn start(
    workspace: Option<WorkspaceId>,
    tab: Option<TabId>,
    name: Option<String>,
    command: Vec<String>,
) -> (r: ClientMessage)
    ensures
        r == (ClientMessage::NewPane {
            workspace,
            tab,
            split: None,
            command: Some(command),
            name,
            context: None,
        }),
{
    ClientMessage::NewPane {
        workspace,
        tab,
        split: None,
        command: Some(command),
        name,
        context: None,
    }
}

// -------------------------------------------------------------------------- prompts

/// How a prompt ended.
#[derive(Debug, Clone, PartialEq, Eq)]
pub enum PromptOutcome {
    Sent(PaneSnapshot),
    Settled(PaneSnapshot),
    TimedOut,
}

/// A time limit needs something to wait for.
pub fn check_prompt(wait: bool, until: Option<AgentStateKind>, timeout: Option<u64>) -> (r: Result<
    (),
    String,
>)
    ensures
        text::fault(r) == (if timeout is Some && !wait && until is None {
            Some("--timeout requires --wait or --until"@)
        } else {
            None
        }),
{
    if timeout.is_some() && !wait && until.is_none() {
        return Err("--timeout requires --wait or --until".to_owned());
    }
    Ok(())
}

/// The bytes of a prompt: the clean text as a paste, then Enter, in one write.
pub open spec fn prompt_bytes(input: Seq<char>, bracketed: bool) -> Seq<u8> {
    let clean = paste::clean(paste::unix_newlines(input));
    vstd::utf8::encode_utf8(
        if bracketed {
            "\x1b[200~"@ + clean + "\x1b[201~"@
        } else {
            text::replace_char(clean, '\n', "\r"@)
        },
    ).push(13)
}

/// Why a prompt is refused.
pub open spec fn prompt_fault(pane: PaneSnapshot, target: Seq<char>, input: Seq<char>) -> Option<
    Seq<char>,
> {
    let bytes = prompt_bytes(input, pane.screen.bracketed_paste);
    if pane.state == AgentStateKind::Blocked {
        Some("agent '"@ + target + "' is blocked; resolve its request before prompting"@)
    } else if bytes.len() > MAX_PROMPT_BYTES {
        Some(
            "prompt is "@ + text::decimal(bytes.len()) + " bytes; the automation limit is "@
                + "65536 bytes"@,
        )
    } else {
        None
    }
}

/// The message writes the prompt to the very agent that was looked up.
pub open spec fn submits(message: ClientMessage, pane: PaneSnapshot, input: Seq<char>) -> bool {
    message matches ClientMessage::PromptAgent {
        pane: id,
        expected_agent,
        expected_generation,
        bytes,
    } && id == pane.id && Some(expected_agent@) == text::option_text(pane.agent)
        && expected_generation == pane.agent_generation && bytes@ == prompt_bytes(
        input,
        pane.screen.bracketed_paste,
    )
}

/// Builds the guarded write of a prompt.
pub fn submission(pane: &PaneSnapshot, target: &str, input: &str) -> (r: Result<
    ClientMessage,
    String,
>)
    requires
        pane.agent is Some,
    ensures
        text::fault(r) == prompt_fault(*pane, target@, input@),
        r matches Ok(message) ==> submits(message, *pane, input@),
{
    if pane.state == AgentStateKind::Blocked {
        return Err(
            text::cat3(
                "agent '",
                target,
                "' is blocked; resolve its request before prompting",
            ),
        );
    }
    let clean = paste::sanitize(input);
    let mut bytes = paste::wrap(clean.as_str(), pane.screen.bracketed_paste);
    bytes.push(13);
    if bytes.len() > MAX_PROMPT_BYTES {
        let size = text::decimal_text(bytes.len() as u64);
        let mut message = text::cat3(
            "prompt is ",
            size.as_str(),
            " bytes; the automation limit is ",
        );
        message.append("65536 bytes");
        return Err(message);
    }
    let agent = match &pane.agent {
        Some(agent) => agent.clone(),
        None => String::new(),
    };
    Ok(
        ClientMessage::PromptAgent {
            pane: pane.id,
            expected_agent: agent,
            expected_generation: pane.agent_generation,
            bytes,
        },
    )
}

/// Whether a prompt is waited for.
pub fn waits(wait: bool, until: Option<AgentStateKind>) -> (r: bool)
    ensures
        r == (wait || until is Some),
{
    wait || until.is_some()
}

pub open spec fn active(state: AgentStateKind) -> bool {
    state == AgentStateKind::Working || state == AgentStateKind::Blocked
}

/// Whether a snapshot shows the agent at work or asking for attention. A repaint
/// or an echoed prompt is not enough.
pub fn has_fresh_activity(snapshot: &PaneSnapshot, baseline_screen: &str) -> (r: bool)
    ensures
        r == active(snapshot.state),
{
    match snapshot.state {
        AgentStateKind::Working => true,
        AgentStateKind::Blocked => true,
        _ => false,
    }
}

/// A wait for an agent to settle after a prompt. The identity is that of before
/// the prompt.
#[derive(Debug, Clone, PartialEq, Eq)]
pub struct Waiter {
    pub pane: PaneId,
    pub agent: String,
    pub generation: u64,
    pub activity_revision: u64,
    pub until: Option<AgentStateKind>,
    /// The agent was seen at work since the prompt.
    pub fresh: bool,
}

/// What a waiter makes of a snapshot.
#[derive(Debug, Clone, Copy, PartialEq, Eq, Structural)]
pub enum WaitStep {
    Settled,
    /// Look again later.
    Again,
}

impl Waiter {
    /// The snapshot is of the agent that was prompted.
    pub open spec fn recognizes(self, snapshot: PaneSnapshot) -> bool {
        text::option_text(snapshot.agent) == Some(self.agent@) && snapshot.agent_generation
            == self.generation
    }

    /// Whether the agent has been at work, this snapshot counted.
    pub open spec fn freshened(self, snapshot: PaneSnapshot) -> bool {
        self.fresh || active(snapshot.state) || snapshot.activity_revision > self.activity_revision
    }

    /// The state is one to stop at.
    pub open spec fn stops_at(self, state: AgentStateKind) -> bool {
        match self.until {
            Some(wanted) => state == wanted,
            None => state == AgentStateKind::Blocked || state == AgentStateKind::Done || state
                == AgentStateKind::Idle,
        }
    }

    pub open spec fn settles(self, snapshot: PaneSnapshot) -> bool {
        self.freshened(snapshot) && self.stops_at(snapshot.state)
    }

    /// The wait begins with a snapshot.
    pub open spec fn begins(self, pane: PaneSnapshot, until: Option<AgentStateKind>) -> bool {
        &&& self.pane == pane.id
        &&& Some(self.agent@) == text::option_text(pane.agent)
        &&& self.generation == pane.agent_generation
        &&& self.activity_revision == pane.activity_revision
        &&& self.until == until
        &&& self.fresh == (pane.state == AgentStateKind::Working)
    }

    /// What a snapshot makes of a wait.
    pub open spec fn observes(
        self,
        snapshot: PaneSnapshot,
        after: Waiter,
        result: Result<WaitStep, String>,
    ) -> bool {
        &&& after.pane == self.pane
        &&& after.agent == self.agent
        &&& after.generation == self.generation
        &&& after.activity_revision == self.activity_revision
        &&& after.until == self.until
        &&& if self.recognizes(snapshot) {
            after.fresh == self.freshened(snapshot) && result == Ok::<WaitStep, String>(
                if self.settles(snapshot) {
                    WaitStep::Settled
                } else {
                    WaitStep::Again
                },
            )
        } else {
            after.fresh == self.fresh && text::fault(result) == Some(
                "agent pane "@ + text::decimal(self.pane.0 as nat) + " was replaced while waiting"@,
            )
        }
    }

    /// A wait that begins with the snapshot a prompt was built from.
    pub fn new(pane: &PaneSnapshot, until: Option<AgentStateKind>) -> (r: Self)
        requires
            pane.agent is Some,
        ensures
            r.begins(*pane, until),
            r.pane == pane.id,
            Some(r.agent@) == text::option_text(pane.agent),
            r.generation == pane.agent_generation,
            r.activity_revision == pane.activity_revision,
            r.until == until,
            r.fresh == (pane.state == AgentStateKind::Working),
    {
        let agent = match &pane.agent {
            Some(agent) => agent.clone(),
            None => String::new(),
        };
        Waiter {
            pane: pane.id,
            agent,
            generation: pane.agent_generation,
            activity_revision: pane.activity_revision,
            until,
            fresh: pane.state == AgentStateKind::Working,
        }
    }

    /// Takes a snapshot into account. A pane that changed hands is an error, never
    /// a match.
    pub fn observe(&mut self, snapshot: &PaneSnapshot) -> (r: Result<WaitStep, String>)
        ensures
            final(self).pane == old(self).pane,
            final(self).agent == old(self).agent,
            final(self).generation == old(self).generation,
            final(self).activity_revision == old(self).activity_revision,
            final(self).until == old(self).until,
            old(self).observes(*snapshot, *final(self), r),
            !old(self).recognizes(*snapshot) ==> final(self).fresh == old(self).fresh
                && text::fault(r) == Some(
                "agent pane "@ + text::decimal(old(self).pane.0 as nat)
                    + " was replaced while waiting"@,
            ),
            old(self).recognizes(*snapshot) ==> final(self).fresh == old(self).freshened(*snapshot)
                && r == Ok::<WaitStep, String>(
                if old(self).settles(*snapshot) {
                    WaitStep::Settled
                } else {
                    WaitStep::Again
                },
            ),
    {
        let same = match &snapshot.agent {
            Some(agent) => text::same(agent.as_str(), self.agent.as_str()),
            None => false,
        };
        if !same || snapshot.agent_generation != self.generation {
            let id = text::decimal_text(self.pane.0);
            return Err(text::cat3("agent pane ", id.as_str(), " was replaced while waiting"));
        }
        if has_fresh_activity(snapshot, "") || snapshot.activity_revision > self.activity_revision {
            self.fresh = true;
        }
        if self.fresh {
            let reached = match self.until {
                Some(wanted) => snapshot.state == wanted,
                None => match snapshot.state {
                    AgentStateKind::Blocked => true,
                    AgentStateKind::Done => true,
                    AgentStateKind::Idle => true,
                    _ => false,
                },
            };
            if reached {
                return Ok(WaitStep::Settled);
            }
        }
        Ok(WaitStep::Again)
    }
}

/// Whether a wait is over after some of the snapshots.
pub open spec fn settled_within(waiter: Waiter, snapshots: Seq<PaneSnapshot>) -> bool
    decreases snapshots.len(),
{
    snapshots.len() > 0 && (waiter.settles(snapshots[0]) || settled_within(
        Waiter { fresh: waiter.freshened(snapshots[0]), ..waiter },
        snapshots.skip(1),
    ))
}

/// A stale state never satisfies a wait: as long as the agent was at rest before
/// the prompt and no snapshot shows it at work or counts new activity, the wait
/// goes on, whatever state is waited for.
pub proof fn law_stale_states_never_settle(waiter: Waiter, snapshots: Seq<PaneSnapshot>)
    requires
        !waiter.fresh,
        forall|i: int|
            0 <= i < snapshots.len() ==> !active((#[trigger] snapshots[i]).state)
                && snapshots[i].activity_revision <= waiter.activity_revision,
    ensures
        !settled_within(waiter, snapshots),
    decreases snapshots.len(),
{
    if snapshots.len() > 0 {
        let next = Waiter { fresh: waiter.freshened(snapshots[0]), ..waiter };
        assert(!waiter.freshened(snapshots[0]));
        assert forall|i: int| 0 <= i < snapshots.skip(1).len() implies !active(
            (#[trigger] snapshots.skip(1)[i]).state,
        ) && snapshots.skip(1)[i].activity_revision <= next.activity_revision by {
            assert(snapshots.skip(1)[i] == snapshots[i + 1]);
        }
        law_stale_states_never_settle(next, snapshots.skip(1));
    }
}

/// A wait without a state ends at the first state of rest or question that
/// follows work.
pub proof fn law_work_then_rest_settles(waiter: Waiter, busy: PaneSnapshot, rest: PaneSnapshot)
    requires
        waiter.until is None,
        busy.state == AgentStateKind::Working,
        rest.state == AgentStateKind::Done || rest.state == AgentStateKind::Idle || rest.state
            == AgentStateKind::Blocked,
    ensures
        settled_within(waiter, seq![busy, rest]),
{
    reveal_with_fuel(settled_within, 3);
    assert(seq![busy, rest].skip(1) =~= seq![rest]);
}

/// A run of a wait: it begins with a snapshot, and each later snapshot leads from one
/// state of the wait to the next.
pub open spec fn waited(
    pane: PaneSnapshot,
    until: Option<AgentStateKind>,
    snapshots: Seq<PaneSnapshot>,
    waits: Seq<Waiter>,
    results: Seq<Result<WaitStep, String>>,
) -> bool {
    &&& waits.len() == snapshots.len() + 1
    &&& results.len() == snapshots.len()
    &&& waits[0].begins(pane, until)
    &&& forall|i: int|
        0 <= i < snapshots.len() ==> waits[i].observes(
            #[trigger] snapshots[i],
            waits[i + 1],
            results[i],
        )
}

proof fn lemma_waited(
    pane: PaneSnapshot,
    until: Option<AgentStateKind>,
    snapshots: Seq<PaneSnapshot>,
    waits: Seq<Waiter>,
    results: Seq<Result<WaitStep, String>>,
    k: int,
)
    requires
        waited(pane, until, snapshots, waits, results),
        0 <= k <= snapshots.len(),
    ensures
        waits[k].pane == pane.id,
        Some(waits[k].agent@) == text::option_text(pane.agent),
        waits[k].generation == pane.agent_generation,
        waits[k].activity_revision == pane.activity_revision,
        waits[k].until == until,
        waits[k].fresh ==> pane.state == AgentStateKind::Working || exists|j: int|
            0 <= j < k && ((#[trigger] snapshots[j]).state == AgentStateKind::Working
                || snapshots[j].state == AgentStateKind::Blocked || snapshots[j].activity_revision
                > pane.activity_revision),
        (forall|j: int| 0 <= j < k ==> same_agent(pane, #[trigger] snapshots[j])) && (pane.state
            == AgentStateKind::Working || exists|j: int|
            0 <= j < k && ((#[trigger] snapshots[j]).state == AgentStateKind::Working
                || snapshots[j].state == AgentStateKind::Blocked || snapshots[j].activity_revision
                > pane.activity_revision)) ==> waits[k].fresh,
    decreases k,
{
    if k > 0 {
        lemma_waited(pane, until, snapshots, waits, results, k - 1);
        assert(waits[k - 1].observes(snapshots[k - 1], waits[k], results[k - 1]));
    }
}

/// Two snapshots are of one agent.
pub open spec fn same_agent(a: PaneSnapshot, b: PaneSnapshot) -> bool {
    text::option_text(a.agent) == text::option_text(b.agent) && a.agent_generation
        == b.agent_generation
}

/// A wait that settles does so at a snapshot of the very agent that was prompted, in the
/// state that was asked for, or in none but a state of rest or question where none was.
/// Before that, or then, the agent was seen at work.
pub proof fn law_waits_settle_as_asked(
    pane: PaneSnapshot,
    until: Option<AgentStateKind>,
    snapshots: Seq<PaneSnapshot>,
    waits: Seq<Waiter>,
    results: Seq<Result<WaitStep, String>>,
    k: int,
)
    requires
        waited(pane, until, snapshots, waits, results),
        0 <= k < snapshots.len(),
        results[k] == Ok::<WaitStep, String>(WaitStep::Settled),
    ensures
        same_agent(pane, snapshots[k]),
        until matches Some(wanted) ==> snapshots[k].state == wanted,
        until is None ==> snapshots[k].state != AgentStateKind::Working && snapshots[k].state
            != AgentStateKind::Unknown,
        pane.state == AgentStateKind::Working || exists|j: int|
            0 <= j <= k && ((#[trigger] snapshots[j]).state == AgentStateKind::Working
                || snapshots[j].state == AgentStateKind::Blocked || snapshots[j].activity_revision
                > pane.activity_revision),
{
    lemma_waited(pane, until, snapshots, waits, results, k);
    assert(waits[k].observes(snapshots[k], waits[k + 1], results[k]));
    assert(snapshots[k] == snapshots[k]);
}

/// A wait misses nothing: once the agent was seen at work, a snapshot of it in the state
/// that was asked for settles the wait, and without such a state any in which the agent
/// rests or asks does.
pub proof fn law_waits_miss_nothing(
    pane: PaneSnapshot,
    until: Option<AgentStateKind>,
    snapshots: Seq<PaneSnapshot>,
    waits: Seq<Waiter>,
    results: Seq<Result<WaitStep, String>>,
    k: int,
    j: int,
)
    requires
        waited(pane, until, snapshots, waits, results),
        0 <= j <= k < snapshots.len(),
        pane.agent is Some,
        forall|i: int| 0 <= i <= k ==> same_agent(pane, #[trigger] snapshots[i]),
        pane.state == AgentStateKind::Working || snapshots[j].state == AgentStateKind::Working
            || snapshots[j].state == AgentStateKind::Blocked || snapshots[j].activity_revision
            > pane.activity_revision,
        match until {
            Some(wanted) => snapshots[k].state == wanted,
            None => snapshots[k].state != AgentStateKind::Working && snapshots[k].state
                != AgentStateKind::Unknown,
        },
    ensures
        results[k] == Ok::<WaitStep, String>(WaitStep::Settled),
{
    lemma_waited(pane, until, snapshots, waits, results, k);
    assert(waits[k].observes(snapshots[k], waits[k + 1], results[k]));
    assert(same_agent(pane, snapshots[k]));
    if j < k {
        assert(snapshots[j] == snapshots[j]);
    }
}

/// A pane that changed hands ends the wait with an error, whatever its state.
pub proof fn law_replaced_agents_end_the_wait(
    pane: PaneSnapshot,
    until: Option<AgentStateKind>,
    snapshots: Seq<PaneSnapshot>,
    waits: Seq<Waiter>,
    results: Seq<Result<WaitStep, String>>,
    k: int,
)
    requires
        waited(pane, until, snapshots, waits, results),
        0 <= k < snapshots.len(),
        pane.agent is Some,
    ensures
        results[k] is Err <==> !same_agent(pane, snapshots[k]),
{
    lemma_waited(pane, until, snapshots, waits, results, k);
    assert(waits[k].observes(snapshots[k], waits[k + 1], results[k]));
}

/// A prompt that is let through is written whole and in one piece to the agent that was
/// looked up, followed by Enter; an agent that asks something is never written to.
pub proof fn law_prompts_reach_their_agent(
    pane: PaneSnapshot,
    target: Seq<char>,
    input: Seq<char>,
    message: ClientMessage,
)
    requires
        submits(message, pane, input),
    ensures
        pane.state == AgentStateKind::Blocked ==> prompt_fault(pane, target, input) is Some,
        message matches ClientMessage::PromptAgent {
            pane: id,
            expected_agent,
            expected_generation,
            bytes,
        } && id == pane.id && expected_generation == pane.agent_generation && Some(expected_agent@)
            == text::option_text(pane.agent) && bytes@.len() > 0 && bytes@.last() == 13u8 && (
        prompt_fault(pane, target, input) is None ==> bytes@.len() <= 65536),
        pane.state != AgentStateKind::Blocked && prompt_fault(pane, target, input) is Some ==> (
        message matches ClientMessage::PromptAgent { bytes, .. } && bytes@.len() > 65536),
{
}

} // verus!
