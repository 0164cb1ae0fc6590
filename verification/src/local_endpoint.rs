//! The attached local session, with reconnects across an upgrade of its daemon.

use vstd::prelude::*;

use crate::endpoints::Update;
use crate::proto::{ClientMessage, Event, PaneId, ServerMessage, PROTOCOL_VERSION};
use crate::reconnect_view::SavedView;
use crate::text;

verus! {

/// What survives a reconnect: sizes and modes, and no input.
#[derive(Debug, Clone, PartialEq, Eq)]
pub struct Viewport {
    pub cols: u16,
    pub rows: u16,
    pub compact: bool,
    /// The terminal's own colors, as they are reported.
    pub colors: Option<String>,
}

/// A message of the local daemon.
#[derive(Debug, Clone, PartialEq, Eq)]
pub enum Incoming {
    Message(ServerMessage),
    /// The daemon is about to be replaced.
    Upgrading,
    /// A program in a pane copied text.
    Clipboard { pane: PaneId, text: String },
}

/// A message to the local daemon.
#[derive(Debug, Clone, PartialEq, Eq)]
pub enum Outgoing {
    Message(ClientMessage),
    /// The terminal's own colors, which programs in panes may ask for.
    SetTerminalColors { colors: Option<String> },
}

/// What to do with a message.
#[derive(Debug, Clone, PartialEq, Eq)]
pub enum LocalStep {
    Tell(Update),
    /// Tell of the failure, then connect to the replacement.
    Reconnect(Update),
    /// Tell of the end, then stop.
    Stop(Update),
    Ignore,
}

impl Viewport {
    /// A message takes effect on what is kept.
    pub open spec fn after(self, message: ClientMessage) -> Viewport {
        match message {
            ClientMessage::Resize { cols, rows } => Viewport { cols, rows, ..self },
            ClientMessage::SetCompactView { enabled } => Viewport { compact: enabled, ..self },
            _ => self,
        }
    }

    pub fn observe(&mut self, message: &ClientMessage)
        ensures
            *final(self) == old(self).after(*message),
    {
        match message {
            ClientMessage::Resize { cols, rows } => {
                self.cols = *cols;
                self.rows = *rows;
            },
            ClientMessage::SetCompactView { enabled } => {
                self.compact = *enabled;
            },
            _ => {},
        }
    }

    /// What queued messages leave behind.
    pub open spec fn after_all(self, queued: Seq<ClientMessage>) -> Viewport
        decreases queued.len(),
    {
        if queued.len() == 0 {
            self
        } else {
            self.after_all(queued.drop_last()).after(queued.last())
        }
    }

    /// Discards what was queued for a retired connection, and keeps only the
    /// viewport.
    pub fn drain(&mut self, queued: &Vec<ClientMessage>)
        ensures
            *final(self) == old(self).after_all(queued@),
    {
        let mut i: usize = 0;
        assert(queued@.take(0) =~= Seq::empty());
        while i < queued.len()
            invariant
                i <= queued@.len(),
                *self == old(self).after_all(queued@.take(i as int)),
            decreases queued@.len() - i,
        {
            assert(queued@.take(i + 1).drop_last() =~= queued@.take(i as int));
            assert(queued@.take(i + 1).last() == queued@[i as int]);
            self.observe(&queued[i]);
            i += 1;
        }
        assert(queued@.take(i as int) =~= queued@);
    }

    /// The greeting of a replacement daemon.
    pub fn hello(&self) -> (r: ClientMessage)
        ensures
            r == (ClientMessage::Hello {
                cols: self.cols,
                rows: self.rows,
                version: PROTOCOL_VERSION,
            }),
    {
        ClientMessage::Hello { cols: self.cols, rows: self.rows, version: PROTOCOL_VERSION }
    }

    /// What a replacement daemon is told once it answers: the viewport.
    pub fn resume(&self) -> (r: Vec<Outgoing>)
        ensures
            r@ == seq![
                Outgoing::Message(ClientMessage::Resize { cols: self.cols, rows: self.rows }),
                Outgoing::Message(ClientMessage::SetCompactView { enabled: self.compact }),
                Outgoing::SetTerminalColors { colors: self.colors },
            ],
    {
        let messages: Vec<Outgoing> = vec![
            Outgoing::Message(ClientMessage::Resize { cols: self.cols, rows: self.rows }),
            Outgoing::Message(ClientMessage::SetCompactView { enabled: self.compact }),
            Outgoing::SetTerminalColors { colors: self.colors.clone() },
        ];
        assert(messages@ =~= seq![
            Outgoing::Message(ClientMessage::Resize { cols: self.cols, rows: self.rows }),
            Outgoing::Message(ClientMessage::SetCompactView { enabled: self.compact }),
            Outgoing::SetTerminalColors { colors: self.colors },
        ]);
        messages
    }
}

/// Queued input leaves nothing behind: the viewport is that of the queue without
/// every message that is no resize and no change of the view.
pub proof fn law_queued_input_is_discarded(viewport: Viewport, queued: Seq<ClientMessage>)
    requires
        forall|i: int|
            0 <= i < queued.len() ==> !(#[trigger] queued[i] is Resize)
                && !(queued[i] is SetCompactView),
    ensures
        viewport.after_all(queued) == viewport,
    decreases queued.len(),
{
    if queued.len() > 0 {
        let front = queued.drop_last();
        assert forall|i: int| 0 <= i < front.len() implies !(#[trigger] front[i] is Resize)
            && !(front[i] is SetCompactView) by {
            assert(front[i] == queued[i]);
        }
        law_queued_input_is_discarded(viewport, front);
        assert(queued[queued.len() - 1] == queued.last());
    }
}

/// The session that a replacement daemon answers for.
pub fn replacement(message: ServerMessage) -> (r: Result<String, String>)
    ensures
        match message {
            ServerMessage::Welcome { session, version } if version == PROTOCOL_VERSION => r == Ok::<
                String,
                String,
            >(session),
            _ => text::fault(r) == Some("replacement daemon rejected the protocol handshake"@),
        },
{
    if let ServerMessage::Welcome { session, version } = message {
        if version == PROTOCOL_VERSION {
            return Ok(session);
        }
    }
    Err("replacement daemon rejected the protocol handshake".to_owned())
}

/// Messages of the protocol on their way out.
pub open spec fn outgoing(messages: Seq<ClientMessage>) -> Seq<Outgoing> {
    messages.map_values(|message: ClientMessage| Outgoing::Message(message))
}

/// What is said, in order, to a replacement daemon after its greeting: the view is
/// moved back to where it was, and no input is replayed.
pub fn restoration(viewport: &Viewport, view: &SavedView) -> (r: Vec<Outgoing>)
    ensures
        r@ == seq![
            Outgoing::Message(ClientMessage::SetCompactView { enabled: viewport.compact }),
            Outgoing::SetTerminalColors { colors: viewport.colors },
        ] + outgoing(
            crate::reconnect_view::restored(
                view.tabs@,
                view.focused@,
                view.scroll@,
                view.active,
            ),
        ) + seq![Outgoing::Message(ClientMessage::Subscribe)],
{
    let mut out: Vec<Outgoing> = vec![
        Outgoing::Message(ClientMessage::SetCompactView { enabled: viewport.compact }),
        Outgoing::SetTerminalColors { colors: viewport.colors.clone() },
    ];
    let ghost head = out@;
    assert(head =~= seq![
        Outgoing::Message(ClientMessage::SetCompactView { enabled: viewport.compact }),
        Outgoing::SetTerminalColors { colors: viewport.colors },
    ]);
    let mut moves = view.restore();
    let ghost all = moves@;
    let ghost mut done: int = 0;
    assert(out@ =~= head + outgoing(all.take(0)));
    assert(all.skip(0) =~= all);
    while moves.len() > 0
        invariant
            0 <= done <= all.len(),
            moves@ == all.skip(done),
            out@ == head + outgoing(all.take(done)),
        decreases moves@.len(),
    {
        let message = moves.remove(0);
        assert(message == all[done]);
        out.push(Outgoing::Message(message));
        assert(all.take(done + 1) =~= all.take(done).push(all[done]));
        assert(outgoing(all.take(done + 1)) =~= outgoing(all.take(done)).push(
            Outgoing::Message(message),
        ));
        assert(out@ =~= head + outgoing(all.take(done + 1)));
        proof {
            done = done + 1;
        }
    }
    assert(all.take(done) =~= all);
    out.push(Outgoing::Message(ClientMessage::Subscribe));
    assert(out@ =~= head + outgoing(all) + seq![Outgoing::Message(ClientMessage::Subscribe)]);
    out
}

/// What the attached session's worker does with a message. Layouts are remembered
/// for a reconnect, and so is a new socket.
pub fn incoming(message: Incoming, view: &mut SavedView, socket: &mut String) -> (r: LocalStep)
    requires
        old(view).wf(),
    ensures
        final(view).wf(),
        !(message matches Incoming::Message(ServerMessage::Layout(_))) ==> *final(view) == *old(
            view,
        ),
        match message {
            Incoming::Message(ServerMessage::Event(Event::SessionRenamed { socket: moved, .. })) =>
                *final(socket) == moved,
            _ => *final(socket) == *old(socket),
        },
        match message {
            Incoming::Upgrading => r matches LocalStep::Reconnect(
                Update::EndpointFailed { reason },
            ) && reason@ == "daemon upgrading; reconnecting"@,
            Incoming::Clipboard { pane, text } => r == LocalStep::Tell(
                Update::Clipboard { pane, text },
            ),
            Incoming::Message(ServerMessage::Layout(layout)) => r == LocalStep::Tell(
                Update::Layout(layout),
            ) && old(view).observed(layout, *final(view)),
            Incoming::Message(ServerMessage::Event(Event::SessionRenamed { name, socket: moved })) =>
                r == LocalStep::Tell(Update::SessionRenamed { name, socket: moved }),
            Incoming::Message(ServerMessage::Shutdown) => r matches LocalStep::Stop(
                Update::EndpointFailed { reason },
            ) && reason@ == "local endpoint shut down"@,
            Incoming::Message(other) => r == (match crate::endpoints::update_of(other) {
                Some(update) => LocalStep::Tell(update),
                None => LocalStep::Ignore,
            }),
        },
{
    match message {
        Incoming::Upgrading => LocalStep::Reconnect(
            Update::EndpointFailed { reason: "daemon upgrading; reconnecting".to_owned() },
        ),
        Incoming::Clipboard { pane, text } => LocalStep::Tell(Update::Clipboard { pane, text }),
        Incoming::Message(inner) => match inner {
            ServerMessage::Layout(layout) => {
                view.observe(&layout);
                LocalStep::Tell(Update::Layout(layout))
            },
            ServerMessage::Welcome { session, .. } => LocalStep::Tell(Update::Session(session)),
            ServerMessage::Notification(notification) => LocalStep::Tell(
                Update::Notification(notification),
            ),
            ServerMessage::Event(Event::Notification(notification)) => LocalStep::Tell(
                Update::Notification(notification),
            ),
            ServerMessage::Event(Event::SessionRenamed { name, socket: moved }) => {
                *socket = moved.clone();
                LocalStep::Tell(Update::SessionRenamed { name, socket: moved })
            },
            ServerMessage::Error { message: said } => LocalStep::Tell(
                Update::RequestError(said),
            ),
            ServerMessage::Shutdown => LocalStep::Stop(
                Update::EndpointFailed { reason: "local endpoint shut down".to_owned() },
            ),
            _ => LocalStep::Ignore,
        },
    }
}

/// What is told when the connection broke.
pub fn connection_ended(error: &str) -> (r: (Update, Update))
    ensures
        r.0 matches Update::RequestError(message) && message@ == "connection ended: "@ + error@,
        r.1 matches Update::EndpointFailed { reason } && reason@ == "local endpoint disconnected"@,
{
    (
        Update::RequestError(text::cat("connection ended: ", error)),
        Update::EndpointFailed { reason: "local endpoint disconnected".to_owned() },
    )
}

} // verus!
