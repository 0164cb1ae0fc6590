//! Client-side agent notifications.
//!
//! `Notifier` turns each notification from the daemon into a list of effects
//! and keeps an unread stack. It decides; the client performs the effects.

use vstd::prelude::*;

use crate::layout;
use crate::proto::{AgentStateKind, LayoutSnapshot, Notification};
use crate::text;

verus! {

/// One thing to do in response to a notification.
#[derive(Debug, Clone, PartialEq, Eq)]
pub enum Effect {
    /// Show this text in the status bar for a few seconds.
    Toast(String),
    /// Ring the terminal bell.
    Bell,
    /// Ask the host terminal to raise a desktop notification.
    Osc777 { title: String, body: String },
    /// Run this command through the shell, detached.
    Sound(String),
}

/// Where a notification's text goes.
#[derive(Debug, Clone, Copy, PartialEq, Eq, Structural)]
pub enum NotifyToast {
    Status,
    System,
    Off,
}

/// The notification settings.
#[derive(Debug, Clone, PartialEq, Eq)]
pub struct NotifySettings {
    pub enabled: bool,
    pub on: Vec<AgentStateKind>,
    pub toast: NotifyToast,
    pub bell: bool,
    pub sound: String,
    pub only_when_unfocused: bool,
}

/// Holds the notification settings and the unread stack, most recent last.
pub struct Notifier {
    pub enabled: bool,
    pub on: Vec<AgentStateKind>,
    pub toast: NotifyToast,
    pub bell: bool,
    pub sound: String,
    pub only_when_unfocused: bool,
    /// Chord label shown in the toast.
    pub jump_hint: String,
    pub unread: Vec<Notification>,
}

impl Effect {
    pub open spec fn is_toast(self, text: Seq<char>) -> bool {
        self matches Effect::Toast(s) && s@ == text
    }

    pub open spec fn is_system(self, text: Seq<char>) -> bool {
        self matches Effect::Osc777 { title, body } && title@ == "Ködade"@ && body@ == text
    }

    pub open spec fn is_sound(self, command: Seq<char>) -> bool {
        self matches Effect::Sound(s) && s@ == command
    }
}

/// The notification's pane is the focused pane of the active tab and workspace:
/// the user is already looking at it.
pub open spec fn on_screen(layout: LayoutSnapshot, n: Notification) -> bool {
    &&& layout.active_workspace == n.workspace
    &&& layout.active_tab == n.tab
    &&& exists|i: int|
        0 <= i < layout.panes@.len() && (#[trigger] layout.panes@[i]).id == n.pane
            && layout.panes@[i].focused
}

pub fn pane_is_on_screen(layout: &LayoutSnapshot, notification: &Notification) -> (r: bool)
    ensures
        r == on_screen(*layout, *notification),
{
    if layout.active_workspace != notification.workspace || layout.active_tab != notification.tab {
        return false;
    }
    let mut i: usize = 0;
    while i < layout.panes.len()
        invariant
            layout.active_workspace == notification.workspace,
            layout.active_tab == notification.tab,
            i <= layout.panes@.len(),
            forall|k: int|
                0 <= k < i ==> !((#[trigger] layout.panes@[k]).id == notification.pane
                    && layout.panes@[k].focused),
        decreases layout.panes@.len() - i,
    {
        if layout.panes[i].id == notification.pane && layout.panes[i].focused {
            assert(layout.panes@[i as int].focused);
            return true;
        }
        i += 1;
    }
    false
}

/// The display name of the notification's workspace, or its number.
pub open spec fn workspace_label(layout: LayoutSnapshot, n: Notification) -> Seq<char> {
    match layout::workspace_with(layout.workspaces@, n.workspace) {
        Some(w) => w.name@,
        None => "ws"@ + text::decimal(n.workspace.0 as nat),
    }
}

/// The display name of the notification's tab, or its number.
pub open spec fn tab_label(layout: LayoutSnapshot, n: Notification) -> Seq<char> {
    match layout::tab_at(layout, n.workspace, n.tab) {
        Some(t) => t.name@,
        None => "tab"@ + text::decimal(n.tab.0 as nat),
    }
}

/// The workspace and tab display names, falling back to numeric ids when the
/// notification outran a layout that no longer has them.
pub fn names(layout: &LayoutSnapshot, notification: &Notification) -> (r: (String, String))
    ensures
        r.0@ == workspace_label(*layout, *notification),
        r.1@ == tab_label(*layout, *notification),
{
    let workspace = layout::find_workspace(&layout.workspaces, notification.workspace);
    let workspace_name = match workspace {
        Some(w) => w.name.clone(),
        None => text::cat("ws", text::decimal_text(notification.workspace.0).as_str()),
    };
    let tab = match workspace {
        Some(w) => layout::find_tab(&w.tabs, notification.tab),
        None => None,
    };
    let tab_name = match tab {
        Some(t) => t.name.clone(),
        None => text::cat("tab", text::decimal_text(notification.tab.0).as_str()),
    };
    (workspace_name, tab_name)
}

/// What a notification says.
pub open spec fn toast(n: Notification, layout: LayoutSnapshot, hint: Seq<char>) -> Seq<char> {
    "● "@ + n.agent@ + " "@ + layout::state_text(n.state) + " in "@ + workspace_label(layout, n)
        + "/"@ + tab_label(layout, n) + " · prefix "@ + hint + " to jump"@
}

pub fn toast_text(
    notification: &Notification,
    layout: &LayoutSnapshot,
    jump_hint: &str,
) -> (r: String)
    ensures
        r@ == toast(*notification, *layout, jump_hint@),
{
    let (workspace, tab) = names(layout, notification);
    let mut out = text::cat3("● ", notification.agent.as_str(), " ");
    out.append(layout::state_name(notification.state));
    out.append(" in ");
    out.append(workspace.as_str());
    out.append("/");
    out.append(tab.as_str());
    out.append(" · prefix ");
    out.append(jump_hint);
    out.append(" to jump");
    out
}

/// The entries of other panes, in order.
pub open spec fn others(list: Seq<Notification>, n: Notification) -> Seq<Notification>
    decreases list.len(),
{
    if list.len() == 0 {
        Seq::empty()
    } else if list.last().pane == n.pane {
        others(list.drop_last(), n)
    } else {
        others(list.drop_last(), n).push(list.last())
    }
}

/// No pane occurs twice.
pub open spec fn one_per_pane(list: Seq<Notification>) -> bool {
    forall|i: int, j: int|
        0 <= i < j < list.len() ==> (#[trigger] list[i]).pane != (#[trigger] list[j]).pane
}

proof fn lemma_others(list: Seq<Notification>, n: Notification)
    ensures
        one_per_pane(list) ==> one_per_pane(others(list, n)),
        forall|i: int|
            0 <= i < others(list, n).len() ==> (#[trigger] others(list, n)[i]).pane != n.pane
                && list.contains(others(list, n)[i]),
    decreases list.len(),
{
    if list.len() > 0 {
        let front = list.drop_last();
        lemma_others(front, n);
        let r = others(list, n);
        let f = others(front, n);
        assert(one_per_pane(list) ==> one_per_pane(front));
        assert forall|i: int| 0 <= i < r.len() implies (#[trigger] r[i]).pane != n.pane
            && list.contains(r[i]) by {
            if i < f.len() {
                assert(r[i] == f[i]);
                let k = choose|k: int| 0 <= k < front.len() && front[k] == f[i];
                assert(list[k] == f[i]);
            } else {
                assert(list[list.len() - 1] == r[i]);
            }
        }
        if one_per_pane(list) {
            assert forall|i: int, j: int| 0 <= i < j < r.len() implies (#[trigger] r[i]).pane != (
            #[trigger] r[j]).pane by {
                assert(r[i] == f[i]);
                if j < f.len() {
                    assert(r[j] == f[j]);
                } else {
                    let k = choose|k: int| 0 <= k < front.len() && front[k] == f[i];
                    assert(list[k].pane != list[list.len() - 1].pane);
                }
            }
        }
    }
}

impl Notifier {
    /// Whether a notification passes the settings and is worth telling.
    pub open spec fn heeds(self, n: Notification, layout: LayoutSnapshot) -> bool {
        self.enabled && self.on@.contains(n.state) && !(self.only_when_unfocused && on_screen(
            layout,
            n,
        ))
    }

    /// The effects of a notification that is heeded: text, bell, sound.
    pub open spec fn effects_are(
        self,
        effects: Seq<Effect>,
        n: Notification,
        layout: LayoutSnapshot,
    ) -> bool {
        let text = toast(n, layout, self.jump_hint@);
        let shown = if self.toast == NotifyToast::Off {
            0int
        } else {
            1
        };
        let rung = if self.bell {
            1int
        } else {
            0
        };
        let played = if self.sound@.len() > 0 {
            1int
        } else {
            0
        };
        &&& effects.len() == shown + rung + played
        &&& self.toast == NotifyToast::Status ==> effects[0].is_toast(text)
        &&& self.toast == NotifyToast::System ==> effects[0].is_system(text)
        &&& self.bell ==> effects[shown] == Effect::Bell
        &&& self.sound@.len() > 0 ==> effects[shown + rung].is_sound(self.sound@)
    }

    pub fn new(settings: &NotifySettings, jump_hint: String) -> (r: Self)
        ensures
            r.enabled == settings.enabled,
            r.on@ == settings.on@,
            r.toast == settings.toast,
            r.bell == settings.bell,
            r.sound@ == settings.sound@,
            r.only_when_unfocused == settings.only_when_unfocused,
            r.jump_hint == jump_hint,
            r.unread@.len() == 0,
    {
        let on = settings.on.clone();
        assert(on@ =~= settings.on@);
        Notifier {
            enabled: settings.enabled,
            on,
            toast: settings.toast,
            bell: settings.bell,
            sound: settings.sound.clone(),
            only_when_unfocused: settings.only_when_unfocused,
            jump_hint,
            unread: Vec::new(),
        }
    }

    fn wants(&self, state: AgentStateKind) -> (r: bool)
        ensures
            r == self.on@.contains(state),
    {
        let mut i: usize = 0;
        while i < self.on.len()
            invariant
                i <= self.on@.len(),
                forall|k: int| 0 <= k < i ==> self.on@[k] != state,
            decreases self.on@.len() - i,
        {
            if self.on[i] == state {
                assert(self.on@[i as int] == state);
                return true;
            }
            i += 1;
        }
        false
    }

    /// Computes the effects for one notification and records it as unread.
    /// There are none, and nothing is recorded, where the settings filter it out
    /// or its pane is already on screen and focused.
    pub fn handle(&mut self, notification: &Notification, layout: &LayoutSnapshot) -> (r: Vec<
        Effect,
    >)
        ensures
            old(self).heeds(*notification, *layout) ==> {
                &&& old(self).effects_are(r@, *notification, *layout)
                &&& final(self).unread@ == others(old(self).unread@, *notification).push(
                    *notification,
                )
                &&& *final(self) == (Notifier { unread: final(self).unread, ..*old(self) })
            },
            !old(self).heeds(*notification, *layout) ==> r@.len() == 0 && *final(self) == *old(
                self,
            ),
            one_per_pane(old(self).unread@) ==> one_per_pane(final(self).unread@),
    {
        if !self.enabled || !self.wants(notification.state) {
            return Vec::new();
        }
        if self.only_when_unfocused && pane_is_on_screen(layout, notification) {
            return Vec::new();
        }
        // Keep a single entry per pane, freshest on top of the stack.
        let mut kept: Vec<Notification> = Vec::new();
        let mut i: usize = 0;
        let ghost list = self.unread@;
        while i < self.unread.len()
            invariant
                list == self.unread@,
                i <= list.len(),
                kept@ == others(list.take(i as int), *notification),
            decreases list.len() - i,
        {
            assert(list.take(i + 1).drop_last() =~= list.take(i as int));
            assert(list.take(i + 1).last() == list[i as int]);
            if self.unread[i].pane != notification.pane {
                kept.push(self.unread[i].clone());
            }
            i += 1;
        }
        assert(list.take(i as int) =~= list);
        kept.push(notification.clone());
        proof {
            lemma_others(list, *notification);
        }
        self.unread = kept;
        let text = toast_text(notification, layout, self.jump_hint.as_str());
        let mut effects: Vec<Effect> = Vec::new();
        match self.toast {
            NotifyToast::Status => effects.push(Effect::Toast(text)),
            NotifyToast::System => effects.push(
                Effect::Osc777 { title: "Ködade".to_owned(), body: text },
            ),
            NotifyToast::Off => {},
        }
        if self.bell {
            effects.push(Effect::Bell);
        }
        if !self.sound.as_str().is_empty() {
            effects.push(Effect::Sound(self.sound.clone()));
        }
        effects
    }

    /// What is read next is the alert that came last.
    pub open spec fn reads(self, r: Option<Notification>, after: Notifier) -> bool {
        match r {
            Some(n) => self.unread@ == after.unread@.push(n),
            None => self.unread@.len() == 0 && after.unread@ == self.unread@,
        }
    }

    /// Pops the most recent unread notification, marking it read.
    pub fn pop_unread(&mut self) -> (r: Option<Notification>)
        ensures
            old(self).reads(r, *final(self)),
            old(self).unread@.len() == 0 ==> r is None && final(self).unread@ == old(self).unread@,
            old(self).unread@.len() > 0 ==> r == Some(old(self).unread@.last())
                && final(self).unread@ == old(self).unread@.drop_last(),
            *final(self) == (Notifier { unread: final(self).unread, ..*old(self) }),
    {
        let ghost before = self.unread@;
        let last = self.unread.pop();
        proof {
            if before.len() > 0 {
                assert(before =~= before.drop_last().push(before.last()));
            }
        }
        last
    }
}

} // verus!
