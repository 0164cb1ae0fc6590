//! Plugin manifests: the schema shared by client and daemon, and the rules that
//! a manifest must meet before either of them runs it.

use vstd::prelude::*;

use crate::text;

verus! {

/// Versioned, local extension manifest shared by the client and the daemon.
#[derive(Debug, Clone, PartialEq, Eq)]
pub struct PluginManifest {
    pub manifest_version: u32,
    pub id: String,
    pub name: String,
    pub version: String,
    pub min_kodade_version: Option<String>,
    /// Build command run only for a managed installation.
    pub build: Option<String>,
    pub actions: Vec<PluginAction>,
    pub startup: Vec<PluginHook>,
    pub events: Vec<PluginEventHook>,
    pub panes: Vec<PluginPane>,
    pub link_handlers: Vec<PluginLinkHandler>,
}

#[derive(Debug, PartialEq, Eq)]
pub struct PluginAction {
    pub id: String,
    pub name: String,
    pub command: String,
    pub description: String,
    pub pane: bool,
    /// Where this action is meaningful; an empty list means everywhere.
    pub contexts: Vec<PluginActionContext>,
}

impl PluginAction {
    /// The two actions hold the same values.
    pub open spec fn same_as(self, other: PluginAction) -> bool {
        &&& self.id == other.id
        &&& self.name == other.name
        &&& self.command == other.command
        &&& self.description == other.description
        &&& self.pane == other.pane
        &&& self.contexts@ == other.contexts@
    }
}

impl Clone for PluginAction {
    fn clone(&self) -> (r: Self)
        ensures
            r.same_as(*self),
    {
        let contexts = self.contexts.clone();
        assert(contexts@ =~= self.contexts@);
        PluginAction {
            id: self.id.clone(),
            name: self.name.clone(),
            command: self.command.clone(),
            description: self.description.clone(),
            pane: self.pane,
            contexts,
        }
    }
}

#[derive(Debug, Clone, Copy, PartialEq, Eq, Structural)]
pub enum PluginActionContext {
    Global,
    Workspace,
    Tab,
    Pane,
    Selection,
}

#[derive(Debug, Clone, PartialEq, Eq)]
pub struct PluginLinkHandler {
    pub id: String,
    pub title: String,
    /// A regular expression matched against a ctrl-clicked URL.
    pub pattern: String,
    pub action: String,
}

#[derive(Debug, Clone, PartialEq, Eq)]
pub struct PluginHook {
    pub command: String,
}

#[derive(Debug, Clone, PartialEq, Eq)]
pub struct PluginEventHook {
    pub event: String,
    pub command: String,
}

/// Data supplied to an extension command.
#[derive(Debug, Clone, PartialEq, Eq)]
pub struct InvocationContext {
    pub endpoint: String,
    pub workspace: Option<String>,
    pub workspace_id: Option<String>,
    pub tab: Option<String>,
    pub tab_id: Option<String>,
    pub pane: Option<String>,
    pub cwd: Option<String>,
    pub selected_text: Option<String>,
    pub clicked_url: Option<String>,
}

impl Default for InvocationContext {
    fn default() -> (r: Self)
        ensures
            r.endpoint@.len() == 0,
            r.workspace is None,
            r.workspace_id is None,
            r.tab is None,
            r.tab_id is None,
            r.pane is None,
            r.cwd is None,
            r.selected_text is None,
            r.clicked_url is None,
    {
        InvocationContext {
            endpoint: String::new(),
            workspace: None,
            workspace_id: None,
            tab: None,
            tab_id: None,
            pane: None,
            cwd: None,
            selected_text: None,
            clicked_url: None,
        }
    }
}

impl InvocationContext {
    /// Whether this context has what one scope asks for.
    pub open spec fn has_scope(self, scope: PluginActionContext) -> bool {
        match scope {
            PluginActionContext::Global => true,
            PluginActionContext::Workspace => self.workspace_id is Some,
            PluginActionContext::Tab => self.tab_id is Some,
            PluginActionContext::Pane => self.pane is Some,
            PluginActionContext::Selection => self.selected_text is Some
                && self.selected_text->0@.len() > 0,
        }
    }

    pub open spec fn has_scopes(self, scopes: Seq<PluginActionContext>) -> bool {
        forall|i: int| 0 <= i < scopes.len() ==> self.has_scope(#[trigger] scopes[i])
    }

    /// Whether every scope in the list is met; an empty list always is.
    pub fn supports_contexts(&self, contexts: &[PluginActionContext]) -> (r: bool)
        ensures
            r == self.has_scopes(contexts@),
    {
        let mut i: usize = 0;
        while i < contexts.len()
            invariant
                i <= contexts@.len(),
                forall|k: int| 0 <= k < i ==> self.has_scope(#[trigger] contexts@[k]),
            decreases contexts@.len() - i,
        {
            let ok = match contexts[i] {
                PluginActionContext::Global => true,
                PluginActionContext::Workspace => self.workspace_id.is_some(),
                PluginActionContext::Tab => self.tab_id.is_some(),
                PluginActionContext::Pane => self.pane.is_some(),
                PluginActionContext::Selection => match &self.selected_text {
                    Some(text) => !text.as_str().is_empty(),
                    None => false,
                },
            };
            if !ok {
                assert(!self.has_scope(contexts@[i as int]));
                return false;
            }
            i += 1;
        }
        true
    }

    /// Whether an action is available here.
    pub fn supports(&self, action: &PluginAction) -> (r: bool)
        ensures
            r == self.has_scopes(action.contexts@),
    {
        action.contexts.is_empty() || self.supports_contexts(action.contexts.as_slice())
    }
}

#[derive(Debug, Clone, PartialEq, Eq)]
pub struct PluginPane {
    pub name: String,
    pub command: String,
}

pub open spec fn plugin_id_char(c: char) -> bool {
    text::ascii_lower(c) || text::ascii_digit(c) || c == '-' || c == '_'
}

/// Lower-case letters, digits, `-` and `_`, at least one of them.
pub open spec fn is_plugin_id(s: Seq<char>) -> bool {
    s.len() > 0 && forall|i: int| 0 <= i < s.len() ==> plugin_id_char(#[trigger] s[i])
}

pub fn plugin_id(value: &str) -> (r: bool)
    ensures
        r == is_plugin_id(value@),
{
    let chars = text::chars_of(value);
    if chars.len() == 0 {
        return false;
    }
    let mut i: usize = 0;
    while i < chars.len()
        invariant
            chars@ == value@,
            i <= chars@.len(),
            forall|k: int| 0 <= k < i ==> plugin_id_char(#[trigger] value@[k]),
        decreases chars@.len() - i,
    {
        let c = chars[i];
        if !(text::is_ascii_lower(c) || text::is_ascii_digit(c) || c == '-' || c == '_') {
            assert(!plugin_id_char(value@[i as int]));
            return false;
        }
        i += 1;
    }
    true
}

/// Whether every dot-separated part of a version is an unsigned number.
pub open spec fn is_version(s: Seq<char>) -> bool {
    forall|i: int|
        0 <= i < text::split_on(s, '.').len() ==> text::parse_unsigned(#[trigger] text::split_on(s, '.')[i]) is Some
}

/// The numbers of a version, first part first.
pub open spec fn version_parts(s: Seq<char>) -> Seq<u64> {
    text::split_on(s, '.').map_values(|part: Seq<char>| text::parse_unsigned(part)->0)
}

/// Lexicographic order: the first difference decides, and a longer list is
/// above its own prefix.
pub open spec fn lex_gt(a: Seq<u64>, b: Seq<u64>) -> bool
    decreases a.len(),
{
    if a.len() == 0 {
        false
    } else if b.len() == 0 {
        true
    } else if a[0] != b[0] {
        a[0] > b[0]
    } else {
        lex_gt(a.skip(1), b.skip(1))
    }
}

fn version_numbers(value: &str) -> (r: Option<Vec<u64>>)
    ensures
        r is Some == is_version(value@),
        r matches Some(v) ==> v@ == version_parts(value@),
{
    let pieces = text::split(value, '.');
    let mut out: Vec<u64> = Vec::new();
    let mut i: usize = 0;
    while i < pieces.len()
        invariant
            text::texts(pieces@) == text::split_on(value@, '.'),
            i <= pieces@.len(),
            out@.len() == i,
            forall|k: int|
                0 <= k < i ==> text::parse_unsigned(#[trigger] text::split_on(value@, '.')[k]) == Some(out@[k]),
        decreases pieces@.len() - i,
    {
        assert(text::split_on(value@, '.')[i as int] == pieces@[i as int]@);
        match text::parse_u64(pieces[i].as_str()) {
            Some(n) => out.push(n),
            None => return None,
        }
        i += 1;
    }
    assert(out@ =~= version_parts(value@));
    Some(out)
}

fn numbers_above(a: &Vec<u64>, b: &Vec<u64>) -> (r: bool)
    ensures
        r == lex_gt(a@, b@),
{
    let mut i: usize = 0;
    assert(a@.skip(0) =~= a@);
    assert(b@.skip(0) =~= b@);
    while i < a.len() && i < b.len()
        invariant
            i <= a@.len(),
            i <= b@.len(),
            lex_gt(a@, b@) == lex_gt(a@.skip(i as int), b@.skip(i as int)),
        decreases a@.len() - i,
    {
        assert(a@.skip(i as int)[0] == a@[i as int]);
        assert(b@.skip(i as int)[0] == b@[i as int]);
        if a[i] != b[i] {
            return a[i] > b[i];
        }
        assert(a@.skip(i as int).skip(1) =~= a@.skip(i + 1));
        assert(b@.skip(i as int).skip(1) =~= b@.skip(i + 1));
        i += 1;
    }
    i < a.len()
}

pub open spec fn version_fault(value: Seq<char>) -> Seq<char> {
    "invalid version "@ + text::quoted(value)
}

/// Whether version `required` is above `current`, part by part.
pub fn plugin_version_gt(required: &str, current: &str) -> (r: Result<bool, String>)
    ensures
        text::fault(r) == (if !is_version(required@) {
            Some(version_fault(required@))
        } else if !is_version(current@) {
            Some(version_fault(current@))
        } else {
            None
        }),
        r matches Ok(above) ==> above == lex_gt(version_parts(required@), version_parts(current@)),
{
    match version_numbers(required) {
        None => Err(text::cat("invalid version ", text::debug_text(required).as_str())),
        Some(a) => match version_numbers(current) {
            None => Err(text::cat("invalid version ", text::debug_text(current).as_str())),
            Some(b) => Ok(numbers_above(&a, &b)),
        },
    }
}

pub open spec fn action_fields_ok(a: PluginAction) -> bool {
    is_plugin_id(a.id@) && !text::blank(a.name@) && !text::blank(a.command@)
}

/// Every action has an id, a name and a command, and no id occurs twice.
pub open spec fn actions_ok(actions: Seq<PluginAction>) -> bool {
    &&& forall|i: int| 0 <= i < actions.len() ==> action_fields_ok(#[trigger] actions[i])
    &&& forall|i: int, j: int|
        0 <= i < j < actions.len() ==> (#[trigger] actions[i]).id@ != (#[trigger] actions[j]).id@
}

pub open spec fn has_action(actions: Seq<PluginAction>, id: Seq<char>) -> bool {
    exists|i: int| 0 <= i < actions.len() && (#[trigger] actions[i]).id@ == id
}

pub open spec fn handler_fields_ok(h: PluginLinkHandler, actions: Seq<PluginAction>) -> bool {
    is_plugin_id(h.id@) && !text::blank(h.title@) && !text::blank(h.pattern@) && has_action(actions, h.action@)
}

/// Every link handler has an id, a title, a pattern and an action of the
/// manifest, and no id occurs twice.
pub open spec fn handlers_ok(
    handlers: Seq<PluginLinkHandler>,
    actions: Seq<PluginAction>,
) -> bool {
    &&& forall|i: int|
        0 <= i < handlers.len() ==> handler_fields_ok(#[trigger] handlers[i], actions)
    &&& forall|i: int, j: int|
        0 <= i < j < handlers.len() ==> (#[trigger] handlers[i]).id@ != (
        #[trigger] handlers[j]).id@
}

pub open spec fn panes_ok(panes: Seq<PluginPane>) -> bool {
    forall|i: int|
        0 <= i < panes.len() ==> !text::blank((#[trigger] panes[i]).name@) && !text::blank(panes[i].command@)
}

pub open spec fn startup_ok(hooks: Seq<PluginHook>) -> bool {
    forall|i: int| 0 <= i < hooks.len() ==> !text::blank((#[trigger] hooks[i]).command@)
}

pub open spec fn events_ok(hooks: Seq<PluginEventHook>) -> bool {
    forall|i: int|
        0 <= i < hooks.len() ==> !text::blank((#[trigger] hooks[i]).event@) && !text::blank(hooks[i].command@)
}

/// The first rule that a manifest breaks, as the message shown for it.
pub open spec fn manifest_fault(m: PluginManifest, current: Seq<char>) -> Option<Seq<char>> {
    if m.manifest_version != 1 {
        Some("unsupported plugin manifest version "@ + text::decimal(m.manifest_version as nat))
    } else if !is_plugin_id(m.id@) {
        Some("plugin id must use lowercase letters, digits, '-' or '_'"@)
    } else if text::blank(m.name@) || text::blank(m.version@) {
        Some("plugin name and version are required"@)
    } else if m.min_kodade_version is Some && !is_version(m.min_kodade_version->0@) {
        Some(version_fault(m.min_kodade_version->0@))
    } else if m.min_kodade_version is Some && !is_version(current) {
        Some(version_fault(current))
    } else if m.min_kodade_version is Some && lex_gt(
        version_parts(m.min_kodade_version->0@),
        version_parts(current),
    ) {
        Some("plugin requires Ködade CLI "@ + m.min_kodade_version->0@ + " or newer"@)
    } else if !actions_ok(m.actions@) {
        Some("plugin actions need unique ids, names, and commands"@)
    } else if !handlers_ok(m.link_handlers@, m.actions@) {
        Some("plugin link handlers need unique ids, a pattern, and a known action"@)
    } else if !panes_ok(m.panes@) {
        Some("plugin panes need names and commands"@)
    } else if !startup_ok(m.startup@) {
        Some("plugin hook command cannot be empty"@)
    } else if !events_ok(m.events@) {
        Some("plugin event hooks need an event and command"@)
    } else {
        None
    }
}

fn check_actions(actions: &Vec<PluginAction>) -> (r: bool)
    ensures
        r == actions_ok(actions@),
{
    let mut i: usize = 0;
    while i < actions.len()
        invariant
            i <= actions@.len(),
            forall|k: int| 0 <= k < i ==> action_fields_ok(#[trigger] actions@[k]),
            forall|k: int, l: int|
                0 <= k < l < i ==> (#[trigger] actions@[k]).id@ != (#[trigger] actions@[l]).id@,
        decreases actions@.len() - i,
    {
        let action = &actions[i];
        if !plugin_id(action.id.as_str()) || text::is_blank(action.name.as_str())
            || text::is_blank(action.command.as_str()) {
            assert(!action_fields_ok(actions@[i as int]));
            return false;
        }
        let mut j: usize = 0;
        while j < i
            invariant
                j <= i < actions@.len(),
                *action == actions@[i as int],
                forall|k: int| 0 <= k < j ==> (#[trigger] actions@[k]).id@ != action.id@,
            decreases i - j,
        {
            if text::same(actions[j].id.as_str(), action.id.as_str()) {
                assert(actions@[j as int].id@ == actions@[i as int].id@);
                return false;
            }
            j += 1;
        }
        i += 1;
    }
    true
}

fn knows_action(actions: &Vec<PluginAction>, id: &str) -> (r: bool)
    ensures
        r == has_action(actions@, id@),
{
    let mut i: usize = 0;
    while i < actions.len()
        invariant
            i <= actions@.len(),
            forall|k: int| 0 <= k < i ==> (#[trigger] actions@[k]).id@ != id@,
        decreases actions@.len() - i,
    {
        if text::same(actions[i].id.as_str(), id) {
            assert(actions@[i as int].id@ == id@);
            return true;
        }
        i += 1;
    }
    false
}

fn check_handlers(handlers: &Vec<PluginLinkHandler>, actions: &Vec<PluginAction>) -> (r: bool)
    ensures
        r == handlers_ok(handlers@, actions@),
{
    let mut i: usize = 0;
    while i < handlers.len()
        invariant
            i <= handlers@.len(),
            forall|k: int| 0 <= k < i ==> handler_fields_ok(#[trigger] handlers@[k], actions@),
            forall|k: int, l: int|
                0 <= k < l < i ==> (#[trigger] handlers@[k]).id@ != (#[trigger] handlers@[l]).id@,
        decreases handlers@.len() - i,
    {
        let handler = &handlers[i];
        if !plugin_id(handler.id.as_str()) || text::is_blank(handler.title.as_str())
            || text::is_blank(handler.pattern.as_str()) || !knows_action(
            actions,
            handler.action.as_str(),
        ) {
            assert(!handler_fields_ok(handlers@[i as int], actions@));
            return false;
        }
        let mut j: usize = 0;
        while j < i
            invariant
                j <= i < handlers@.len(),
                *handler == handlers@[i as int],
                forall|k: int| 0 <= k < j ==> (#[trigger] handlers@[k]).id@ != handler.id@,
            decreases i - j,
        {
            if text::same(handlers[j].id.as_str(), handler.id.as_str()) {
                assert(handlers@[j as int].id@ == handlers@[i as int].id@);
                return false;
            }
            j += 1;
        }
        i += 1;
    }
    true
}

fn check_panes(panes: &Vec<PluginPane>) -> (r: bool)
    ensures
        r == panes_ok(panes@),
{
    let mut i: usize = 0;
    while i < panes.len()
        invariant
            i <= panes@.len(),
            forall|k: int|
                0 <= k < i ==> !text::blank((#[trigger] panes@[k]).name@) && !text::blank(panes@[k].command@),
        decreases panes@.len() - i,
    {
        if text::is_blank(panes[i].name.as_str()) || text::is_blank(panes[i].command.as_str()) {
            assert(text::blank(panes@[i as int].name@) || text::blank(panes@[i as int].command@));
            return false;
        }
        i += 1;
    }
    true
}

fn check_startup(hooks: &Vec<PluginHook>) -> (r: bool)
    ensures
        r == startup_ok(hooks@),
{
    let mut i: usize = 0;
    while i < hooks.len()
        invariant
            i <= hooks@.len(),
            forall|k: int| 0 <= k < i ==> !text::blank((#[trigger] hooks@[k]).command@),
        decreases hooks@.len() - i,
    {
        if text::is_blank(hooks[i].command.as_str()) {
            assert(text::blank(hooks@[i as int].command@));
            return false;
        }
        i += 1;
    }
    true
}

fn check_events(hooks: &Vec<PluginEventHook>) -> (r: bool)
    ensures
        r == events_ok(hooks@),
{
    let mut i: usize = 0;
    while i < hooks.len()
        invariant
            i <= hooks@.len(),
            forall|k: int|
                0 <= k < i ==> !text::blank((#[trigger] hooks@[k]).event@) && !text::blank(hooks@[k].command@),
        decreases hooks@.len() - i,
    {
        if text::is_blank(hooks[i].event.as_str()) || text::is_blank(hooks[i].command.as_str()) {
            assert(text::blank(hooks@[i as int].event@) || text::blank(hooks@[i as int].command@));
            return false;
        }
        i += 1;
    }
    true
}

/// Validates a manifest before either client or daemon executes it.
pub fn validate_plugin_manifest(
    manifest: &PluginManifest,
    current_version: &str,
) -> (r: Result<(), String>)
    ensures
        text::fault(r) == manifest_fault(*manifest, current_version@),
{
    if manifest.manifest_version != 1 {
        return Err(
            text::cat(
                "unsupported plugin manifest version ",
                text::decimal_text(manifest.manifest_version as u64).as_str(),
            ),
        );
    }
    if !plugin_id(manifest.id.as_str()) {
        return Err("plugin id must use lowercase letters, digits, '-' or '_'".to_owned());
    }
    if text::is_blank(manifest.name.as_str()) || text::is_blank(manifest.version.as_str()) {
        return Err("plugin name and version are required".to_owned());
    }
    if let Some(required) = &manifest.min_kodade_version {
        match plugin_version_gt(required.as_str(), current_version) {
            Err(message) => return Err(message),
            Ok(above) => if above {
                return Err(
                    text::cat3("plugin requires Ködade CLI ", required.as_str(), " or newer"),
                );
            },
        }
    }
    if !check_actions(&manifest.actions) {
        return Err("plugin actions need unique ids, names, and commands".to_owned());
    }
    if !check_handlers(&manifest.link_handlers, &manifest.actions) {
        return Err(
            "plugin link handlers need unique ids, a pattern, and a known action".to_owned(),
        );
    }
    if !check_panes(&manifest.panes) {
        return Err("plugin panes need names and commands".to_owned());
    }
    if !check_startup(&manifest.startup) {
        return Err("plugin hook command cannot be empty".to_owned());
    }
    if !check_events(&manifest.events) {
        return Err("plugin event hooks need an event and command".to_owned());
    }
    Ok(())
}

/// In an accepted manifest every link handler names exactly one action.
pub proof fn law_handler_action_is_unique(m: PluginManifest, current: Seq<char>, h: int)
    requires
        manifest_fault(m, current) is None,
        0 <= h < m.link_handlers@.len(),
    ensures
        exists|i: int|
            0 <= i < m.actions@.len() && (#[trigger] m.actions@[i]).id@
                == m.link_handlers@[h].action@,
        forall|i: int, j: int|
            0 <= i < m.actions@.len() && 0 <= j < m.actions@.len() && (#[trigger] m.actions@[i]).id@
                == m.link_handlers@[h].action@ && (#[trigger] m.actions@[j]).id@
                == m.link_handlers@[h].action@ ==> i == j,
{
    assert(handler_fields_ok(m.link_handlers@[h], m.actions@));
    assert forall|i: int, j: int|
        0 <= i < m.actions@.len() && 0 <= j < m.actions@.len() && (#[trigger] m.actions@[i]).id@
            == m.link_handlers@[h].action@ && (#[trigger] m.actions@[j]).id@
            == m.link_handlers@[h].action@ implies i == j by {
        if i < j {
            assert(m.actions@[i].id@ != m.actions@[j].id@);
        } else if j < i {
            assert(m.actions@[j].id@ != m.actions@[i].id@);
        }
    }
}

/// Version order is strict: nothing is above itself, and of two versions at
/// most one is above the other.
pub proof fn law_version_order_is_strict(a: Seq<u64>, b: Seq<u64>)
    ensures
        !lex_gt(a, a),
        !(lex_gt(a, b) && lex_gt(b, a)),
        a != b ==> lex_gt(a, b) || lex_gt(b, a),
    decreases a.len(),
{
    if a.len() > 0 {
        let b1 = if b.len() > 0 {
            b.skip(1)
        } else {
            b
        };
        law_version_order_is_strict(a.skip(1), b1);
        if b.len() > 0 && a[0] == b[0] && a.skip(1) == b.skip(1) {
            assert(a =~= seq![a[0]] + a.skip(1));
            assert(b =~= seq![b[0]] + b.skip(1));
        }
    } else if b.len() == 0 {
        assert(a =~= b);
    }
}

} // verus!
