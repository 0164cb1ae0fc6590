//! The command center: one list of everyday actions, agents that can be started and
//! plugin actions, searched by fuzzy match.

use vstd::prelude::*;

use crate::help::{Binding, BoundAction};
use crate::integrations;
use crate::manifest::{InvocationContext, PluginAction};
use crate::num;
use crate::overlay::{self, Overlay, OverlayRow, OverlayTarget};
use crate::picker;
use crate::plugins::{self, LoadedPlugin, PaletteAction};
use crate::rank::{self, Rank};
use crate::text;

verus! {

/// What an entry does.
#[derive(Debug, PartialEq, Eq)]
pub enum PaletteTarget {
    Action(BoundAction),
    Agent { name: String, command: Vec<String> },
    Shell,
    PluginAction { plugin: String, directory: String, action: String, command: String, pane: bool },
    PluginUnavailable(String),
}

/// What an entry does, as plain values.
pub enum TargetView {
    Action(BoundAction),
    Agent { name: Seq<char>, command: Seq<Seq<char>> },
    Shell,
    PluginAction {
        plugin: Seq<char>,
        directory: Seq<char>,
        action: Seq<char>,
        command: Seq<char>,
        pane: bool,
    },
    PluginUnavailable(Seq<char>),
}

impl View for PaletteTarget {
    type V = TargetView;

    open spec fn view(&self) -> TargetView {
        match self {
            PaletteTarget::Action(action) => TargetView::Action(*action),
            PaletteTarget::Agent { name, command } => TargetView::Agent {
                name: name@,
                command: text::texts(command@),
            },
            PaletteTarget::Shell => TargetView::Shell,
            PaletteTarget::PluginAction { plugin, directory, action, command, pane } => {
                TargetView::PluginAction {
                    plugin: plugin@,
                    directory: directory@,
                    action: action@,
                    command: command@,
                    pane: *pane,
                }
            },
            PaletteTarget::PluginUnavailable(error) => TargetView::PluginUnavailable(error@),
        }
    }
}

impl Clone for PaletteTarget {
    fn clone(&self) -> (r: Self)
        ensures
            r@ == self@,
    {
        match self {
            PaletteTarget::Action(action) => PaletteTarget::Action(*action),
            PaletteTarget::Agent { name, command } => PaletteTarget::Agent {
                name: name.clone(),
                command: text::copied(command),
            },
            PaletteTarget::Shell => PaletteTarget::Shell,
            PaletteTarget::PluginAction { plugin, directory, action, command, pane } => {
                PaletteTarget::PluginAction {
                    plugin: plugin.clone(),
                    directory: directory.clone(),
                    action: action.clone(),
                    command: command.clone(),
                    pane: *pane,
                }
            },
            PaletteTarget::PluginUnavailable(error) => PaletteTarget::PluginUnavailable(
                error.clone(),
            ),
        }
    }
}

/// An entry: what is shown, what a search looks in, what it does.
#[derive(Debug, PartialEq, Eq)]
pub struct Item {
    pub label: String,
    pub hint: String,
    pub search: String,
    pub target: PaletteTarget,
}

pub struct ItemView {
    pub label: Seq<char>,
    pub hint: Seq<char>,
    pub search: Seq<char>,
    pub target: TargetView,
}

impl View for Item {
    type V = ItemView;

    open spec fn view(&self) -> ItemView {
        ItemView {
            label: self.label@,
            hint: self.hint@,
            search: self.search@,
            target: self.target@,
        }
    }
}

impl Clone for Item {
    fn clone(&self) -> (r: Self)
        ensures
            r@ == self@,
    {
        Item {
            label: self.label.clone(),
            hint: self.hint.clone(),
            search: self.search.clone(),
            target: self.target.clone(),
        }
    }
}

pub open spec fn item_views(items: Seq<Item>) -> Seq<ItemView> {
    items.map_values(|item: Item| item@)
}

/// The entry of an agent, from its name and the command that starts it.
pub open spec fn agent_item(agent: (Seq<char>, Seq<char>)) -> ItemView {
    ItemView {
        label: "agent · "@ + agent.0,
        hint: "start in new tab"@,
        search: "agent "@ + agent.0 + " "@ + agent.1 + " launch start"@,
        target: TargetView::Agent { name: agent.0, command: seq![agent.1] },
    }
}

/// The agents that can be started, each with its command. `prompted` is the id of the one
/// whose integration goes by its prompts.
pub open spec fn agent_list(prompted: Seq<char>) -> Seq<(Seq<char>, Seq<char>)> {
    seq![
        ("Codex"@, "codex"@),
        (integrations::title(prompted), integrations::vendor(prompted)),
        ("Gemini CLI"@, "gemini"@),
        ("OpenCode"@, "opencode"@),
        ("Pi"@, "pi"@),
    ]
}

/// The agents that can be started, in the order in which they are listed.
pub fn known_agents(prompted: &str) -> (r: Vec<(String, String)>)
    ensures
        plugins::pair_texts(r@) == agent_list(prompted@),
{
    let agents: Vec<(String, String)> = vec![
        ("Codex".to_owned(), "codex".to_owned()),
        (integrations::title_of(prompted), integrations::vendor_of(prompted)),
        ("Gemini CLI".to_owned(), "gemini".to_owned()),
        ("OpenCode".to_owned(), "opencode".to_owned()),
        ("Pi".to_owned(), "pi".to_owned()),
    ];
    assert(plugins::pair_texts(agents@) =~= agent_list(prompted@));
    agents
}

pub open spec fn shell_item() -> ItemView {
    ItemView {
        label: "agent · shell"@,
        hint: "new tab"@,
        search: "terminal shell new pane tab"@,
        target: TargetView::Shell,
    }
}

/// The entry of an action of a plugin.
pub open spec fn plugin_item(plugin: Seq<char>, directory: Seq<char>, action: PluginAction) -> ItemView {
    ItemView {
        label: "plugin · "@ + plugin + " · "@ + action.name@,
        hint: if action.pane {
            "open pane"@
        } else {
            "run"@
        },
        search: "plugin "@ + plugin + " "@ + action.id@ + " "@ + action.description@,
        target: TargetView::PluginAction {
            plugin,
            directory,
            action: action.id@,
            command: action.command@,
            pane: action.pane,
        },
    }
}

/// The entries of the plugin actions that a context supports.
pub open spec fn plugin_items(loaded: Seq<LoadedPlugin>, context: InvocationContext) -> Seq<
    ItemView,
> {
    plugins::available(loaded, context).map_values(
        |at: (int, int)|
            plugin_item(
                loaded[at.0].manifest.id@,
                loaded[at.0].installed.path@,
                loaded[at.0].manifest.actions@[at.1],
            ),
    )
}

pub open spec fn unavailable_item(error: Seq<char>) -> ItemView {
    ItemView {
        label: "plugin registry unavailable"@,
        hint: error,
        search: "plugin registry error"@,
        target: TargetView::PluginUnavailable(error),
    }
}

/// The entry of a binding: its name with spaces, and its first chord.
pub open spec fn action_item(binding: Binding) -> ItemView {
    let hint = if binding.chords@.len() > 0 {
        binding.chords@[0]@
    } else {
        Seq::empty()
    };
    let label = "action · "@ + text::replace_char(binding.name@, '_', " "@);
    ItemView {
        label,
        hint,
        search: binding.name@ + " "@ + label + " "@ + hint,
        target: TargetView::Action(binding.action),
    }
}

/// Every entry: agents, a shell, plugin actions or why there are none, bindings.
pub open spec fn all_items(
    agents: Seq<(Seq<char>, Seq<char>)>,
    plugins: Result<Vec<LoadedPlugin>, String>,
    context: InvocationContext,
    bindings: Seq<Binding>,
) -> Seq<ItemView> {
    agents.map_values(|agent: (Seq<char>, Seq<char>)| agent_item(agent)).push(shell_item()) + (
    match plugins {
        Ok(loaded) => plugin_items(loaded@, context),
        Err(error) => seq![unavailable_item(error@)],
    }) + bindings.map_values(|binding: Binding| action_item(binding))
}

fn agent_entry(agent: &(String, String)) -> (r: Item)
    ensures
        r@ == agent_item((agent.0@, agent.1@)),
{
    let name = agent.0.as_str();
    let mut search = text::cat3("agent ", name, " ");
    search.append(agent.1.as_str());
    search.append(" launch start");
    let command: Vec<String> = vec![agent.1.clone()];
    assert(text::texts(command@) =~= seq![agent.1@]);
    Item {
        label: text::cat("agent · ", name),
        hint: "start in new tab".to_owned(),
        search,
        target: PaletteTarget::Agent { name: agent.0.clone(), command },
    }
}

fn plugin_entry(item: &PaletteAction) -> (r: Item)
    ensures
        r@ == plugin_item(item.plugin@, item.directory@, item.action),
{
    let mut label = text::cat3("plugin · ", item.plugin.as_str(), " · ");
    label.append(item.action.name.as_str());
    let mut search = text::cat3("plugin ", item.plugin.as_str(), " ");
    search.append(item.action.id.as_str());
    search.append(" ");
    search.append(item.action.description.as_str());
    Item {
        label,
        hint: (if item.action.pane {
            "open pane"
        } else {
            "run"
        }).to_owned(),
        search,
        target: PaletteTarget::PluginAction {
            plugin: item.plugin.clone(),
            directory: item.directory.clone(),
            action: item.action.id.clone(),
            command: item.action.command.clone(),
            pane: item.action.pane,
        },
    }
}

fn action_entry(binding: &Binding) -> (r: Item)
    ensures
        r@ == action_item(*binding),
{
    let words = text::replaced(binding.name.as_str(), '_', " ");
    let label = text::cat("action · ", words.as_str());
    let hint = if binding.chords.len() > 0 {
        binding.chords[0].clone()
    } else {
        String::new()
    };
    assert(binding.chords@.len() == 0 ==> hint@ =~= Seq::<char>::empty());
    let mut search = text::cat3(binding.name.as_str(), " ", label.as_str());
    search.append(" ");
    search.append(hint.as_str());
    Item { label, hint, search, target: PaletteTarget::Action(binding.action) }
}

// --------------------------------------------------------------------------- filtering

/// The ranks of the matching entries among the first `count`: higher scores first.
pub open spec fn match_ranks(items: Seq<ItemView>, query: Seq<char>, count: int) -> Seq<Rank>
    decreases count,
{
    if count <= 0 {
        Seq::empty()
    } else {
        let before = match_ranks(items, query, count - 1);
        match picker::score_of(query, items[count - 1].search) {
            Some(score) => before.push(
                Rank { group: 0, weight: score as u64, index: (count - 1) as usize },
            ),
            None => before,
        }
    }
}

/// The matching entries by score, then as they were.
pub open spec fn filtered(items: Seq<ItemView>, query: Seq<char>) -> Seq<ItemView> {
    rank::sort(match_ranks(items, query, items.len() as int)).map_values(
        |r: Rank| items[r.index as int],
    )
}

fn filter(items: &Vec<Item>, query: &str) -> (r: Vec<Item>)
    ensures
        item_views(r@) == filtered(item_views(items@), query@),
{
    let ghost views = item_views(items@);
    let mut ranks: Vec<Rank> = Vec::new();
    let mut i: usize = 0;
    while i < items.len()
        invariant
            i <= items@.len(),
            views == item_views(items@),
            ranks@ == match_ranks(views, query@, i as int),
            forall|k: int| 0 <= k < ranks@.len() ==> (#[trigger] ranks@[k]).index < i,
        decreases items@.len() - i,
    {
        assert(views[i as int] == items@[i as int]@);
        if let Some(score) = picker::fuzzy_score(query, items[i].search.as_str()) {
            ranks.push(Rank { group: 0, weight: score as u64, index: i });
        }
        i += 1;
    }
    let order = rank::sorted(&ranks);
    proof {
        picker::lemma_sorted_in_range(ranks@, items@.len() as int);
    }
    let mut out: Vec<Item> = Vec::new();
    let mut k: usize = 0;
    let ghost all = filtered(views, query@);
    assert(item_views(out@) =~= all.take(0));
    while k < order.len()
        invariant
            k <= order@.len(),
            order@.len() == all.len(),
            views == item_views(items@),
            forall|j: int| 0 <= j < order@.len() ==> (#[trigger] order@[j]).index < items@.len(),
            forall|j: int|
                0 <= j < order@.len() ==> all[j] == views[(#[trigger] order@[j]).index as int],
            item_views(out@) == all.take(k as int),
        decreases order@.len() - k,
    {
        let ghost before = item_views(out@);
        let at = order[k].index;
        assert(all[k as int] == views[order@[k as int].index as int]);
        assert(views[at as int] == items@[at as int]@);
        out.push(items[at].clone());
        assert(item_views(out@) =~= before.push(all[k as int]));
        assert(all.take(k + 1) =~= all.take(k as int).push(all[k as int]));
        k += 1;
    }
    assert(all.take(k as int) =~= all);
    out
}

/// With an empty query every entry is shown, in the order in which it was added.
pub proof fn law_empty_query_shows_everything(items: Seq<ItemView>)
    requires
        items.len() <= usize::MAX,
    ensures
        filtered(items, Seq::empty()) == items,
{
    let ranks = match_ranks(items, Seq::empty(), items.len() as int);
    lemma_all_ranked(items, items.len() as int);
    assert(rank::is_sorted(ranks));
    rank::law_sort_keeps_sorted_lists(ranks);
    assert(filtered(items, Seq::empty()) =~= items);
}

proof fn lemma_all_ranked(items: Seq<ItemView>, count: int)
    requires
        0 <= count <= items.len() <= usize::MAX,
    ensures
        match_ranks(items, Seq::empty(), count).len() == count,
        forall|k: int|
            0 <= k < count ==> #[trigger] match_ranks(items, Seq::empty(), count)[k] == (Rank {
                group: 0,
                weight: 0,
                index: k as usize,
            }),
    decreases count,
{
    if count > 0 {
        lemma_all_ranked(items, count - 1);
        let before = match_ranks(items, Seq::empty(), count - 1);
        let now = match_ranks(items, Seq::empty(), count);
        assert forall|k: int| 0 <= k < count implies #[trigger] now[k] == (Rank {
            group: 0,
            weight: 0,
            index: k as usize,
        }) by {
            if k < count - 1 {
                assert(now[k] == before[k]);
            }
        }
    }
}

/// What is shown always matches the query: its letters occur in order in what the
/// search looks in.
pub proof fn law_shown_entries_match(items: Seq<ItemView>, query: Seq<char>, k: int)
    requires
        items.len() <= usize::MAX,
        0 <= k < filtered(items, query).len(),
    ensures
        picker::score_of(query, filtered(items, query)[k].search) is Some,
        items.contains(filtered(items, query)[k]),
{
    broadcast use vstd::seq_lib::group_to_multiset_ensures;

    let ranks = match_ranks(items, query, items.len() as int);
    let order = rank::sort(ranks);
    rank::law_sort_orders_the_same_entries(ranks);
    assert(order.contains(order[k]));
    assert(order.to_multiset().count(order[k]) > 0);
    assert(ranks.to_multiset().count(order[k]) > 0);
    assert(ranks.contains(order[k]));
    let j = choose|j: int| 0 <= j < ranks.len() && ranks[j] == order[k];
    lemma_ranked_matches(items, query, items.len() as int, j);
}

proof fn lemma_ranked_matches(items: Seq<ItemView>, query: Seq<char>, count: int, j: int)
    requires
        0 <= count <= items.len() <= usize::MAX,
        0 <= j < match_ranks(items, query, count).len(),
    ensures
        match_ranks(items, query, count)[j].index < count,
        picker::score_of(
            query,
            items[match_ranks(items, query, count)[j].index as int].search,
        ) is Some,
    decreases count,
{
    if count > 0 {
        let before = match_ranks(items, query, count - 1);
        if j < before.len() {
            lemma_ranked_matches(items, query, count - 1, j);
        }
    }
}

// ----------------------------------------------------------------------------- palette

/// The command center with every entry behind it.
pub struct Palette {
    pub all: Vec<Item>,
    /// The entries behind the current rows.
    pub visible: Vec<Item>,
    pub overlay: Overlay,
}

pub open spec fn rows_for(items: Seq<ItemView>) -> Seq<(Seq<char>, Seq<char>, OverlayTarget)> {
    items.map_values(|item: ItemView| (item.label, item.hint, OverlayTarget::Nothing))
}

fn rows_of(items: &Vec<Item>) -> (r: Vec<OverlayRow>)
    ensures
        overlay::row_parts(r@) == rows_for(item_views(items@)),
{
    let ghost all = rows_for(item_views(items@));
    let mut rows: Vec<OverlayRow> = Vec::new();
    let mut i: usize = 0;
    assert(overlay::row_parts(rows@) =~= all.take(0));
    while i < items.len()
        invariant
            i <= items@.len(),
            all == rows_for(item_views(items@)),
            overlay::row_parts(rows@) == all.take(i as int),
        decreases items@.len() - i,
    {
        let ghost before = overlay::row_parts(rows@);
        let row = OverlayRow::new(
            items[i].label.clone(),
            items[i].hint.clone(),
            OverlayTarget::Nothing,
        );
        let ghost parts = row.parts();
        assert(item_views(items@)[i as int] == items@[i as int]@);
        rows.push(row);
        assert(overlay::row_parts(rows@) =~= before.push(parts));
        assert(all.take(i + 1) =~= all.take(i as int).push(all[i as int]));
        i += 1;
    }
    assert(all.take(i as int) =~= all);
    rows
}

impl Palette {
    /// The rows show the visible entries.
    pub open spec fn aligned(self) -> bool {
        overlay::row_parts(self.overlay.rows@) == rows_for(item_views(self.visible@))
    }

    /// Builds the command center from the agents that can be started, the actions of the
    /// plugins that the context supports or why they are unknown, and the bindings.
    /// `prompted` is the id of the agent whose integration goes by its prompts.
    pub fn with_plugin_context(
        prompted: &str,
        plugins: &Result<Vec<LoadedPlugin>, String>,
        context: &InvocationContext,
        bindings: &Vec<Binding>,
    ) -> (r: Self)
        ensures
            item_views(r.all@) == all_items(
                agent_list(prompted@),
                *plugins,
                *context,
                bindings@,
            ),
            item_views(r.visible@) == filtered(item_views(r.all@), Seq::empty()),
            r.aligned(),
            r.overlay.title@ == "command center · type to filter · esc closes"@,
            text::option_text(r.overlay.filter) == Some(Seq::<char>::empty()),
            r.overlay.selected == 0,
    {
        let mut all: Vec<Item> = Vec::new();
        let agents = known_agents(prompted);
        let ghost named = plugins::pair_texts(agents@);
        let ghost a = named.map_values(|agent: (Seq<char>, Seq<char>)| agent_item(agent));
        let ghost b = bindings@.map_values(|binding: Binding| action_item(binding));
        let mut i: usize = 0;
        assert(item_views(all@) =~= a.take(0));
        while i < agents.len()
            invariant
                i <= agents@.len(),
                named == plugins::pair_texts(agents@),
                a == named.map_values(|agent: (Seq<char>, Seq<char>)| agent_item(agent)),
                item_views(all@) == a.take(i as int),
            decreases agents@.len() - i,
        {
            let ghost before = item_views(all@);
            assert(named[i as int] == (agents@[i as int].0@, agents@[i as int].1@));
            all.push(agent_entry(&agents[i]));
            assert(item_views(all@) =~= before.push(a[i as int]));
            assert(a.take(i + 1) =~= a.take(i as int).push(a[i as int]));
            i += 1;
        }
        assert(a.take(i as int) =~= a);
        let shell = Item {
            label: "agent · shell".to_owned(),
            hint: "new tab".to_owned(),
            search: "terminal shell new pane tab".to_owned(),
            target: PaletteTarget::Shell,
        };
        assert(shell@ == shell_item());
        all.push(shell);
        let ghost base = a.push(shell_item());
        assert(item_views(all@) =~= base);
        let ghost p = match plugins {
            Ok(loaded) => plugin_items(loaded@, *context),
            Err(error) => seq![unavailable_item(error@)],
        };
        match plugins {
            Ok(loaded) => {
                let actions = plugins::palette_actions_for(loaded, context);
                let mut j: usize = 0;
                assert(base + p.take(0) =~= base);
                while j < actions.len()
                    invariant
                        j <= actions@.len(),
                        p == plugin_items(loaded@, *context),
                        actions@.len() == plugins::available(loaded@, *context).len(),
                        forall|k: int|
                            0 <= k < actions@.len() ==> plugins::offers(
                                #[trigger] actions@[k],
                                loaded@,
                                plugins::available(loaded@, *context)[k],
                            ),
                        item_views(all@) == base + p.take(j as int),
                    decreases actions@.len() - j,
                {
                    let ghost before = item_views(all@);
                    assert(plugins::offers(
                        actions@[j as int],
                        loaded@,
                        plugins::available(loaded@, *context)[j as int],
                    ));
                    all.push(plugin_entry(&actions[j]));
                    assert(item_views(all@) =~= before.push(p[j as int]));
                    assert(base + p.take(j + 1) =~= (base + p.take(j as int)).push(p[j as int]));
                    j += 1;
                }
                assert(p.take(j as int) =~= p);
            },
            Err(error) => {
                let item = Item {
                    label: "plugin registry unavailable".to_owned(),
                    hint: error.clone(),
                    search: "plugin registry error".to_owned(),
                    target: PaletteTarget::PluginUnavailable(error.clone()),
                };
                assert(item@ == unavailable_item(error@));
                all.push(item);
                assert(item_views(all@) =~= base + p);
            },
        }
        let ghost upper = base + p;
        let mut k: usize = 0;
        assert(upper + b.take(0) =~= upper);
        while k < bindings.len()
            invariant
                k <= bindings@.len(),
                b == bindings@.map_values(|binding: Binding| action_item(binding)),
                item_views(all@) == upper + b.take(k as int),
            decreases bindings@.len() - k,
        {
            let ghost before = item_views(all@);
            all.push(action_entry(&bindings[k]));
            assert(item_views(all@) =~= before.push(b[k as int]));
            assert(upper + b.take(k + 1) =~= (upper + b.take(k as int)).push(b[k as int]));
            k += 1;
        }
        assert(b.take(k as int) =~= b);
        let empty = String::new();
        assert(empty@ =~= Seq::<char>::empty());
        let visible = filter(&all, empty.as_str());
        let rows = rows_of(&visible);
        let mut overlay = Overlay::new("command center · type to filter · esc closes", rows);
        overlay.filter = Some(String::new());
        Palette { all, visible, overlay }
    }

    /// Rebuilds the visible rows from the filter text, keeping the selection in range.
    pub fn apply_filter(&mut self)
        ensures
            final(self).all == old(self).all,
            item_views(final(self).visible@) == filtered(
                item_views(old(self).all@),
                match old(self).overlay.filter {
                    Some(query) => query@,
                    None => Seq::empty(),
                },
            ),
            final(self).aligned(),
            final(self).overlay.title == old(self).overlay.title,
            final(self).overlay.filter == old(self).overlay.filter,
            final(self).overlay.selected == num::min(
                old(self).overlay.selected as int,
                num::max(final(self).visible@.len() - 1, 0),
            ),
    {
        let empty = String::new();
        assert(empty@ =~= Seq::<char>::empty());
        let visible = match &self.overlay.filter {
            Some(query) => filter(&self.all, query.as_str()),
            None => filter(&self.all, empty.as_str()),
        };
        let rows = rows_of(&visible);
        assert(rows@.len() == visible@.len()) by {
            assert(overlay::row_parts(rows@).len() == rows_for(item_views(visible@)).len());
        }
        let last: usize = rows.len().saturating_sub(1);
        self.visible = visible;
        self.overlay.rows = rows;
        if self.overlay.selected > last {
            self.overlay.selected = last;
        }
    }

    /// What the highlighted entry does.
    pub fn current_target(&self) -> (r: Option<PaletteTarget>)
        ensures
            match r {
                Some(target) => self.overlay.selected < self.visible@.len() && target@
                    == self.visible@[self.overlay.selected as int].target@,
                None => self.overlay.selected >= self.visible@.len(),
            },
    {
        if self.overlay.selected < self.visible.len() {
            Some(self.visible[self.overlay.selected].target.clone())
        } else {
            None
        }
    }
}

} // verus!
