//! Searching lists: what matches, how well, and in which order it is shown.

use vstd::prelude::*;

use crate::overlay::OverlayTarget;
use crate::palette::{self, ItemView};
use crate::picker::{self, PickTarget, PickerItem};
use crate::proto::{AgentInfo, AgentStateKind, SidebarTabInfo, WorkspaceInfo};
use crate::rank::{self, Rank};
use crate::text;

verus! {

// -------------------------------------------------------------------------- ranking

/// One rank goes in front of another: in a lower group, with a greater weight, or earlier
/// where both are the same.
pub open spec fn leads(a: Rank, b: Rank) -> bool {
    a.group < b.group || (a.group == b.group && (a.weight > b.weight || (a.weight == b.weight
        && a.index < b.index)))
}

pub open spec fn led(list: Seq<Rank>) -> bool {
    forall|i: int, j: int| 0 <= i < j < list.len() ==> leads(#[trigger] list[i], #[trigger] list[j])
}

proof fn lemma_insert_leads(list: Seq<Rank>, x: Rank)
    requires
        led(list),
        forall|k: int| 0 <= k < list.len() ==> (#[trigger] list[k]).index < x.index,
    ensures
        led(rank::insert(list, x)),
        rank::insert(list, x).len() == list.len() + 1,
        rank::insert(list, x).contains(x),
        forall|k: int|
            0 <= k < list.len() ==> rank::insert(list, x).contains(#[trigger] list[k]),
        forall|k: int|
            0 <= k < rank::insert(list, x).len() ==> #[trigger] rank::insert(list, x)[k] == x
                || list.contains(rank::insert(list, x)[k]),
    decreases list.len(),
{
    let r = rank::insert(list, x);
    if list.len() == 0 || !rank::above(x, list.last()) {
        assert forall|i: int, j: int| 0 <= i < j < r.len() implies leads(
            #[trigger] r[i],
            #[trigger] r[j],
        ) by {
            if j == list.len() {
                if i < list.len() - 1 {
                    assert(leads(list[i], list[list.len() - 1]));
                }
                assert(list[i].index < x.index);
                assert(leads(list[list.len() - 1], x));
            }
        }
        assert(r[list.len() as int] == x);
        assert forall|k: int| 0 <= k < list.len() implies r.contains(#[trigger] list[k]) by {
            assert(r[k] == list[k]);
        }
        assert forall|k: int| 0 <= k < r.len() implies #[trigger] r[k] == x || list.contains(
            r[k],
        ) by {
            if k < list.len() {
                assert(list[k] == r[k]);
            }
        }
    } else {
        let front = list.drop_last();
        assert forall|k: int| 0 <= k < front.len() implies (#[trigger] front[k]).index
            < x.index by {
            assert(front[k] == list[k]);
        }
        lemma_insert_leads(front, x);
        let f = rank::insert(front, x);
        let last = list[list.len() - 1];
        assert forall|i: int, j: int| 0 <= i < j < r.len() implies leads(
            #[trigger] r[i],
            #[trigger] r[j],
        ) by {
            if j < f.len() {
                assert(leads(f[i], f[j]));
            } else if f[i] != x {
                let m = front.index_of(f[i]);
                assert(leads(list[m], last));
            }
        }
        let at = f.index_of(x);
        assert(r[at] == x);
        assert forall|k: int| 0 <= k < list.len() implies r.contains(#[trigger] list[k]) by {
            if k < front.len() {
                assert(f.contains(front[k]));
                let m = f.index_of(front[k]);
                assert(r[m] == list[k]);
            } else {
                assert(r[r.len() - 1] == list[k]);
            }
        }
        assert forall|k: int| 0 <= k < r.len() implies #[trigger] r[k] == x || list.contains(
            r[k],
        ) by {
            if k < f.len() {
                if f[k] != x {
                    let m = front.index_of(f[k]);
                    assert(list[m] == r[k]);
                }
            } else {
                assert(list[list.len() - 1] == r[k]);
            }
        }
    }
}

/// Sorting puts every rank where it belongs: each that goes in front of another is in
/// front of it, equal ones stay as they were, and none is lost or added.
pub proof fn law_sorting_puts_ranks_in_order(list: Seq<Rank>)
    requires
        forall|i: int, j: int|
            0 <= i < j < list.len() ==> (#[trigger] list[i]).index < (#[trigger] list[j]).index,
    ensures
        led(rank::sort(list)),
        rank::sort(list).len() == list.len(),
        forall|k: int| 0 <= k < list.len() ==> rank::sort(list).contains(#[trigger] list[k]),
        forall|k: int|
            0 <= k < rank::sort(list).len() ==> list.contains(#[trigger] rank::sort(list)[k]),
    decreases list.len(),
{
    if list.len() > 0 {
        let front = list.drop_last();
        assert forall|i: int, j: int| 0 <= i < j < front.len() implies (#[trigger] front[i]).index
            < (#[trigger] front[j]).index by {
            assert(list[i].index < list[j].index);
        }
        law_sorting_puts_ranks_in_order(front);
        let f = rank::sort(front);
        let x = list[list.len() - 1];
        assert forall|k: int| 0 <= k < f.len() implies (#[trigger] f[k]).index < x.index by {
            let m = front.index_of(f[k]);
            assert(list[m].index < x.index);
        }
        lemma_insert_leads(f, x);
        let r = rank::sort(list);
        assert(r == rank::insert(f, x));
        assert forall|k: int| 0 <= k < list.len() implies r.contains(#[trigger] list[k]) by {
            if k < front.len() {
                assert(front[k] == list[k]);
                let m = f.index_of(front[k]);
                assert(r.contains(f[m]));
            }
        }
        assert forall|k: int| 0 <= k < r.len() implies list.contains(#[trigger] r[k]) by {
            if r[k] == x {
                assert(list[list.len() - 1] == r[k]);
            } else {
                let m = f.index_of(r[k]);
                let n = front.index_of(f[m]);
                assert(list[n] == r[k]);
            }
        }
    }
}

// -------------------------------------------------------------------------- pickers

proof fn lemma_picker_ranks(items: Seq<PickerItem>, query: Seq<char>, count: int)
    requires
        0 <= count <= items.len() <= usize::MAX,
    ensures
        ({
            let ranks = picker::match_ranks(items, query, count);
            &&& forall|i: int, j: int|
                0 <= i < j < ranks.len() ==> (#[trigger] ranks[i]).index < (
                #[trigger] ranks[j]).index
            &&& forall|k: int|
                0 <= k < ranks.len() ==> {
                    let r = #[trigger] ranks[k];
                    &&& r.index < count
                    &&& picker::score_of(query, items[r.index as int].label@) == Some(
                        r.weight as u32,
                    )
                    &&& r.weight <= u32::MAX
                    &&& r.group == (if items[r.index as int].state == AgentStateKind::Blocked {
                        0int
                    } else {
                        1
                    })
                }
            &&& forall|n: int|
                0 <= n < count && picker::score_of(query, (#[trigger] items[n]).label@) is Some
                    ==> exists|k: int| 0 <= k < ranks.len() && (#[trigger] ranks[k]).index == n
        }),
    decreases count,
{
    if count > 0 {
        lemma_picker_ranks(items, query, count - 1);
        let front = picker::match_ranks(items, query, count - 1);
        let ranks = picker::match_ranks(items, query, count);
        assert forall|n: int|
            0 <= n < count && picker::score_of(
                query,
                (#[trigger] items[n]).label@,
            ) is Some implies exists|k: int|
            0 <= k < ranks.len() && (#[trigger] ranks[k]).index == n by {
            if n < count - 1 {
                let k = choose|k: int| 0 <= k < front.len() && (#[trigger] front[k]).index == n;
                assert(ranks[k].index == n);
            } else {
                assert(ranks[ranks.len() - 1].index == n);
            }
        }
    }
}

/// What a picker shows for a query: exactly the entries that match, each once. Those that
/// ask for attention come first; among the others, and among them, the better match comes
/// first, and of equal ones the one that was first. The result says where each shown entry
/// stood.
pub proof fn law_pickers_show_the_best_first(items: Seq<PickerItem>, query: Seq<char>) -> (at: Seq<
    int,
>)
    requires
        items.len() <= usize::MAX,
    ensures
        ({
            let shown = picker::filtered(items, query);
            &&& at.len() == shown.len()
            &&& forall|k: int|
                0 <= k < at.len() ==> 0 <= #[trigger] at[k] < items.len() && shown[k]
                    == items[at[k]] && picker::score_of(query, items[at[k]].label@) is Some
            &&& forall|n: int|
                0 <= n < items.len() && picker::score_of(
                    query,
                    (#[trigger] items[n]).label@,
                ) is Some ==> at.contains(n)
            &&& forall|i: int, j: int|
                0 <= i < j < at.len() ==> {
                    let a = items[#[trigger] at[i]];
                    let b = items[#[trigger] at[j]];
                    let x = picker::score_of(query, a.label@)->0;
                    let y = picker::score_of(query, b.label@)->0;
                    &&& b.state == AgentStateKind::Blocked ==> a.state == AgentStateKind::Blocked
                    &&& (a.state == AgentStateKind::Blocked) == (b.state
                        == AgentStateKind::Blocked) ==> x > y || (x == y && at[i] < at[j])
                }
        }),
{
    let ranks = picker::match_ranks(items, query, items.len() as int);
    lemma_picker_ranks(items, query, items.len() as int);
    law_sorting_puts_ranks_in_order(ranks);
    let order = rank::sort(ranks);
    let at = order.map_values(|r: Rank| r.index as int);
    let shown = picker::filtered(items, query);
    assert forall|k: int| 0 <= k < at.len() implies 0 <= #[trigger] at[k] < items.len()
        && shown[k] == items[at[k]] && picker::score_of(query, items[at[k]].label@) is Some by {
        let m = ranks.index_of(order[k]);
        assert(ranks[m].index == at[k]);
    }
    assert forall|n: int|
        0 <= n < items.len() && picker::score_of(
            query,
            (#[trigger] items[n]).label@,
        ) is Some implies at.contains(n) by {
        let k = choose|k: int| 0 <= k < ranks.len() && (#[trigger] ranks[k]).index == n;
        assert(order.contains(ranks[k]));
        let m = order.index_of(ranks[k]);
        assert(at[m] == n);
    }
    assert forall|i: int, j: int| 0 <= i < j < at.len() implies {
        let a = items[#[trigger] at[i]];
        let b = items[#[trigger] at[j]];
        let x = picker::score_of(query, a.label@)->0;
        let y = picker::score_of(query, b.label@)->0;
        &&& b.state == AgentStateKind::Blocked ==> a.state == AgentStateKind::Blocked
        &&& (a.state == AgentStateKind::Blocked) == (b.state == AgentStateKind::Blocked) ==> x > y
            || (x == y && at[i] < at[j])
    } by {
        let p = ranks.index_of(order[i]);
        let q = ranks.index_of(order[j]);
        assert(ranks[p].index == at[i] && ranks[q].index == at[j]);
        assert(leads(order[i], order[j]));
    }
    at
}

proof fn lemma_palette_ranks(items: Seq<ItemView>, query: Seq<char>, count: int)
    requires
        0 <= count <= items.len() <= usize::MAX,
    ensures
        ({
            let ranks = palette::match_ranks(items, query, count);
            &&& forall|i: int, j: int|
                0 <= i < j < ranks.len() ==> (#[trigger] ranks[i]).index < (
                #[trigger] ranks[j]).index
            &&& forall|k: int|
                0 <= k < ranks.len() ==> {
                    let r = #[trigger] ranks[k];
                    &&& r.index < count
                    &&& picker::score_of(query, items[r.index as int].search) == Some(
                        r.weight as u32,
                    )
                    &&& r.weight <= u32::MAX
                    &&& r.group == 0
                }
            &&& forall|n: int|
                0 <= n < count && picker::score_of(query, (#[trigger] items[n]).search) is Some
                    ==> exists|k: int| 0 <= k < ranks.len() && (#[trigger] ranks[k]).index == n
        }),
    decreases count,
{
    if count > 0 {
        lemma_palette_ranks(items, query, count - 1);
        let front = palette::match_ranks(items, query, count - 1);
        let ranks = palette::match_ranks(items, query, count);
        assert forall|n: int|
            0 <= n < count && picker::score_of(
                query,
                (#[trigger] items[n]).search,
            ) is Some implies exists|k: int|
            0 <= k < ranks.len() && (#[trigger] ranks[k]).index == n by {
            if n < count - 1 {
                let k = choose|k: int| 0 <= k < front.len() && (#[trigger] front[k]).index == n;
                assert(ranks[k].index == n);
            } else {
                assert(ranks[ranks.len() - 1].index == n);
            }
        }
    }
}

/// What the command center shows for a query: exactly the entries that match, each once,
/// the better match first, and of equal ones the one that was first.
pub proof fn law_the_palette_shows_the_best_first(items: Seq<ItemView>, query: Seq<char>) -> (at:
    Seq<int>)
    requires
        items.len() <= usize::MAX,
    ensures
        ({
            let shown = palette::filtered(items, query);
            &&& at.len() == shown.len()
            &&& forall|k: int|
                0 <= k < at.len() ==> 0 <= #[trigger] at[k] < items.len() && shown[k]
                    == items[at[k]] && picker::score_of(query, items[at[k]].search) is Some
            &&& forall|n: int|
                0 <= n < items.len() && picker::score_of(
                    query,
                    (#[trigger] items[n]).search,
                ) is Some ==> at.contains(n)
            &&& forall|i: int, j: int|
                0 <= i < j < at.len() ==> {
                    let x = picker::score_of(query, items[#[trigger] at[i]].search)->0;
                    let y = picker::score_of(query, items[#[trigger] at[j]].search)->0;
                    x > y || (x == y && at[i] < at[j])
                }
        }),
{
    let ranks = palette::match_ranks(items, query, items.len() as int);
    lemma_palette_ranks(items, query, items.len() as int);
    law_sorting_puts_ranks_in_order(ranks);
    let order = rank::sort(ranks);
    let at = order.map_values(|r: Rank| r.index as int);
    let shown = palette::filtered(items, query);
    assert forall|k: int| 0 <= k < at.len() implies 0 <= #[trigger] at[k] < items.len()
        && shown[k] == items[at[k]] && picker::score_of(query, items[at[k]].search) is Some by {
        let m = ranks.index_of(order[k]);
        assert(ranks[m].index == at[k]);
    }
    assert forall|n: int|
        0 <= n < items.len() && picker::score_of(
            query,
            (#[trigger] items[n]).search,
        ) is Some implies at.contains(n) by {
        let k = choose|k: int| 0 <= k < ranks.len() && (#[trigger] ranks[k]).index == n;
        assert(order.contains(ranks[k]));
        let m = order.index_of(ranks[k]);
        assert(at[m] == n);
    }
    assert forall|i: int, j: int| 0 <= i < j < at.len() implies {
        let x = picker::score_of(query, items[#[trigger] at[i]].search)->0;
        let y = picker::score_of(query, items[#[trigger] at[j]].search)->0;
        x > y || (x == y && at[i] < at[j])
    } by {
        let p = ranks.index_of(order[i]);
        let q = ranks.index_of(order[j]);
        assert(ranks[p].index == at[i] && ranks[q].index == at[j]);
        assert(leads(order[i], order[j]));
    }
    at
}

// -------------------------------------------------------------------------- scoring

/// A character does not occur between two places.
pub open spec fn absent(hay: Seq<char>, c: char, low: int, high: int) -> bool {
    forall|p: int| low < p < high ==> #[trigger] hay[p] != c
}

/// A character of a needle is found behind the one before it, and nowhere further left.
pub open spec fn found_at(hay: Seq<char>, needle: Seq<char>, at: Seq<int>, k: int) -> bool {
    let low = if k == 0 {
        -1
    } else {
        at[k - 1]
    };
    low < at[k] < hay.len() && hay[at[k]] == needle[k] && absent(hay, needle[k], low, at[k])
}

/// Where the characters of a needle are found one after the other, each as far left as
/// it can be.
pub open spec fn leftmost(hay: Seq<char>, needle: Seq<char>, at: Seq<int>) -> bool {
    at.len() == needle.len() && forall|k: int|
        0 <= k < at.len() ==> #[trigger] found_at(hay, needle, at, k)
}

/// What the characters found at the first `count` places are worth: one each, three more
/// at the start of a word, two more right behind the one before.
pub open spec fn worth(hay: Seq<char>, at: Seq<int>, count: int) -> int
    decreases count,
{
    if count <= 0 {
        0
    } else {
        let p = at[count - 1];
        worth(hay, at, count - 1) + 1 + (if p == 0 || seq![' ', '›', '·', '/', '-', '_', '.'].contains(
            hay[p - 1],
        ) {
            3int
        } else {
            0
        }) + (if count > 1 && p == at[count - 2] + 1 {
            2int
        } else {
            0
        })
    }
}

proof fn lemma_separators(c: char)
    ensures
        seq![' ', '›', '·', '/', '-', '_', '.'].contains(c) <==> (c == ' ' || c == '›' || c == '·'
            || c == '/' || c == '-' || c == '_' || c == '.'),
{
    let s = seq![' ', '›', '·', '/', '-', '_', '.'];
    assert(s[0] == ' ' && s[1] == '›' && s[2] == '·' && s[3] == '/' && s[4] == '-' && s[5] == '_'
        && s[6] == '.');
}

proof fn lemma_leftmost_push(hay: Seq<char>, needle: Seq<char>, found: Seq<int>, index: int)
    requires
        found.len() < needle.len(),
        leftmost(hay, needle.take(found.len() as int), found),
        0 <= index < hay.len(),
        hay[index] == needle[found.len() as int],
        found.len() > 0 ==> found.last() < index,
        absent(
            hay,
            needle[found.len() as int],
            if found.len() == 0 {
                -1
            } else {
                found.last()
            },
            index,
        ),
    ensures
        leftmost(hay, needle.take(found.len() as int + 1), found.push(index)),
{
    let n = found.len() as int;
    let more = found.push(index);
    let part = needle.take(n + 1);
    assert forall|k: int| 0 <= k < more.len() implies #[trigger] found_at(
        hay,
        part,
        more,
        k,
    ) by {
        if k < n {
            assert(found_at(hay, needle.take(n), found, k));
            assert(needle.take(n)[k] == part[k]);
        }
    }
}

proof fn lemma_worth_push(hay: Seq<char>, found: Seq<int>, index: int)
    requires
        0 <= index < hay.len(),
    ensures
        worth(hay, found.push(index), found.len() as int + 1) == worth(
            hay,
            found,
            found.len() as int,
        ) + 1 + (if picker::starts_word(hay, index) {
            3int
        } else {
            0
        }) + (if found.len() > 0 && found.last() == index - 1 {
            2int
        } else {
            0
        }),
{
    let n = found.len() as int;
    let more = found.push(index);
    lemma_worth_prefix(hay, more, found, n);
    if index > 0 {
        lemma_separators(hay[index - 1]);
    }
    if n > 0 {
        assert(more[n - 1] == found.last());
    }
}

/// Points from a place on, given where the earlier characters were found.
proof fn lemma_points_worth(
    hay: Seq<char>,
    needle: Seq<char>,
    index: int,
    found: Seq<int>,
) -> (at: Seq<int>)
    requires
        0 <= index <= hay.len(),
        found.len() <= needle.len(),
        leftmost(hay, needle.take(found.len() as int), found),
        found.len() > 0 ==> found.last() < index,
        found.len() < needle.len() ==> absent(
            hay,
            needle[found.len() as int],
            if found.len() == 0 {
                -1
            } else {
                found.last()
            },
            index,
        ),
    ensures
        match picker::points(
            hay,
            needle,
            index,
            found.len() as int,
            found.len() > 0 && found.last() == index - 1,
        ) {
            Some(n) => leftmost(hay, needle, at) && n == worth(hay, at, at.len() as int) - worth(
                hay,
                found,
                found.len() as int,
            ),
            None => true,
        },
    decreases hay.len() - index,
{
    let next = found.len() as int;
    if index >= hay.len() {
        if next == needle.len() {
            assert(needle.take(next) =~= needle);
        }
        found
    } else if next < needle.len() && hay[index] == needle[next] {
        lemma_leftmost_push(hay, needle, found, index);
        lemma_worth_push(hay, found, index);
        lemma_points_worth(hay, needle, index + 1, found.push(index))
    } else {
        lemma_points_worth(hay, needle, index + 1, found)
    }
}

proof fn lemma_worth_prefix(hay: Seq<char>, a: Seq<int>, b: Seq<int>, count: int)
    requires
        0 <= count <= a.len(),
        count <= b.len(),
        forall|k: int| 0 <= k < count ==> a[k] == b[k],
    ensures
        worth(hay, a, count) == worth(hay, b, count),
    decreases count,
{
    if count > 0 {
        lemma_worth_prefix(hay, a, b, count - 1);
    }
}

/// The score of a match counts its characters where they stand furthest left: one point
/// each, more at the starts of words and side by side. So does every match in the end: a
/// score stops growing only at the largest number there is.
pub proof fn law_scores_count_places(query: Seq<char>, shown: Seq<char>) -> (at: Seq<int>)
    requires
        query.len() > 0,
        text::lowercase(query).len() > 0,
        picker::score_of(query, shown) is Some,
    ensures
        leftmost(text::lowercase(shown), text::lowercase(query), at),
        ({
            let total = worth(text::lowercase(shown), at, at.len() as int);
            picker::score_of(query, shown)->0 == (if total > u32::MAX {
                u32::MAX as int
            } else {
                total
            })
        }),
{
    let hay = text::lowercase(shown);
    let needle = text::lowercase(query);
    let none = Seq::<int>::empty();
    assert(needle.take(0) =~= Seq::<char>::empty());
    lemma_points_worth(hay, needle, 0, none)
}

// -------------------------------------------------------------------------- entries

proof fn lemma_tabs_listed(workspace: Seq<char>, tabs: Seq<SidebarTabInfo>, count: int, t: int)
    requires
        0 <= t < count <= tabs.len(),
    ensures
        ({
            let path = workspace + " › "@ + tabs[t].name@;
            let all = picker::tabs_entries(workspace, tabs, count);
            &&& all.contains((path, "tab"@, tabs[t].state, PickTarget::Tab(tabs[t].id)))
            &&& forall|a: int|
                0 <= a < tabs[t].agents@.len() ==> all.contains(
                    #[trigger] agent_row(path, tabs[t].agents@[a]),
                )
        }),
    decreases count,
{
    let all = picker::tabs_entries(workspace, tabs, count);
    let front = picker::tabs_entries(workspace, tabs, count - 1);
    let path = workspace + " › "@ + tabs[t].name@;
    if t < count - 1 {
        lemma_tabs_listed(workspace, tabs, count - 1, t);
        let i = front.index_of((path, "tab"@, tabs[t].state, PickTarget::Tab(tabs[t].id)));
        assert(all[i] == front[i]);
        assert forall|a: int| 0 <= a < tabs[t].agents@.len() implies all.contains(
            #[trigger] agent_row(path, tabs[t].agents@[a]),
        ) by {
            let k = front.index_of(agent_row(path, tabs[t].agents@[a]));
            assert(all[k] == front[k]);
        }
    } else {
        let own = picker::tab_entries(workspace, tabs[t]);
        let agents = picker::agent_entries(path, tabs[t].agents@);
        assert(own[0] == (path, "tab"@, tabs[t].state, PickTarget::Tab(tabs[t].id)));
        assert(all[front.len() as int] == own[0]);
        assert forall|a: int| 0 <= a < tabs[t].agents@.len() implies all.contains(
            #[trigger] agent_row(path, tabs[t].agents@[a]),
        ) by {
            assert(agents[a] == agent_row(path, tabs[t].agents@[a]));
            assert(all[front.len() + 1 + a] == agents[a]);
        }
    }
}

/// The row of an agent in a tab: its breadcrumb, its state, its pane.
pub open spec fn agent_row(path: Seq<char>, agent: AgentInfo) -> (
    Seq<char>,
    Seq<char>,
    AgentStateKind,
    PickTarget,
) {
    (
        path + " › "@ + agent.name@,
        match agent.state {
            AgentStateKind::Blocked => "blocked"@,
            AgentStateKind::Working => "working"@,
            AgentStateKind::Done => "done"@,
            AgentStateKind::Idle => "idle"@,
            AgentStateKind::Unknown => "unknown"@,
        },
        agent.state,
        PickTarget::Pane(agent.pane),
    )
}

/// The goto list leads everywhere: it has every workspace under its name, every tab under
/// its workspace, and every agent under its tab, each with the place that it opens.
pub proof fn law_goto_leads_everywhere(workspaces: Seq<WorkspaceInfo>, count: int, w: int, t: int)
    requires
        0 <= w < count <= workspaces.len(),
        0 <= t < workspaces[w].tabs@.len(),
    ensures
        ({
            let space = workspaces[w];
            let tab = space.tabs@[t];
            let path = space.name@ + " › "@ + tab.name@;
            let all = picker::goto_entries(workspaces, count);
            &&& all.contains(
                (space.name@, "workspace"@, space.state, PickTarget::Workspace(space.id)),
            )
            &&& all.contains((path, "tab"@, tab.state, PickTarget::Tab(tab.id)))
            &&& forall|a: int|
                0 <= a < tab.agents@.len() ==> all.contains(
                    #[trigger] agent_row(path, tab.agents@[a]),
                )
        }),
    decreases count,
{
    let all = picker::goto_entries(workspaces, count);
    let front = picker::goto_entries(workspaces, count - 1);
    let space = workspaces[w];
    let tab = space.tabs@[t];
    let path = space.name@ + " › "@ + tab.name@;
    let head = (space.name@, "workspace"@, space.state, PickTarget::Workspace(space.id));
    let row = (path, "tab"@, tab.state, PickTarget::Tab(tab.id));
    if w < count - 1 {
        law_goto_leads_everywhere(workspaces, count - 1, w, t);
        assert(all[front.index_of(head)] == head);
        assert(all[front.index_of(row)] == row);
        assert forall|a: int| 0 <= a < tab.agents@.len() implies all.contains(
            #[trigger] agent_row(path, tab.agents@[a]),
        ) by {
            let k = front.index_of(agent_row(path, tab.agents@[a]));
            assert(all[k] == front[k]);
        }
    } else {
        let tabs = picker::tabs_entries(space.name@, space.tabs@, space.tabs@.len() as int);
        lemma_tabs_listed(space.name@, space.tabs@, space.tabs@.len() as int, t);
        assert(all[front.len() as int] == head);
        assert(all[front.len() + 1 + tabs.index_of(row)] == row);
        assert forall|a: int| 0 <= a < tab.agents@.len() implies all.contains(
            #[trigger] agent_row(path, tab.agents@[a]),
        ) by {
            let k = tabs.index_of(agent_row(path, tab.agents@[a]));
            assert(all[front.len() + 1 + k] == tabs[k]);
        }
    }
}

/// An entry opens what it stands for.
pub proof fn law_entries_open_their_targets(item: PickerItem)
    ensures
        picker::row_for(item).0 == item.label@,
        picker::row_for(item).1 == item.detail@,
        match item.target {
            PickTarget::Workspace(id) => picker::row_for(item).2 == OverlayTarget::Workspace(id),
            PickTarget::Tab(id) => picker::row_for(item).2 == OverlayTarget::Tab(id),
            PickTarget::Pane(id) => picker::row_for(item).2 == OverlayTarget::Pane(id),
        },
{
}

} // verus!
