//! Lists of entries under text keys, as an ordered map holds them.

use vstd::prelude::*;

use crate::text;

verus! {

/// The keys rise, in the order of their characters.
pub open spec fn rising<T>(s: Seq<(Seq<char>, T)>) -> bool {
    forall|i: int, j: int|
        0 <= i < j < s.len() ==> text::precedes((#[trigger] s[i]).0, (#[trigger] s[j]).0)
}

/// Where a key first stands.
pub open spec fn slot<T>(s: Seq<(Seq<char>, T)>, key: Seq<char>) -> Option<int>
    decreases s.len(),
{
    if s.len() == 0 {
        None
    } else if s[0].0 == key {
        Some(0)
    } else {
        match slot(s.skip(1), key) {
            Some(i) => Some(i + 1),
            None => None,
        }
    }
}

/// The value under a key.
pub open spec fn value_at<T>(s: Seq<(Seq<char>, T)>, key: Seq<char>) -> Option<T> {
    match slot(s, key) {
        Some(i) => Some(s[i].1),
        None => None,
    }
}

/// Where a new key belongs: in front of the first one that it precedes.
pub open spec fn place<T>(s: Seq<(Seq<char>, T)>, key: Seq<char>) -> int
    decreases s.len(),
{
    if s.len() == 0 || text::precedes(key, s[0].0) {
        0
    } else {
        1 + place(s.skip(1), key)
    }
}

/// The entries with one set: in its place where its key is there, else where the key
/// belongs.
pub open spec fn put<T>(s: Seq<(Seq<char>, T)>, key: Seq<char>, value: T) -> Seq<(Seq<char>, T)> {
    match slot(s, key) {
        Some(i) => s.update(i, (key, value)),
        None => s.insert(place(s, key), (key, value)),
    }
}

pub proof fn lemma_slot<T>(s: Seq<(Seq<char>, T)>, key: Seq<char>)
    ensures
        match slot(s, key) {
            Some(i) => 0 <= i < s.len() && s[i].0 == key && forall|j: int|
                0 <= j < i ==> (#[trigger] s[j]).0 != key,
            None => forall|j: int| 0 <= j < s.len() ==> (#[trigger] s[j]).0 != key,
        },
    decreases s.len(),
{
    if s.len() > 0 && s[0].0 != key {
        lemma_slot(s.skip(1), key);
        let end = match slot(s.skip(1), key) {
            Some(i) => i + 1,
            None => s.len() as int,
        };
        assert forall|j: int| 0 <= j < end implies (#[trigger] s[j]).0 != key by {
            if j > 0 {
                assert(s.skip(1)[j - 1] == s[j]);
            }
        }
    }
}

pub proof fn lemma_slot_first<T>(s: Seq<(Seq<char>, T)>, key: Seq<char>, i: int)
    requires
        0 <= i < s.len(),
        s[i].0 == key,
        forall|j: int| 0 <= j < i ==> (#[trigger] s[j]).0 != key,
    ensures
        slot(s, key) == Some(i),
{
    lemma_slot(s, key);
    match slot(s, key) {
        Some(k) => {
            assert(s[k].0 == key);
            assert(s[i].0 == key);
        },
        None => {
            assert(s[i].0 != key);
        },
    }
}

pub proof fn lemma_place<T>(s: Seq<(Seq<char>, T)>, key: Seq<char>)
    ensures
        0 <= place(s, key) <= s.len(),
        forall|j: int| 0 <= j < place(s, key) ==> !text::precedes(key, (#[trigger] s[j]).0),
        place(s, key) < s.len() ==> text::precedes(key, s[place(s, key)].0),
    decreases s.len(),
{
    if s.len() > 0 && !text::precedes(key, s[0].0) {
        lemma_place(s.skip(1), key);
        assert forall|j: int| 0 <= j < place(s, key) implies !text::precedes(
            key,
            (#[trigger] s[j]).0,
        ) by {
            if j > 0 {
                assert(s.skip(1)[j - 1] == s[j]);
            }
        }
    }
}

/// Setting an entry keeps the keys rising.
pub proof fn lemma_put_rises<T>(s: Seq<(Seq<char>, T)>, key: Seq<char>, value: T)
    requires
        rising(s),
    ensures
        rising(put(s, key, value)),
{
    lemma_slot(s, key);
    lemma_place(s, key);
    let after = put(s, key, value);
    let p = place(s, key);
    assert forall|i: int, j: int| 0 <= i < j < after.len() implies text::precedes(
        (#[trigger] after[i]).0,
        (#[trigger] after[j]).0,
    ) by {
        match slot(s, key) {
            Some(k) => {
                assert(after[i].0 == s[i].0 && after[j].0 == s[j].0);
            },
            None => {
                if i < p && j > p {
                    assert(after[i] == s[i] && after[j] == s[j - 1]);
                } else if j < p {
                    assert(after[i] == s[i] && after[j] == s[j]);
                } else if i > p {
                    assert(after[i] == s[i - 1] && after[j] == s[j - 1]);
                } else if j == p {
                    assert(after[i] == s[i]);
                    text::lemma_precedes_total(key, s[i].0);
                } else {
                    assert(after[j] == s[j - 1]);
                    if j - 1 > p {
                        assert(text::precedes(s[p].0, s[j - 1].0));
                        text::lemma_precedes_transitive(key, s[p].0, s[j - 1].0);
                    }
                }
            },
        }
    }
}

/// What is in the entries once one is set was there before, or is the one that was set.
pub proof fn lemma_put_holds<T>(s: Seq<(Seq<char>, T)>, key: Seq<char>, value: T, i: int)
    requires
        0 <= i < put(s, key, value).len(),
    ensures
        put(s, key, value)[i] == (key, value) || s.contains(put(s, key, value)[i]),
{
    lemma_slot(s, key);
    lemma_place(s, key);
    let after = put(s, key, value);
    if slot(s, key) is Some {
        if i != slot(s, key)->0 {
            assert(after[i] == s[i]);
        }
    } else if i < place(s, key) {
        assert(after[i] == s[i]);
    } else if i > place(s, key) {
        assert(after[i] == s[i - 1]);
    }
}

/// Setting an entry again is setting it once.
pub proof fn lemma_put_again<T>(s: Seq<(Seq<char>, T)>, key: Seq<char>, first: T, second: T)
    ensures
        put(put(s, key, first), key, second) == put(s, key, second),
{
    lemma_slot(s, key);
    lemma_place(s, key);
    let once = put(s, key, first);
    match slot(s, key) {
        Some(i) => {
            lemma_slot_first(once, key, i);
        },
        None => {
            let p = place(s, key);
            assert forall|j: int| 0 <= j < p implies (#[trigger] once[j]).0 != key by {
                assert(once[j] == s[j]);
            }
            lemma_slot_first(once, key, p);
        },
    }
    assert(put(once, key, second) =~= put(s, key, second));
}

/// After an entry is set, its key has its value and every other key the one it had.
pub proof fn law_put_is_visible<T>(
    s: Seq<(Seq<char>, T)>,
    key: Seq<char>,
    value: T,
    other: Seq<char>,
)
    ensures
        value_at(put(s, key, value), other) == (if other == key {
            Some(value)
        } else {
            value_at(s, other)
        }),
{
    lemma_slot(s, key);
    lemma_slot(s, other);
    lemma_place(s, key);
    let after = put(s, key, value);
    lemma_slot(after, other);
    let p = match slot(s, key) {
        Some(i) => i,
        None => place(s, key),
    };
    assert(after[p] == (key, value));
    if other == key {
        assert forall|j: int| 0 <= j < p implies (#[trigger] after[j]).0 != key by {
            assert(after[j] == s[j]);
        }
        lemma_slot_first(after, key, p);
    } else {
        match slot(s, other) {
            Some(k) => {
                let at = if slot(s, key) is None && k >= p {
                    k + 1
                } else {
                    k
                };
                assert(after[at] == s[k]);
                assert forall|j: int| 0 <= j < at implies (#[trigger] after[j]).0 != other by {
                    if j < p {
                        assert(after[j] == s[j]);
                    } else if j > p {
                        if slot(s, key) is None {
                            assert(after[j] == s[j - 1]);
                        } else {
                            assert(after[j] == s[j]);
                        }
                    }
                }
                lemma_slot_first(after, other, at);
            },
            None => {
                if slot(after, other) is Some {
                    let k = slot(after, other)->0;
                    lemma_put_holds(s, key, value, k);
                    let j = s.index_of(after[k]);
                    assert(s[j].0 == other);
                }
            },
        }
    }
}

} // verus!
