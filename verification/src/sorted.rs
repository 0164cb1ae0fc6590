//! Lists of keyed entries in the order of their keys, each key once.

use vstd::prelude::*;

verus! {

/// The keys rise.
pub open spec fn rising<T>(s: Seq<(u64, T)>) -> bool {
    forall|i: int, j: int| 0 <= i < j < s.len() ==> (#[trigger] s[i]).0 < (#[trigger] s[j]).0
}

/// The entries with one more; one of the same key is replaced.
pub open spec fn put<T>(s: Seq<(u64, T)>, key: u64, value: T) -> Seq<(u64, T)>
    decreases s.len(),
{
    if s.len() == 0 || key < s[0].0 {
        seq![(key, value)] + s
    } else if key == s[0].0 {
        seq![(key, value)] + s.skip(1)
    } else {
        seq![s[0]] + put(s.skip(1), key, value)
    }
}

/// The value of a key.
pub open spec fn value_of<T>(s: Seq<(u64, T)>, key: u64) -> Option<T>
    decreases s.len(),
{
    if s.len() == 0 {
        None
    } else if s[0].0 == key {
        Some(s[0].1)
    } else {
        value_of(s.skip(1), key)
    }
}

proof fn lemma_put_before<T>(s: Seq<(u64, T)>, key: u64, value: T, i: int)
    requires
        0 <= i <= s.len(),
        forall|k: int| 0 <= k < i ==> (#[trigger] s[k]).0 < key,
        i < s.len() ==> key < s[i].0,
    ensures
        put(s, key, value) == s.insert(i, (key, value)),
    decreases i,
{
    if i == 0 {
        assert(put(s, key, value) =~= s.insert(0, (key, value)));
    } else {
        assert(s[0].0 < key);
        assert forall|k: int| 0 <= k < i - 1 implies (#[trigger] s.skip(1)[k]).0 < key by {
            assert(s.skip(1)[k] == s[k + 1]);
        }
        lemma_put_before(s.skip(1), key, value, i - 1);
        assert(put(s, key, value) =~= s.insert(i, (key, value)));
    }
}

proof fn lemma_put_at<T>(s: Seq<(u64, T)>, key: u64, value: T, i: int)
    requires
        0 <= i < s.len(),
        forall|k: int| 0 <= k < i ==> (#[trigger] s[k]).0 < key,
        key == s[i].0,
    ensures
        put(s, key, value) == s.update(i, (key, value)),
    decreases i,
{
    if i == 0 {
        assert(put(s, key, value) =~= s.update(0, (key, value)));
    } else {
        assert(s[0].0 < key);
        assert forall|k: int| 0 <= k < i - 1 implies (#[trigger] s.skip(1)[k]).0 < key by {
            assert(s.skip(1)[k] == s[k + 1]);
        }
        lemma_put_at(s.skip(1), key, value, i - 1);
        assert(put(s, key, value) =~= s.update(i, (key, value)));
    }
}

/// Adds an entry, or replaces the one of the same key.
pub fn put_entry<T: Copy>(v: &mut Vec<(u64, T)>, key: u64, value: T)
    requires
        rising(old(v)@),
    ensures
        final(v)@ == put(old(v)@, key, value),
        rising(final(v)@),
{
    let ghost before = v@;
    let mut i: usize = 0;
    while i < v.len() && v[i].0 < key
        invariant
            v@ == before,
            rising(before),
            i <= v@.len(),
            forall|k: int| 0 <= k < i ==> (#[trigger] v@[k]).0 < key,
        decreases v@.len() - i,
    {
        i += 1;
    }
    if i < v.len() && v[i].0 == key {
        proof {
            lemma_put_at(before, key, value, i as int);
        }
        v.set(i, (key, value));
    } else {
        proof {
            lemma_put_before(before, key, value, i as int);
        }
        v.insert(i, (key, value));
    }
}

/// What is in the entries once one is put was there before, or is the new one.
pub proof fn lemma_put_adds_one<T>(s: Seq<(u64, T)>, key: u64, value: T, i: int)
    requires
        0 <= i < put(s, key, value).len(),
    ensures
        put(s, key, value)[i] == (key, value) || s.contains(put(s, key, value)[i]),
    decreases s.len(),
{
    let after = put(s, key, value);
    if s.len() == 0 || key < s[0].0 {
        if i > 0 {
            assert(after[i] == s[i - 1]);
        }
    } else if key == s[0].0 {
        if i > 0 {
            assert(after[i] == s[i]);
        }
    } else if i == 0 {
        assert(after[0] == s[0]);
    } else {
        let rest = put(s.skip(1), key, value);
        assert(after[i] == rest[i - 1]);
        lemma_put_adds_one(s.skip(1), key, value, i - 1);
        if s.skip(1).contains(rest[i - 1]) {
            let k = s.skip(1).index_of(rest[i - 1]);
            assert(s[k + 1] == after[i]);
        }
    }
}

/// After an entry is put, its key has its value, and every other key the one it
/// had.
pub proof fn law_put_is_visible<T>(s: Seq<(u64, T)>, key: u64, value: T, other: u64)
    requires
        rising(s),
    ensures
        value_of(put(s, key, value), other) == (if other == key {
            Some(value)
        } else {
            value_of(s, other)
        }),
    decreases s.len(),
{
    let after = put(s, key, value);
    if s.len() == 0 || key < s[0].0 {
        assert(after.skip(1) =~= s);
        if other == key {
        }
    } else if key == s[0].0 {
        assert(after.skip(1) =~= s.skip(1));
    } else {
        assert(after.skip(1) =~= put(s.skip(1), key, value));
        assert(rising(s.skip(1))) by {
            assert forall|i: int, j: int| 0 <= i < j < s.skip(1).len() implies (
            #[trigger] s.skip(1)[i]).0 < (#[trigger] s.skip(1)[j]).0 by {
                assert(s[i + 1].0 < s[j + 1].0);
            }
        }
        law_put_is_visible(s.skip(1), key, value, other);
    }
}

} // verus!
