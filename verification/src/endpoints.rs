//! Client-side endpoint state for the local session and saved SSH machines.
//!
//! Workers own transports. What is here has none, so that a bad machine cannot
//! hold up rendering, input or reconnects elsewhere.

use vstd::prelude::*;

use crate::machines::MachineProfile;
use crate::proto::{
    ClientMessage, Event, LayoutSnapshot, Notification, PaneId, ServerMessage, PROTOCOL_VERSION,
};
use crate::text;

verus! {

#[derive(Debug, PartialEq, Eq)]
pub enum EndpointId {
    Local,
    Machine(String),
}

impl Clone for EndpointId {
    fn clone(&self) -> (r: Self)
        ensures
            r == *self,
    {
        match self {
            EndpointId::Local => EndpointId::Local,
            EndpointId::Machine(id) => EndpointId::Machine(id.clone()),
        }
    }
}

/// What tells endpoints apart, and orders them: the local one first, then the
/// machines by their ids.
pub open spec fn name_of(id: EndpointId) -> Option<Seq<char>> {
    match id {
        EndpointId::Local => None,
        EndpointId::Machine(id) => Some(id@),
    }
}

pub open spec fn id_before(a: Option<Seq<char>>, b: Option<Seq<char>>) -> bool {
    match (a, b) {
        (_, None) => false,
        (None, Some(_)) => true,
        (Some(x), Some(y)) => text::precedes(x, y),
    }
}

fn same_id(a: &EndpointId, b: &EndpointId) -> (r: bool)
    ensures
        r == (name_of(*a) == name_of(*b)),
{
    match (a, b) {
        (EndpointId::Local, EndpointId::Local) => true,
        (EndpointId::Machine(x), EndpointId::Machine(y)) => text::same(x.as_str(), y.as_str()),
        _ => false,
    }
}

fn before(a: &EndpointId, b: &EndpointId) -> (r: bool)
    ensures
        r == id_before(name_of(*a), name_of(*b)),
{
    match (a, b) {
        (EndpointId::Machine(x), EndpointId::Machine(y)) => text::comes_before(
            x.as_str(),
            y.as_str(),
        ),
        (EndpointId::Local, EndpointId::Machine(_)) => true,
        _ => false,
    }
}

// ------------------------------------------------------------------- keyed by endpoint

/// The ids rise, so none occurs twice.
pub open spec fn rising<T>(s: Seq<(EndpointId, T)>) -> bool {
    forall|i: int, j: int|
        0 <= i < j < s.len() ==> id_before(
            name_of((#[trigger] s[i]).0),
            name_of((#[trigger] s[j]).0),
        )
}

pub open spec fn value_of<T>(s: Seq<(EndpointId, T)>, id: Option<Seq<char>>) -> Option<T>
    decreases s.len(),
{
    if s.len() == 0 {
        None
    } else if name_of(s[0].0) == id {
        Some(s[0].1)
    } else {
        value_of(s.skip(1), id)
    }
}

/// The entries with one more; one of the same id is replaced.
pub open spec fn put<T>(s: Seq<(EndpointId, T)>, id: EndpointId, value: T) -> Seq<(EndpointId, T)>
    decreases s.len(),
{
    if s.len() == 0 || id_before(name_of(id), name_of(s[0].0)) {
        seq![(id, value)] + s
    } else if name_of(id) == name_of(s[0].0) {
        seq![(id, value)] + s.skip(1)
    } else {
        seq![s[0]] + put(s.skip(1), id, value)
    }
}

/// The entries without one.
pub open spec fn drop_id<T>(s: Seq<(EndpointId, T)>, id: Option<Seq<char>>) -> Seq<(EndpointId, T)>
    decreases s.len(),
{
    if s.len() == 0 {
        s
    } else if name_of(s[0].0) == id {
        s.skip(1)
    } else {
        seq![s[0]] + drop_id(s.skip(1), id)
    }
}

proof fn lemma_before_total(a: Option<Seq<char>>, b: Option<Seq<char>>)
    ensures
        id_before(a, b) || id_before(b, a) || a == b,
        !id_before(a, a),
{
    if let (Some(x), Some(y)) = (a, b) {
        text::lemma_precedes_total(x, y);
    }
    if let Some(x) = a {
        text::lemma_precedes_irreflexive(x);
    }
}

proof fn lemma_before_transitive(
    a: Option<Seq<char>>,
    b: Option<Seq<char>>,
    c: Option<Seq<char>>,
)
    requires
        id_before(a, b),
        id_before(b, c),
    ensures
        id_before(a, c),
{
    if let (Some(x), Some(y), Some(z)) = (a, b, c) {
        text::lemma_precedes_transitive(x, y, z);
    }
}

proof fn lemma_rising_rest<T>(s: Seq<(EndpointId, T)>)
    requires
        rising(s),
        s.len() > 0,
    ensures
        rising(s.skip(1)),
{
    assert forall|i: int, j: int| 0 <= i < j < s.skip(1).len() implies id_before(
        name_of((#[trigger] s.skip(1)[i]).0),
        name_of((#[trigger] s.skip(1)[j]).0),
    ) by {
        assert(id_before(name_of(s[i + 1].0), name_of(s[j + 1].0)));
    }
}

pub proof fn lemma_put_rising<T>(s: Seq<(EndpointId, T)>, id: EndpointId, value: T)
    requires
        rising(s),
    ensures
        rising(put(s, id, value)),
        forall|i: int|
            0 <= i < put(s, id, value).len() ==> name_of((#[trigger] put(s, id, value)[i]).0)
                == name_of(id) || (s.len() > 0 && (name_of(put(s, id, value)[i].0) == name_of(
                s[0].0,
            ) || id_before(name_of(s[0].0), name_of(put(s, id, value)[i].0)))),
    decreases s.len(),
{
    let after = put(s, id, value);
    let key = name_of(id);
    if s.len() == 0 {
    } else if id_before(key, name_of(s[0].0)) {
        assert forall|i: int, j: int| 0 <= i < j < after.len() implies id_before(
            name_of((#[trigger] after[i]).0),
            name_of((#[trigger] after[j]).0),
        ) by {
            if i == 0 {
                if j > 1 {
                    assert(id_before(name_of(s[0].0), name_of(s[j - 1].0)));
                    lemma_before_transitive(key, name_of(s[0].0), name_of(s[j - 1].0));
                }
            } else {
                assert(id_before(name_of(s[i - 1].0), name_of(s[j - 1].0)));
            }
        }
        assert forall|i: int| 0 <= i < after.len() implies name_of((#[trigger] after[i]).0) == key
            || name_of(after[i].0) == name_of(s[0].0) || id_before(
            name_of(s[0].0),
            name_of(after[i].0),
        ) by {
            if i > 1 {
                assert(id_before(name_of(s[0].0), name_of(s[i - 1].0)));
            }
        }
    } else if key == name_of(s[0].0) {
        assert forall|i: int, j: int| 0 <= i < j < after.len() implies id_before(
            name_of((#[trigger] after[i]).0),
            name_of((#[trigger] after[j]).0),
        ) by {
            assert(id_before(name_of(s[i].0), name_of(s[j].0)));
        }
        assert forall|i: int| 0 <= i < after.len() implies name_of((#[trigger] after[i]).0) == key
            || id_before(name_of(s[0].0), name_of(after[i].0)) by {
            if i > 0 {
                assert(id_before(name_of(s[0].0), name_of(s[i].0)));
            }
        }
    } else {
        lemma_before_total(key, name_of(s[0].0));
        lemma_rising_rest(s);
        lemma_put_rising(s.skip(1), id, value);
        let tail = put(s.skip(1), id, value);
        assert forall|j: int| 0 <= j < tail.len() implies id_before(
            name_of(s[0].0),
            name_of((#[trigger] tail[j]).0),
        ) by {
            let n = name_of(tail[j].0);
            if n != key {
                assert(s.skip(1)[0] == s[1]);
                assert(id_before(name_of(s[0].0), name_of(s[1].0)));
                if n != name_of(s[1].0) {
                    lemma_before_transitive(name_of(s[0].0), name_of(s[1].0), n);
                }
            }
        }
        assert forall|i: int, j: int| 0 <= i < j < after.len() implies id_before(
            name_of((#[trigger] after[i]).0),
            name_of((#[trigger] after[j]).0),
        ) by {
            assert(after[j] == tail[j - 1]);
            if i > 0 {
                assert(after[i] == tail[i - 1]);
                assert(id_before(name_of(tail[i - 1].0), name_of(tail[j - 1].0)));
            }
        }
        assert forall|i: int| 0 <= i < after.len() implies name_of((#[trigger] after[i]).0) == key
            || name_of(after[i].0) == name_of(s[0].0) || id_before(
            name_of(s[0].0),
            name_of(after[i].0),
        ) by {
            if i > 0 {
                assert(after[i] == tail[i - 1]);
            }
        }
    }
}

/// After an entry is put, its id has its value, and every other id the one it had.
pub proof fn law_put_is_visible<T>(
    s: Seq<(EndpointId, T)>,
    id: EndpointId,
    value: T,
    other: Option<Seq<char>>,
)
    ensures
        value_of(put(s, id, value), other) == (if other == name_of(id) {
            Some(value)
        } else {
            value_of(s, other)
        }),
    decreases s.len(),
{
    let after = put(s, id, value);
    if s.len() == 0 || id_before(name_of(id), name_of(s[0].0)) {
        assert(after.skip(1) =~= s);
    } else if name_of(id) == name_of(s[0].0) {
        assert(after.skip(1) =~= s.skip(1));
    } else {
        assert(after.skip(1) =~= put(s.skip(1), id, value));
        law_put_is_visible(s.skip(1), id, value, other);
    }
}

/// After an id is taken out of rising entries, it has no value, and every other id
/// the one it had.
pub proof fn law_drop_is_visible<T>(
    s: Seq<(EndpointId, T)>,
    id: Option<Seq<char>>,
    other: Option<Seq<char>>,
)
    requires
        rising(s),
    ensures
        value_of(drop_id(s, id), other) == (if other == id {
            None
        } else {
            value_of(s, other)
        }),
    decreases s.len(),
{
    if s.len() > 0 {
        lemma_rising_rest(s);
        if name_of(s[0].0) == id {
            if other == id {
                lemma_absent(s.skip(1), id, s[0].0);
            }
        } else {
            let after = drop_id(s, id);
            assert(after.skip(1) =~= drop_id(s.skip(1), id));
            law_drop_is_visible(s.skip(1), id, other);
        }
    }
}

proof fn lemma_absent<T>(s: Seq<(EndpointId, T)>, id: Option<Seq<char>>, first: EndpointId)
    requires
        name_of(first) == id,
        forall|i: int| 0 <= i < s.len() ==> id_before(name_of(first), name_of((#[trigger] s[i]).0)),
    ensures
        value_of(s, id) is None,
    decreases s.len(),
{
    if s.len() > 0 {
        lemma_before_total(id, id);
        assert(id_before(name_of(first), name_of(s[0].0)));
        assert forall|i: int| 0 <= i < s.skip(1).len() implies id_before(
            name_of(first),
            name_of((#[trigger] s.skip(1)[i]).0),
        ) by {
            assert(s.skip(1)[i] == s[i + 1]);
        }
        lemma_absent(s.skip(1), id, first);
    }
}

proof fn lemma_put_at<T>(s: Seq<(EndpointId, T)>, id: EndpointId, value: T, i: int)
    requires
        0 <= i <= s.len(),
        forall|k: int| 0 <= k < i ==> id_before(name_of((#[trigger] s[k]).0), name_of(id)),
        i < s.len() ==> !id_before(name_of(s[i].0), name_of(id)),
    ensures
        put(s, id, value) == (if i < s.len() && name_of(s[i].0) == name_of(id) {
            s.update(i, (id, value))
        } else {
            s.insert(i, (id, value))
        }),
    decreases i,
{
    let after = put(s, id, value);
    if i == 0 {
        if s.len() > 0 {
            lemma_before_total(name_of(id), name_of(s[0].0));
            if name_of(s[0].0) == name_of(id) {
                lemma_before_total(name_of(id), name_of(id));
                assert(after =~= s.update(0, (id, value)));
            } else {
                assert(after =~= s.insert(0, (id, value)));
            }
        } else {
            assert(after =~= s.insert(0, (id, value)));
        }
    } else {
        assert(id_before(name_of(s[0].0), name_of(id)));
        lemma_before_total(name_of(id), name_of(id));
        if id_before(name_of(id), name_of(s[0].0)) {
            lemma_before_transitive(name_of(id), name_of(s[0].0), name_of(id));
        }
        assert forall|k: int| 0 <= k < i - 1 implies id_before(
            name_of((#[trigger] s.skip(1)[k]).0),
            name_of(id),
        ) by {
            assert(s.skip(1)[k] == s[k + 1]);
        }
        lemma_put_at(s.skip(1), id, value, i - 1);
        if i < s.len() && name_of(s[i].0) == name_of(id) {
            assert(after =~= s.update(i, (id, value)));
        } else {
            assert(after =~= s.insert(i, (id, value)));
        }
    }
}

fn put_entry<T>(v: &mut Vec<(EndpointId, T)>, id: EndpointId, value: T)
    requires
        rising(old(v)@),
    ensures
        final(v)@ == put(old(v)@, id, value),
        rising(final(v)@),
{
    let ghost start = v@;
    let mut i: usize = 0;
    while i < v.len() && before(&v[i].0, &id)
        invariant
            v@ == start,
            i <= v@.len(),
            forall|k: int| 0 <= k < i ==> id_before(name_of((#[trigger] v@[k]).0), name_of(id)),
        decreases v@.len() - i,
    {
        i += 1;
    }
    proof {
        lemma_put_at(start, id, value, i as int);
        lemma_put_rising(start, id, value);
    }
    if i < v.len() && same_id(&v[i].0, &id) {
        v.set(i, (id, value));
    } else {
        v.insert(i, (id, value));
    }
}

fn find<T>(v: &Vec<(EndpointId, T)>, id: &EndpointId) -> (r: Option<usize>)
    ensures
        match r {
            Some(i) => i < v@.len() && value_of(v@, name_of(*id)) == Some(v@[i as int].1)
                && name_of(v@[i as int].0) == name_of(*id) && drop_id(v@, name_of(*id))
                == v@.remove(i as int),
            None => value_of(v@, name_of(*id)) is None && drop_id(v@, name_of(*id)) == v@,
        },
{
    let key = Ghost(name_of(*id));
    let mut i: usize = 0;
    assert(v@.skip(0) =~= v@);
    assert(v@.take(0) + drop_id(v@.skip(0), key@) =~= drop_id(v@, key@));
    while i < v.len()
        invariant
            key@ == name_of(*id),
            i <= v@.len(),
            value_of(v@, key@) == value_of(v@.skip(i as int), key@),
            drop_id(v@, key@) == v@.take(i as int) + drop_id(v@.skip(i as int), key@),
        decreases v@.len() - i,
    {
        assert(v@.skip(i as int)[0] == v@[i as int]);
        assert(v@.skip(i as int).skip(1) =~= v@.skip(i + 1));
        if same_id(&v[i].0, id) {
            assert(v@.take(i as int) + v@.skip(i + 1) =~= v@.remove(i as int));
            return Some(i);
        }
        assert(v@.take(i as int) + (seq![v@[i as int]] + drop_id(v@.skip(i + 1), key@))
            =~= v@.take(i + 1) + drop_id(v@.skip(i + 1), key@));
        i += 1;
    }
    assert(v@.take(i as int) + v@.skip(i as int) =~= v@);
    None
}

proof fn lemma_remove_rising<T>(s: Seq<(EndpointId, T)>, i: int)
    requires
        rising(s),
        0 <= i < s.len(),
    ensures
        rising(s.remove(i)),
{
    let after = s.remove(i);
    assert forall|a: int, b: int| 0 <= a < b < after.len() implies id_before(
        name_of((#[trigger] after[a]).0),
        name_of((#[trigger] after[b]).0),
    ) by {
        let x = if a < i {
            a
        } else {
            a + 1
        };
        let y = if b < i {
            b
        } else {
            b + 1
        };
        assert(id_before(name_of(s[x].0), name_of(s[y].0)));
    }
}

// ----------------------------------------------------------------------------- manager

#[derive(Debug, PartialEq, Eq)]
pub enum Status {
    Connecting,
    Online,
    Offline { retry: u8 },
    Attention(String),
    Disabled,
}

impl Clone for Status {
    fn clone(&self) -> (r: Self)
        ensures
            r == *self,
    {
        match self {
            Status::Connecting => Status::Connecting,
            Status::Online => Status::Online,
            Status::Offline { retry } => Status::Offline { retry: *retry },
            Status::Attention(reason) => Status::Attention(reason.clone()),
            Status::Disabled => Status::Disabled,
        }
    }
}

#[derive(Debug, PartialEq, Eq)]
pub struct Endpoint {
    pub label: String,
    pub status: Status,
}

impl Clone for Endpoint {
    fn clone(&self) -> (r: Self)
        ensures
            r == *self,
    {
        Endpoint { label: self.label.clone(), status: self.status.clone() }
    }
}

/// The state of every endpoint, in the order of their ids.
#[derive(Debug, Clone, PartialEq, Eq)]
pub struct Manager {
    pub endpoints: Vec<(EndpointId, Endpoint)>,
}

#[derive(Debug, Clone, PartialEq, Eq)]
pub struct SidebarMachine {
    pub id: EndpointId,
    pub label: String,
    pub status: String,
}

/// A profile's endpoint before anything is known of it.
pub open spec fn fresh(profile: MachineProfile) -> Endpoint {
    Endpoint {
        label: profile.label,
        status: if profile.enabled {
            Status::Connecting
        } else {
            Status::Disabled
        },
    }
}

fn fresh_endpoint(profile: &MachineProfile) -> (r: Endpoint)
    ensures
        r == fresh(*profile),
{
    Endpoint {
        label: profile.label.clone(),
        status: if profile.enabled {
            Status::Connecting
        } else {
            Status::Disabled
        },
    }
}

/// The endpoints with those of the first `count` profiles.
pub open spec fn with_profiles(
    s: Seq<(EndpointId, Endpoint)>,
    profiles: Seq<MachineProfile>,
    count: int,
) -> Seq<(EndpointId, Endpoint)>
    decreases count,
{
    if count <= 0 {
        s
    } else {
        let profile = profiles[count - 1];
        put(
            with_profiles(s, profiles, count - 1),
            EndpointId::Machine(profile.id),
            fresh(profile),
        )
    }
}

/// An endpoint after a failure: it waits longer each time, up to a limit, and one
/// that needs its user says why.
pub open spec fn after_failure(status: Status, reason: String) -> Status {
    if text::has_part(reason@, "password"@) || text::has_part(reason@, "host key"@) {
        Status::Attention(reason)
    } else {
        Status::Offline {
            retry: match status {
                Status::Offline { retry } => if retry < 6 {
                    (retry + 1) as u8
                } else {
                    6
                },
                _ => 0,
            },
        }
    }
}

pub open spec fn status_words(status: Status) -> Seq<char> {
    match status {
        Status::Connecting => "connecting"@,
        Status::Online => "online"@,
        Status::Offline { retry } => "offline · retry "@ + text::decimal((retry + 1) as nat),
        Status::Attention(reason) => "attention · "@ + reason@,
        Status::Disabled => "disabled"@,
    }
}

fn status_text(status: &Status) -> (r: String)
    ensures
        r@ == status_words(*status),
{
    match status {
        Status::Connecting => "connecting".to_owned(),
        Status::Online => "online".to_owned(),
        Status::Offline { retry } => {
            let number = text::decimal_text(*retry as u64 + 1);
            text::cat("offline · retry ", number.as_str())
        },
        Status::Attention(reason) => text::cat("attention · ", reason.as_str()),
        Status::Disabled => "disabled".to_owned(),
    }
}

pub open spec fn has_profile(profiles: Seq<MachineProfile>, id: Seq<char>) -> bool {
    exists|i: int| 0 <= i < profiles.len() && (#[trigger] profiles[i]).id@ == id
}

/// The endpoint is still there: the local one always is.
pub open spec fn stays(profiles: Seq<MachineProfile>, id: EndpointId) -> bool {
    match id {
        EndpointId::Local => true,
        EndpointId::Machine(id) => has_profile(profiles, id@),
    }
}

/// A profile brought up to date: a live endpoint keeps its state, unless it was
/// turned off.
pub open spec fn merged(s: Seq<(EndpointId, Endpoint)>, profile: MachineProfile) -> Seq<
    (EndpointId, Endpoint),
> {
    put(
        s,
        EndpointId::Machine(profile.id),
        match value_of(s, Some(profile.id@)) {
            Some(endpoint) => Endpoint {
                label: profile.label,
                status: if profile.enabled {
                    endpoint.status
                } else {
                    Status::Disabled
                },
            },
            None => fresh(profile),
        },
    )
}

pub open spec fn all_merged(
    s: Seq<(EndpointId, Endpoint)>,
    profiles: Seq<MachineProfile>,
    count: int,
) -> Seq<(EndpointId, Endpoint)>
    decreases count,
{
    if count <= 0 {
        s
    } else {
        merged(all_merged(s, profiles, count - 1), profiles[count - 1])
    }
}

/// The endpoints that are still there.
pub open spec fn kept(s: Seq<(EndpointId, Endpoint)>, profiles: Seq<MachineProfile>) -> Seq<
    (EndpointId, Endpoint),
>
    decreases s.len(),
{
    if s.len() == 0 {
        s
    } else if stays(profiles, s.last().0) {
        kept(s.drop_last(), profiles).push(s.last())
    } else {
        kept(s.drop_last(), profiles)
    }
}

/// The endpoints once they follow edited profiles.
pub open spec fn reconciled(s: Seq<(EndpointId, Endpoint)>, profiles: Seq<MachineProfile>) -> Seq<
    (EndpointId, Endpoint),
> {
    all_merged(kept(s, profiles), profiles, profiles.len() as int)
}

proof fn lemma_kept_rising(s: Seq<(EndpointId, Endpoint)>, profiles: Seq<MachineProfile>)
    requires
        rising(s),
    ensures
        rising(kept(s, profiles)),
        forall|i: int|
            0 <= i < kept(s, profiles).len() ==> s.len() > 0 && (name_of(
                (#[trigger] kept(s, profiles)[i]).0,
            ) == name_of(s.last().0) || id_before(
                name_of(kept(s, profiles)[i].0),
                name_of(s.last().0),
            )),
    decreases s.len(),
{
    if s.len() > 0 {
        let front = s.drop_last();
        assert(rising(front)) by {
            assert forall|i: int, j: int| 0 <= i < j < front.len() implies id_before(
                name_of((#[trigger] front[i]).0),
                name_of((#[trigger] front[j]).0),
            ) by {
                assert(id_before(name_of(s[i].0), name_of(s[j].0)));
            }
        }
        lemma_kept_rising(front, profiles);
        let old_kept = kept(front, profiles);
        let all = kept(s, profiles);
        assert forall|i: int| 0 <= i < old_kept.len() implies id_before(
            name_of((#[trigger] old_kept[i]).0),
            name_of(s.last().0),
        ) by {
            assert(front.last() == s[s.len() - 2]);
            assert(id_before(name_of(s[s.len() - 2].0), name_of(s[s.len() - 1].0)));
            if name_of(old_kept[i].0) != name_of(front.last().0) {
                lemma_before_transitive(
                    name_of(old_kept[i].0),
                    name_of(front.last().0),
                    name_of(s.last().0),
                );
            }
        }
        assert forall|i: int, j: int| 0 <= i < j < all.len() implies id_before(
            name_of((#[trigger] all[i]).0),
            name_of((#[trigger] all[j]).0),
        ) by {
            assert(all[i] == old_kept[i]);
            if j < old_kept.len() {
                assert(id_before(name_of(old_kept[i].0), name_of(old_kept[j].0)));
            }
        }
        assert forall|i: int| 0 <= i < all.len() implies name_of((#[trigger] all[i]).0) == name_of(
            s.last().0,
        ) || id_before(name_of(all[i].0), name_of(s.last().0)) by {
            if i < old_kept.len() {
                assert(all[i] == old_kept[i]);
            }
        }
    }
}

fn find_profile(profiles: &Vec<MachineProfile>, id: &str) -> (r: bool)
    ensures
        r == has_profile(profiles@, id@),
{
    let mut i: usize = 0;
    while i < profiles.len()
        invariant
            i <= profiles@.len(),
            forall|k: int| 0 <= k < i ==> (#[trigger] profiles@[k]).id@ != id@,
        decreases profiles@.len() - i,
    {
        if text::same(profiles[i].id.as_str(), id) {
            return true;
        }
        i += 1;
    }
    false
}

/// A machine fails again and again without ever waiting for more than the limit,
/// whatever the reasons.
pub proof fn law_retries_are_bounded(status: Status, reason: String)
    requires
        status matches Status::Offline { retry } ==> retry <= 6,
    ensures
        after_failure(status, reason) matches Status::Offline { retry } ==> retry <= 6,
{
}

impl Manager {
    /// The ids rise, and the local endpoint is there.
    pub open spec fn wf(self) -> bool {
        rising(self.endpoints@) && value_of(self.endpoints@, None) is Some
    }

    /// The local endpoint and one for each profile.
    pub fn new(profiles: &Vec<MachineProfile>) -> (r: Self)
        ensures
            r.wf(),
            exists|local: Endpoint|
                local.label@ == "Local"@ && local.status == Status::Connecting
                    && r.endpoints@ == #[trigger] with_profiles(
                    seq![(EndpointId::Local, local)],
                    profiles@,
                    profiles@.len() as int,
                ),
    {
        let mut endpoints: Vec<(EndpointId, Endpoint)> = Vec::new();
        let local = Endpoint { label: "Local".to_owned(), status: Status::Connecting };
        let ghost first = local;
        endpoints.push((EndpointId::Local, local));
        let ghost start = seq![(EndpointId::Local, first)];
        assert(endpoints@ =~= start);
        let mut i: usize = 0;
        while i < profiles.len()
            invariant
                i <= profiles@.len(),
                rising(endpoints@),
                value_of(endpoints@, None) is Some,
                endpoints@ == with_profiles(start, profiles@, i as int),
            decreases profiles@.len() - i,
        {
            proof {
                law_put_is_visible(
                    endpoints@,
                    EndpointId::Machine(profiles@[i as int].id),
                    fresh(profiles@[i as int]),
                    None,
                );
            }
            put_entry(
                &mut endpoints,
                EndpointId::Machine(profiles[i].id.clone()),
                fresh_endpoint(&profiles[i]),
            );
            i += 1;
        }
        Manager { endpoints }
    }

    /// The endpoint of an id.
    pub fn endpoint(&self, id: &EndpointId) -> (r: Option<&Endpoint>)
        ensures
            crate::layout::target(r) == value_of(self.endpoints@, name_of(*id)),
    {
        match find(&self.endpoints, id) {
            Some(i) => Some(&self.endpoints[i].1),
            None => None,
        }
    }

    /// The endpoints as the sidebar lists them.
    pub fn sidebar_machines(&self) -> (r: Vec<SidebarMachine>)
        ensures
            r@.len() == self.endpoints@.len(),
            forall|i: int|
                0 <= i < r@.len() ==> (#[trigger] r@[i]).id == self.endpoints@[i].0 && r@[i].label@
                    == self.endpoints@[i].1.label@ && r@[i].status@ == status_words(
                    self.endpoints@[i].1.status,
                ),
    {
        let mut out: Vec<SidebarMachine> = Vec::new();
        let mut i: usize = 0;
        while i < self.endpoints.len()
            invariant
                i <= self.endpoints@.len(),
                out@.len() == i,
                forall|k: int|
                    0 <= k < i ==> (#[trigger] out@[k]).id == self.endpoints@[k].0 && out@[k].label@
                        == self.endpoints@[k].1.label@ && out@[k].status@ == status_words(
                        self.endpoints@[k].1.status,
                    ),
            decreases self.endpoints@.len() - i,
        {
            out.push(
                SidebarMachine {
                    id: self.endpoints[i].0.clone(),
                    label: self.endpoints[i].1.label.clone(),
                    status: status_text(&self.endpoints[i].1.status),
                },
            );
            i += 1;
        }
        out
    }

    /// Brings the endpoints up to date with edited profiles, without throwing away
    /// the state of those that stay.
    pub fn reconcile(&mut self, profiles: &Vec<MachineProfile>)
        requires
            old(self).wf(),
        ensures
            final(self).wf(),
            final(self).endpoints@ == reconciled(old(self).endpoints@, profiles@),
    {
        let ghost all = self.endpoints@;
        proof {
            lemma_kept_rising(all, profiles@);
            lemma_kept_value(all, profiles@, None);
            lemma_unmerged(kept(all, profiles@), profiles@, profiles@.len() as int, None);
        }
        let mut list: Vec<(EndpointId, Endpoint)> = Vec::new();
        let mut i: usize = 0;
        assert(all.take(0) =~= Seq::empty());
        while i < self.endpoints.len()
            invariant
                all == self.endpoints@,
                i <= self.endpoints@.len(),
                list@ == kept(all.take(i as int), profiles@),
            decreases self.endpoints@.len() - i,
        {
            assert(all.take(i + 1).drop_last() =~= all.take(i as int));
            assert(all.take(i + 1).last() == all[i as int]);
            let stay = match &self.endpoints[i].0 {
                EndpointId::Local => true,
                EndpointId::Machine(id) => find_profile(profiles, id.as_str()),
            };
            if stay {
                let entry = (self.endpoints[i].0.clone(), self.endpoints[i].1.clone());
                list.push(entry);
            }
            i += 1;
        }
        assert(all.take(i as int) =~= all);
        let ghost base = list@;
        let mut k: usize = 0;
        while k < profiles.len()
            invariant
                k <= profiles@.len(),
                rising(list@),
                list@ == all_merged(base, profiles@, k as int),
            decreases profiles@.len() - k,
        {
            let profile = &profiles[k];
            let id = EndpointId::Machine(profile.id.clone());
            let endpoint = match find(&list, &id) {
                Some(at) => Endpoint {
                    label: profile.label.clone(),
                    status: if profile.enabled {
                        list[at].1.status.clone()
                    } else {
                        Status::Disabled
                    },
                },
                None => fresh_endpoint(profile),
            };
            put_entry(&mut list, id, endpoint);
            k += 1;
        }
        self.endpoints = list;
    }

    /// An endpoint answers.
    pub fn update(&mut self, id: &EndpointId)
        requires
            old(self).wf(),
        ensures
            final(self).wf(),
            match value_of(old(self).endpoints@, name_of(*id)) {
                Some(endpoint) => final(self).endpoints@ == put(
                    old(self).endpoints@,
                    *id,
                    (Endpoint { status: Status::Online, ..endpoint }),
                ),
                None => *final(self) == *old(self),
            },
    {
        if let Some(i) = find(&self.endpoints, id) {
            let endpoint = Endpoint {
                label: self.endpoints[i].1.label.clone(),
                status: Status::Online,
            };
            proof {
                law_put_is_visible(self.endpoints@, *id, endpoint, None);
            }
            put_entry(&mut self.endpoints, id.clone(), endpoint);
        }
    }

    /// An endpoint failed.
    pub fn failed(&mut self, id: &EndpointId, reason: String)
        requires
            old(self).wf(),
        ensures
            final(self).wf(),
            match value_of(old(self).endpoints@, name_of(*id)) {
                Some(endpoint) => final(self).endpoints@ == put(
                    old(self).endpoints@,
                    *id,
                    (Endpoint { status: after_failure(endpoint.status, reason), ..endpoint }),
                ),
                None => *final(self) == *old(self),
            },
    {
        if let Some(i) = find(&self.endpoints, id) {
            let needs_user = text::contains(reason.as_str(), "password") || text::contains(
                reason.as_str(),
                "host key",
            );
            let retry: u8 = match &self.endpoints[i].1.status {
                Status::Offline { retry } => if *retry < 6 {
                    *retry + 1
                } else {
                    6
                },
                _ => 0,
            };
            let endpoint = Endpoint {
                label: self.endpoints[i].1.label.clone(),
                status: if needs_user {
                    Status::Attention(reason)
                } else {
                    Status::Offline { retry }
                },
            };
            proof {
                law_put_is_visible(self.endpoints@, *id, endpoint, None);
            }
            put_entry(&mut self.endpoints, id.clone(), endpoint);
        }
    }
}

/// A failure of one endpoint leaves every other as it was.
pub proof fn law_failures_stay_apart(
    s: Seq<(EndpointId, Endpoint)>,
    id: EndpointId,
    endpoint: Endpoint,
    other: Option<Seq<char>>,
)
    requires
        other != name_of(id),
    ensures
        value_of(put(s, id, endpoint), other) == value_of(s, other),
{
    law_put_is_visible(s, id, endpoint, other);
}

/// Editing a profile keeps the state of its endpoint; turning it off turns the
/// endpoint off.
pub proof fn law_edits_keep_live_state(s: Seq<(EndpointId, Endpoint)>, profile: MachineProfile)
    ensures
        value_of(merged(s, profile), Some(profile.id@)) matches Some(after) && after.label
            == profile.label && (!profile.enabled ==> after.status == Status::Disabled) && (
        profile.enabled ==> match value_of(s, Some(profile.id@)) {
            Some(endpoint) => after.status == endpoint.status,
            None => after.status == Status::Connecting,
        }),
{
    let endpoint = match value_of(s, Some(profile.id@)) {
        Some(endpoint) => Endpoint {
            label: profile.label,
            status: if profile.enabled {
                endpoint.status
            } else {
                Status::Disabled
            },
        },
        None => fresh(profile),
    };
    law_put_is_visible(s, EndpointId::Machine(profile.id), endpoint, Some(profile.id@));
}

// ---------------------------------------------------------------------- reconciling

proof fn lemma_value_of_push<T>(s: Seq<(EndpointId, T)>, last: (EndpointId, T), id: Option<Seq<char>>)
    ensures
        value_of(s.push(last), id) == (match value_of(s, id) {
            Some(value) => Some(value),
            None => if name_of(last.0) == id {
                Some(last.1)
            } else {
                None
            },
        }),
    decreases s.len(),
{
    let all = s.push(last);
    if s.len() == 0 {
        assert(all.skip(1) =~= Seq::empty());
        assert(all[0] == last);
        assert(value_of(all.skip(1), id) is None);
    } else {
        assert(all[0] == s[0]);
        lemma_value_of_push(s.skip(1), last, id);
        assert(all.skip(1) =~= s.skip(1).push(last));
    }
}

proof fn lemma_value_of_entry<T>(s: Seq<(EndpointId, T)>, i: int)
    requires
        0 <= i < s.len(),
    ensures
        value_of(s, name_of(s[i].0)) is Some,
    decreases s.len(),
{
    if i > 0 {
        assert(s.skip(1)[i - 1] == s[i]);
        lemma_value_of_entry(s.skip(1), i - 1);
    }
}

proof fn lemma_kept_value(
    s: Seq<(EndpointId, Endpoint)>,
    profiles: Seq<MachineProfile>,
    id: Option<Seq<char>>,
)
    ensures
        value_of(kept(s, profiles), id) == (if id matches Some(name) && !has_profile(
            profiles,
            name,
        ) {
            None
        } else {
            value_of(s, id)
        }),
    decreases s.len(),
{
    if s.len() > 0 {
        lemma_kept_value(s.drop_last(), profiles, id);
        assert(s =~= s.drop_last().push(s.last()));
        lemma_value_of_push(s.drop_last(), s.last(), id);
        lemma_value_of_push(kept(s.drop_last(), profiles), s.last(), id);
    }
}

proof fn lemma_all_kept(s: Seq<(EndpointId, Endpoint)>, profiles: Seq<MachineProfile>)
    requires
        forall|i: int| 0 <= i < s.len() ==> stays(profiles, (#[trigger] s[i]).0),
    ensures
        kept(s, profiles) == s,
    decreases s.len(),
{
    if s.len() > 0 {
        let front = s.drop_last();
        assert forall|i: int| 0 <= i < front.len() implies stays(
            profiles,
            (#[trigger] front[i]).0,
        ) by {
            assert(front[i] == s[i]);
        }
        lemma_all_kept(front, profiles);
        assert(s[s.len() - 1] == s.last());
        assert(kept(s, profiles) =~= s);
    }
}

/// What a profile makes of an endpoint that was or was not known.
pub open spec fn brought_up(known: Option<Endpoint>, profile: MachineProfile) -> Endpoint {
    Endpoint {
        label: profile.label,
        status: if !profile.enabled {
            Status::Disabled
        } else {
            match known {
                Some(endpoint) => endpoint.status,
                None => Status::Connecting,
            }
        },
    }
}

proof fn lemma_merged(s: Seq<(EndpointId, Endpoint)>, profile: MachineProfile)
    ensures
        merged(s, profile) == put(
            s,
            EndpointId::Machine(profile.id),
            brought_up(value_of(s, Some(profile.id@)), profile),
        ),
{
}

/// Endpoints without a profile among the first are left alone.
proof fn lemma_unmerged(
    s: Seq<(EndpointId, Endpoint)>,
    profiles: Seq<MachineProfile>,
    count: int,
    id: Option<Seq<char>>,
)
    requires
        0 <= count <= profiles.len(),
        forall|i: int| 0 <= i < count ==> Some((#[trigger] profiles[i]).id@) != id,
    ensures
        value_of(all_merged(s, profiles, count), id) == value_of(s, id),
    decreases count,
{
    if count > 0 {
        let profile = profiles[count - 1];
        let earlier = all_merged(s, profiles, count - 1);
        lemma_unmerged(s, profiles, count - 1, id);
        lemma_merged(earlier, profile);
        law_put_is_visible(
            earlier,
            EndpointId::Machine(profile.id),
            brought_up(value_of(earlier, Some(profile.id@)), profile),
            id,
        );
    }
}

pub open spec fn distinct_ids(profiles: Seq<MachineProfile>) -> bool {
    forall|i: int, j: int|
        0 <= i < j < profiles.len() ==> (#[trigger] profiles[i]).id@ != (#[trigger] profiles[j]).id@
}

proof fn lemma_put_contains<T>(s: Seq<(EndpointId, T)>, id: EndpointId, value: T)
    ensures
        put(s, id, value).contains((id, value)),
        forall|e: (EndpointId, T)| #[trigger]
            s.contains(e) && name_of(e.0) != name_of(id) ==> put(s, id, value).contains(e),
    decreases s.len(),
{
    let after = put(s, id, value);
    if s.len() == 0 || id_before(name_of(id), name_of(s[0].0)) || name_of(id) == name_of(s[0].0) {
        assert(after[0] == (id, value));
        assert forall|e: (EndpointId, T)| #[trigger]
            s.contains(e) && name_of(e.0) != name_of(id) implies after.contains(e) by {
            let i = choose|i: int| 0 <= i < s.len() && s[i] == e;
            if id_before(name_of(id), name_of(s[0].0)) {
                assert(after[i + 1] == e);
            } else {
                assert(after[i] == e);
            }
        }
    } else {
        let tail = put(s.skip(1), id, value);
        lemma_put_contains(s.skip(1), id, value);
        let at = choose|i: int| 0 <= i < tail.len() && tail[i] == (id, value);
        assert(after[at + 1] == (id, value));
        assert forall|e: (EndpointId, T)| #[trigger]
            s.contains(e) && name_of(e.0) != name_of(id) implies after.contains(e) by {
            let i = choose|i: int| 0 <= i < s.len() && s[i] == e;
            if i == 0 {
                assert(after[0] == e);
            } else {
                assert(s.skip(1)[i - 1] == e);
                assert(s.skip(1).contains(e));
                assert(tail.contains(e));
                let k = choose|k: int| 0 <= k < tail.len() && tail[k] == e;
                assert(after[k + 1] == e);
            }
        }
    }
}

proof fn lemma_put_again<T>(s: Seq<(EndpointId, T)>, id: EndpointId, value: T)
    requires
        rising(s),
        s.contains((id, value)),
    ensures
        put(s, id, value) == s,
    decreases s.len(),
{
    let i = choose|i: int| 0 <= i < s.len() && s[i] == (id, value);
    lemma_before_total(name_of(id), name_of(id));
    if i > 0 {
        assert(id_before(name_of(s[0].0), name_of(s[i].0)));
        if id_before(name_of(id), name_of(s[0].0)) {
            lemma_before_transitive(name_of(id), name_of(s[0].0), name_of(id));
        }
        assert(s.skip(1)[i - 1] == (id, value));
        lemma_rising_rest(s);
        lemma_put_again(s.skip(1), id, value);
    }
    assert(put(s, id, value) =~= s);
}

proof fn lemma_merged_rising(s: Seq<(EndpointId, Endpoint)>, profiles: Seq<MachineProfile>, count: int)
    requires
        rising(s),
        0 <= count <= profiles.len(),
    ensures
        rising(all_merged(s, profiles, count)),
    decreases count,
{
    if count > 0 {
        let profile = profiles[count - 1];
        let earlier = all_merged(s, profiles, count - 1);
        lemma_merged_rising(s, profiles, count - 1);
        lemma_merged(earlier, profile);
        lemma_put_rising(
            earlier,
            EndpointId::Machine(profile.id),
            brought_up(value_of(earlier, Some(profile.id@)), profile),
        );
    }
}

/// The endpoint of each of the first profiles, as it is stored.
proof fn lemma_merged_entry(
    s: Seq<(EndpointId, Endpoint)>,
    profiles: Seq<MachineProfile>,
    count: int,
    i: int,
)
    requires
        distinct_ids(profiles),
        0 <= i < count <= profiles.len(),
    ensures
        value_of(all_merged(s, profiles, count), Some(profiles[i].id@)) == Some(
            brought_up(value_of(s, Some(profiles[i].id@)), profiles[i]),
        ),
        all_merged(s, profiles, count).contains(
            (
                EndpointId::Machine(profiles[i].id),
                brought_up(value_of(s, Some(profiles[i].id@)), profiles[i]),
            ),
        ),
    decreases count,
{
    let profile = profiles[count - 1];
    let earlier = all_merged(s, profiles, count - 1);
    let id = EndpointId::Machine(profile.id);
    let value = brought_up(value_of(earlier, Some(profile.id@)), profile);
    lemma_merged(earlier, profile);
    lemma_put_contains(earlier, id, value);
    law_put_is_visible(earlier, id, value, Some(profiles[i].id@));
    if i == count - 1 {
        assert forall|j: int| 0 <= j < count - 1 implies Some((#[trigger] profiles[j]).id@) != Some(
            profile.id@,
        ) by {
            assert(profiles[j].id@ != profiles[count - 1].id@);
        }
        lemma_unmerged(s, profiles, count - 1, Some(profile.id@));
    } else {
        lemma_merged_entry(s, profiles, count - 1, i);
        assert(profiles[i].id@ != profiles[count - 1].id@);
    }
}

/// Reconciling leaves the local endpoint as it was and one endpoint for each profile,
/// no others. Each has the label of its profile; a profile that is off turns it off,
/// an endpoint that was known keeps its state, and a new one connects.
pub proof fn law_endpoints_follow_the_profiles(
    s: Seq<(EndpointId, Endpoint)>,
    profiles: Seq<MachineProfile>,
)
    requires
        rising(s),
        value_of(s, None) is Some,
        distinct_ids(profiles),
    ensures
        rising(reconciled(s, profiles)),
        value_of(reconciled(s, profiles), None) == value_of(s, None),
        forall|name: Seq<char>|
            (#[trigger] value_of(reconciled(s, profiles), Some(name))) is Some <==> has_profile(
                profiles,
                name,
            ),
        forall|i: int|
            0 <= i < profiles.len() ==> value_of(
                reconciled(s, profiles),
                Some((#[trigger] profiles[i]).id@),
            ) == Some(brought_up(value_of(s, Some(profiles[i].id@)), profiles[i])),
{
    let n = profiles.len() as int;
    let base = kept(s, profiles);
    lemma_kept_rising(s, profiles);
    lemma_merged_rising(base, profiles, n);
    lemma_kept_value(s, profiles, None);
    lemma_unmerged(base, profiles, n, None);
    assert forall|i: int| 0 <= i < n implies value_of(
        reconciled(s, profiles),
        Some((#[trigger] profiles[i]).id@),
    ) == Some(brought_up(value_of(s, Some(profiles[i].id@)), profiles[i])) by {
        assert(has_profile(profiles, profiles[i].id@));
        lemma_kept_value(s, profiles, Some(profiles[i].id@));
        lemma_merged_entry(base, profiles, n, i);
    }
    assert forall|name: Seq<char>| (#[trigger] value_of(reconciled(s, profiles), Some(name))) is Some
        <==> has_profile(profiles, name) by {
        if !has_profile(profiles, name) {
            lemma_kept_value(s, profiles, Some(name));
            lemma_unmerged(base, profiles, n, Some(name));
        } else {
            let i = choose|i: int| 0 <= i < profiles.len() && (#[trigger] profiles[i]).id@ == name;
            assert(value_of(reconciled(s, profiles), Some(profiles[i].id@)) is Some);
        }
    }
}

proof fn lemma_merging_known(
    s: Seq<(EndpointId, Endpoint)>,
    profiles: Seq<MachineProfile>,
    count: int,
)
    requires
        rising(s),
        0 <= count <= profiles.len(),
        forall|i: int|
            0 <= i < profiles.len() ==> {
                let known = value_of(s, Some((#[trigger] profiles[i]).id@));
                &&& known is Some
                &&& brought_up(known, profiles[i]) == known->0
                &&& s.contains((EndpointId::Machine(profiles[i].id), known->0))
            },
    ensures
        all_merged(s, profiles, count) == s,
    decreases count,
{
    if count > 0 {
        lemma_merging_known(s, profiles, count - 1);
        let profile = profiles[count - 1];
        lemma_merged(s, profile);
        lemma_put_again(
            s,
            EndpointId::Machine(profile.id),
            value_of(s, Some(profile.id@))->0,
        );
    }
}

/// Reconciling with the same profiles again changes nothing.
pub proof fn law_reconciling_again_changes_nothing(
    s: Seq<(EndpointId, Endpoint)>,
    profiles: Seq<MachineProfile>,
)
    requires
        rising(s),
        value_of(s, None) is Some,
        distinct_ids(profiles),
    ensures
        reconciled(reconciled(s, profiles), profiles) == reconciled(s, profiles),
{
    let n = profiles.len() as int;
    let once = reconciled(s, profiles);
    law_endpoints_follow_the_profiles(s, profiles);
    assert forall|i: int| 0 <= i < once.len() implies stays(profiles, (#[trigger] once[i]).0) by {
        lemma_value_of_entry(once, i);
    }
    lemma_all_kept(once, profiles);
    assert forall|i: int| 0 <= i < profiles.len() implies ({
        let known = value_of(once, Some((#[trigger] profiles[i]).id@));
        &&& known is Some
        &&& brought_up(known, profiles[i]) == known->0
        &&& once.contains((EndpointId::Machine(profiles[i].id), known->0))
    }) by {
        lemma_merged_entry(kept(s, profiles), profiles, n, i);
    }
    lemma_merging_known(once, profiles, n);
}

// ------------------------------------------------------------------------------ router

/// Which endpoint gets the input, which workers there are, and which of them are
/// connected. A worker is known by its generation, so that what a retired one still
/// sends is told apart.
#[derive(Debug, Clone, PartialEq, Eq)]
pub struct Router {
    pub selected: EndpointId,
    pub generations: Vec<(EndpointId, u64)>,
    pub online: Vec<EndpointId>,
    pub next_generation: u64,
    pub notice: Option<String>,
}

/// Whether an endpoint is among those.
pub open spec fn listed(ids: Seq<EndpointId>, id: Option<Seq<char>>) -> bool {
    exists|i: int| 0 <= i < ids.len() && name_of(#[trigger] ids[i]) == id
}

/// Every generation in use is an old one.
pub open spec fn all_older(s: Seq<(EndpointId, u64)>, next: u64) -> bool {
    forall|i: int| 0 <= i < s.len() ==> (#[trigger] s[i]).1 <= next
}

fn is_listed(ids: &Vec<EndpointId>, id: &EndpointId) -> (r: bool)
    ensures
        r == listed(ids@, name_of(*id)),
{
    let mut i: usize = 0;
    while i < ids.len()
        invariant
            i <= ids@.len(),
            forall|k: int| 0 <= k < i ==> name_of(#[trigger] ids@[k]) != name_of(*id),
        decreases ids@.len() - i,
    {
        if same_id(&ids[i], id) {
            return true;
        }
        i += 1;
    }
    false
}

fn unlist(ids: &mut Vec<EndpointId>, id: &EndpointId)
    ensures
        !listed(final(ids)@, name_of(*id)),
        forall|other: Option<Seq<char>>|
            other != name_of(*id) ==> #[trigger] listed(final(ids)@, other) == listed(
                old(ids)@,
                other,
            ),
{
    let ghost all = ids@;
    let mut left: Vec<EndpointId> = Vec::new();
    let mut i: usize = 0;
    while i < ids.len()
        invariant
            ids@ == all,
            i <= ids@.len(),
            forall|k: int| 0 <= k < left@.len() ==> name_of(#[trigger] left@[k]) != name_of(*id),
            forall|other: Option<Seq<char>>|
                other != name_of(*id) ==> #[trigger] listed(left@, other) == listed(
                    all.take(i as int),
                    other,
                ),
        decreases ids@.len() - i,
    {
        let ghost was = left@;
        let ghost seen = all.take(i as int);
        let ghost more = all.take(i + 1);
        assert(more =~= seen.push(all[i as int]));
        if !same_id(&ids[i], id) {
            left.push(ids[i].clone());
        }
        assert forall|other: Option<Seq<char>>| other != name_of(*id) implies #[trigger] listed(
            left@,
            other,
        ) == listed(more, other) by {
            assert(listed(was, other) == listed(seen, other));
            assert(more[seen.len() as int] == all[i as int]);
            if listed(seen, other) {
                let k = choose|k: int| 0 <= k < seen.len() && name_of(#[trigger] seen[k]) == other;
                assert(name_of(more[k]) == other);
                let m = choose|m: int| 0 <= m < was.len() && name_of(#[trigger] was[m]) == other;
                assert(name_of(left@[m]) == other);
            } else {
                if listed(more, other) {
                    let k = choose|k: int|
                        0 <= k < more.len() && name_of(#[trigger] more[k]) == other;
                    if k < seen.len() {
                        assert(name_of(seen[k]) == other);
                    }
                    assert(name_of(all[i as int]) == other);
                    assert(name_of(left@[was.len() as int]) == other);
                }
                if listed(left@, other) {
                    let m = choose|m: int|
                        0 <= m < left@.len() && name_of(#[trigger] left@[m]) == other;
                    if m < was.len() {
                        assert(name_of(was[m]) == other);
                    }
                    assert(name_of(more[seen.len() as int]) == other);
                }
            }
        }
        i += 1;
    }
    assert(all.take(i as int) =~= all);
    *ids = left;
}

proof fn lemma_put_older(s: Seq<(EndpointId, u64)>, id: EndpointId, next: u64)
    requires
        all_older(s, next),
    ensures
        all_older(put(s, id, next), next),
    decreases s.len(),
{
    let after = put(s, id, next);
    if s.len() > 0 && !id_before(name_of(id), name_of(s[0].0)) && name_of(id) != name_of(s[0].0) {
        assert forall|i: int| 0 <= i < s.skip(1).len() implies (#[trigger] s.skip(1)[i]).1
            <= next by {
            assert(s.skip(1)[i] == s[i + 1]);
        }
        lemma_put_older(s.skip(1), id, next);
        let tail = put(s.skip(1), id, next);
        assert forall|i: int| 0 <= i < after.len() implies (#[trigger] after[i]).1 <= next by {
            if i > 0 {
                assert(after[i] == tail[i - 1]);
            } else {
                assert(after[0] == s[0]);
            }
        }
    } else {
        assert forall|i: int| 0 <= i < after.len() implies (#[trigger] after[i]).1 <= next by {
            if i > 0 {
                if s.len() > 0 && name_of(id) == name_of(s[0].0) && !id_before(
                    name_of(id),
                    name_of(s[0].0),
                ) {
                    assert(after[i] == s[i]);
                } else {
                    assert(after[i] == s[i - 1]);
                }
            }
        }
    }
}

/// What becomes of a message for an endpoint.
#[derive(Debug, Clone, Copy, PartialEq, Eq, Structural)]
pub enum Delivery {
    /// Hand it to the endpoint's worker.
    Queue,
    /// Drop it: the user was told.
    Drop,
}

/// Where a worker's message goes.
#[derive(Debug, Clone, PartialEq, Eq)]
pub enum Routed {
    /// Nowhere: its worker is retired, or another endpoint is on the screen.
    Dropped,
    /// To the screen.
    Shown(Update),
    /// The endpoint is connected now.
    Joined(EndpointId),
    /// The endpoint is gone, for a reason that the user is told.
    Lost { endpoint: EndpointId, reason: String },
}

impl Router {
    /// The workers are in order, and each has a generation that was given out.
    pub open spec fn wf(self) -> bool {
        rising(self.generations@) && all_older(self.generations@, self.next_generation)
    }

    pub open spec fn is_online(self, id: Option<Seq<char>>) -> bool {
        listed(self.online@, id)
    }

    pub open spec fn generation(self, id: Option<Seq<char>>) -> Option<u64> {
        value_of(self.generations@, id)
    }

    pub fn new(selected: EndpointId) -> (r: Self)
        ensures
            r.wf(),
            r.selected == selected,
            r.generations@.len() == 0,
            r.online@.len() == 0,
            r.next_generation == 0,
            r.notice is None,
    {
        Router {
            selected,
            generations: Vec::new(),
            online: Vec::new(),
            next_generation: 0,
            notice: None,
        }
    }

    /// Registers a worker under a generation of its own; it is not connected yet.
    pub fn register(&mut self, id: EndpointId)
        requires
            old(self).wf(),
            old(self).next_generation < u64::MAX,
        ensures
            final(self).wf(),
            final(self).next_generation == old(self).next_generation + 1,
            final(self).generations@ == put(
                old(self).generations@,
                id,
                final(self).next_generation,
            ),
            !final(self).is_online(name_of(id)),
            forall|other: Option<Seq<char>>|
                other != name_of(id) ==> #[trigger] final(self).is_online(other) == old(
                    self,
                ).is_online(other),
            final(self).selected == old(self).selected,
            final(self).notice == old(self).notice,
    {
        self.next_generation = self.next_generation + 1;
        proof {
            lemma_put_older(self.generations@, id, self.next_generation);
        }
        unlist(&mut self.online, &id);
        let ghost was = *old(self);
        assert forall|other: Option<Seq<char>>| other != name_of(
            id,
        ) implies #[trigger] self.is_online(other) == was.is_online(other) by {
            assert(listed(self.online@, other) == listed(was.online@, other));
        }
        put_entry(&mut self.generations, id, self.next_generation);
    }

    /// Retires a worker. Where it was selected, input goes to the local session
    /// again.
    pub fn unregister(&mut self, id: &EndpointId)
        requires
            old(self).wf(),
        ensures
            final(self).wf(),
            final(self).generations@ == drop_id(old(self).generations@, name_of(*id)),
            !final(self).is_online(name_of(*id)),
            forall|other: Option<Seq<char>>|
                other != name_of(*id) ==> #[trigger] final(self).is_online(other) == old(
                    self,
                ).is_online(other),
            final(self).selected == (if name_of(old(self).selected) == name_of(*id) {
                EndpointId::Local
            } else {
                old(self).selected
            }),
            final(self).next_generation == old(self).next_generation,
            final(self).notice == old(self).notice,
    {
        if let Some(i) = find(&self.generations, id) {
            proof {
                lemma_remove_rising(self.generations@, i as int);
            }
            let ghost all = self.generations@;
            self.generations.remove(i);
            assert forall|k: int| 0 <= k < self.generations@.len() implies (
            #[trigger] self.generations@[k]).1 <= self.next_generation by {
                if k < i {
                    assert(self.generations@[k] == all[k]);
                } else {
                    assert(self.generations@[k] == all[k + 1]);
                }
            }
        }
        unlist(&mut self.online, id);
        let ghost was = *old(self);
        assert forall|other: Option<Seq<char>>| other != name_of(
            *id,
        ) implies #[trigger] self.is_online(other) == was.is_online(other) by {
            assert(listed(self.online@, other) == listed(was.online@, other));
        }
        if same_id(&self.selected, id) {
            self.selected = EndpointId::Local;
        }
    }

    /// The generation of an endpoint's worker.
    pub fn generation_of(&self, id: &EndpointId) -> (r: Option<u64>)
        ensures
            r == self.generation(name_of(*id)),
    {
        match find(&self.generations, id) {
            Some(i) => Some(self.generations[i].1),
            None => None,
        }
    }

    /// Whether a message comes from the worker that is registered now.
    pub fn accepts(&self, packet: &UpdatePacket) -> (r: bool)
        ensures
            r == (self.generation(name_of(packet.endpoint)) == Some(packet.generation)),
    {
        match self.generation_of(&packet.endpoint) {
            Some(current) => current == packet.generation,
            None => false,
        }
    }

    /// Where a message goes: only the endpoint on the screen is shown, whichever comes
    /// or goes is told, and a retired worker is not heard.
    pub open spec fn routed(self, packet: UpdatePacket) -> Routed {
        let endpoint = packet.endpoint;
        if self.generation(name_of(endpoint)) != Some(packet.generation) {
            Routed::Dropped
        } else {
            match packet.update {
                Update::EndpointFailed { reason } => Routed::Lost { endpoint, reason },
                Update::EndpointConnected { .. } => Routed::Joined(endpoint),
                update => if name_of(self.selected) == name_of(endpoint) {
                    Routed::Shown(update)
                } else {
                    Routed::Dropped
                },
            }
        }
    }

    /// Which machines are connected once an update has come.
    pub open spec fn hears(self, packet: UpdatePacket, after: Router) -> bool {
        let current = self.generation(name_of(packet.endpoint)) == Some(packet.generation);
        &&& after.is_online(name_of(packet.endpoint)) == (if current
            && packet.update is EndpointConnected {
            true
        } else if current && packet.update is EndpointFailed {
            false
        } else {
            self.is_online(name_of(packet.endpoint))
        })
        &&& forall|other: Option<Seq<char>>|
            other != name_of(packet.endpoint) ==> #[trigger] after.is_online(other)
                == self.is_online(other)
        &&& after.generations == self.generations
        &&& after.selected == self.selected
    }

    /// Routes a worker's message and keeps which endpoints are online.
    pub fn route(&mut self, packet: UpdatePacket) -> (r: Routed)
        ensures
            old(self).hears(packet, *final(self)),
            r == old(self).routed(packet),
            final(self).is_online(name_of(packet.endpoint)) == (match r {
                Routed::Joined(_) => true,
                Routed::Lost { .. } => false,
                _ => old(self).is_online(name_of(packet.endpoint)),
            }),
            forall|other: Option<Seq<char>>|
                other != name_of(packet.endpoint) ==> #[trigger] final(self).is_online(other)
                    == old(self).is_online(other),
            final(self).selected == old(self).selected,
            final(self).generations == old(self).generations,
            final(self).next_generation == old(self).next_generation,
            final(self).notice == old(self).notice,
    {
        if !self.accepts(&packet) {
            return Routed::Dropped;
        }
        let endpoint = packet.endpoint;
        match packet.update {
            Update::EndpointFailed { reason } => {
                self.mark_offline(&endpoint);
                Routed::Lost { endpoint, reason }
            },
            Update::EndpointConnected { .. } => {
                self.mark_online(endpoint.clone());
                Routed::Joined(endpoint)
            },
            update => if same_id(&self.selected, &endpoint) {
                Routed::Shown(update)
            } else {
                Routed::Dropped
            },
        }
    }

    /// What the user is to be told, once.
    pub fn take_notice(&mut self) -> (r: Option<String>)
        ensures
            r == old(self).notice,
            final(self).notice is None,
            final(self).selected == old(self).selected,
            final(self).generations == old(self).generations,
            final(self).online == old(self).online,
            final(self).next_generation == old(self).next_generation,
    {
        self.notice.take()
    }

    pub fn mark_online(&mut self, id: EndpointId)
        ensures
            final(self).is_online(name_of(id)),
            forall|other: Option<Seq<char>>|
                other != name_of(id) ==> #[trigger] final(self).is_online(other) == old(
                    self,
                ).is_online(other),
            final(self).selected == old(self).selected,
            final(self).generations == old(self).generations,
            final(self).next_generation == old(self).next_generation,
            final(self).notice == old(self).notice,
    {
        let ghost was = self.online@;
        self.online.push(id);
        assert(name_of(self.online@[was.len() as int]) == name_of(id));
        assert forall|other: Option<Seq<char>>| other != name_of(
            id,
        ) implies #[trigger] self.is_online(other) == listed(was, other) by {
            if listed(was, other) {
                let k = choose|k: int| 0 <= k < was.len() && name_of(#[trigger] was[k]) == other;
                assert(name_of(self.online@[k]) == other);
            }
            if listed(self.online@, other) {
                let k = choose|k: int|
                    0 <= k < self.online@.len() && name_of(#[trigger] self.online@[k]) == other;
                assert(name_of(was[k]) == other);
            }
        }
    }

    pub fn mark_offline(&mut self, id: &EndpointId)
        ensures
            !final(self).is_online(name_of(*id)),
            forall|other: Option<Seq<char>>|
                other != name_of(*id) ==> #[trigger] final(self).is_online(other) == old(
                    self,
                ).is_online(other),
            final(self).selected == old(self).selected,
            final(self).generations == old(self).generations,
            final(self).next_generation == old(self).next_generation,
            final(self).notice == old(self).notice,
    {
        let ghost was = *self;
        unlist(&mut self.online, id);
        assert forall|other: Option<Seq<char>>| other != name_of(
            *id,
        ) implies #[trigger] self.is_online(other) == was.is_online(other) by {
            assert(listed(self.online@, other) == listed(was.online@, other));
        }
    }

    pub fn select(&mut self, id: EndpointId)
        ensures
            *final(self) == (Router { selected: id, ..*old(self) }),
    {
        self.selected = id;
    }

    pub fn selected(&self) -> (r: &EndpointId)
        ensures
            *r == self.selected,
    {
        &self.selected
    }

    /// The endpoints with a worker, in order.
    pub fn ids(&self) -> (r: Vec<EndpointId>)
        ensures
            r@ == self.generations@.map_values(|e: (EndpointId, u64)| e.0),
    {
        let ghost all = self.generations@.map_values(|e: (EndpointId, u64)| e.0);
        let mut out: Vec<EndpointId> = Vec::new();
        let mut i: usize = 0;
        assert(out@ =~= all.take(0));
        while i < self.generations.len()
            invariant
                all == self.generations@.map_values(|e: (EndpointId, u64)| e.0),
                i <= self.generations@.len(),
                out@ == all.take(i as int),
            decreases self.generations@.len() - i,
        {
            out.push(self.generations[i].0.clone());
            assert(out@ =~= all.take(i + 1));
            i += 1;
        }
        assert(all.take(i as int) =~= all);
        out
    }

    /// Decides what becomes of a message for an endpoint. What an endpoint cannot
    /// take is dropped and never sent later, into another session.
    pub fn send_to(&mut self, endpoint: &EndpointId) -> (r: Result<Delivery, String>)
        ensures
            final(self).selected == old(self).selected,
            final(self).generations == old(self).generations,
            final(self).online == old(self).online,
            final(self).next_generation == old(self).next_generation,
            if !old(self).is_online(name_of(*endpoint)) {
                r == Ok::<Delivery, String>(Delivery::Drop) && text::option_text(
                    final(self).notice,
                ) == Some("input not sent · machine is disconnected"@)
            } else {
                final(self).notice == old(self).notice && if old(self).generation(
                    name_of(*endpoint),
                ) is Some {
                    r == Ok::<Delivery, String>(Delivery::Queue)
                } else {
                    text::fault(r) == Some("selected endpoint is offline"@)
                }
            },
    {
        if !is_listed(&self.online, endpoint) {
            self.notice = Some("input not sent · machine is disconnected".to_owned());
            return Ok(Delivery::Drop);
        }
        if self.generation_of(endpoint).is_none() {
            return Err("selected endpoint is offline".to_owned());
        }
        Ok(Delivery::Queue)
    }

    /// Decides what becomes of input: only the selected endpoint can get it.
    pub fn send(&mut self) -> (r: Result<Option<EndpointId>, String>)
        ensures
            final(self).selected == old(self).selected,
            final(self).generations == old(self).generations,
            final(self).online == old(self).online,
            final(self).next_generation == old(self).next_generation,
            old(self).is_online(name_of(old(self).selected)) ==> final(self).notice == old(
                self,
            ).notice,
            r matches Ok(Some(id)) ==> id == old(self).selected && old(self).is_online(
                name_of(old(self).selected),
            ),
            !old(self).is_online(name_of(old(self).selected)) ==> r == Ok::<
                Option<EndpointId>,
                String,
            >(None) && text::option_text(final(self).notice) == Some(
                "input not sent · machine is disconnected"@,
            ),
            old(self).is_online(name_of(old(self).selected)) && old(self).generation(
                name_of(old(self).selected),
            ) is Some ==> r == Ok::<Option<EndpointId>, String>(Some(old(self).selected)),
            old(self).is_online(name_of(old(self).selected)) && old(self).generation(
                name_of(old(self).selected),
            ) is None ==> text::fault(r) == Some("selected endpoint is offline"@),
    {
        let id = self.selected.clone();
        match self.send_to(&id) {
            Ok(Delivery::Queue) => Ok(Some(id)),
            Ok(Delivery::Drop) => Ok(None),
            Err(message) => Err(message),
        }
    }

    /// A worker did not take a message: it is dropped, and the user is told.
    pub fn refused(&mut self)
        ensures
            text::option_text(final(self).notice) == Some(
                "input not sent · machine connection is busy"@,
            ),
            final(self).selected == old(self).selected,
            final(self).generations == old(self).generations,
            final(self).online == old(self).online,
            final(self).next_generation == old(self).next_generation,
    {
        self.notice = Some("input not sent · machine connection is busy".to_owned());
    }
}

/// What a retired worker still sends is never accepted: once its endpoint is
/// registered again, no generation that was in use before is the current one.
pub proof fn law_retired_workers_are_rejected(before: Router, after: Router, id: EndpointId, old_generation: u64)
    requires
        before.wf(),
        before.generation(name_of(id)) == Some(old_generation),
        after.generations@ == put(
            drop_id(before.generations@, name_of(id)),
            id,
            (before.next_generation + 1) as u64,
        ),
        before.next_generation < u64::MAX,
    ensures
        after.generation(name_of(id)) != Some(old_generation),
{
    law_put_is_visible(
        drop_id(before.generations@, name_of(id)),
        id,
        (before.next_generation + 1) as u64,
        name_of(id),
    );
    lemma_value_is_old(before.generations@, name_of(id), before.next_generation);
}

proof fn lemma_value_is_old(s: Seq<(EndpointId, u64)>, id: Option<Seq<char>>, next: u64)
    requires
        all_older(s, next),
    ensures
        value_of(s, id) matches Some(generation) ==> generation <= next,
    decreases s.len(),
{
    if s.len() > 0 && name_of(s[0].0) != id {
        assert forall|i: int| 0 <= i < s.skip(1).len() implies (#[trigger] s.skip(1)[i]).1
            <= next by {
            assert(s.skip(1)[i] == s[i + 1]);
        }
        lemma_value_is_old(s.skip(1), id, next);
    }
}

// ----------------------------------------------------------------------------- workers

/// What a worker tells the interface.
#[derive(Debug, Clone, PartialEq, Eq)]
pub enum Update {
    Layout(LayoutSnapshot),
    Session(String),
    Notification(Notification),
    SessionRenamed { name: String, socket: String },
    RequestError(String),
    EndpointFailed { reason: String },
    EndpointConnected { session: String, socket: String },
    Clipboard { pane: PaneId, text: String },
}

/// A worker's message with where it comes from, so that what a retired worker left
/// in a queue is told apart.
#[derive(Debug, Clone, PartialEq, Eq)]
pub struct UpdatePacket {
    pub endpoint: EndpointId,
    pub generation: u64,
    pub update: Update,
}

/// Seconds before the next attempt, for each attempt so far.
pub open spec fn delay_after(retry: u8) -> u64 {
    if retry == 0 {
        1
    } else if retry == 1 {
        2
    } else if retry == 2 {
        4
    } else if retry == 3 {
        8
    } else if retry == 4 {
        16
    } else if retry == 5 {
        32
    } else {
        64
    }
}

/// The pause of a machine's worker after a connection ended: it doubles with each
/// failure, and a renamed session is connected again at once.
#[derive(Debug, Clone, Copy, PartialEq, Eq, Structural)]
pub struct Backoff {
    pub retry: u8,
}

impl Backoff {
    /// A failure is followed by a pause, and the next by a longer one while there is one.
    pub open spec fn backs_off(self, pause: u64, after: Backoff) -> bool {
        &&& pause == delay_after(self.retry)
        &&& after.retry == (if self.retry < 6 {
            self.retry + 1
        } else {
            6
        })
    }

    pub fn new() -> (r: Self)
        ensures
            r.retry == 0,
    {
        Backoff { retry: 0 }
    }

    /// A connection ended because its session was renamed.
    pub fn renamed(&mut self)
        ensures
            final(self).retry == 0,
    {
        self.retry = 0;
    }

    /// A connection failed: the seconds to wait.
    pub fn failed(&mut self) -> (r: u64)
        ensures
            old(self).backs_off(r, *final(self)),
            r == delay_after(old(self).retry),
            final(self).retry == (if old(self).retry < 6 {
                old(self).retry + 1
            } else {
                6
            }),
            final(self).retry <= 6,
    {
        let retry: u8 = self.retry;
        self.retry = if retry < 6 {
            retry + 1
        } else {
            6
        };
        if retry == 0 {
            1
        } else if retry == 1 {
            2
        } else if retry == 2 {
            4
        } else if retry == 3 {
            8
        } else if retry == 4 {
            16
        } else if retry == 5 {
            32
        } else {
            64
        }
    }
}

/// The pause grows with each failure and never exceeds the limit.
pub proof fn law_pauses_grow_to_a_limit(retry: u8, later: u8)
    requires
        retry <= later,
    ensures
        delay_after(retry) <= delay_after(later) <= 64,
        retry < 6 ==> delay_after((retry + 1) as u8) == 2 * delay_after(retry),
{
}

/// What a machine's worker makes of an opening message.
#[derive(Debug, Clone, PartialEq, Eq)]
pub enum Opening {
    /// The machine answers for this session.
    Connected(String),
    Ignore,
}

/// Checks the opening message of a machine.
pub fn opening(message: ServerMessage) -> (r: Result<Opening, String>)
    ensures
        match message {
            ServerMessage::Welcome { session, version } => if version == PROTOCOL_VERSION {
                r == Ok::<Opening, String>(Opening::Connected(session))
            } else {
                text::fault(r) == Some(
                    "protocol version mismatch: "@ + text::decimal(version as nat),
                )
            },
            ServerMessage::Error { message: said } => text::fault(r) == Some(said@),
            _ => r == Ok::<Opening, String>(Opening::Ignore),
        },
{
    match message {
        ServerMessage::Welcome { session, version } => {
            if version == PROTOCOL_VERSION {
                Ok(Opening::Connected(session))
            } else {
                let number = text::decimal_text(version as u64);
                Err(text::cat("protocol version mismatch: ", number.as_str()))
            }
        },
        ServerMessage::Error { message: said } => Err(said),
        _ => Ok(Opening::Ignore),
    }
}

/// Input that arrives while a connection is set up ends the attempt: it is never
/// kept for a later session.
pub fn command_during_setup(closed: bool) -> (r: String)
    ensures
        r@ == (if closed {
            "endpoint command channel closed"@
        } else {
            "endpoint input discarded during setup"@
        }),
{
    if closed {
        "endpoint command channel closed".to_owned()
    } else {
        "endpoint input discarded during setup".to_owned()
    }
}

/// The size that a machine's worker greets with: that of the last resize.
#[derive(Debug, Clone, Copy, PartialEq, Eq, Structural)]
pub struct Size {
    pub cols: u16,
    pub rows: u16,
}

impl Size {
    /// Takes a message into account that is about to be sent.
    pub fn observe(&mut self, message: &ClientMessage)
        ensures
            *final(self) == (match *message {
                ClientMessage::Resize { cols, rows } => Size { cols, rows },
                _ => *old(self),
            }),
    {
        if let ClientMessage::Resize { cols, rows } = message {
            self.cols = *cols;
            self.rows = *rows;
        }
    }

    pub fn hello(&self) -> (r: ClientMessage)
        ensures
            r == (ClientMessage::Hello {
                cols: self.cols,
                rows: self.rows,
                version: PROTOCOL_VERSION,
            }),
    {
        ClientMessage::Hello { cols: self.cols, rows: self.rows, version: PROTOCOL_VERSION }
    }
}

/// What a machine's worker does with a message.
#[derive(Debug, Clone, PartialEq, Eq)]
pub enum MachineStep {
    Tell(Update),
    /// Tell of the new name, then connect again under it.
    Renamed { name: String, socket: String },
    Ignore,
}

/// What a message means to the interface; nothing where it means nothing.
pub open spec fn update_of(message: ServerMessage) -> Option<Update> {
    match message {
        ServerMessage::Layout(layout) => Some(Update::Layout(layout)),
        ServerMessage::Welcome { session, .. } => Some(Update::Session(session)),
        ServerMessage::Notification(notification) => Some(Update::Notification(notification)),
        ServerMessage::Event(Event::Notification(notification)) => Some(
            Update::Notification(notification),
        ),
        ServerMessage::Error { message } => Some(Update::RequestError(message)),
        _ => None,
    }
}

/// What a connected machine's worker does with a message.
pub fn machine_step(message: ServerMessage) -> (r: Result<MachineStep, String>)
    ensures
        match message {
            ServerMessage::Event(Event::SessionRenamed { name, socket }) => r == Ok::<
                MachineStep,
                String,
            >(MachineStep::Renamed { name, socket }),
            ServerMessage::Shutdown => text::fault(r) == Some("endpoint shut down"@),
            _ => r == Ok::<MachineStep, String>(
                match update_of(message) {
                    Some(update) => MachineStep::Tell(update),
                    None => MachineStep::Ignore,
                },
            ),
        },
{
    match message {
        ServerMessage::Layout(layout) => Ok(MachineStep::Tell(Update::Layout(layout))),
        ServerMessage::Welcome { session, .. } => Ok(MachineStep::Tell(Update::Session(session))),
        ServerMessage::Notification(notification) => Ok(
            MachineStep::Tell(Update::Notification(notification)),
        ),
        ServerMessage::Event(Event::Notification(notification)) => Ok(
            MachineStep::Tell(Update::Notification(notification)),
        ),
        ServerMessage::Event(Event::SessionRenamed { name, socket }) => Ok(
            MachineStep::Renamed { name, socket },
        ),
        ServerMessage::Error { message: said } => Ok(
            MachineStep::Tell(Update::RequestError(said)),
        ),
        ServerMessage::Shutdown => Err("endpoint shut down".to_owned()),
        _ => Ok(MachineStep::Ignore),
    }
}

} // verus!
