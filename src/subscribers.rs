//! The per-device subscriber registry: who arbitrates for a device, who is
//! primary, and whom to tell when that changes.
//!
//! The registry does not send anything itself. Each change returns the notices
//! that are owed, and the caller delivers them, best-effort, on the outbound
//! channels that the notices name.

use crate::p4runtime::{as_u128_from, as_uint128_from, value_of, words_of, Uint128};
use vstd::prelude::*;

verus! {

/// One connection arbitrating for a device: its election id and the outbound
/// channel (by the caller's numbering) on which it hears back.
#[derive(Clone, Copy, Debug, PartialEq, Eq, Structural)]
pub struct Subscriber {
    pub election_id: Uint128,
    pub outbound: u64,
}

impl Subscriber {
    pub fn new(election_id: Uint128, outbound: u64) -> (r: Subscriber)
        ensures
            r.election_id == election_id,
            r.outbound == outbound,
    {
        Subscriber { election_id, outbound }
    }
}

/// What a notice tells its subscriber about itself.
#[derive(Clone, Copy, Debug, PartialEq, Eq, Structural)]
pub enum ArbitrationStatus {
    /// The subscriber is primary ("Ok").
    Primary,
    /// Another subscriber is primary ("AlreadyExists").
    NotPrimary,
}

/// An arbitration acknowledgment owed to one subscriber.
#[derive(Clone, Copy, Debug, PartialEq, Eq, Structural)]
pub struct Notice {
    pub outbound: u64,
    pub election_id: Uint128,
    pub device_id: u64,
    pub primary_election_id: Uint128,
    pub status: ArbitrationStatus,
}

impl Notice {
    /// The status message that goes with the notice.
    pub fn message(&self) -> (r: &'static str)
        ensures
            self.status == ArbitrationStatus::Primary ==> r@ == "Primary client"@,
            self.status == ArbitrationStatus::NotPrimary ==> r@ == "Not primary client"@,
    {
        match self.status {
            ArbitrationStatus::Primary => "Primary client",
            ArbitrationStatus::NotPrimary => "Not primary client",
        }
    }
}

/// The 128-bit key of a subscriber.
pub open spec fn key(s: Subscriber) -> int {
    value_of(s.election_id)
}

/// No election id is held twice.
pub open spec fn unique_ids(s: Seq<Subscriber>) -> bool {
    forall|i: int, j: int| 0 <= i < s.len() && 0 <= j < s.len() && i != j ==> key(s[i]) != key(s[j])
}

pub open spec fn holds(s: Seq<Subscriber>, id: int) -> bool {
    exists|i: int| 0 <= i < s.len() && key(s[i]) == id
}

/// Where id `id` stands (meaningful when it is held).
pub open spec fn id_index(s: Seq<Subscriber>, id: int) -> int {
    choose|i: int| 0 <= i < s.len() && key(s[i]) == id
}

/// The election ids present.
pub open spec fn ids(s: Seq<Subscriber>) -> Set<int> {
    Set::new(|id: int| holds(s, id))
}

/// The largest key of a non-empty sequence.
pub open spec fn max_key(s: Seq<Subscriber>) -> int
    decreases s.len(),
{
    if s.len() <= 1 {
        key(s[0])
    } else {
        let m = max_key(s.drop_last());
        if key(s.last()) > m {
            key(s.last())
        } else {
            m
        }
    }
}

/// The primary's election id: the largest present, none when empty.
pub open spec fn primary_id(s: Seq<Subscriber>) -> Option<int> {
    if s.len() == 0 {
        None
    } else {
        Some(max_key(s))
    }
}

/// The registry after recording `sub`: an id already held is replaced in place.
pub open spec fn insert_spec(s: Seq<Subscriber>, sub: Subscriber) -> Seq<Subscriber> {
    if holds(s, key(sub)) {
        s.update(id_index(s, key(sub)), sub)
    } else {
        s.push(sub)
    }
}

/// The registry after removing id `id`.
pub open spec fn delete_spec(s: Seq<Subscriber>, id: int) -> Seq<Subscriber> {
    if holds(s, id) {
        s.remove(id_index(s, id))
    } else {
        s
    }
}

/// The notice for `sub` when `primary` is the primary's id.
pub open spec fn notice_for(device_id: u64, sub: Subscriber, primary: int) -> Notice {
    Notice {
        outbound: sub.outbound,
        election_id: sub.election_id,
        device_id,
        primary_election_id: words_of(primary as u128),
        status: if key(sub) == primary {
            ArbitrationStatus::Primary
        } else {
            ArbitrationStatus::NotPrimary
        },
    }
}

/// One notice for each subscriber, in registry order.
pub open spec fn notify_all_spec(device_id: u64, s: Seq<Subscriber>, primary: int) -> Seq<Notice> {
    s.map_values(|sub: Subscriber| notice_for(device_id, sub, primary))
}

/// The notices owed after `insert_spec(s, sub)`: only the newcomer when the
/// primary stays, everyone when it changes.
pub open spec fn insert_notices(device_id: u64, s: Seq<Subscriber>, sub: Subscriber) -> Seq<Notice> {
    let t = insert_spec(s, sub);
    let p = max_key(t);
    if primary_id(s) == Some(p) {
        seq![notice_for(device_id, sub, p)]
    } else {
        notify_all_spec(device_id, t, p)
    }
}

/// The notices owed after deleting `id`: everyone left, when something was
/// removed and someone is left.
pub open spec fn delete_notices(device_id: u64, s: Seq<Subscriber>, id: int) -> Seq<Notice> {
    let t = delete_spec(s, id);
    if holds(s, id) && t.len() > 0 {
        notify_all_spec(device_id, t, max_key(t))
    } else {
        Seq::empty()
    }
}

pub proof fn lemma_id_index(s: Seq<Subscriber>, id: int, i: int)
    requires
        unique_ids(s),
        0 <= i < s.len(),
        key(s[i]) == id,
    ensures
        holds(s, id),
        id_index(s, id) == i,
{
    assert(holds(s, id));
    let j = id_index(s, id);
    assert(key(s[j]) == id);
}

/// The largest key is one of the keys, and no key exceeds it.
pub proof fn lemma_max_key(s: Seq<Subscriber>)
    requires
        s.len() > 0,
    ensures
        holds(s, max_key(s)),
        forall|i: int| 0 <= i < s.len() ==> key(#[trigger] s[i]) <= max_key(s),
    decreases s.len(),
{
    if s.len() > 1 {
        let d = s.drop_last();
        lemma_max_key(d);
        assert forall|i: int| 0 <= i < s.len() implies key(#[trigger] s[i]) <= max_key(s) by {
            if i < s.len() - 1 {
                assert(s[i] == d[i]);
            }
        }
        if key(s.last()) <= max_key(d) {
            let j = choose|j: int| 0 <= j < d.len() && key(d[j]) == max_key(d);
            assert(s[j] == d[j]);
        } else {
            assert(key(s[s.len() - 1]) == max_key(s));
        }
    } else {
        assert(key(s[0]) == max_key(s));
    }
}

/// Recording a subscriber keeps ids unique.
pub proof fn lemma_insert_unique(s: Seq<Subscriber>, sub: Subscriber)
    requires
        unique_ids(s),
    ensures
        unique_ids(insert_spec(s, sub)),
        holds(insert_spec(s, sub), key(sub)),
        insert_spec(s, sub).contains(sub),
        insert_spec(s, sub).len() > 0,
{
    let t = insert_spec(s, sub);
    if holds(s, key(sub)) {
        let i = id_index(s, key(sub));
        assert(t[i] == sub);
    } else {
        assert(t[s.len() as int] == sub);
        assert forall|i: int, j: int| 0 <= i < t.len() && 0 <= j < t.len() && i != j implies key(
            t[i],
        ) != key(t[j]) by {
            if i < s.len() && j < s.len() {
                assert(t[i] == s[i] && t[j] == s[j]);
            }
        }
    }
}

/// Removing an id keeps ids unique, and the id is gone.
pub proof fn lemma_delete_unique(s: Seq<Subscriber>, id: int)
    requires
        unique_ids(s),
    ensures
        unique_ids(delete_spec(s, id)),
        !holds(delete_spec(s, id), id),
{
    let t = delete_spec(s, id);
    if holds(s, id) {
        let k = id_index(s, id);
        assert forall|i: int, j: int| 0 <= i < t.len() && 0 <= j < t.len() && i != j implies key(
            t[i],
        ) != key(t[j]) by {
            let a = if i < k { i } else { i + 1 };
            let b = if j < k { j } else { j + 1 };
            assert(t[i] == s[a] && t[j] == s[b]);
        }
        if holds(t, id) {
            let i = choose|i: int| 0 <= i < t.len() && key(t[i]) == id;
            let a = if i < k { i } else { i + 1 };
            assert(t[i] == s[a]);
        }
    }
}

/// A change to a registry.
#[derive(Clone, Copy, Debug)]
pub enum RegistryOp {
    Insert(Subscriber),
    Delete(Uint128),
}

/// The registry after the changes `ops`, in order.
pub open spec fn run_ops(s: Seq<Subscriber>, ops: Seq<RegistryOp>) -> Seq<Subscriber>
    decreases ops.len(),
{
    if ops.len() == 0 {
        s
    } else {
        let t = run_ops(s, ops.drop_last());
        match ops.last() {
            RegistryOp::Insert(sub) => insert_spec(t, sub),
            RegistryOp::Delete(id) => delete_spec(t, value_of(id)),
        }
    }
}

/// The primary of a registry with unique ids is its largest election id, and
/// there is none exactly when it is empty.
pub proof fn lemma_primary_is_max(s: Seq<Subscriber>)
    ensures
        primary_id(s).is_none() <==> ids(s) == Set::<int>::empty(),
        primary_id(s).is_some() ==> ids(s).contains(primary_id(s).unwrap()),
        forall|k: int| #[trigger]
            ids(s).contains(k) && primary_id(s).is_some() ==> k <= primary_id(s).unwrap(),
{
    if s.len() == 0 {
        assert(ids(s) =~= Set::<int>::empty());
    } else {
        lemma_max_key(s);
        assert(ids(s).contains(max_key(s)));
        assert forall|k: int| ids(s).contains(k) implies k <= max_key(s) by {
            let i = choose|i: int| 0 <= i < s.len() && key(s[i]) == k;
        }
    }
}

/// Whatever inserts and deletes run on a registry, ids stay unique and the
/// primary is always the largest election id present, or none when the
/// registry is empty.
pub proof fn lemma_primary_after_ops(s: Seq<Subscriber>, ops: Seq<RegistryOp>)
    requires
        unique_ids(s),
    ensures
        unique_ids(run_ops(s, ops)),
        primary_id(run_ops(s, ops)).is_none() <==> ids(run_ops(s, ops)) == Set::<int>::empty(),
        primary_id(run_ops(s, ops)).is_some() ==> ids(run_ops(s, ops)).contains(
            primary_id(run_ops(s, ops)).unwrap(),
        ),
        forall|k: int| #[trigger]
            ids(run_ops(s, ops)).contains(k) && primary_id(run_ops(s, ops)).is_some() ==> k
                <= primary_id(run_ops(s, ops)).unwrap(),
    decreases ops.len(),
{
    if ops.len() > 0 {
        lemma_primary_after_ops(s, ops.drop_last());
        let t = run_ops(s, ops.drop_last());
        match ops.last() {
            RegistryOp::Insert(sub) => lemma_insert_unique(t, sub),
            RegistryOp::Delete(id) => lemma_delete_unique(t, value_of(id)),
        }
    }
    lemma_primary_is_max(run_ops(s, ops));
}

/// Recording a subscriber under an id that is already held neither adds an id
/// nor changes the number of subscribers.
pub proof fn lemma_insert_held_keeps_count(s: Seq<Subscriber>, sub: Subscriber)
    requires
        unique_ids(s),
        holds(s, key(sub)),
    ensures
        insert_spec(s, sub).len() == s.len(),
        ids(insert_spec(s, sub)) == ids(s),
{
    let t = insert_spec(s, sub);
    let i = id_index(s, key(sub));
    assert forall|k: int| ids(t).contains(k) <==> ids(s).contains(k) by {
        if ids(t).contains(k) {
            let j = choose|j: int| 0 <= j < t.len() && key(t[j]) == k;
            if j != i {
                assert(t[j] == s[j]);
            }
        }
        if ids(s).contains(k) {
            let j = choose|j: int| 0 <= j < s.len() && key(s[j]) == k;
            if j != i {
                assert(t[j] == s[j]);
            } else {
                assert(key(t[i]) == k);
            }
        }
    }
    assert(ids(t) =~= ids(s));
}

/// Deleting an id that is not held leaves the subscribers, and so the primary,
/// as they were, and owes nobody a notice.
pub proof fn lemma_delete_absent_changes_nothing(device_id: u64, s: Seq<Subscriber>, id: int)
    requires
        !holds(s, id),
    ensures
        delete_spec(s, id) == s,
        primary_id(delete_spec(s, id)) == primary_id(s),
        delete_notices(device_id, s, id) == Seq::<Notice>::empty(),
{
}

/// Deleting the id of a subscriber that is present removes that subscriber and
/// nothing else.
pub proof fn lemma_delete_removes_exactly(s: Seq<Subscriber>, sub: Subscriber)
    requires
        unique_ids(s),
        s.contains(sub),
    ensures
        delete_spec(s, key(sub)).len() == s.len() - 1,
        forall|x: Subscriber|
            delete_spec(s, key(sub)).contains(x) <==> (s.contains(x) && x != sub),
{
    let j = choose|j: int| 0 <= j < s.len() && s[j] == sub;
    lemma_id_index(s, key(sub), j);
    let t = delete_spec(s, key(sub));
    assert(t == s.remove(j));
    assert forall|x: Subscriber| t.contains(x) <==> (s.contains(x) && x != sub) by {
        if t.contains(x) {
            let i = choose|i: int| 0 <= i < t.len() && t[i] == x;
            let a = if i < j { i } else { i + 1 };
            assert(t[i] == s[a]);
            assert(a != j);
        }
        if s.contains(x) && x != sub {
            let a = choose|a: int| 0 <= a < s.len() && s[a] == x;
            assert(a != j);
            let i = if a < j { a } else { a - 1 };
            assert(t[i] == s[a]);
        }
    }
}

/// The subscribers of one device.
pub struct Subscribers {
    device_id: u64,
    subscribers: Vec<Subscriber>,
}

impl View for Subscribers {
    type V = Seq<Subscriber>;

    closed spec fn view(&self) -> Seq<Subscriber> {
        self.subscribers@
    }
}

impl Subscribers {
    /// The device that the registry belongs to.
    pub closed spec fn device(&self) -> u64 {
        self.device_id
    }

    pub open spec fn wf(&self) -> bool {
        unique_ids(self@)
    }

    /// An empty registry for `device_id`.
    pub fn new(device_id: u64) -> (r: Subscribers)
        ensures
            r.wf(),
            r@ == Seq::<Subscriber>::empty(),
            r.device() == device_id,
    {
        Subscribers { device_id, subscribers: Vec::new() }
    }

    pub fn device_id(&self) -> (r: u64)
        ensures
            r == self.device(),
    {
        self.device_id
    }

    pub fn len(&self) -> (r: usize)
        ensures
            r == self@.len(),
    {
        self.subscribers.len()
    }

    pub fn is_empty(&self) -> (r: bool)
        ensures
            r == (self@.len() == 0),
    {
        self.subscribers.len() == 0
    }

    /// Forgets every subscriber, without notices.
    pub fn clear(&mut self)
        ensures
            final(self).wf(),
            final(self)@ == Seq::<Subscriber>::empty(),
            final(self).device() == old(self).device(),
    {
        self.subscribers.clear();
    }

    /// The subscribers, in registry order.
    pub fn into_vec(self) -> (r: Vec<Subscriber>)
        ensures
            r@ == self@,
    {
        self.subscribers
    }

    /// Where id `id` is held, if it is.
    fn index_of(&self, id: u128) -> (r: Option<usize>)
        ensures
            match r {
                Some(i) => i < self@.len() && key(self@[i as int]) == id as int,
                None => !holds(self@, id as int),
            },
    {
        let mut i: usize = 0;
        while i < self.subscribers.len()
            invariant
                i <= self@.len(),
                forall|j: int| 0 <= j < i ==> key(#[trigger] self@[j]) != id as int,
            decreases self@.len() - i,
        {
            if as_u128_from(&self.subscribers[i].election_id) == id {
                return Some(i);
            }
            i = i + 1;
        }
        None
    }

    /// Where the primary stands, if there is one.
    fn primary_index(&self) -> (r: Option<usize>)
        ensures
            match r {
                Some(i) => i < self@.len() && primary_id(self@) == Some(key(self@[i as int])),
                None => primary_id(self@).is_none(),
            },
    {
        let n = self.subscribers.len();
        if n == 0 {
            return None;
        }
        let ghost s = self@;
        let mut best: usize = 0;
        let mut m = as_u128_from(&self.subscribers[0].election_id);
        let mut i: usize = 1;
        while i < n
            invariant
                n == s.len(),
                s == self@,
                1 <= i <= n,
                best < n,
                m as int == key(s[best as int]),
                m as int == max_key(s.subrange(0, i as int)),
            decreases n - i,
        {
            let k = as_u128_from(&self.subscribers[i].election_id);
            proof {
                assert(s.subrange(0, i + 1).drop_last() =~= s.subrange(0, i as int));
            }
            if k > m {
                m = k;
                best = i;
            }
            i = i + 1;
        }
        proof {
            assert(s.subrange(0, n as int) =~= s);
        }
        Some(best)
    }

    /// The primary's election id, if there is a primary.
    fn get_primary_election_id(&self) -> (r: Option<u128>)
        ensures
            match r {
                Some(p) => primary_id(self@) == Some(p as int),
                None => primary_id(self@).is_none(),
            },
    {
        match self.primary_index() {
            Some(i) => Some(as_u128_from(&self.subscribers[i].election_id)),
            None => None,
        }
    }

    /// The subscriber with the largest election id, if any.
    pub fn get_primary(&self) -> (r: Option<&Subscriber>)
        ensures
            match r {
                Some(sub) => self@.contains(*sub) && primary_id(self@) == Some(key(*sub)),
                None => self@.len() == 0,
            },
    {
        match self.primary_index() {
            Some(i) => Some(&self.subscribers[i]),
            None => None,
        }
    }

    /// The subscriber holding `election_id`, if any.
    pub fn find(&self, election_id: Uint128) -> (r: Option<&Subscriber>)
        ensures
            match r {
                Some(sub) => self@.contains(*sub) && key(*sub) == value_of(election_id),
                None => !holds(self@, value_of(election_id)),
            },
    {
        let id = as_u128_from(&election_id);
        match self.index_of(id) {
            Some(i) => Some(&self.subscribers[i]),
            None => None,
        }
    }

    /// The notice for `subscriber` when `primary` is the primary's id.
    fn notify_one(&self, subscriber: &Subscriber, primary: u128) -> (r: Notice)
        ensures
            r == notice_for(self.device(), *subscriber, primary as int),
    {
        let election_id = as_u128_from(&subscriber.election_id);
        let status = if election_id == primary {
            ArbitrationStatus::Primary
        } else {
            ArbitrationStatus::NotPrimary
        };
        Notice {
            outbound: subscriber.outbound,
            election_id: subscriber.election_id,
            device_id: self.device_id,
            primary_election_id: as_uint128_from(primary),
            status,
        }
    }

    /// One notice for every subscriber.
    fn notify_all(&self, primary: u128) -> (r: Vec<Notice>)
        ensures
            r@ == notify_all_spec(self.device(), self@, primary as int),
    {
        let mut r: Vec<Notice> = Vec::new();
        let mut i: usize = 0;
        while i < self.subscribers.len()
            invariant
                i <= self@.len(),
                r@ == notify_all_spec(self.device(), self@.subrange(0, i as int), primary as int),
            decreases self@.len() - i,
        {
            let n = self.notify_one(&self.subscribers[i], primary);
            r.push(n);
            proof {
                assert(notify_all_spec(self.device(), self@.subrange(0, i + 1), primary as int)
                    =~= notify_all_spec(self.device(), self@.subrange(0, i as int), primary as int).push(n));
            }
            i = i + 1;
        }
        proof {
            assert(self@.subrange(0, self@.len() as int) =~= self@);
        }
        r
    }

    /// Records `subscriber` under its election id, replacing one that holds the
    /// same id. The newcomer alone hears back when the primary stays; everyone
    /// hears of a new primary.
    pub fn insert(&mut self, subscriber: &Subscriber) -> (r: Vec<Notice>)
        requires
            old(self).wf(),
        ensures
            final(self).wf(),
            final(self).device() == old(self).device(),
            final(self)@ == insert_spec(old(self)@, *subscriber),
            r@ == insert_notices(old(self).device(), old(self)@, *subscriber),
    {
        let ghost s = self@;
        let old_primary_id = self.get_primary_election_id();
        let election_id = as_u128_from(&subscriber.election_id);
        match self.index_of(election_id) {
            Some(i) => {
                proof {
                    lemma_id_index(s, key(*subscriber), i as int);
                }
                self.subscribers.set(i, *subscriber);
            },
            None => {
                self.subscribers.push(*subscriber);
            },
        }
        proof {
            lemma_insert_unique(s, *subscriber);
        }
        let new_primary_id = self.get_primary_election_id();
        match new_primary_id {
            Some(p) => {
                let same = match old_primary_id {
                    Some(o) => o == p,
                    None => false,
                };
                if same {
                    let n = self.notify_one(subscriber, p);
                    let mut r: Vec<Notice> = Vec::new();
                    r.push(n);
                    proof {
                        assert(r@ =~= seq![n]);
                    }
                    r
                } else {
                    self.notify_all(p)
                }
            },
            None => Vec::new(),
        }
    }

    /// Removes the subscriber holding `election_id`, if any. When one was removed
    /// and someone is left, everyone left hears who is primary.
    pub fn delete(&mut self, election_id: Uint128) -> (r: Vec<Notice>)
        requires
            old(self).wf(),
        ensures
            final(self).wf(),
            final(self).device() == old(self).device(),
            final(self)@ == delete_spec(old(self)@, value_of(election_id)),
            r@ == delete_notices(old(self).device(), old(self)@, value_of(election_id)),
    {
        let ghost s = self@;
        let id = as_u128_from(&election_id);
        let removed = match self.index_of(id) {
            Some(i) => {
                proof {
                    lemma_id_index(s, id as int, i as int);
                }
                self.subscribers.remove(i);
                true
            },
            None => false,
        };
        proof {
            lemma_delete_unique(s, id as int);
        }
        if removed {
            match self.get_primary_election_id() {
                Some(p) => self.notify_all(p),
                None => Vec::new(),
            }
        } else {
            Vec::new()
        }
    }

    /// The subscriber holding `election_id`, if any, for changing in place. A
    /// caller that changes its election id may leave ids duplicated.
    pub fn find_mut(&mut self, election_id: Uint128) -> (r: Option<&mut Subscriber>)
        ensures
            final(self).device() == old(self).device(),
            match r {
                Some(sub) => exists|i: int|
                    0 <= i < old(self)@.len() && old(self)@[i] == *sub && key(*sub) == value_of(
                        election_id,
                    ) && final(self)@ == old(self)@.update(i, *final(sub)),
                None => !holds(old(self)@, value_of(election_id)) && final(self)@ == old(self)@,
            },
    {
        let id = as_u128_from(&election_id);
        match self.index_of(id) {
            Some(i) => Some(&mut self.subscribers[i]),
            None => None,
        }
    }
}

} // verus!
