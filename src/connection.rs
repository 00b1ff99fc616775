//! Per-stream arbitration state: for each known device, whether this stream
//! is subscribed and under which election id, and the protocol steps that keep
//! it in line with the device registries.

use crate::p4runtime::{value_of, Uint128};
use crate::subscribers::{
    delete_notices, delete_spec, holds, insert_notices, insert_spec, lemma_delete_removes_exactly,
    lemma_delete_unique, lemma_insert_unique, max_key, notify_all_spec, unique_ids, Notice,
    Subscriber, Subscribers,
};
use vstd::prelude::*;

verus! {

/// The state of one device on one stream.
#[derive(Clone, Copy, Debug, PartialEq, Eq, Structural)]
pub struct DeviceStatus {
    pub device_id: u64,
    pub election_id: Option<Uint128>,
    pub subscribed: bool,
}

pub open spec fn has_device(s: Seq<DeviceStatus>, d: u64) -> bool {
    exists|i: int| 0 <= i < s.len() && s[i].device_id == d
}

pub open spec fn device_index(s: Seq<DeviceStatus>, d: u64) -> int {
    choose|i: int| 0 <= i < s.len() && s[i].device_id == d
}

pub open spec fn unique_devices(s: Seq<DeviceStatus>) -> bool {
    forall|i: int, j: int|
        0 <= i < s.len() && 0 <= j < s.len() && i != j ==> s[i].device_id != s[j].device_id
}

/// Each known device with its recorded election id and subscribed flag.
pub open spec fn status_map(s: Seq<DeviceStatus>) -> Map<u64, (Option<Uint128>, bool)> {
    Map::new(
        |d: u64| has_device(s, d),
        |d: u64| (s[device_index(s, d)].election_id, s[device_index(s, d)].subscribed),
    )
}

proof fn lemma_device_index(s: Seq<DeviceStatus>, d: u64, i: int)
    requires
        unique_devices(s),
        0 <= i < s.len(),
        s[i].device_id == d,
    ensures
        has_device(s, d),
        device_index(s, d) == i,
{
    assert(has_device(s, d));
    let j = device_index(s, d);
    assert(s[j].device_id == d);
}

/// Replacing the record of a device in place changes the map at that device only.
proof fn lemma_status_update(s: Seq<DeviceStatus>, i: int, x: DeviceStatus)
    requires
        unique_devices(s),
        0 <= i < s.len(),
        s[i].device_id == x.device_id,
    ensures
        unique_devices(s.update(i, x)),
        status_map(s.update(i, x)) == status_map(s).insert(
            x.device_id,
            (x.election_id, x.subscribed),
        ),
{
    let t = s.update(i, x);
    assert(unique_devices(t)) by {
        assert forall|a: int, b: int| 0 <= a < t.len() && 0 <= b < t.len() && a != b implies t[a].device_id
            != t[b].device_id by {
            if a != i && b != i {
                assert(t[a] == s[a] && t[b] == s[b]);
            } else if a == i {
                assert(t[b] == s[b]);
            } else {
                assert(t[a] == s[a]);
            }
        }
    }
    assert forall|d: u64| has_device(t, d) <==> has_device(s, d) by {
        if has_device(t, d) {
            let j = choose|j: int| 0 <= j < t.len() && t[j].device_id == d;
            if j != i {
                assert(t[j] == s[j]);
            }
        }
        if has_device(s, d) {
            let j = choose|j: int| 0 <= j < s.len() && s[j].device_id == d;
            if j != i {
                assert(t[j] == s[j]);
            } else {
                assert(t[i].device_id == d);
            }
        }
    }
    assert forall|d: u64| #[trigger] has_device(t, d) implies device_index(t, d) == device_index(
        s,
        d,
    ) by {
        let j = choose|j: int| 0 <= j < s.len() && s[j].device_id == d;
        lemma_device_index(s, d, j);
        if j != i {
            assert(t[j] == s[j]);
        }
        lemma_device_index(t, d, j);
    }
    lemma_device_index(t, x.device_id, i);
    assert(status_map(t) =~= status_map(s).insert(x.device_id, (x.election_id, x.subscribed)));
}

/// The election id an arbitration update claims: zero when it names none.
pub open spec fn claimed_id(election_id: Option<Uint128>) -> Uint128 {
    match election_id {
        Some(e) => e,
        None => Uint128 { high: 0, low: 0 },
    }
}

/// Stream state, device registry and notices after an arbitration update for
/// device `d`. Unknown devices and already-claimed ids are ignored. A first claim
/// subscribes; a new claim on a subscribed device deletes the old subscriber
/// and inserts the new one.
pub open spec fn arbitrate_spec(
    st: Map<u64, (Option<Uint128>, bool)>,
    s: Seq<Subscriber>,
    d: u64,
    election_id: Option<Uint128>,
    outbound: u64,
) -> (Map<u64, (Option<Uint128>, bool)>, Seq<Subscriber>, Seq<Notice>) {
    let e = claimed_id(election_id);
    let sub = Subscriber { election_id: e, outbound };
    if !st.contains_key(d) || holds(s, value_of(e)) {
        (st, s, Seq::empty())
    } else if st[d].1 {
        let old_id = value_of(st[d].0.unwrap());
        let s1 = delete_spec(s, old_id);
        (
            st.insert(d, (Some(e), true)),
            insert_spec(s1, sub),
            delete_notices(d, s, old_id) + insert_notices(d, s1, sub),
        )
    } else {
        (st.insert(d, (Some(e), true)), insert_spec(s, sub), insert_notices(d, s, sub))
    }
}

/// Stream state, device registry and notices after the stream lets go of
/// device `d`: its subscriber is deleted and the device is unsubscribed.
pub open spec fn release_spec(
    st: Map<u64, (Option<Uint128>, bool)>,
    s: Seq<Subscriber>,
    d: u64,
) -> (Map<u64, (Option<Uint128>, bool)>, Seq<Subscriber>, Seq<Notice>) {
    if st.contains_key(d) && st[d].1 {
        let id = value_of(st[d].0.unwrap());
        (st.insert(d, (None, false)), delete_spec(s, id), delete_notices(d, s, id))
    } else {
        (st, s, Seq::empty())
    }
}

/// An arbitration update that claims an election id already held in the
/// registry changes nothing: the holder is not replaced, the number of
/// subscribers stays, the stream state stays and nobody is notified.
pub proof fn lemma_claimed_id_ignored(
    st: Map<u64, (Option<Uint128>, bool)>,
    s: Seq<Subscriber>,
    d: u64,
    election_id: Option<Uint128>,
    outbound: u64,
)
    requires
        holds(s, value_of(claimed_id(election_id))),
    ensures
        arbitrate_spec(st, s, d, election_id, outbound) == (st, s, Seq::<Notice>::empty()),
{
}

/// A stream subscribed to two devices, each registry holding the stream's own
/// subscriber, tears down: both devices end unsubscribed, each registry loses
/// exactly the stream's subscriber, and whoever remains in a registry is told
/// who is primary now.
pub proof fn lemma_teardown_two_devices(
    st: Map<u64, (Option<Uint128>, bool)>,
    s1: Seq<Subscriber>,
    s2: Seq<Subscriber>,
    d1: u64,
    d2: u64,
    outbound: u64,
)
    requires
        d1 != d2,
        st.contains_key(d1) && st[d1] == (st[d1].0, true) && st[d1].0.is_some(),
        st.contains_key(d2) && st[d2] == (st[d2].0, true) && st[d2].0.is_some(),
        unique_ids(s1),
        unique_ids(s2),
        s1.contains(Subscriber { election_id: st[d1].0.unwrap(), outbound }),
        s2.contains(Subscriber { election_id: st[d2].0.unwrap(), outbound }),
    ensures
        ({
            let own1 = Subscriber { election_id: st[d1].0.unwrap(), outbound };
            let own2 = Subscriber { election_id: st[d2].0.unwrap(), outbound };
            let (st1, t1, n1) = release_spec(st, s1, d1);
            let (st2, t2, n2) = release_spec(st1, s2, d2);
            &&& st2[d1] == (None::<Uint128>, false)
            &&& st2[d2] == (None::<Uint128>, false)
            &&& t1.len() == s1.len() - 1
            &&& t2.len() == s2.len() - 1
            &&& forall|x: Subscriber| t1.contains(x) <==> (s1.contains(x) && x != own1)
            &&& forall|x: Subscriber| t2.contains(x) <==> (s2.contains(x) && x != own2)
            &&& n1 == (if t1.len() > 0 {
                notify_all_spec(d1, t1, max_key(t1))
            } else {
                Seq::<Notice>::empty()
            })
            &&& n2 == (if t2.len() > 0 {
                notify_all_spec(d2, t2, max_key(t2))
            } else {
                Seq::<Notice>::empty()
            })
        }),
{
    let own1 = Subscriber { election_id: st[d1].0.unwrap(), outbound };
    let own2 = Subscriber { election_id: st[d2].0.unwrap(), outbound };
    lemma_delete_removes_exactly(s1, own1);
    lemma_delete_removes_exactly(s2, own2);
    let st1 = st.insert(d1, (None, false));
    assert(st1[d2] == st[d2]);
}

/// The stream's record of device `d` agrees with the device's registry: when
/// the device is marked subscribed, an election id is recorded and the registry
/// holds the stream's own subscriber under it.
pub open spec fn agrees(
    st: Map<u64, (Option<Uint128>, bool)>,
    s: Seq<Subscriber>,
    d: u64,
    outbound: u64,
) -> bool {
    st.contains_key(d) && st[d].1 ==> st[d].0.is_some() && s.contains(
        Subscriber { election_id: st[d].0.unwrap(), outbound },
    )
}

/// Arbitration keeps the stream's record and the registry in agreement, and
/// keeps election ids unique in the registry.
pub proof fn lemma_arbitrate_agrees(
    st: Map<u64, (Option<Uint128>, bool)>,
    s: Seq<Subscriber>,
    d: u64,
    election_id: Option<Uint128>,
    outbound: u64,
)
    requires
        unique_ids(s),
        agrees(st, s, d, outbound),
    ensures
        ({
            let (st2, s2, n) = arbitrate_spec(st, s, d, election_id, outbound);
            agrees(st2, s2, d, outbound) && unique_ids(s2)
        }),
{
    let e = claimed_id(election_id);
    let sub = Subscriber { election_id: e, outbound };
    if st.contains_key(d) && !holds(s, value_of(e)) {
        if st[d].1 {
            let old_id = value_of(st[d].0.unwrap());
            lemma_delete_unique(s, old_id);
            lemma_insert_unique(delete_spec(s, old_id), sub);
        } else {
            lemma_insert_unique(s, sub);
        }
    }
}

/// Letting go of a device leaves it unsubscribed, in agreement with the
/// registry, which keeps unique election ids.
pub proof fn lemma_release_agrees(
    st: Map<u64, (Option<Uint128>, bool)>,
    s: Seq<Subscriber>,
    d: u64,
    outbound: u64,
)
    requires
        unique_ids(s),
        agrees(st, s, d, outbound),
    ensures
        ({
            let (st2, s2, n) = release_spec(st, s, d);
            &&& agrees(st2, s2, d, outbound)
            &&& unique_ids(s2)
            &&& st.contains_key(d) ==> !st2[d].1
        }),
{
    if st.contains_key(d) && st[d].1 {
        lemma_delete_unique(s, value_of(st[d].0.unwrap()));
    }
}

/// The arbitration state of one stream.
pub struct Connection {
    status: Vec<DeviceStatus>,
}

impl Connection {
    /// Each known device with its election id and subscribed flag.
    pub closed spec fn status(&self) -> Map<u64, (Option<Uint128>, bool)> {
        status_map(self.status@)
    }

    /// A device is subscribed exactly when an election id is recorded for it.
    pub closed spec fn wf(&self) -> bool {
        &&& unique_devices(self.status@)
        &&& forall|i: int|
            0 <= i < self.status@.len() ==> (#[trigger] self.status@[i]).subscribed
                == self.status@[i].election_id.is_some()
    }

    /// A fresh stream state: every device in `devices` known, none subscribed.
    pub fn new(devices: &Vec<u64>) -> (r: Connection)
        ensures
            r.wf(),
            r.status() == Map::new(
                |d: u64| devices@.contains(d),
                |d: u64| (None::<Uint128>, false),
            ),
    {
        let mut status: Vec<DeviceStatus> = Vec::new();
        let mut i: usize = 0;
        while i < devices.len()
            invariant
                i <= devices@.len(),
                unique_devices(status@),
                forall|j: int| 0 <= j < status@.len() ==> (#[trigger] status@[j]).election_id.is_none()
                    && !status@[j].subscribed,
                forall|d: u64|
                    has_device(status@, d) <==> exists|k: int| 0 <= k < i && devices@[k] == d,
            decreases devices@.len() - i,
        {
            let d = devices[i];
            let mut found = false;
            let mut j: usize = 0;
            while j < status.len()
                invariant
                    j <= status@.len(),
                    found ==> has_device(status@, d),
                    !found ==> forall|k: int| 0 <= k < j ==> (#[trigger] status@[k]).device_id != d,
                decreases status@.len() - j,
            {
                if status[j].device_id == d {
                    found = true;
                }
                j = j + 1;
            }
            let ghost before = status@;
            if !found {
                status.push(DeviceStatus { device_id: d, election_id: None, subscribed: false });
                proof {
                    assert forall|a: int, b: int|
                        0 <= a < status@.len() && 0 <= b < status@.len() && a != b implies status@[a].device_id
                        != status@[b].device_id by {
                        if a < before.len() && b < before.len() {
                            assert(status@[a] == before[a] && status@[b] == before[b]);
                        } else if a < before.len() {
                            assert(status@[a] == before[a]);
                        } else {
                            assert(status@[b] == before[b]);
                        }
                    }
                }
            }
            proof {
                assert forall|e: u64|
                    has_device(status@, e) <==> exists|k: int| 0 <= k < i + 1 && devices@[k] == e by {
                    if has_device(status@, e) {
                        let k = choose|k: int| 0 <= k < status@.len() && status@[k].device_id == e;
                        if k < before.len() {
                            assert(status@[k] == before[k]);
                            assert(has_device(before, e));
                            let w = choose|w: int| 0 <= w < i && devices@[w] == e;
                            assert(0 <= w < i + 1 && devices@[w] == e);
                        } else {
                            assert(devices@[i as int] == e);
                        }
                    }
                    if exists|k: int| 0 <= k < i + 1 && devices@[k] == e {
                        let w = choose|w: int| 0 <= w < i + 1 && devices@[w] == e;
                        if w < i {
                            assert(has_device(before, e));
                            let k = choose|k: int| 0 <= k < before.len() && before[k].device_id == e;
                            assert(status@[k] == before[k]);
                        } else if !found {
                            assert(status@[before.len() as int].device_id == e);
                        }
                    }
                }
            }
            i = i + 1;
        }
        let r = Connection { status };
        proof {
            assert forall|d: u64| has_device(r.status@, d) <==> devices@.contains(d) by {
                if devices@.contains(d) {
                    let k = choose|k: int| 0 <= k < devices@.len() && devices@[k] == d;
                }
            }
            assert(r.status() =~= Map::new(
                |d: u64| devices@.contains(d),
                |d: u64| (None::<Uint128>, false),
            ));
        }
        r
    }

    /// Where device `device_id` is recorded, if it is known.
    fn index_of(&self, device_id: u64) -> (r: Option<usize>)
        requires
            self.wf(),
        ensures
            match r {
                Some(i) => i < self.status@.len() && device_index(self.status@, device_id) == i
                    && self.status().contains_key(device_id) && self.status@[i as int].device_id
                    == device_id,
                None => !self.status().contains_key(device_id),
            },
    {
        let mut i: usize = 0;
        while i < self.status.len()
            invariant
                self.wf(),
                i <= self.status@.len(),
                forall|j: int| 0 <= j < i ==> (#[trigger] self.status@[j]).device_id != device_id,
            decreases self.status@.len() - i,
        {
            if self.status[i].device_id == device_id {
                proof {
                    lemma_device_index(self.status@, device_id, i as int);
                }
                return Some(i);
            }
            i = i + 1;
        }
        None
    }

    /// Whether `device_id` is one of the stream's devices.
    pub fn knows(&self, device_id: u64) -> (r: bool)
        requires
            self.wf(),
        ensures
            r == self.status().contains_key(device_id),
    {
        self.index_of(device_id).is_some()
    }

    /// The election id recorded for a known device.
    pub fn get_election_id(&self, device_id: u64) -> (r: Option<Uint128>)
        requires
            self.wf(),
            self.status().contains_key(device_id),
        ensures
            r == self.status()[device_id].0,
    {
        let i = self.index_of(device_id).unwrap();
        self.status[i].election_id
    }

    /// Whether the stream is subscribed to a known device.
    pub fn subscribed(&self, device_id: u64) -> (r: bool)
        requires
            self.wf(),
            self.status().contains_key(device_id),
        ensures
            r == self.status()[device_id].1,
            r == self.status()[device_id].0.is_some(),
    {
        let i = self.index_of(device_id).unwrap();
        self.status[i].subscribed
    }

    /// Marks a known device subscribed under `election_id`.
    pub fn subscribe(&mut self, device_id: u64, election_id: Uint128)
        requires
            old(self).wf(),
            old(self).status().contains_key(device_id),
        ensures
            final(self).wf(),
            final(self).status() == old(self).status().insert(device_id, (Some(election_id), true)),
    {
        self.set(device_id, Some(election_id), true);
    }

    /// Records a new election id for a device: the same as `subscribe`.
    pub fn resubscribe(&mut self, device_id: u64, election_id: Uint128)
        requires
            old(self).wf(),
            old(self).status().contains_key(device_id),
        ensures
            final(self).wf(),
            final(self).status() == old(self).status().insert(device_id, (Some(election_id), true)),
    {
        self.subscribe(device_id, election_id);
    }

    /// Clears the subscription of a known device.
    pub fn unsubscribe(&mut self, device_id: u64)
        requires
            old(self).wf(),
            old(self).status().contains_key(device_id),
        ensures
            final(self).wf(),
            final(self).status() == old(self).status().insert(device_id, (None, false)),
    {
        self.set(device_id, None, false);
    }

    fn set(&mut self, device_id: u64, election_id: Option<Uint128>, subscribed: bool)
        requires
            old(self).wf(),
            old(self).status().contains_key(device_id),
            subscribed == election_id.is_some(),
        ensures
            final(self).wf(),
            final(self).status() == old(self).status().insert(device_id, (election_id, subscribed)),
    {
        let ghost s = self.status@;
        let i = self.index_of(device_id).unwrap();
        let x = DeviceStatus { device_id, election_id, subscribed };
        self.status.set(i, x);
        proof {
            lemma_status_update(s, i as int, x);
            assert forall|j: int| 0 <= j < self.status@.len() implies (#[trigger] self.status@[j]).subscribed
                == self.status@[j].election_id.is_some() by {
                if j != i {
                    assert(self.status@[j] == s[j]);
                }
            }
        }
    }

    /// The subscribed devices with their election ids, each device once.
    pub fn get_subscribed_list(&self) -> (r: Vec<(u64, Uint128)>)
        requires
            self.wf(),
        ensures
            forall|i: int|
                0 <= i < r@.len() ==> self.status().contains_key(#[trigger] r@[i].0)
                    && self.status()[r@[i].0].0 == Some(r@[i].1),
            forall|d: u64|
                self.status().contains_key(d) && #[trigger] self.status()[d].1 ==> exists|i: int|
                    0 <= i < r@.len() && r@[i].0 == d,
            forall|i: int, j: int| 0 <= i < j < r@.len() ==> r@[i].0 != r@[j].0,
    {
        let ghost s = self.status@;
        let ghost mut src: Seq<int> = Seq::empty();
        let mut r: Vec<(u64, Uint128)> = Vec::new();
        let mut i: usize = 0;
        while i < self.status.len()
            invariant
                self.wf(),
                s == self.status@,
                i <= s.len(),
                src.len() == r@.len(),
                forall|k: int|
                    0 <= k < r@.len() ==> 0 <= #[trigger] src[k] < i && s[src[k]].device_id
                        == r@[k].0 && s[src[k]].election_id == Some(r@[k].1),
                forall|a: int, b: int| 0 <= a < b < src.len() ==> src[a] < src[b],
                forall|j: int|
                    0 <= j < i && (#[trigger] s[j]).subscribed ==> exists|k: int|
                        0 <= k < src.len() && src[k] == j,
            decreases s.len() - i,
        {
            let x = self.status[i];
            proof {
                assert(s[i as int].subscribed == s[i as int].election_id.is_some());
            }
            match x.election_id {
                Some(e) => {
                    r.push((x.device_id, e));
                    proof {
                        let old_src = src;
                        src = src.push(i as int);
                        assert forall|j: int|
                            0 <= j < i + 1 && (#[trigger] s[j]).subscribed implies exists|k: int|
                                0 <= k < src.len() && src[k] == j by {
                            if j < i {
                                let k = choose|k: int| 0 <= k < old_src.len() && old_src[k] == j;
                                assert(src[k] == j);
                            } else {
                                assert(src[src.len() - 1] == j);
                            }
                        }
                    }
                },
                None => {},
            }
            i = i + 1;
        }
        proof {
            assert forall|k: int| 0 <= k < r@.len() implies self.status().contains_key(
                #[trigger] r@[k].0,
            ) && self.status()[r@[k].0].0 == Some(r@[k].1) by {
                lemma_device_index(s, r@[k].0, src[k]);
            }
            assert forall|d: u64|
                self.status().contains_key(d) && #[trigger] self.status()[d].1 implies exists|k: int|
                    0 <= k < r@.len() && r@[k].0 == d by {
                let j = device_index(s, d);
                assert(s[j].subscribed);
                let k = choose|k: int| 0 <= k < src.len() && src[k] == j;
                assert(r@[k].0 == d);
            }
            assert forall|a: int, b: int| 0 <= a < b < r@.len() implies r@[a].0 != r@[b].0 by {
                assert(src[a] != src[b]);
                assert(s[src[a]].device_id != s[src[b]].device_id);
            }
        }
        r
    }

    /// Handles an arbitration update for `device_id` against that device's
    /// registry; returns the notices owed.
    pub fn arbitrate(
        &mut self,
        device_id: u64,
        election_id: Option<Uint128>,
        registry: &mut Subscribers,
        outbound: u64,
    ) -> (r: Vec<Notice>)
        requires
            old(self).wf(),
            old(registry).wf(),
            old(registry).device() == device_id,
        ensures
            final(self).wf(),
            final(registry).wf(),
            final(registry).device() == device_id,
            (final(self).status(), final(registry)@, r@) == arbitrate_spec(
                old(self).status(),
                old(registry)@,
                device_id,
                election_id,
                outbound,
            ),
    {
        if !self.knows(device_id) {
            return Vec::new();
        }
        let e = match election_id {
            Some(e) => e,
            None => Uint128 { high: 0, low: 0 },
        };
        if registry.find(e).is_some() {
            return Vec::new();
        }
        let sub = Subscriber::new(e, outbound);
        if self.subscribed(device_id) {
            let old_id = self.get_election_id(device_id).unwrap();
            let mut notices = registry.delete(old_id);
            let mut more = registry.insert(&sub);
            notices.append(&mut more);
            self.resubscribe(device_id, e);
            notices
        } else {
            let notices = registry.insert(&sub);
            self.subscribe(device_id, e);
            notices
        }
    }

    /// Lets go of `device_id` when the stream ends: deletes the stream's
    /// subscriber from the device's registry and unsubscribes.
    pub fn release(&mut self, device_id: u64, registry: &mut Subscribers) -> (r: Vec<Notice>)
        requires
            old(self).wf(),
            old(registry).wf(),
            old(registry).device() == device_id,
        ensures
            final(self).wf(),
            final(registry).wf(),
            final(registry).device() == device_id,
            (final(self).status(), final(registry)@, r@) == release_spec(
                old(self).status(),
                old(registry)@,
                device_id,
            ),
    {
        if !self.knows(device_id) {
            return Vec::new();
        }
        if !self.subscribed(device_id) {
            return Vec::new();
        }
        let id = self.get_election_id(device_id).unwrap();
        let notices = registry.delete(id);
        self.unsubscribe(device_id);
        notices
    }
}

} // verus!
