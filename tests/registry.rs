use vnp4rs::p4runtime::Uint128;
use vnp4rs::subscribers::{ArbitrationStatus, Notice, Subscriber, Subscribers};

fn id(low: u64) -> Uint128 {
    Uint128 { high: 0, low }
}

fn notice(outbound: u64, own: u64, primary: u64, status: ArbitrationStatus) -> Notice {
    Notice { outbound, election_id: id(own), device_id: 7, primary_election_id: id(primary), status }
}

#[test]
fn first_subscriber_is_told_it_is_primary() {
    let mut r = Subscribers::new(7);
    let n = r.insert(&Subscriber::new(id(5), 1));
    assert_eq!(n, vec![notice(1, 5, 5, ArbitrationStatus::Primary)]);
    assert_eq!(r.get_primary(), Some(&Subscriber::new(id(5), 1)));
    assert_eq!(n[0].message(), "Primary client");
}

#[test]
fn higher_id_takes_over_then_lower_leaves() {
    let mut r = Subscribers::new(7);
    r.insert(&Subscriber::new(id(5), 1));
    let mut n = r.insert(&Subscriber::new(id(10), 2));
    n.sort_by_key(|x| x.outbound);
    assert_eq!(
        n,
        vec![notice(1, 5, 10, ArbitrationStatus::NotPrimary), notice(2, 10, 10, ArbitrationStatus::Primary)]
    );
    assert_eq!(n[0].message(), "Not primary client");
    assert_eq!(r.get_primary().map(|s| s.election_id), Some(id(10)));
    let n = r.delete(id(5));
    assert_eq!(n, vec![notice(2, 10, 10, ArbitrationStatus::Primary)]);
    assert_eq!(r.get_primary().map(|s| s.election_id), Some(id(10)));
    assert_eq!(r.len(), 1);
}

#[test]
fn lower_newcomer_alone_hears_back() {
    let mut r = Subscribers::new(7);
    r.insert(&Subscriber::new(id(10), 2));
    let n = r.insert(&Subscriber::new(id(3), 4));
    assert_eq!(n, vec![notice(4, 3, 10, ArbitrationStatus::NotPrimary)]);
}

#[test]
fn primary_tracks_maximum_through_changes() {
    let mut r = Subscribers::new(7);
    assert!(r.get_primary().is_none());
    for (k, o) in [(4u64, 1u64), (9, 2), (2, 3), (7, 4)] {
        r.insert(&Subscriber::new(id(k), o));
    }
    assert_eq!(r.get_primary().map(|s| s.election_id), Some(id(9)));
    r.delete(id(9));
    assert_eq!(r.get_primary().map(|s| s.election_id), Some(id(7)));
    r.delete(id(7));
    r.delete(id(4));
    assert_eq!(r.get_primary().map(|s| s.election_id), Some(id(2)));
    let n = r.delete(id(2));
    assert!(n.is_empty());
    assert!(r.get_primary().is_none());
    assert!(r.is_empty());
}

#[test]
fn high_word_decides_primary() {
    let mut r = Subscribers::new(7);
    r.insert(&Subscriber::new(Uint128 { high: 0, low: u64::MAX }, 1));
    r.insert(&Subscriber::new(Uint128 { high: 1, low: 0 }, 2));
    assert_eq!(r.get_primary().map(|s| s.outbound), Some(2));
}

#[test]
fn held_id_insert_keeps_count() {
    let mut r = Subscribers::new(7);
    r.insert(&Subscriber::new(id(5), 1));
    r.insert(&Subscriber::new(id(6), 2));
    r.insert(&Subscriber::new(id(5), 3));
    assert_eq!(r.len(), 2);
}

#[test]
fn delete_of_absent_id_changes_nothing() {
    let mut r = Subscribers::new(7);
    r.insert(&Subscriber::new(id(5), 1));
    r.insert(&Subscriber::new(id(8), 2));
    let n = r.delete(id(6));
    assert!(n.is_empty());
    assert_eq!(r.len(), 2);
    assert_eq!(r.get_primary().map(|s| s.election_id), Some(id(8)));
    assert!(r.find(id(5)).is_some());
}

#[test]
fn find_and_find_mut() {
    let mut r = Subscribers::new(7);
    r.insert(&Subscriber::new(id(5), 1));
    assert_eq!(r.find(id(5)), Some(&Subscriber::new(id(5), 1)));
    assert!(r.find(id(4)).is_none());
    if let Some(s) = r.find_mut(id(5)) {
        s.outbound = 9;
    }
    assert_eq!(r.find(id(5)).map(|s| s.outbound), Some(9));
    assert!(r.find_mut(id(4)).is_none());
}

#[test]
fn clear_and_into_vec() {
    let mut r = Subscribers::new(3);
    r.insert(&Subscriber::new(id(1), 1));
    r.insert(&Subscriber::new(id(2), 2));
    assert_eq!(r.device_id(), 3);
    let mut r2 = Subscribers::new(3);
    r2.insert(&Subscriber::new(id(1), 1));
    assert_eq!(r2.into_vec(), vec![Subscriber::new(id(1), 1)]);
    r.clear();
    assert!(r.is_empty());
}
