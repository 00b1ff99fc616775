use vnp4rs::connection::Connection;
use vnp4rs::p4runtime::Uint128;
use vnp4rs::subscribers::{ArbitrationStatus, Subscriber, Subscribers};

fn id(low: u64) -> Uint128 {
    Uint128 { high: 0, low }
}

#[test]
fn fresh_connection_knows_devices_unsubscribed() {
    let c = Connection::new(&vec![1, 2, 2]);
    assert!(c.knows(1) && c.knows(2) && !c.knows(3));
    assert!(!c.subscribed(1));
    assert_eq!(c.get_election_id(2), None);
    assert!(c.get_subscribed_list().is_empty());
}

#[test]
fn subscribe_resubscribe_unsubscribe() {
    let mut c = Connection::new(&vec![1, 2]);
    c.subscribe(1, id(5));
    assert!(c.subscribed(1));
    assert_eq!(c.get_election_id(1), Some(id(5)));
    c.resubscribe(1, id(6));
    assert_eq!(c.get_election_id(1), Some(id(6)));
    c.subscribe(2, id(9));
    let mut list = c.get_subscribed_list();
    list.sort_by_key(|x| x.0);
    assert_eq!(list, vec![(1, id(6)), (2, id(9))]);
    c.unsubscribe(1);
    assert!(!c.subscribed(1));
    assert_eq!(c.get_election_id(1), None);
    assert_eq!(c.get_subscribed_list(), vec![(2, id(9))]);
}

#[test]
fn unknown_device_update_is_ignored() {
    let mut c = Connection::new(&vec![1]);
    let mut r = Subscribers::new(4);
    let n = c.arbitrate(4, Some(id(5)), &mut r, 1);
    assert!(n.is_empty());
    assert!(r.is_empty());
}

#[test]
fn first_claim_subscribes() {
    let mut c = Connection::new(&vec![1]);
    let mut r = Subscribers::new(1);
    let n = c.arbitrate(1, Some(id(5)), &mut r, 11);
    assert_eq!(n.len(), 1);
    assert_eq!(n[0].outbound, 11);
    assert_eq!(n[0].status, ArbitrationStatus::Primary);
    assert_eq!(c.get_election_id(1), Some(id(5)));
    assert_eq!(r.find(id(5)), Some(&Subscriber::new(id(5), 11)));
}

#[test]
fn missing_election_id_claims_zero() {
    let mut c = Connection::new(&vec![1]);
    let mut r = Subscribers::new(1);
    c.arbitrate(1, None, &mut r, 11);
    assert_eq!(c.get_election_id(1), Some(id(0)));
    assert!(r.find(id(0)).is_some());
}

#[test]
fn claimed_id_is_not_taken_over() {
    let mut a = Connection::new(&vec![1]);
    let mut b = Connection::new(&vec![1]);
    let mut r = Subscribers::new(1);
    a.arbitrate(1, Some(id(5)), &mut r, 1);
    let n = b.arbitrate(1, Some(id(5)), &mut r, 2);
    assert!(n.is_empty());
    assert!(!b.subscribed(1));
    assert_eq!(r.len(), 1);
    assert_eq!(r.find(id(5)).map(|s| s.outbound), Some(1));
}

#[test]
fn reelection_moves_the_subscriber() {
    let mut a = Connection::new(&vec![1]);
    let mut b = Connection::new(&vec![1]);
    let mut r = Subscribers::new(1);
    a.arbitrate(1, Some(id(5)), &mut r, 1);
    b.arbitrate(1, Some(id(3)), &mut r, 2);
    let n = b.arbitrate(1, Some(id(8)), &mut r, 2);
    assert_eq!(b.get_election_id(1), Some(id(8)));
    assert!(r.find(id(3)).is_none());
    assert_eq!(r.len(), 2);
    assert_eq!(r.get_primary().map(|s| s.outbound), Some(2));
    // deleting 3 tells the one left (a) that 5 is primary; inserting 8 tells everyone
    assert_eq!(n.len(), 3);
    assert_eq!(n[0].outbound, 1);
    assert_eq!(n[0].primary_election_id, id(5));
    assert!(n[1..].iter().all(|x| x.primary_election_id == id(8)));
    // the same id again is already held (by b itself): nothing changes
    let n = b.arbitrate(1, Some(id(8)), &mut r, 2);
    assert!(n.is_empty());
}

#[test]
fn teardown_leaves_both_devices() {
    let mut a = Connection::new(&vec![1, 2]);
    let mut other = Connection::new(&vec![1, 2]);
    let mut r1 = Subscribers::new(1);
    let mut r2 = Subscribers::new(2);
    a.arbitrate(1, Some(id(9)), &mut r1, 1);
    a.arbitrate(2, Some(id(4)), &mut r2, 1);
    other.arbitrate(1, Some(id(3)), &mut r1, 2);
    let n1 = a.release(1, &mut r1);
    let n2 = a.release(2, &mut r2);
    assert!(!a.subscribed(1) && !a.subscribed(2));
    assert!(a.get_subscribed_list().is_empty());
    assert_eq!(r1.len(), 1);
    assert_eq!(r1.find(id(3)).map(|s| s.outbound), Some(2));
    assert!(r2.is_empty());
    assert_eq!(n1.len(), 1);
    assert_eq!(n1[0].outbound, 2);
    assert_eq!(n1[0].status, ArbitrationStatus::Primary);
    assert!(n2.is_empty());
    assert!(a.release(1, &mut r1).is_empty());
}
