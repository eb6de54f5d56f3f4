use fridex::correlation::{Delivery, PendingTable};

#[test]
fn ids_increase_and_are_not_reused() {
    let mut table: PendingTable<u32> = PendingTable::new();
    let a = table.issue_id().unwrap();
    let b = table.begin_request(7).unwrap();
    let c = table.issue_id().unwrap();
    assert_eq!((a, b, c), (1, 2, 3));
    assert!(table.is_pending(2));
    assert!(!table.is_pending(1));
}

#[test]
fn replies_in_reverse_order_reach_their_callers() {
    let mut table: PendingTable<&str> = PendingTable::new();
    let first = table.begin_request("first caller").unwrap();
    let second = table.begin_request("second caller").unwrap();
    match table.route(Some(second)) {
        Delivery::Reply(w) => assert_eq!(w, "second caller"),
        Delivery::Notification => panic!("second reply lost"),
    }
    match table.route(Some(first)) {
        Delivery::Reply(w) => assert_eq!(w, "first caller"),
        Delivery::Notification => panic!("first reply lost"),
    }
    assert!(!table.is_pending(first) && !table.is_pending(second));
}

#[test]
fn frames_without_known_id_are_notifications() {
    let mut table: PendingTable<u8> = PendingTable::new();
    let id = table.begin_request(1).unwrap();
    assert!(matches!(table.route(None), Delivery::Notification));
    assert!(matches!(table.route(Some(id + 40)), Delivery::Notification));
    assert!(table.is_pending(id));
    assert_eq!(table.resolve(id), Some(1));
    assert_eq!(table.resolve(id), None);
}
