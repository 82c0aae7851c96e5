use supervisor::xbee::{Error, PendingRequests, MAX_RETRIES};

#[test]
fn parameters_take_free_frames() {
    let mut table = PendingRequests::new();
    let first = table.get_parameter([b'M', b'Y'], 0).unwrap();
    let second = table.get_parameter([b'S', b'H'], 0).unwrap();
    assert_eq!(first.frame_id, 1);
    assert_eq!(second.frame_id, 2);
    assert!(!first.queue && first.data.is_none());
    assert!(table.respond(1));
    assert!(!table.respond(1));
    let third = table.get_parameter([b'S', b'L'], 10).unwrap();
    assert_eq!(third.frame_id, 1);
}

#[test]
fn queue_full_after_254_requests() {
    let mut table = PendingRequests::new();
    for _ in 0..254 {
        table.get_parameter([b'M', b'Y'], 0).unwrap();
    }
    assert!(matches!(table.get_parameter([b'M', b'Y'], 0), Err(Error::CallbackQueueFull)));
}

#[test]
fn retries_then_give_up() {
    let mut table = PendingRequests::new();
    table.get_parameter([b'M', b'Y'], 0).unwrap();
    assert!(table.maintain(300, &vec![true]).is_empty());
    let mut now = 0;
    for round in 0..MAX_RETRIES {
        now += 301;
        let resent = table.maintain(now, &vec![true]);
        assert_eq!(resent.len(), 1, "round {}", round);
        assert_eq!(resent[0].frame_id, 1);
    }
    now += 301;
    assert!(table.maintain(now, &vec![true]).is_empty());
    assert!(!table.entries[0].waiting);
    assert!(table.maintain(now, &vec![true]).is_empty());
    assert!(table.entries.is_empty());
}

#[test]
fn requests_of_departed_senders_are_dropped() {
    let mut table = PendingRequests::new();
    table.get_parameter([b'M', b'Y'], 0).unwrap();
    table.get_parameter([b'S', b'H'], 0).unwrap();
    table.maintain(0, &vec![false, true]);
    assert_eq!(table.entries.len(), 1);
    assert_eq!(table.entries[0].frame_id, 2);
}
