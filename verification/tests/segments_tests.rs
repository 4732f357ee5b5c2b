use raspivid_stream::segments::{
    eviction_target, PublishError, SegmentLedger, SegmentState, RETENTION_WINDOW,
};
use std::collections::BTreeSet;

#[test]
fn retention_window_is_four() {
    assert_eq!(RETENTION_WINDOW, 4);
}

#[test]
fn new_ledger_has_nothing() {
    let ledger = SegmentLedger::new();
    assert_eq!(ledger.issued(), 0);
    assert_eq!(ledger.current(), None);
    assert_eq!(ledger.state_of(0), SegmentState::Unissued);
    assert_eq!(ledger.state_of(1), SegmentState::Unissued);
}

#[test]
fn ids_start_at_one_and_rise_without_gaps() {
    let mut ledger = SegmentLedger::new();
    for expected in 1..=1000u64 {
        assert_eq!(ledger.rotate(), Some(expected));
        assert_eq!(ledger.issued(), expected);
    }
}

#[test]
fn ids_are_strictly_increasing() {
    let mut ledger = SegmentLedger::new();
    let mut last = 0u64;
    for _ in 0..50 {
        let id = ledger.rotate().unwrap();
        assert!(id > last);
        assert_eq!(id, last + 1);
        last = id;
    }
}

#[test]
fn eviction_target_is_four_ids_back() {
    assert_eq!(eviction_target(0), None);
    assert_eq!(eviction_target(1), None);
    assert_eq!(eviction_target(4), None);
    assert_eq!(eviction_target(5), Some(1));
    assert_eq!(eviction_target(6), Some(2));
    assert_eq!(eviction_target(100), Some(96));
    assert_eq!(eviction_target(u64::MAX), Some(u64::MAX - 4));
}

#[test]
fn reserved_id_is_pending_until_published() {
    let mut ledger = SegmentLedger::new();
    assert_eq!(ledger.rotate(), Some(1));
    assert_eq!(ledger.state_of(1), SegmentState::Pending);
    assert_eq!(ledger.current(), None);
    assert_eq!(ledger.publish(1), Ok(None));
    assert_eq!(ledger.state_of(1), SegmentState::Ready);
    assert_eq!(ledger.current(), Some(1));
    assert_eq!(ledger.issued(), 1);
}

#[test]
fn publish_refuses_an_id_that_was_not_reserved() {
    let mut ledger = SegmentLedger::new();
    assert_eq!(ledger.publish(0), Err(PublishError::NotReserved));
    assert_eq!(ledger.publish(1), Err(PublishError::NotReserved));
    assert_eq!(ledger.rotate(), Some(1));
    assert_eq!(ledger.publish(2), Err(PublishError::NotReserved));
    assert_eq!(ledger.publish(0), Err(PublishError::NotReserved));
    assert_eq!(ledger.current(), None);
    assert_eq!(ledger.state_of(1), SegmentState::Pending);
}

#[test]
fn publish_refuses_an_id_twice() {
    let mut ledger = SegmentLedger::new();
    assert_eq!(ledger.rotate(), Some(1));
    assert_eq!(ledger.rotate(), Some(2));
    assert_eq!(ledger.publish(1), Ok(None));
    assert_eq!(ledger.publish(1), Err(PublishError::AlreadyPublished));
    assert_eq!(ledger.current(), Some(1));
    assert_eq!(ledger.publish(2), Ok(None));
    assert_eq!(ledger.publish(1), Err(PublishError::AlreadyPublished));
    assert_eq!(ledger.publish(2), Err(PublishError::AlreadyPublished));
    assert_eq!(ledger.current(), Some(2));
}

#[test]
fn publish_refuses_an_id_out_of_turn() {
    let mut ledger = SegmentLedger::new();
    assert_eq!(ledger.rotate(), Some(1));
    assert_eq!(ledger.rotate(), Some(2));
    assert_eq!(ledger.rotate(), Some(3));
    assert_eq!(ledger.publish(2), Err(PublishError::OutOfTurn));
    assert_eq!(ledger.publish(3), Err(PublishError::OutOfTurn));
    assert_eq!(ledger.current(), None);
    assert_eq!(ledger.publish(1), Ok(None));
    assert_eq!(ledger.publish(3), Err(PublishError::OutOfTurn));
    assert_eq!(ledger.publish(2), Ok(None));
    assert_eq!(ledger.publish(3), Ok(None));
    assert_eq!(ledger.current(), Some(3));
}

#[test]
fn publish_names_the_segment_to_delete() {
    let mut ledger = SegmentLedger::new();
    for _ in 0..8 {
        ledger.rotate();
    }
    assert_eq!(ledger.publish(1), Ok(None));
    assert_eq!(ledger.publish(2), Ok(None));
    assert_eq!(ledger.publish(3), Ok(None));
    assert_eq!(ledger.publish(4), Ok(None));
    assert_eq!(ledger.publish(5), Ok(Some(1)));
    assert_eq!(ledger.publish(6), Ok(Some(2)));
    assert_eq!(ledger.publish(7), Ok(Some(3)));
    assert_eq!(ledger.publish(8), Ok(Some(4)));
}

#[test]
fn four_most_recent_segments_stay_on_disk() {
    for rotations in 5..=40u64 {
        let mut ledger = SegmentLedger::new();
        let mut directory: BTreeSet<u64> = BTreeSet::new();
        for _ in 0..rotations {
            let id = ledger.rotate().unwrap();
            let evict = ledger.publish(id).unwrap();
            directory.insert(id);
            if let Some(old) = evict {
                directory.remove(&old);
            }
        }
        let kept: Vec<u64> = directory.iter().copied().collect();
        assert_eq!(
            kept,
            vec![rotations - 3, rotations - 2, rotations - 1, rotations],
            "after {} rotations",
            rotations
        );
        assert_eq!(ledger.current(), Some(rotations));
    }
}

#[test]
fn fewer_than_five_rotations_evict_nothing() {
    let mut ledger = SegmentLedger::new();
    let mut directory: BTreeSet<u64> = BTreeSet::new();
    for n in 1..=4u64 {
        let id = ledger.rotate().unwrap();
        assert_eq!(ledger.publish(id), Ok(None));
        directory.insert(id);
        assert_eq!(directory.len() as u64, n);
    }
}

#[test]
fn states_follow_the_window() {
    let mut ledger = SegmentLedger::new();
    for _ in 0..9 {
        ledger.rotate();
    }
    for id in 1..=7u64 {
        ledger.publish(id).unwrap();
    }
    assert_eq!(ledger.state_of(0), SegmentState::Unissued);
    assert_eq!(ledger.state_of(1), SegmentState::Evicted);
    assert_eq!(ledger.state_of(2), SegmentState::Evicted);
    assert_eq!(ledger.state_of(3), SegmentState::Evicted);
    assert_eq!(ledger.state_of(4), SegmentState::Ready);
    assert_eq!(ledger.state_of(5), SegmentState::Ready);
    assert_eq!(ledger.state_of(6), SegmentState::Ready);
    assert_eq!(ledger.state_of(7), SegmentState::Ready);
    assert_eq!(ledger.state_of(8), SegmentState::Pending);
    assert_eq!(ledger.state_of(9), SegmentState::Pending);
    assert_eq!(ledger.state_of(10), SegmentState::Unissued);
    assert_eq!(ledger.state_of(u64::MAX), SegmentState::Unissued);
    assert_eq!(ledger.current(), Some(7));
}

#[test]
fn refused_publish_leaves_the_ledger_alone() {
    let mut ledger = SegmentLedger::new();
    ledger.rotate();
    ledger.rotate();
    ledger.publish(1).unwrap();
    assert_eq!(ledger.publish(5), Err(PublishError::NotReserved));
    assert_eq!(ledger.publish(1), Err(PublishError::AlreadyPublished));
    assert_eq!(ledger.issued(), 2);
    assert_eq!(ledger.current(), Some(1));
    assert_eq!(ledger.state_of(2), SegmentState::Pending);
    assert_eq!(ledger.rotate(), Some(3));
}
