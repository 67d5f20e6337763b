use release_proxy::cache::{Action, Slot};
use release_proxy::error::ReleaseError;

#[test]
fn empty_slot_sends_the_caller_to_fill() {
    let mut slot: Slot<u32> = Slot::new();
    assert_eq!(slot.decide(60, 0), Action::Fill);
    assert_eq!(slot.value(), None);
    assert_eq!(slot.begin(60, 0), Action::Fill);
    assert!(matches!(slot, Slot::Pending));
}

#[test]
fn many_callers_share_one_fill() {
    let mut slot: Slot<u32> = Slot::new();
    let mut fills = 0;
    for now in 0..50u64 {
        if slot.begin(60, now) == Action::Fill {
            fills += 1;
        }
    }
    assert_eq!(slot.settle(Ok(7), 50), Ok(()));
    for now in 50..110u64 {
        assert_eq!(slot.begin(60, now), Action::Serve);
        assert_eq!(slot.value(), Some(&7));
    }
    assert_eq!(fills, 1);
}

#[test]
fn failed_fill_is_not_cached() {
    let mut slot: Slot<u32> = Slot::new();
    assert_eq!(slot.begin(60, 5), Action::Fill);
    assert_eq!(
        slot.settle(Err(ReleaseError::UpstreamUnavailable), 6),
        Err(ReleaseError::UpstreamUnavailable)
    );
    assert!(matches!(slot, Slot::Empty));
    assert_eq!(slot.value(), None);
    assert_eq!(slot.begin(60, 6), Action::Fill);
    assert_eq!(slot.settle(Ok(9), 7), Ok(()));
    assert_eq!(slot.begin(60, 8), Action::Serve);
    assert_eq!(slot.value(), Some(&9));
}

#[test]
fn entry_expires_after_its_time_to_live() {
    let mut slot: Slot<&str> = Slot::new();
    assert_eq!(slot.begin(60, 100), Action::Fill);
    slot.settle(Ok("first"), 100).unwrap();
    assert_eq!(slot.decide(60, 100), Action::Serve);
    assert_eq!(slot.decide(60, 159), Action::Serve);
    assert_eq!(slot.decide(60, 160), Action::Fill);
    assert_eq!(slot.decide(60, 1000), Action::Fill);
    assert_eq!(slot.decide(60, 99), Action::Serve);
    assert_eq!(slot.decide(0, 100), Action::Fill);
    assert_eq!(slot.begin(60, 160), Action::Fill);
    assert_eq!(slot.begin(60, 161), Action::Join);
    slot.settle(Ok("second"), 162).unwrap();
    assert_eq!(slot.value(), Some(&"second"));
    assert_eq!(slot.decide(60, 221), Action::Serve);
    assert_eq!(slot.decide(60, 222), Action::Fill);
}

#[test]
fn expiry_is_not_extended_by_reads() {
    let mut slot: Slot<u8> = Slot::new();
    slot.begin(10, 0);
    slot.settle(Ok(1), 0).unwrap();
    for now in 0..10u64 {
        assert_eq!(slot.begin(10, now), Action::Serve);
    }
    assert_eq!(slot.begin(10, 10), Action::Fill);
}

#[test]
fn expiry_near_the_end_of_time() {
    let mut slot: Slot<u8> = Slot::new();
    slot.begin(10, u64::MAX - 1);
    slot.settle(Ok(1), u64::MAX - 1).unwrap();
    assert_eq!(slot.decide(10, u64::MAX), Action::Serve);
    assert_eq!(slot.decide(1, u64::MAX), Action::Fill);
    assert_eq!(slot.decide(u64::MAX, u64::MAX), Action::Serve);
}

#[test]
fn two_reads_inside_the_window_fill_once() {
    let mut slot: Slot<String> = Slot::new();
    let mut upstream_calls = 0;
    for now in [1_000u64, 30_000] {
        match slot.begin(60_000, now) {
            Action::Fill => {
                upstream_calls += 1;
                slot.settle(Ok("1.2.3".to_string()), now).unwrap();
            }
            Action::Serve => {}
            Action::Join => panic!("no fill is in flight"),
        }
        assert_eq!(slot.value().map(|s| s.as_str()), Some("1.2.3"));
    }
    assert_eq!(upstream_calls, 1);
}
