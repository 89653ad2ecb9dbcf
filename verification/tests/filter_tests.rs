use std::collections::HashSet;

use memo_bench::slot_filter::{SlotEvent, SlotFilter, WindowPolicy};

fn membership(slots: &[u64]) -> HashSet<u64> {
    let mut m = HashSet::new();
    for s in slots {
        m.insert(*s);
    }
    m
}

#[test]
fn window_start_policy_emits_exactly_the_scheduled_window_starts() {
    // Membership {40, 44, 48}, window length 4, candidates
    // [39, 40, 41, 44, 45, 48] in order: exactly [40, 44, 48] come out.
    let mut filter = SlotFilter::new(
        membership(&[40, 44, 48]),
        WindowPolicy::WindowStart { window_len: 4 },
    );
    let events = vec![
        SlotEvent::FirstShredReceived { slot: 39 },
        SlotEvent::FirstShredReceived { slot: 40 },
        SlotEvent::FirstShredReceived { slot: 41 },
        SlotEvent::FirstShredReceived { slot: 44 },
        SlotEvent::FirstShredReceived { slot: 45 },
        SlotEvent::FirstShredReceived { slot: 48 },
    ];
    let emitted = filter.run(&events);
    assert_eq!(emitted, vec![40, 44, 48]);
}

#[test]
fn completed_event_predicts_the_next_slot() {
    let mut filter = SlotFilter::new(membership(&[8]), WindowPolicy::AnySlot);
    assert_eq!(filter.step(&SlotEvent::Completed { slot: 7 }), Some(8));
}

#[test]
fn other_events_carry_no_candidate() {
    let mut filter = SlotFilter::new(membership(&[1, 2, 3]), WindowPolicy::AnySlot);
    assert_eq!(filter.step(&SlotEvent::Other), None);
}

#[test]
fn duplicates_and_out_of_order_events_are_suppressed() {
    let mut filter = SlotFilter::new(membership(&[4, 5, 6, 7, 8]), WindowPolicy::AnySlot);
    assert_eq!(filter.step(&SlotEvent::FirstShredReceived { slot: 6 }), Some(6));
    // Replay of the same slot: no emission.
    assert_eq!(filter.step(&SlotEvent::FirstShredReceived { slot: 6 }), None);
    // An earlier slot: no emission either.
    assert_eq!(filter.step(&SlotEvent::FirstShredReceived { slot: 4 }), None);
    // The watermark did not move backwards: slot 5 stays suppressed too.
    assert_eq!(filter.step(&SlotEvent::Completed { slot: 4 }), None);
    // A later slot still comes through.
    assert_eq!(filter.step(&SlotEvent::FirstShredReceived { slot: 7 }), Some(7));
}

#[test]
fn emissions_never_repeat_over_a_noisy_feed() {
    let mut filter = SlotFilter::new(membership(&[1, 2, 3, 4, 5, 6]), WindowPolicy::AnySlot);
    let events = vec![
        SlotEvent::FirstShredReceived { slot: 2 },
        SlotEvent::FirstShredReceived { slot: 2 },
        SlotEvent::Completed { slot: 1 },
        SlotEvent::FirstShredReceived { slot: 5 },
        SlotEvent::FirstShredReceived { slot: 3 },
        SlotEvent::Completed { slot: 4 },
        SlotEvent::FirstShredReceived { slot: 6 },
    ];
    let emitted = filter.run(&events);
    assert_eq!(emitted, vec![2, 5, 6]);
    for i in 0..emitted.len() {
        for j in (i + 1)..emitted.len() {
            assert!(emitted[i] < emitted[j]);
        }
    }
}

#[test]
fn empty_membership_emits_nothing() {
    let mut filter = SlotFilter::new(HashSet::new(), WindowPolicy::AnySlot);
    let events = vec![
        SlotEvent::FirstShredReceived { slot: 1 },
        SlotEvent::Completed { slot: 1 },
        SlotEvent::FirstShredReceived { slot: 100 },
        SlotEvent::Other,
    ];
    assert_eq!(filter.run(&events), Vec::<u64>::new());
}

#[test]
fn any_slot_policy_ignores_window_position() {
    let mut filter = SlotFilter::new(membership(&[41, 43]), WindowPolicy::AnySlot);
    let events = vec![
        SlotEvent::FirstShredReceived { slot: 41 },
        SlotEvent::FirstShredReceived { slot: 43 },
    ];
    assert_eq!(filter.run(&events), vec![41, 43]);
}
