use memo_bench::schedule::{load_schedule, ScheduleError, ScheduleIndex};

fn entries(doc: &[(&str, &[u64])]) -> Vec<(String, Vec<u64>)> {
    doc.iter().map(|(name, slots)| (name.to_string(), slots.to_vec())).collect()
}

#[test]
fn build_indexes_every_slot_to_its_validator() {
    let idx = ScheduleIndex::build(&entries(&[
        ("alpha", &[40, 44]),
        ("beta", &[48]),
    ]))
    .unwrap();
    assert_eq!(idx.validator_count(), 2);
    assert_eq!(idx.validator_name(0).as_str(), "alpha");
    assert_eq!(idx.validator_name(1).as_str(), "beta");
    assert_eq!(idx.validator_slots(0), &vec![40, 44]);
    assert_eq!(idx.validator_for_slot(40), Some(&"alpha".to_string()));
    assert_eq!(idx.validator_for_slot(44), Some(&"alpha".to_string()));
    assert_eq!(idx.validator_for_slot(48), Some(&"beta".to_string()));
    assert_eq!(idx.validator_for_slot(41), None);
}

#[test]
fn every_forward_slot_resolves_to_its_own_validator() {
    let doc: Vec<(String, Vec<u64>)> = entries(&[
        ("alpha", &[1, 5, 9]),
        ("beta", &[2, 6]),
        ("gamma", &[3]),
    ]);
    let idx = ScheduleIndex::build(&doc).unwrap();
    for i in 0..idx.validator_count() {
        let name = idx.validator_name(i).clone();
        let slots = idx.validator_slots(i).clone();
        for slot in slots {
            assert_eq!(idx.validator_for_slot(slot), Some(&name));
        }
    }
}

#[test]
fn duplicate_slot_across_validators_is_rejected() {
    let r = ScheduleIndex::build(&entries(&[
        ("alpha", &[40, 44]),
        ("beta", &[44]),
    ]));
    match r {
        Err(ScheduleError::DuplicateSlot { slot }) => assert_eq!(slot, 44),
        _ => panic!("expected a duplicate-slot rejection"),
    }
}

#[test]
fn duplicate_slot_within_one_validator_is_rejected() {
    let r = ScheduleIndex::build(&entries(&[("alpha", &[7, 7])]));
    assert!(matches!(r, Err(ScheduleError::DuplicateSlot { slot: 7 })));
}

#[test]
fn membership_set_holds_exactly_the_assigned_slots() {
    let idx = ScheduleIndex::build(&entries(&[
        ("alpha", &[40, 44]),
        ("beta", &[48]),
    ]))
    .unwrap();
    let m = idx.membership_set();
    assert_eq!(m.len(), 3);
    assert!(m.contains(&40) && m.contains(&44) && m.contains(&48));
    assert!(!m.contains(&41));
}

#[test]
fn load_schedule_decodes_a_document_body() {
    let idx = load_schedule(r#"{"alpha":[40,44],"beta":[48]}"#).unwrap();
    assert_eq!(idx.validator_count(), 2);
    assert_eq!(idx.validator_for_slot(48), Some(&"beta".to_string()));
    assert_eq!(idx.validator_for_slot(40), Some(&"alpha".to_string()));
}

#[test]
fn load_schedule_rejects_a_malformed_body() {
    assert!(matches!(
        load_schedule("not a schedule"),
        Err(ScheduleError::MalformedDocument)
    ));
    assert!(matches!(
        load_schedule(r#"{"alpha": "forty"}"#),
        Err(ScheduleError::MalformedDocument)
    ));
}

#[test]
fn load_schedule_rejects_a_double_assignment() {
    assert!(matches!(
        load_schedule(r#"{"alpha":[40],"beta":[40]}"#),
        Err(ScheduleError::DuplicateSlot { slot: 40 })
    ));
}
