use memo_bench::audit::{
    attribute_not_landed, audit, classify, mean_latency, AuditError, DispatchRecord,
};
use memo_bench::schedule::ScheduleIndex;

fn record(signature: &str, target_slot: u64) -> DispatchRecord {
    DispatchRecord { signature: signature.to_string(), target_slot }
}

fn schedule(doc: &[(&str, &[u64])]) -> ScheduleIndex {
    let entries: Vec<(String, Vec<u64>)> =
        doc.iter().map(|(name, slots)| (name.to_string(), slots.to_vec())).collect();
    ScheduleIndex::build(&entries).unwrap()
}

#[test]
fn one_landed_one_missed_probe_are_reported_and_attributed() {
    // sigA fired for slot 10 landed at slot 12; sigB fired for slot 20
    // never landed. Expected: 1 of 2 landed, latency 2, miss at slot 20
    // attributed to the validator that owns slot 20.
    let idx = schedule(&[("alpha", &[10]), ("beta", &[20])]);
    let records = vec![record("sigA", 10), record("sigB", 20)];
    let statuses = vec![Some(12), None];
    let report = audit(&idx, &records, &statuses).unwrap();
    assert_eq!(report.total, 2);
    assert_eq!(report.landed_count, 1);
    assert_eq!(report.latencies, vec![2]);
    assert_eq!(report.mean_latency_floor, Some(2));
    assert_eq!(report.not_landed_slots, vec![20]);
    assert_eq!(report.not_landed_validators, vec!["beta".to_string()]);
}

#[test]
fn classification_splits_landed_and_not_landed_in_record_order() {
    let records = vec![record("a", 5), record("b", 6), record("c", 7)];
    let statuses = vec![None, Some(6), Some(10)];
    let stats = classify(&records, &statuses).unwrap();
    assert_eq!(stats.total, 3);
    assert_eq!(stats.landed_count, 2);
    assert_eq!(stats.latencies, vec![0, 3]);
    assert_eq!(stats.not_landed_slots, vec![5]);
}

#[test]
fn a_landing_before_its_target_slot_fails_loudly() {
    let records = vec![record("a", 10)];
    let statuses = vec![Some(9)];
    match classify(&records, &statuses) {
        Err(AuditError::NegativeLatency { target_slot, landed_slot }) => {
            assert_eq!(target_slot, 10);
            assert_eq!(landed_slot, 9);
        }
        _ => panic!("expected a negative-latency fault"),
    }
}

#[test]
fn a_not_landed_slot_outside_the_schedule_fails_loudly() {
    let idx = schedule(&[("alpha", &[10])]);
    let slots = vec![10, 99];
    match attribute_not_landed(&idx, &slots) {
        Err(AuditError::UnscheduledSlot { slot }) => assert_eq!(slot, 99),
        _ => panic!("expected an unscheduled-slot fault"),
    }
}

#[test]
fn attribution_resolves_every_miss_in_order() {
    let idx = schedule(&[("alpha", &[10, 30]), ("beta", &[20])]);
    let names = attribute_not_landed(&idx, &vec![20, 10, 30]).unwrap();
    assert_eq!(names, vec!["beta".to_string(), "alpha".to_string(), "alpha".to_string()]);
}

#[test]
fn mean_latency_of_no_landings_is_a_defined_absence() {
    assert_eq!(mean_latency(&Vec::new()), None);
}

#[test]
fn mean_latency_is_the_floored_average() {
    assert_eq!(mean_latency(&vec![2, 3]), Some(2));
    assert_eq!(mean_latency(&vec![4]), Some(4));
    assert_eq!(mean_latency(&vec![0, 0, 7]), Some(2));
}

#[test]
fn audit_of_an_empty_run_reports_no_landings() {
    let idx = schedule(&[("alpha", &[10])]);
    let report = audit(&idx, &Vec::new(), &Vec::new()).unwrap();
    assert_eq!(report.total, 0);
    assert_eq!(report.landed_count, 0);
    assert_eq!(report.mean_latency_floor, None);
    assert!(report.not_landed_slots.is_empty());
    assert!(report.not_landed_validators.is_empty());
}
