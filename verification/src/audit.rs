//! The landing auditor.
//!
//! After the dispatch phase, every submitted probe is classified as landed
//! or not landed from its reported landing slot, latency is computed for
//! the landed ones, and every miss is attributed to the validator that
//! owned its target slot.

use vstd::prelude::*;
use crate::schedule::ScheduleIndex;

verus! {

/// One submitted probe: its signature and the slot it was fired for.
/// Created at submission time and immutable afterwards.
pub struct DispatchRecord {
    pub signature: String,
    pub target_slot: u64,
}

/// A data-consistency fault found while auditing. Both variants indicate a
/// logic bug upstream, not a normal runtime condition.
#[derive(Clone, Copy, Debug)]
pub enum AuditError {
    /// A probe is reported landed in a slot before its target slot.
    NegativeLatency { target_slot: u64, landed_slot: u64 },
    /// A not-landed target slot that the schedule never assigned.
    UnscheduledSlot { slot: u64 },
}

/// Every reported landing slot is at or after its probe's target slot.
pub open spec fn latencies_nonneg(records: Seq<DispatchRecord>, statuses: Seq<Option<u64>>) -> bool {
    forall|k: int|
        0 <= k < records.len() && #[trigger] statuses[k] is Some ==> statuses[k]->0
            >= records[k].target_slot
}

/// Some probe with target slot `target` is reported landed at `landed`,
/// before its target.
pub open spec fn negative_latency_at(
    records: Seq<DispatchRecord>,
    statuses: Seq<Option<u64>>,
    target: u64,
    landed: u64,
) -> bool {
    exists|k: int|
        0 <= k < records.len() && #[trigger] statuses[k] == Some(landed)
            && records[k].target_slot == target && landed < target
}

/// The latencies of the landed probes, in record order.
pub open spec fn spec_latencies(records: Seq<DispatchRecord>, statuses: Seq<Option<u64>>) -> Seq<
    u64,
>
    decreases records.len(),
{
    if records.len() == 0 {
        Seq::empty()
    } else {
        let prior = spec_latencies(records.drop_last(), statuses.drop_last());
        match statuses.last() {
            Some(landed) => prior.push((landed - records.last().target_slot) as u64),
            None => prior,
        }
    }
}

/// The target slots of the probes that did not land, in record order.
pub open spec fn spec_not_landed(records: Seq<DispatchRecord>, statuses: Seq<Option<u64>>) -> Seq<
    u64,
>
    decreases records.len(),
{
    if records.len() == 0 {
        Seq::empty()
    } else {
        let prior = spec_not_landed(records.drop_last(), statuses.drop_last());
        match statuses.last() {
            Some(landed) => prior,
            None => prior.push(records.last().target_slot),
        }
    }
}

/// Landed and not-landed probes of one run, split and counted.
pub struct LandingStats {
    /// How many probes were submitted.
    pub total: usize,
    /// How many probes landed.
    pub landed_count: usize,
    /// Landing latency of every landed probe, in record order.
    pub latencies: Vec<u64>,
    /// Target slot of every probe that did not land, in record order.
    pub not_landed_slots: Vec<u64>,
}

/// Classify every probe from its reported landing slot. Fails exactly when
/// some probe is reported landed before its target slot, which no
/// consistent feed can report.
pub fn classify(records: &Vec<DispatchRecord>, statuses: &Vec<Option<u64>>) -> (r: Result<
    LandingStats,
    AuditError,
>)
    requires
        records@.len() == statuses@.len(),
    ensures
        (r is Ok <==> latencies_nonneg(records@, statuses@)),
        r is Ok ==> {
            let st = r->Ok_0;
            &&& st.total as int == records@.len()
            &&& st.latencies@ == spec_latencies(records@, statuses@)
            &&& st.not_landed_slots@ == spec_not_landed(records@, statuses@)
            &&& st.landed_count as int == spec_latencies(records@, statuses@).len()
        },
        r is Err ==> (r->Err_0 matches AuditError::NegativeLatency { target_slot, landed_slot }
            && negative_latency_at(records@, statuses@, target_slot, landed_slot)),
{
    let mut latencies: Vec<u64> = Vec::new();
    let mut not_landed_slots: Vec<u64> = Vec::new();
    let mut landed_count: usize = 0;
    let mut i: usize = 0;
    while i < records.len()
        invariant
            0 <= i <= records@.len(),
            records@.len() == statuses@.len(),
            latencies@ == spec_latencies(records@.subrange(0, i as int), statuses@.subrange(0, i as int)),
            not_landed_slots@ == spec_not_landed(
                records@.subrange(0, i as int),
                statuses@.subrange(0, i as int),
            ),
            landed_count as int == latencies@.len(),
            latencies@.len() + not_landed_slots@.len() == i as int,
            latencies_nonneg(records@.subrange(0, i as int), statuses@.subrange(0, i as int)),
        decreases records@.len() - i,
    {
        let ghost rp = records@.subrange(0, i as int);
        let ghost sp = statuses@.subrange(0, i as int);
        let target = records[i].target_slot;
        match statuses[i] {
            Some(landed) => {
                if landed < target {
                    proof {
                        assert(statuses@[i as int] == Some(landed));
                        assert(negative_latency_at(records@, statuses@, target, landed));
                    }
                    return Err(AuditError::NegativeLatency { target_slot: target, landed_slot: landed });
                }
                latencies.push(landed - target);
                landed_count = landed_count + 1;
            },
            None => {
                not_landed_slots.push(target);
            },
        }
        proof {
            let re = records@.subrange(0, i as int + 1);
            let se = statuses@.subrange(0, i as int + 1);
            assert(re.drop_last() =~= rp);
            assert(se.drop_last() =~= sp);
            assert forall|k: int|
                0 <= k < re.len() && #[trigger] se[k] is Some implies se[k]->0
                    >= re[k].target_slot by {
                if k < i as int {
                    assert(sp[k] is Some && sp[k] == se[k] && rp[k] == re[k]);
                }
            }
        }
        i = i + 1;
    }
    proof {
        assert(records@.subrange(0, records@.len() as int) =~= records@);
        assert(statuses@.subrange(0, statuses@.len() as int) =~= statuses@);
    }
    Ok(LandingStats { total: records.len(), landed_count, latencies, not_landed_slots })
}

/// The sum of a latency sequence.
pub open spec fn spec_sum(s: Seq<u64>) -> int
    decreases s.len(),
{
    if s.len() == 0 {
        0
    } else {
        spec_sum(s.drop_last()) + s.last()
    }
}

/// The mean landing latency, rounded down, or `None` when no probe landed:
/// an empty landed set has a defined outcome instead of a division fault.
pub fn mean_latency(latencies: &Vec<u64>) -> (r: Option<u128>)
    ensures
        (r is None <==> latencies@.len() == 0),
        r is Some ==> r->0 as int == spec_sum(latencies@) / latencies@.len() as int,
{
    if latencies.len() == 0 {
        return None;
    }
    let mut sum: u128 = 0;
    let mut i: usize = 0;
    while i < latencies.len()
        invariant
            0 <= i <= latencies@.len(),
            sum as int == spec_sum(latencies@.subrange(0, i as int)),
            sum as int <= (i as int) * (u64::MAX as int),
        decreases latencies@.len() - i,
    {
        proof {
            assert(latencies@.subrange(0, i as int + 1).drop_last() =~= latencies@.subrange(
                0,
                i as int,
            ));
        }
        sum = sum + latencies[i] as u128;
        i = i + 1;
    }
    proof {
        assert(latencies@.subrange(0, latencies@.len() as int) =~= latencies@);
    }
    Some(sum / (latencies.len() as u128))
}

/// Resolve the validator responsible for each not-landed target slot via
/// the reverse index. Fails exactly when some slot was never assigned by
/// the schedule, which would mean the filter emitted an unscheduled slot.
pub fn attribute_not_landed(idx: &ScheduleIndex, slots: &Vec<u64>) -> (r: Result<
    Vec<String>,
    AuditError,
>)
    requires
        idx.wf(),
    ensures
        (r is Ok <==> forall|k: int|
            0 <= k < slots@.len() ==> idx.rev().contains_key(#[trigger] slots@[k])),
        r is Ok ==> {
            let names = r->Ok_0;
            &&& names@.len() == slots@.len()
            &&& forall|k: int|
                0 <= k < slots@.len() ==> #[trigger] names@[k] == idx.names()[idx.rev()[slots@[k]] as int]
        },
        r is Err ==> (r->Err_0 matches AuditError::UnscheduledSlot { slot } && !idx.rev().contains_key(
            slot,
        ) && slots@.contains(slot)),
{
    let mut names: Vec<String> = Vec::new();
    let mut i: usize = 0;
    while i < slots.len()
        invariant
            0 <= i <= slots@.len(),
            idx.wf(),
            names@.len() == i as int,
            forall|k: int|
                0 <= k < i as int ==> idx.rev().contains_key(#[trigger] slots@[k]),
            forall|k: int|
                0 <= k < i as int ==> #[trigger] names@[k] == idx.names()[idx.rev()[slots@[k]] as int],
        decreases slots@.len() - i,
    {
        let slot = slots[i];
        match idx.validator_for_slot(slot) {
            Some(name) => {
                names.push(name.clone());
            },
            None => {
                proof {
                    assert(slots@[i as int] == slot);
                }
                return Err(AuditError::UnscheduledSlot { slot });
            },
        }
        i = i + 1;
    }
    Ok(names)
}

/// Everything the run reports at the end.
pub struct AuditReport {
    /// How many probes were submitted.
    pub total: usize,
    /// How many probes landed.
    pub landed_count: usize,
    /// Landing latency of every landed probe, in record order.
    pub latencies: Vec<u64>,
    /// Mean landing latency, rounded down; `None` when nothing landed.
    pub mean_latency_floor: Option<u128>,
    /// Target slot of every probe that did not land, in record order.
    pub not_landed_slots: Vec<u64>,
    /// The validator owning each not-landed slot, aligned with
    /// `not_landed_slots`.
    pub not_landed_validators: Vec<String>,
}

/// Audit one finished run: classify every probe, compute latency
/// statistics, and attribute every miss to its scheduled validator.
pub fn audit(idx: &ScheduleIndex, records: &Vec<DispatchRecord>, statuses: &Vec<Option<u64>>) -> (r:
    Result<AuditReport, AuditError>)
    requires
        idx.wf(),
        records@.len() == statuses@.len(),
    ensures
        (r is Ok <==> latencies_nonneg(records@, statuses@) && (forall|k: int|
            0 <= k < spec_not_landed(records@, statuses@).len() ==> idx.rev().contains_key(
                #[trigger] spec_not_landed(records@, statuses@)[k],
            ))),
        !latencies_nonneg(records@, statuses@) ==> r is Err && (r->Err_0 matches AuditError::NegativeLatency {
            target_slot,
            landed_slot,
        } && negative_latency_at(records@, statuses@, target_slot, landed_slot)),
        r is Err && latencies_nonneg(records@, statuses@) ==> (r->Err_0 matches AuditError::UnscheduledSlot {
            slot,
        } && !idx.rev().contains_key(slot) && spec_not_landed(records@, statuses@).contains(slot)),
        r is Ok ==> {
            let rep = r->Ok_0;
            let lats = spec_latencies(records@, statuses@);
            let misses = spec_not_landed(records@, statuses@);
            &&& rep.total as int == records@.len()
            &&& rep.landed_count as int == lats.len()
            &&& rep.latencies@ == lats
            &&& (rep.mean_latency_floor is None <==> lats.len() == 0)
            &&& rep.mean_latency_floor is Some ==> rep.mean_latency_floor->0 as int == spec_sum(
                lats,
            ) / lats.len() as int
            &&& rep.not_landed_slots@ == misses
            &&& rep.not_landed_validators@.len() == misses.len()
            &&& forall|k: int|
                0 <= k < misses.len() ==> #[trigger] rep.not_landed_validators@[k]
                    == idx.names()[idx.rev()[misses[k]] as int]
        },
{
    let stats = match classify(records, statuses) {
        Ok(stats) => stats,
        Err(e) => {
            return Err(e);
        },
    };
    let mean_latency_floor = mean_latency(&stats.latencies);
    let not_landed_validators = match attribute_not_landed(idx, &stats.not_landed_slots) {
        Ok(names) => names,
        Err(e) => {
            return Err(e);
        },
    };
    Ok(
        AuditReport {
            total: stats.total,
            landed_count: stats.landed_count,
            latencies: stats.latencies,
            mean_latency_floor,
            not_landed_slots: stats.not_landed_slots,
            not_landed_validators,
        },
    )
}

} // verus!
