//! The streaming slot-event filter.
//!
//! It consumes raw slot progress notifications, keeps a strictly increasing
//! watermark to suppress duplicate and out-of-order notifications, and emits
//! a slot number only when it advances the watermark and passes the
//! configured schedule-membership and window policy.

use vstd::prelude::*;
use std::collections::HashSet;

verus! {

broadcast use vstd::std_specs::hash::group_hash_axioms;

/// One notification from the slot progress feed.
#[derive(Clone, Copy, Debug)]
pub enum SlotEvent {
    /// The first unit of data for `slot` was observed.
    FirstShredReceived { slot: u64 },
    /// `slot` was fully completed, so `slot + 1` is next.
    Completed { slot: u64 },
    /// A notification that carries no usable slot information.
    Other,
}

/// Which of a validator's assigned slots qualify for a probe.
#[derive(Clone, Copy, Debug)]
pub enum WindowPolicy {
    /// Every assigned slot qualifies.
    AnySlot,
    /// Only the first slot of each fixed-length leader window qualifies.
    WindowStart { window_len: u64 },
}

/// A window-start policy needs a nonzero window length.
pub open spec fn policy_wf(p: WindowPolicy) -> bool {
    match p {
        WindowPolicy::AnySlot => true,
        WindowPolicy::WindowStart { window_len } => window_len > 0,
    }
}

/// The candidate slot an event proposes: the observed slot itself, or the
/// successor of a completed slot, or nothing.
pub open spec fn spec_candidate(e: SlotEvent) -> Option<int> {
    match e {
        SlotEvent::FirstShredReceived { slot } => Some(slot as int),
        SlotEvent::Completed { slot } => Some(slot as int + 1),
        SlotEvent::Other => None,
    }
}

pub open spec fn spec_policy_allows(s: int, p: WindowPolicy) -> bool {
    match p {
        WindowPolicy::AnySlot => true,
        WindowPolicy::WindowStart { window_len } => s % (window_len as int) == 0,
    }
}

/// Membership and window policy combined.
pub open spec fn spec_qualifies(s: int, membership: Set<u64>, p: WindowPolicy) -> bool {
    &&& 0 <= s <= u64::MAX
    &&& membership.contains(s as u64)
    &&& spec_policy_allows(s, p)
}

/// An event whose candidate slot fits the slot counter. Only a completion
/// of the last representable slot falls outside.
pub open spec fn spec_event_in_range(e: SlotEvent) -> bool {
    match spec_candidate(e) {
        Some(c) => c <= u64::MAX,
        None => true,
    }
}

pub open spec fn events_in_range(events: Seq<SlotEvent>) -> bool {
    forall|k: int| 0 <= k < events.len() ==> spec_event_in_range(#[trigger] events[k])
}

/// The watermark after one event: a candidate above the watermark raises it,
/// everything else leaves it alone.
pub open spec fn spec_next_watermark(w: int, e: SlotEvent) -> int {
    match spec_candidate(e) {
        Some(c) => if c > w { c } else { w },
        None => w,
    }
}

/// What one event emits against watermark `w`: its candidate, exactly when
/// the candidate advances the watermark and qualifies.
pub open spec fn spec_emission(w: int, e: SlotEvent, membership: Set<u64>, p: WindowPolicy) -> Option<
    u64,
> {
    match spec_candidate(e) {
        Some(c) => if c > w && spec_qualifies(c, membership, p) {
            Some(c as u64)
        } else {
            None
        },
        None => None,
    }
}

/// The watermark after a whole run of events starting from `w0`.
pub open spec fn spec_run_watermark(w0: int, events: Seq<SlotEvent>) -> int
    decreases events.len(),
{
    if events.len() == 0 {
        w0
    } else {
        spec_next_watermark(spec_run_watermark(w0, events.drop_last()), events.last())
    }
}

/// Everything a whole run of events emits, in order, starting from `w0`.
pub open spec fn spec_run_emissions(
    w0: int,
    events: Seq<SlotEvent>,
    membership: Set<u64>,
    p: WindowPolicy,
) -> Seq<u64>
    decreases events.len(),
{
    if events.len() == 0 {
        Seq::empty()
    } else {
        let prior = spec_run_emissions(w0, events.drop_last(), membership, p);
        match spec_emission(spec_run_watermark(w0, events.drop_last()), events.last(), membership, p) {
            Some(s) => prior.push(s),
            None => prior,
        }
    }
}

/// The filter: a monotonic watermark plus the admission rule derived from
/// the schedule.
pub struct SlotFilter {
    watermark: u64,
    membership: HashSet<u64>,
    policy: WindowPolicy,
}

impl SlotFilter {
    /// The current watermark.
    pub closed spec fn spec_watermark(&self) -> int {
        self.watermark as int
    }

    /// The set of slots the schedule admits.
    pub closed spec fn spec_membership(&self) -> Set<u64> {
        self.membership@
    }

    /// The configured window policy.
    pub closed spec fn spec_policy(&self) -> WindowPolicy {
        self.policy
    }

    pub open spec fn wf(&self) -> bool {
        policy_wf(self.spec_policy())
    }

    /// A fresh filter over `membership` and `policy`, with the watermark
    /// at zero.
    pub fn new(membership: HashSet<u64>, policy: WindowPolicy) -> (r: Self)
        requires
            policy_wf(policy),
        ensures
            r.wf(),
            r.spec_watermark() == 0,
            r.spec_membership() == membership@,
            r.spec_policy() == policy,
    {
        SlotFilter { watermark: 0, membership, policy }
    }

    /// Feed one event through the filter. Returns the emitted slot, if the
    /// event's candidate advances the watermark and passes the admission rule.
    ///
    /// A completed slot predicts its successor, so the last representable
    /// slot number is left out of completion events.
    pub fn step(&mut self, event: &SlotEvent) -> (r: Option<u64>)
        requires
            old(self).wf(),
            spec_event_in_range(*event),
        ensures
            final(self).wf(),
            final(self).spec_membership() == old(self).spec_membership(),
            final(self).spec_policy() == old(self).spec_policy(),
            final(self).spec_watermark() == spec_next_watermark(old(self).spec_watermark(), *event),
            r == spec_emission(
                old(self).spec_watermark(),
                *event,
                old(self).spec_membership(),
                old(self).spec_policy(),
            ),
    {
        let candidate: Option<u64> = match *event {
            SlotEvent::FirstShredReceived { slot } => Some(slot),
            SlotEvent::Completed { slot } => Some(slot + 1),
            SlotEvent::Other => None,
        };
        match candidate {
            Some(c) => {
                if c > self.watermark {
                    self.watermark = c;
                    if self.membership.contains(&c) && policy_allows(c, &self.policy) {
                        return Some(c);
                    }
                }
                None
            },
            None => None,
        }
    }

    /// Feed a whole recorded sequence of events through the filter and
    /// collect every emission, in order.
    pub fn run(&mut self, events: &Vec<SlotEvent>) -> (r: Vec<u64>)
        requires
            old(self).wf(),
            events_in_range(events@),
        ensures
            final(self).wf(),
            final(self).spec_membership() == old(self).spec_membership(),
            final(self).spec_policy() == old(self).spec_policy(),
            final(self).spec_watermark() == spec_run_watermark(old(self).spec_watermark(), events@),
            r@ == spec_run_emissions(
                old(self).spec_watermark(),
                events@,
                old(self).spec_membership(),
                old(self).spec_policy(),
            ),
    {
        let ghost w0 = old(self).spec_watermark();
        let ghost m = old(self).spec_membership();
        let ghost p = old(self).spec_policy();
        let mut r: Vec<u64> = Vec::new();
        let mut i: usize = 0;
        while i < events.len()
            invariant
                0 <= i <= events@.len(),
                self.wf(),
                self.spec_membership() == m,
                self.spec_policy() == p,
                events_in_range(events@),
                self.spec_watermark() == spec_run_watermark(w0, events@.subrange(0, i as int)),
                r@ == spec_run_emissions(w0, events@.subrange(0, i as int), m, p),
            decreases events@.len() - i,
        {
            let ghost prefix = events@.subrange(0, i as int);
            let emitted = self.step(&events[i]);
            if let Some(s) = emitted {
                r.push(s);
            }
            proof {
                let extended = events@.subrange(0, i as int + 1);
                assert(extended.drop_last() =~= prefix);
                assert(extended.last() == events@[i as int]);
            }
            i = i + 1;
        }
        proof {
            assert(events@.subrange(0, events@.len() as int) =~= events@);
        }
        r
    }
}

proof fn lemma_run_invariant(w0: int, events: Seq<SlotEvent>, m: Set<u64>, p: WindowPolicy)
    ensures
        spec_run_watermark(w0, events) >= w0,
        forall|k: int|
            0 <= k < spec_run_emissions(w0, events, m, p).len() ==> w0 < #[trigger] spec_run_emissions(
                w0,
                events,
                m,
                p,
            )[k] <= spec_run_watermark(w0, events),
        forall|i: int, j: int|
            0 <= i < j < spec_run_emissions(w0, events, m, p).len() ==> spec_run_emissions(
                w0,
                events,
                m,
                p,
            )[i] < spec_run_emissions(w0, events, m, p)[j],
    decreases events.len(),
{
    if events.len() > 0 {
        let prefix = events.drop_last();
        lemma_run_invariant(w0, prefix, m, p);
        let wp = spec_run_watermark(w0, prefix);
        let wn = spec_run_watermark(w0, events);
        let prior = spec_run_emissions(w0, prefix, m, p);
        let ems = spec_run_emissions(w0, events, m, p);
        assert(wn >= wp);
        match spec_emission(wp, events.last(), m, p) {
            Some(s) => {
                assert(ems == prior.push(s));
                assert(wp < s <= wn);
                assert forall|k: int| 0 <= k < ems.len() implies w0 < #[trigger] ems[k] <= wn by {
                    if k < prior.len() {
                        assert(ems[k] == prior[k]);
                    } else {
                        assert(ems[k] == s);
                    }
                }
                assert forall|i: int, j: int| 0 <= i < j < ems.len() implies ems[i] < ems[j] by {
                    if j < prior.len() {
                        assert(ems[i] == prior[i] && ems[j] == prior[j]);
                    } else {
                        assert(ems[j] == s);
                        assert(ems[i] == prior[i]);
                        assert(prior[i] <= wp);
                    }
                }
            },
            None => {
                assert(ems == prior);
            },
        }
    }
}

/// Monotonicity law: over any sequence of events, the emitted slot numbers
/// are strictly increasing in emission order, so no two emissions are equal
/// and each emission exceeds every prior one.
pub proof fn lemma_emissions_strictly_increasing(
    w0: int,
    events: Seq<SlotEvent>,
    m: Set<u64>,
    p: WindowPolicy,
)
    ensures
        forall|i: int, j: int|
            0 <= i < j < spec_run_emissions(w0, events, m, p).len() ==> spec_run_emissions(
                w0,
                events,
                m,
                p,
            )[i] < spec_run_emissions(w0, events, m, p)[j],
{
    lemma_run_invariant(w0, events, m, p);
}

/// After a run, the watermark dominates the candidate of every event of the
/// run: nothing already processed can advance it again.
pub proof fn lemma_watermark_dominates(w0: int, events: Seq<SlotEvent>, k: int)
    requires
        0 <= k < events.len(),
    ensures
        (match spec_candidate(events[k]) {
            Some(c) => c <= spec_run_watermark(w0, events),
            None => true,
        }),
    decreases events.len(),
{
    if k < events.len() - 1 {
        lemma_watermark_dominates(w0, events.drop_last(), k);
    }
}

/// Admission law: every emitted slot is a member of the membership set and
/// satisfies the configured window policy.
pub proof fn lemma_emissions_qualify(w0: int, events: Seq<SlotEvent>, m: Set<u64>, p: WindowPolicy)
    ensures
        forall|k: int|
            0 <= k < spec_run_emissions(w0, events, m, p).len() ==> {
                let s = #[trigger] spec_run_emissions(w0, events, m, p)[k];
                m.contains(s) && spec_policy_allows(s as int, p)
            },
    decreases events.len(),
{
    if events.len() > 0 {
        lemma_emissions_qualify(w0, events.drop_last(), m, p);
        let prior = spec_run_emissions(w0, events.drop_last(), m, p);
        let ems = spec_run_emissions(w0, events, m, p);
        assert forall|k: int| 0 <= k < ems.len() implies m.contains(#[trigger] ems[k])
            && spec_policy_allows(ems[k] as int, p) by {
            if k < prior.len() {
                assert(ems[k] == prior[k]);
            }
        }
    }
}

/// Suppression law: an event whose candidate does not exceed the current
/// watermark emits nothing and leaves the watermark where it was.
pub proof fn lemma_stale_event_suppressed(
    w0: int,
    events: Seq<SlotEvent>,
    e: SlotEvent,
    m: Set<u64>,
    p: WindowPolicy,
)
    requires
        (match spec_candidate(e) {
            Some(c) => c <= spec_run_watermark(w0, events),
            None => true,
        }),
    ensures
        spec_run_emissions(w0, events.push(e), m, p) == spec_run_emissions(w0, events, m, p),
        spec_run_watermark(w0, events.push(e)) == spec_run_watermark(w0, events),
{
    assert(events.push(e).drop_last() =~= events);
    assert(events.push(e).last() == e);
}

/// Replay law: appending an event already seen during the run produces no
/// new emission and does not move the watermark.
pub proof fn lemma_replay_suppressed(
    w0: int,
    events: Seq<SlotEvent>,
    k: int,
    m: Set<u64>,
    p: WindowPolicy,
)
    requires
        0 <= k < events.len(),
    ensures
        spec_run_emissions(w0, events.push(events[k]), m, p) == spec_run_emissions(
            w0,
            events,
            m,
            p,
        ),
        spec_run_watermark(w0, events.push(events[k])) == spec_run_watermark(w0, events),
{
    lemma_watermark_dominates(w0, events, k);
    lemma_stale_event_suppressed(w0, events, events[k], m, p);
}

/// Empty-schedule law: with an empty membership set, no input sequence ever
/// produces an emission.
pub proof fn lemma_empty_membership_no_emissions(w0: int, events: Seq<SlotEvent>, p: WindowPolicy)
    ensures
        spec_run_emissions(w0, events, Set::<u64>::empty(), p) == Seq::<u64>::empty(),
    decreases events.len(),
{
    if events.len() > 0 {
        lemma_empty_membership_no_emissions(w0, events.drop_last(), p);
    }
}

/// Whether `s` starts a leader window under policy `p`.
fn policy_allows(s: u64, p: &WindowPolicy) -> (r: bool)
    requires
        policy_wf(*p),
    ensures
        r == spec_policy_allows(s as int, *p),
{
    match *p {
        WindowPolicy::AnySlot => true,
        WindowPolicy::WindowStart { window_len } => s % window_len == 0,
    }
}

} // verus!
