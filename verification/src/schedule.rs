//! The leader-schedule index.
//!
//! Built once from the fetched schedule document, it holds the forward
//! mapping (validator to its assigned slots) and the reverse mapping (slot
//! to the owning validator). Construction checks that no slot is assigned
//! twice, which makes the two mappings consistent with each other.

use vstd::prelude::*;
use std::collections::HashMap;

verus! {

broadcast use vstd::std_specs::hash::group_hash_axioms;

/// Why a schedule document was rejected.
#[derive(Clone, Copy, Debug)]
pub enum ScheduleError {
    /// The document body is not a mapping from validator identity to a
    /// sequence of slot numbers.
    MalformedDocument,
    /// One slot number is assigned more than once in the document.
    DuplicateSlot { slot: u64 },
}

/// The names column of a schedule document.
pub open spec fn doc_names(entries: Seq<(String, Vec<u64>)>) -> Seq<String> {
    entries.map_values(|e: (String, Vec<u64>)| e.0)
}

/// The slot lists of a schedule document.
pub open spec fn doc_slots(entries: Seq<(String, Vec<u64>)>) -> Seq<Seq<u64>> {
    entries.map_values(|e: (String, Vec<u64>)| e.1@)
}

/// No slot number occurs at two different positions of the document.
pub open spec fn doc_dup_free(slots: Seq<Seq<u64>>) -> bool {
    forall|i1: int, j1: int, i2: int, j2: int|
        0 <= i1 < slots.len() && 0 <= j1 < slots[i1].len() && 0 <= i2 < slots.len() && 0 <= j2
            < slots[i2].len() && (i1 != i2 || j1 != j2) ==> #[trigger] slots[i1][j1]
            != #[trigger] slots[i2][j2]
}

/// `s` is assigned at two different positions of the document.
pub open spec fn slot_assigned_twice(slots: Seq<Seq<u64>>, s: u64) -> bool {
    exists|i1: int, j1: int, i2: int, j2: int|
        0 <= i1 < slots.len() && 0 <= j1 < slots[i1].len() && 0 <= i2 < slots.len() && 0 <= j2
            < slots[i2].len() && (i1 != i2 || j1 != j2) && #[trigger] slots[i1][j1] == s
            && #[trigger] slots[i2][j2] == s
}

/// Forward and reverse lookup over one leader schedule; immutable after
/// construction.
pub struct ScheduleIndex {
    validators: Vec<String>,
    forward: Vec<Vec<u64>>,
    reverse: HashMap<u64, usize>,
}

impl ScheduleIndex {
    /// Validator identities, in document order.
    pub closed spec fn names(&self) -> Seq<String> {
        self.validators@
    }

    /// Assigned slots per validator, aligned with `names`.
    pub closed spec fn slot_lists(&self) -> Seq<Seq<u64>> {
        self.forward@.map_values(|v: Vec<u64>| v@)
    }

    /// The reverse mapping: slot number to the index of its validator.
    pub closed spec fn rev(&self) -> Map<u64, usize> {
        self.reverse@
    }

    /// Bidirectional consistency: every slot of every forward list is in
    /// the reverse map and points back at its validator, and every key of
    /// the reverse map comes from some forward list.
    pub open spec fn wf(&self) -> bool {
        &&& self.names().len() == self.slot_lists().len()
        &&& forall|i: int, j: int|
            0 <= i < self.slot_lists().len() && 0 <= j < self.slot_lists()[i].len() ==> {
                &&& self.rev().contains_key(#[trigger] self.slot_lists()[i][j])
                &&& self.rev()[self.slot_lists()[i][j]] as int == i
            }
        &&& forall|s: u64| #[trigger]
            self.rev().contains_key(s) ==> exists|i: int, j: int|
                0 <= i < self.slot_lists().len() && 0 <= j < self.slot_lists()[i].len()
                    && #[trigger] self.slot_lists()[i][j] == s
        &&& doc_dup_free(self.slot_lists())
    }

    /// Build the index from a decoded schedule document. Fails exactly when
    /// some slot number is assigned twice.
    pub fn build(entries: &Vec<(String, Vec<u64>)>) -> (r: Result<ScheduleIndex, ScheduleError>)
        ensures
            r is Ok <==> doc_dup_free(doc_slots(entries@)),
            r is Ok ==> {
                let idx = r->Ok_0;
                &&& idx.wf()
                &&& idx.names() == doc_names(entries@)
                &&& idx.slot_lists() == doc_slots(entries@)
            },
            r is Err ==> (r->Err_0 matches ScheduleError::DuplicateSlot { slot }
                && slot_assigned_twice(doc_slots(entries@), slot)),
    {
        let ghost doc = doc_slots(entries@);
        let mut validators: Vec<String> = Vec::new();
        let mut forward: Vec<Vec<u64>> = Vec::new();
        let mut reverse: HashMap<u64, usize> = HashMap::new();
        let mut i: usize = 0;
        while i < entries.len()
            invariant
                0 <= i <= entries@.len(),
                doc == doc_slots(entries@),
                validators@.len() == i as int,
                forward@.len() == i as int,
                forall|k: int| 0 <= k < i as int ==> validators@[k] == #[trigger] entries@[k].0,
                forall|k: int| 0 <= k < i as int ==> (#[trigger] forward@[k])@ == doc[k],
                forall|k: int, l: int|
                    0 <= k < i as int && 0 <= l < doc[k].len() ==> {
                        &&& reverse@.contains_key(#[trigger] doc[k][l])
                        &&& reverse@[doc[k][l]] as int == k
                    },
                forall|s: u64| #[trigger]
                    reverse@.contains_key(s) ==> exists|k: int, l: int|
                        0 <= k < i as int && 0 <= l < doc[k].len() && #[trigger] doc[k][l] == s,
                forall|k1: int, l1: int, k2: int, l2: int|
                    0 <= k1 < i as int && 0 <= l1 < doc[k1].len() && 0 <= k2 < i as int && 0 <= l2
                        < doc[k2].len() && (k1 != k2 || l1 != l2) ==> #[trigger] doc[k1][l1]
                        != #[trigger] doc[k2][l2],
            decreases entries@.len() - i,
        {
            let row: &Vec<u64> = &entries[i].1;
            let mut j: usize = 0;
            while j < row.len()
                invariant
                    0 <= i < entries@.len(),
                    0 <= j <= row@.len(),
                    doc == doc_slots(entries@),
                    row@ == doc[i as int],
                    forall|k: int, l: int|
                        0 <= k < i as int && 0 <= l < doc[k].len() ==> {
                            &&& reverse@.contains_key(#[trigger] doc[k][l])
                            &&& reverse@[doc[k][l]] as int == k
                        },
                    forall|l: int|
                        0 <= l < j as int ==> reverse@.contains_key(#[trigger] doc[i as int][l])
                            && reverse@[doc[i as int][l]] as int == i as int,
                    forall|s: u64| #[trigger]
                        reverse@.contains_key(s) ==> exists|k: int, l: int|
                            0 <= k <= i as int && 0 <= l < doc[k].len() && (k < i as int || l
                                < j as int) && #[trigger] doc[k][l] == s,
                    forall|k1: int, l1: int, k2: int, l2: int|
                        0 <= k1 <= i as int && 0 <= l1 < doc[k1].len() && (k1 < i as int || l1
                            < j as int) && 0 <= k2 <= i as int && 0 <= l2 < doc[k2].len() && (k2
                            < i as int || l2 < j as int) && (k1 != k2 || l1 != l2)
                            ==> #[trigger] doc[k1][l1] != #[trigger] doc[k2][l2],
                decreases row@.len() - j,
            {
                let slot = row[j];
                if reverse.contains_key(&slot) {
                    proof {
                        let (k, l) = choose|k: int, l: int|
                            0 <= k <= i as int && 0 <= l < doc[k].len() && (k < i as int || l
                                < j as int) && #[trigger] doc[k][l] == slot;
                        assert(doc[i as int][j as int] == slot);
                        assert(!doc_dup_free(doc));
                        assert(slot_assigned_twice(doc, slot));
                    }
                    return Err(ScheduleError::DuplicateSlot { slot });
                }
                reverse.insert(slot, i);
                j = j + 1;
            }
            validators.push(entries[i].0.clone());
            forward.push(copy_slots(row));
            i = i + 1;
        }
        let idx = ScheduleIndex { validators, forward, reverse };
        proof {
            assert(idx.names() =~= doc_names(entries@));
            assert(idx.slot_lists() =~= doc_slots(entries@));
        }
        Ok(idx)
    }
}

impl ScheduleIndex {
    /// How many validators the schedule lists.
    pub fn validator_count(&self) -> (r: usize)
        ensures
            r as int == self.names().len(),
    {
        self.validators.len()
    }

    /// The identity of the validator at position `i` of the document.
    pub fn validator_name(&self, i: usize) -> (r: &String)
        requires
            (i as int) < self.names().len(),
        ensures
            *r == self.names()[i as int],
    {
        &self.validators[i]
    }

    /// The slots assigned to the validator at position `i` of the document.
    pub fn validator_slots(&self, i: usize) -> (r: &Vec<u64>)
        requires
            self.wf(),
            (i as int) < self.names().len(),
        ensures
            r@ == self.slot_lists()[i as int],
    {
        &self.forward[i]
    }

    /// The validator that owns `slot`, or `None` when the schedule does not
    /// assign `slot` at all.
    pub fn validator_for_slot(&self, slot: u64) -> (r: Option<&String>)
        requires
            self.wf(),
        ensures
            (r is Some <==> self.rev().contains_key(slot)),
            r is Some ==> *r->0 == self.names()[self.rev()[slot] as int],
    {
        match self.reverse.get(&slot) {
            Some(vi) => {
                proof {
                    let (i, j) = choose|i: int, j: int|
                        0 <= i < self.slot_lists().len() && 0 <= j < self.slot_lists()[i].len()
                            && #[trigger] self.slot_lists()[i][j] == slot;
                    assert(self.rev()[slot] as int == i);
                }
                Some(&self.validators[*vi])
            },
            None => None,
        }
    }

    /// The set of every slot the schedule assigns, for gating the filter.
    pub fn membership_set(&self) -> (r: std::collections::HashSet<u64>)
        requires
            self.wf(),
        ensures
            forall|s: u64| #[trigger] r@.contains(s) <==> self.rev().contains_key(s),
    {
        let ghost doc = self.slot_lists();
        let mut r: std::collections::HashSet<u64> = std::collections::HashSet::new();
        let mut i: usize = 0;
        while i < self.forward.len()
            invariant
                0 <= (i as int) <= doc.len(),
                doc == self.slot_lists(),
                self.wf(),
                forall|k: int, l: int|
                    0 <= k < i as int && 0 <= l < doc[k].len() ==> r@.contains(
                        #[trigger] doc[k][l],
                    ),
                forall|s: u64| #[trigger]
                    r@.contains(s) ==> exists|k: int, l: int|
                        0 <= k < i as int && 0 <= l < doc[k].len() && #[trigger] doc[k][l] == s,
            decreases doc.len() - i,
        {
            let row: &Vec<u64> = &self.forward[i];
            let mut j: usize = 0;
            while j < row.len()
                invariant
                    0 <= (i as int) < doc.len(),
                    0 <= (j as int) <= row@.len(),
                    doc == self.slot_lists(),
                    self.wf(),
                    row@ == doc[i as int],
                    forall|k: int, l: int|
                        0 <= k < i as int && 0 <= l < doc[k].len() ==> r@.contains(
                            #[trigger] doc[k][l],
                        ),
                    forall|l: int| 0 <= l < j as int ==> r@.contains(#[trigger] doc[i as int][l]),
                    forall|s: u64| #[trigger]
                        r@.contains(s) ==> exists|k: int, l: int|
                            0 <= k <= i as int && 0 <= l < doc[k].len() && (k < i as int || l
                                < j as int) && #[trigger] doc[k][l] == s,
                decreases row@.len() - j,
            {
                r.insert(row[j]);
                j = j + 1;
            }
            i = i + 1;
        }
        proof {
            assert forall|s: u64| #[trigger] r@.contains(s) implies self.rev().contains_key(s) by {
                let (k, l) = choose|k: int, l: int|
                    0 <= k < doc.len() && 0 <= l < doc[k].len() && #[trigger] doc[k][l] == s;
            }
            assert forall|s: u64| self.rev().contains_key(s) implies r@.contains(s) by {
                let (k, l) = choose|k: int, l: int|
                    0 <= k < self.slot_lists().len() && 0 <= l < self.slot_lists()[k].len()
                        && #[trigger] self.slot_lists()[k][l] == s;
            }
        }
        r
    }
}

/// Reverse-index completeness law: in a well-formed index, every slot of
/// every forward list resolves through the reverse map to the validator
/// that listed it, and no slot resolves to two different validators.
pub proof fn lemma_reverse_index_complete(idx: &ScheduleIndex)
    requires
        idx.wf(),
    ensures
        forall|i: int, j: int|
            0 <= i < idx.slot_lists().len() && 0 <= j < idx.slot_lists()[i].len() ==> {
                &&& idx.rev().contains_key(#[trigger] idx.slot_lists()[i][j])
                &&& idx.rev()[idx.slot_lists()[i][j]] as int == i
            },
        forall|i1: int, j1: int, i2: int, j2: int|
            0 <= i1 < idx.slot_lists().len() && 0 <= j1 < idx.slot_lists()[i1].len() && 0 <= i2
                < idx.slot_lists().len() && 0 <= j2 < idx.slot_lists()[i2].len()
                && #[trigger] idx.slot_lists()[i1][j1] == #[trigger] idx.slot_lists()[i2][j2]
                ==> i1 == i2,
{
}

/// What decoding a schedule document body yields: the mapping from
/// validator identity to assigned slots, or nothing when the body is not
/// such a document.
pub uninterp spec fn schedule_doc_of(body: Seq<char>) -> Option<Map<Seq<char>, Seq<u64>>>;

/// The mapping that a name column and its aligned slot lists denote.
pub open spec fn index_map(names: Seq<String>, lists: Seq<Seq<u64>>) -> Map<Seq<char>, Seq<u64>>
    decreases names.len(),
{
    if names.len() == 0 || names.len() != lists.len() {
        Map::empty()
    } else {
        index_map(names.drop_last(), lists.drop_last()).insert(names.last()@, lists.last())
    }
}

/// No slot occurs at two different positions of a decoded document
/// mapping: a position is a key of the mapping together with an index into
/// that key's slot list.
pub open spec fn map_dup_free(m: Map<Seq<char>, Seq<u64>>) -> bool {
    forall|k1: Seq<char>, i1: int, k2: Seq<char>, i2: int|
        m.dom().contains(k1) && m.dom().contains(k2) && 0 <= i1 < m[k1].len() && 0 <= i2
            < m[k2].len() && (k1 != k2 || i1 != i2) ==> #[trigger] m[k1][i1] != #[trigger] m[k2][i2]
}

/// With as many distinct names as slot lists, `index_map` holds exactly
/// the names as keys, each mapped to its aligned slot list.
proof fn lemma_index_map_entries(names: Seq<String>, lists: Seq<Seq<u64>>)
    requires
        names.len() == lists.len(),
        forall|a: int, b: int|
            0 <= a < b < names.len() ==> (#[trigger] names[a])@ != (#[trigger] names[b])@,
    ensures
        forall|k: Seq<char>| #[trigger]
            index_map(names, lists).dom().contains(k) ==> exists|a: int|
                0 <= a < names.len() && (#[trigger] names[a])@ == k,
        forall|a: int|
            0 <= a < names.len() ==> index_map(names, lists).dom().contains((#[trigger] names[a])@)
                && index_map(names, lists)[names[a]@] == lists[a],
    decreases names.len(),
{
    if names.len() > 0 {
        lemma_index_map_entries(names.drop_last(), lists.drop_last());
        let m = index_map(names, lists);
        let mp = index_map(names.drop_last(), lists.drop_last());
        assert(m == mp.insert(names.last()@, lists.last()));
        assert forall|k: Seq<char>| #[trigger] m.dom().contains(k) implies exists|a: int|
            0 <= a < names.len() && (#[trigger] names[a])@ == k by {
            if k == names.last()@ {
                assert(names[names.len() - 1]@ == k);
            } else {
                assert(mp.dom().contains(k));
                let a = choose|a: int|
                    0 <= a < names.drop_last().len() && (#[trigger] names.drop_last()[a])@ == k;
                assert(names[a]@ == k);
            }
        }
        assert forall|a: int| 0 <= a < names.len() implies m.dom().contains((#[trigger] names[a])@)
            && m[names[a]@] == lists[a] by {
            if a < names.len() - 1 {
                assert(names.drop_last()[a] == names[a]);
                assert(lists.drop_last()[a] == lists[a]);
                assert(mp[names[a]@] == lists[a]);
                assert(names[a]@ != names[names.len() - 1]@);
            }
        }
    }
}

/// With distinct names, the decoded mapping assigns some slot twice
/// exactly when the aligned document does.
proof fn lemma_map_dup_free_iff(names: Seq<String>, lists: Seq<Seq<u64>>)
    requires
        names.len() == lists.len(),
        forall|a: int, b: int|
            0 <= a < b < names.len() ==> (#[trigger] names[a])@ != (#[trigger] names[b])@,
    ensures
        map_dup_free(index_map(names, lists)) <==> doc_dup_free(lists),
{
    lemma_index_map_entries(names, lists);
    let m = index_map(names, lists);
    if map_dup_free(m) {
        assert forall|i1: int, j1: int, i2: int, j2: int|
            0 <= i1 < lists.len() && 0 <= j1 < lists[i1].len() && 0 <= i2 < lists.len() && 0 <= j2
                < lists[i2].len() && (i1 != i2 || j1 != j2) implies #[trigger] lists[i1][j1]
            != #[trigger] lists[i2][j2] by {
            let k1 = names[i1]@;
            let k2 = names[i2]@;
            assert(m.dom().contains(k1) && m[k1] == lists[i1]);
            assert(m.dom().contains(k2) && m[k2] == lists[i2]);
            if i1 != i2 {
                assert(k1 != k2);
            }
            assert(m[k1][j1] != m[k2][j2]);
        }
    }
    if doc_dup_free(lists) {
        assert forall|k1: Seq<char>, i1: int, k2: Seq<char>, i2: int|
            m.dom().contains(k1) && m.dom().contains(k2) && 0 <= i1 < m[k1].len() && 0 <= i2
                < m[k2].len() && (k1 != k2 || i1 != i2) implies #[trigger] m[k1][i1]
            != #[trigger] m[k2][i2] by {
            let a1 = choose|a: int| 0 <= a < names.len() && (#[trigger] names[a])@ == k1;
            let a2 = choose|a: int| 0 <= a < names.len() && (#[trigger] names[a])@ == k2;
            assert(m[k1] == lists[a1]);
            assert(m[k2] == lists[a2]);
            if k1 == k2 {
                assert(a1 == a2);
            }
            assert(lists[a1][i1] != lists[a2][i2]);
        }
    }
}

/// Relies on serde_json::from_str deserializing the body into a map from
/// string to a sequence of unsigned slot numbers: it succeeds exactly on
/// bodies that are such a JSON document, the decoded mapping depends on the
/// body alone, and the keys handed back are distinct.
#[verifier::external_body]
fn parse_schedule_json(body: &str) -> (r: Result<Vec<(String, Vec<u64>)>, ScheduleError>)
    ensures
        (r is Ok <==> schedule_doc_of(body@) is Some),
        r is Ok ==> index_map(doc_names(r->Ok_0@), doc_slots(r->Ok_0@)) == schedule_doc_of(
            body@,
        )->Some_0,
        r is Ok ==> forall|k1: int, k2: int|
            0 <= k1 < k2 < r->Ok_0@.len() ==> (#[trigger] r->Ok_0@[k1].0)@
                != (#[trigger] r->Ok_0@[k2].0)@,
        r is Err ==> r->Err_0 is MalformedDocument,
{
    match serde_json::from_str::<HashMap<String, Vec<u64>>>(body) {
        Ok(m) => Ok(m.into_iter().collect()),
        Err(_) => Err(ScheduleError::MalformedDocument),
    }
}

/// Decode a schedule document body and build the index over it.
///
/// Succeeds exactly when the body decodes and the decoded mapping assigns
/// no slot twice, and then the returned index is well formed and indexes
/// exactly the decoded mapping. Fails with `MalformedDocument` exactly
/// when the body does not decode, and with `DuplicateSlot` otherwise.
pub fn load_schedule(body: &str) -> (r: Result<ScheduleIndex, ScheduleError>)
    ensures
        (r is Ok <==> (schedule_doc_of(body@) is Some && map_dup_free(
            schedule_doc_of(body@)->Some_0,
        ))),
        ((r is Err && r->Err_0 is MalformedDocument) <==> schedule_doc_of(body@) is None),
        r is Ok ==> {
            let idx = r->Ok_0;
            &&& idx.wf()
            &&& index_map(idx.names(), idx.slot_lists()) == schedule_doc_of(body@)->Some_0
        },
        r is Err ==> (r->Err_0 is MalformedDocument || r->Err_0 is DuplicateSlot),
{
    match parse_schedule_json(body) {
        Ok(entries) => {
            proof {
                let names = doc_names(entries@);
                let lists = doc_slots(entries@);
                assert forall|a: int, b: int| 0 <= a < b < names.len() implies (
                #[trigger] names[a])@ != (#[trigger] names[b])@ by {
                    assert(names[a] == entries@[a].0);
                    assert(names[b] == entries@[b].0);
                }
                lemma_map_dup_free_iff(names, lists);
            }
            match ScheduleIndex::build(&entries) {
                Ok(idx) => Ok(idx),
                Err(e) => Err(e),
            }
        },
        Err(e) => Err(e),
    }
}

/// An element-wise copy of one slot list.
fn copy_slots(v: &Vec<u64>) -> (r: Vec<u64>)
    ensures
        r@ == v@,
{
    let mut r: Vec<u64> = Vec::new();
    let mut i: usize = 0;
    while i < v.len()
        invariant
            0 <= i <= v@.len(),
            r@ == v@.subrange(0, i as int),
        decreases v@.len() - i,
    {
        r.push(v[i]);
        proof {
            assert(v@.subrange(0, i as int + 1) =~= v@.subrange(0, i as int).push(v@[i as int]));
        }
        i = i + 1;
    }
    proof {
        assert(v@.subrange(0, v@.len() as int) =~= v@);
    }
    r
}

} // verus!
