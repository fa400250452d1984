//! Planning the copy of a bank from one project to another: which sample
//! slots the destination reuses or gains, how the bank's slot references
//! change, and which sample files must be copied.

use vstd::prelude::*;
use crate::banks::Bank;
use crate::errors::OctatoolErrors;
use crate::options::{
    ProjectSampleSlotType, SampleAttributeLoopMode, SampleAttributeTimestrechMode,
    SampleAttributeTrigQuantizationMode,
};
use crate::paths::{
    path_join, resolve_fname_and_fext_from_path, resolve_otfile_fpath_from_audio_fpath, spec_fname_and_fext, spec_path_join,
    spec_with_extension,
};
use crate::project_pool::SampleFileMove;
use crate::slot_ops::{
    apply_slot_changes_to_bank_inplace, create_sample_slot_from_existing, find_free_sample_slot_ids,
    find_last_empty_slot, find_sample_slot_refs_in_bank, find_sample_slot_settings_match,
    get_deduplicated_sample_slots_and_updated_banks, get_one_indexed_slots_from_zero_indexed,
    get_zero_indexed_slots_from_one_indexed, same_settings_but_path, slot_used, spec_best_match,
    spec_unique_settings, spec_with_id, spec_zero_indexed, lemma_slot_indexing_roundtrip, BankSlotReference, BankSlotReferenceType,
    SampleSlotOperation, SampleSlotOperationType, SlotReferenceReassignment, spec_op_reassignment, spec_sorted_reassignments,
    spec_reassignments, spec_bank_reassigned, spec_patterns_ref, spec_parts_ref, descending_ids, spec_pattern_ref,
    spec_track_ref, spec_trigs_ref, spec_part_ref, spec_part_track_ref,
    lemma_sorted_reassignments_props, lemma_bank_reassigned_concat,
};
use crate::slots::ProjectSampleSlot;

verus! {

/// A sample slot of the source project and the destination slot it becomes;
/// the slot's audio (and attributes) file must be copied along.
#[derive(Debug, Clone, PartialEq, Eq)]
pub struct SlotFileCopy {
    pub from: ProjectSampleSlot,
    pub to: ProjectSampleSlot,
}

/// A source slot (type and number) and what happens to it in the copy.
#[derive(Debug, Clone, Copy, PartialEq, Eq, Structural, Hash)]
pub struct SlotsSlotReference {
    pub sample_type: ProjectSampleSlotType,
    pub slot_id: u8,
    pub op_type: SampleSlotOperationType,
}

/// Whether `k` is the position of the first slot of `ds` of type `t` numbered
/// `id`.
pub open spec fn first_slot_at(ds: Seq<ProjectSampleSlot>, t: ProjectSampleSlotType, id: u8, k: int) -> bool {
    &&& 0 <= k < ds.len()
    &&& ds[k].sample_type == t
    &&& ds[k].slot_id == id
    &&& forall|j: int| 0 <= j < k ==> !((#[trigger] ds[j]).sample_type == t && ds[j].slot_id == id)
}

/// Index of the first slot of type `t` numbered `id`.
fn find_slot(ds: &Vec<ProjectSampleSlot>, t: ProjectSampleSlotType, id: u8) -> (r: Option<usize>)
    ensures
        match r {
            Some(k) => first_slot_at(ds@, t, id, k as int),
            None => !slot_used(ds@, t, id),
        },
{
    let mut i: usize = 0;
    while i < ds.len()
        invariant
            i <= ds@.len(),
            forall|k: int| 0 <= k < i ==> !((#[trigger] ds@[k]).sample_type == t && ds@[k].slot_id == id),
        decreases ds@.len() - i,
    {
        if ds[i].sample_type == t && ds[i].slot_id == id {
            return Some(i);
        }
        i = i + 1;
    }
    None
}

/// Whether some reference points at slot number `id` (of any type).
pub open spec fn referenced_id(refs: Seq<BankSlotReference>, id: u8) -> bool {
    exists|k: int| 0 <= k < refs.len() && (#[trigger] refs[k]).slot_id == id
}

fn is_referenced(refs: &Vec<BankSlotReference>, id: u8) -> (r: bool)
    ensures
        r == referenced_id(refs@, id),
{
    let mut i: usize = 0;
    while i < refs.len()
        invariant
            i <= refs@.len(),
            forall|k: int| 0 <= k < i ==> (#[trigger] refs@[k]).slot_id != id,
        decreases refs@.len() - i,
    {
        if refs[i].slot_id == id {
            return true;
        }
        i = i + 1;
    }
    false
}

fn push_unique_key(v: &mut Vec<SlotsSlotReference>, x: SlotsSlotReference)
    ensures
        forall|y: SlotsSlotReference| #![trigger final(v)@.contains(y)] final(v)@.contains(y) <==> (old(v)@.contains(y) || y == x),
        old(v)@.no_duplicates() ==> final(v)@.no_duplicates(),
{
    let mut i: usize = 0;
    while i < v.len()
        invariant
            i <= v@.len(),
            forall|k: int| 0 <= k < i ==> v@[k] != x,
        decreases v@.len() - i,
    {
        if v[i] == x {
            return;
        }
        i = i + 1;
    }
    let ghost prev = v@;
    v.push(x);
    assert(prev.no_duplicates() ==> v@.no_duplicates()) by {
        if prev.no_duplicates() {
            assert forall|a: int, b: int| 0 <= a < v@.len() && 0 <= b < v@.len() && a != b implies v@[a] != v@[b] by {
                if a < prev.len() && b < prev.len() {
                    assert(v@[a] == prev[a] && v@[b] == prev[b]);
                } else if a < prev.len() {
                    assert(v@[a] == prev[a]);
                } else if b < prev.len() {
                    assert(v@[b] == prev[b]);
                }
            }
        }
    }
    assert forall|y: SlotsSlotReference| #![trigger v@.contains(y)] v@.contains(y) <==> (prev.contains(y) || y == x) by {
        if v@.contains(y) {
            let k = choose|k: int| 0 <= k < v@.len() && v@[k] == y;
            if k < prev.len() {
                assert(prev[k] == y);
            }
        }
        if prev.contains(y) {
            let k = choose|k: int| 0 <= k < prev.len() && prev[k] == y;
            assert(v@[k] == y);
        }
        if y == x {
            assert(v@[prev.len() as int] == y);
        }
    }
}

/// Whether slot `k` of `ds` gives key `y`: its type and number are `y`'s,
/// some reference of `refs` has its number, and a destination slot of `dz`
/// matches its settings exactly when `reuse` (the key's operation says so).
pub open spec fn slot_key_at(
    ds: Seq<ProjectSampleSlot>,
    dz: Seq<ProjectSampleSlot>,
    refs: Seq<BankSlotReference>,
    k: int,
    y: SlotsSlotReference,
    reuse: bool,
) -> bool {
    &&& 0 <= k < ds.len()
    &&& ds[k].sample_type == y.sample_type
    &&& ds[k].slot_id == y.slot_id
    &&& referenced_id(refs, ds[k].slot_id)
    &&& (spec_best_match(ds[k], dz) is Some) == reuse
    &&& y.op_type == (if reuse { SampleSlotOperationType::ReuseSlot } else { SampleSlotOperationType::NewSlot })
}

/// The keys of the source slots that the references point at (by number),
/// split into those that a destination slot matches (reused) and the others
/// (added); each key once.
fn classify_referenced_slots(
    ds: &Vec<ProjectSampleSlot>,
    dz: &Vec<ProjectSampleSlot>,
    refs: &Vec<BankSlotReference>,
) -> (r: (Vec<SlotsSlotReference>, Vec<SlotsSlotReference>))
    ensures
        forall|y: SlotsSlotReference| #![trigger r.0@.contains(y)]
            r.0@.contains(y) <==> exists|k: int| #[trigger] slot_key_at(ds@, dz@, refs@, k, y, true),
        forall|y: SlotsSlotReference| #![trigger r.1@.contains(y)]
            r.1@.contains(y) <==> exists|k: int| #[trigger] slot_key_at(ds@, dz@, refs@, k, y, false),
        r.0@.no_duplicates(),
        r.1@.no_duplicates(),
{
    let mut reuses: Vec<SlotsSlotReference> = Vec::new();
    let mut inserts: Vec<SlotsSlotReference> = Vec::new();
    let mut i: usize = 0;
    while i < ds.len()
        invariant
            i <= ds@.len(),
            forall|y: SlotsSlotReference| #![trigger reuses@.contains(y)]
                reuses@.contains(y) <==> exists|k: int| k < i && #[trigger] slot_key_at(ds@, dz@, refs@, k, y, true),
            forall|y: SlotsSlotReference| #![trigger inserts@.contains(y)]
                inserts@.contains(y) <==> exists|k: int| k < i && #[trigger] slot_key_at(ds@, dz@, refs@, k, y, false),
            reuses@.no_duplicates(),
            inserts@.no_duplicates(),
        decreases ds@.len() - i,
    {
        if is_referenced(refs, ds[i].slot_id) {
            let key_type = ds[i].sample_type;
            let key_id = ds[i].slot_id;
            match find_sample_slot_settings_match(&ds[i], dz.as_slice()) {
                Some(_) => {
                    let key = SlotsSlotReference {
                        sample_type: key_type,
                        slot_id: key_id,
                        op_type: SampleSlotOperationType::ReuseSlot,
                    };
                    let ghost prev = reuses@;
                    push_unique_key(&mut reuses, key);
                    assert(slot_key_at(ds@, dz@, refs@, i as int, key, true));
                    assert forall|y: SlotsSlotReference| #![trigger reuses@.contains(y)]
                        reuses@.contains(y) <==> exists|k: int| k < i + 1 && #[trigger] slot_key_at(ds@, dz@, refs@, k, y, true) by {
                        if exists|k: int| k < i + 1 && #[trigger] slot_key_at(ds@, dz@, refs@, k, y, true) {
                            let k = choose|k: int| k < i + 1 && #[trigger] slot_key_at(ds@, dz@, refs@, k, y, true);
                            if k < i {
                                assert(prev.contains(y));
                            } else {
                                assert(y == key);
                            }
                        }
                    }
                    assert forall|y: SlotsSlotReference| #![trigger inserts@.contains(y)]
                        inserts@.contains(y) <==> exists|k: int| k < i + 1 && #[trigger] slot_key_at(ds@, dz@, refs@, k, y, false) by {
                        if exists|k: int| k < i + 1 && #[trigger] slot_key_at(ds@, dz@, refs@, k, y, false) {
                            let k = choose|k: int| k < i + 1 && #[trigger] slot_key_at(ds@, dz@, refs@, k, y, false);
                            assert(k < i);
                        }
                    }
                },
                None => {
                    let key = SlotsSlotReference {
                        sample_type: key_type,
                        slot_id: key_id,
                        op_type: SampleSlotOperationType::NewSlot,
                    };
                    let ghost prev = inserts@;
                    push_unique_key(&mut inserts, key);
                    assert(slot_key_at(ds@, dz@, refs@, i as int, key, false));
                    assert forall|y: SlotsSlotReference| #![trigger inserts@.contains(y)]
                        inserts@.contains(y) <==> exists|k: int| k < i + 1 && #[trigger] slot_key_at(ds@, dz@, refs@, k, y, false) by {
                        if exists|k: int| k < i + 1 && #[trigger] slot_key_at(ds@, dz@, refs@, k, y, false) {
                            let k = choose|k: int| k < i + 1 && #[trigger] slot_key_at(ds@, dz@, refs@, k, y, false);
                            if k < i {
                                assert(prev.contains(y));
                            } else {
                                assert(y == key);
                            }
                        }
                    }
                    assert forall|y: SlotsSlotReference| #![trigger reuses@.contains(y)]
                        reuses@.contains(y) <==> exists|k: int| k < i + 1 && #[trigger] slot_key_at(ds@, dz@, refs@, k, y, true) by {
                        if exists|k: int| k < i + 1 && #[trigger] slot_key_at(ds@, dz@, refs@, k, y, true) {
                            let k = choose|k: int| k < i + 1 && #[trigger] slot_key_at(ds@, dz@, refs@, k, y, true);
                            assert(k < i);
                        }
                    }
                },
            }
        } else {
            assert forall|y: SlotsSlotReference| #![trigger reuses@.contains(y)]
                reuses@.contains(y) <==> exists|k: int| k < i + 1 && #[trigger] slot_key_at(ds@, dz@, refs@, k, y, true) by {
                if exists|k: int| k < i + 1 && #[trigger] slot_key_at(ds@, dz@, refs@, k, y, true) {
                    let k = choose|k: int| k < i + 1 && #[trigger] slot_key_at(ds@, dz@, refs@, k, y, true);
                    assert(k < i);
                }
            }
            assert forall|y: SlotsSlotReference| #![trigger inserts@.contains(y)]
                inserts@.contains(y) <==> exists|k: int| k < i + 1 && #[trigger] slot_key_at(ds@, dz@, refs@, k, y, false) by {
                if exists|k: int| k < i + 1 && #[trigger] slot_key_at(ds@, dz@, refs@, k, y, false) {
                    let k = choose|k: int| k < i + 1 && #[trigger] slot_key_at(ds@, dz@, refs@, k, y, false);
                    assert(k < i);
                }
            }
        }
        i = i + 1;
    }
    (reuses, inserts)
}

/// The free numbers with `reserved` removed (order kept).
fn without_reserved(free: &Vec<u8>, reserved: u8) -> (r: Vec<u8>)
    requires
        forall|i: int, j: int| 0 <= i < j < free@.len() ==> free@[i] > free@[j],
    ensures
        forall|i: int, j: int| 0 <= i < j < r@.len() ==> r@[i] > r@[j],
        forall|x: u8| r@.contains(x) <==> (free@.contains(x) && x != reserved),
{
    let mut out: Vec<u8> = Vec::new();
    let mut i: usize = 0;
    while i < free.len()
        invariant
            i <= free@.len(),
            forall|a: int, b: int| 0 <= a < b < free@.len() ==> free@[a] > free@[b],
            forall|a: int, b: int| 0 <= a < b < out@.len() ==> out@[a] > out@[b],
            forall|a: int| 0 <= a < out@.len() ==> exists|b: int| 0 <= b < i && free@[b] == #[trigger] out@[a],
            forall|x: u8| out@.contains(x) <==> (exists|b: int| 0 <= b < i && free@[b] == x && x != reserved),
        decreases free@.len() - i,
    {
        let x = free[i];
        if x != reserved {
            let ghost prev = out@;
            out.push(x);
            assert forall|a: int, b: int| 0 <= a < b < out@.len() implies out@[a] > out@[b] by {
                if b == out@.len() - 1 {
                    let w = choose|w: int| 0 <= w < i && free@[w] == #[trigger] out@[a];
                    assert(out@[a] == prev[a]);
                }
            }
            assert forall|a: int| 0 <= a < out@.len() implies exists|b: int| 0 <= b < i + 1 && free@[b] == #[trigger] out@[a] by {
                if a == out@.len() - 1 {
                    assert(free@[i as int] == out@[a]);
                } else {
                    assert(out@[a] == prev[a]);
                    let w = choose|w: int| 0 <= w < i && free@[w] == #[trigger] prev[a];
                    assert(free@[w] == out@[a]);
                }
            }
            assert forall|y: u8| out@.contains(y) <==> (exists|b: int| 0 <= b < i + 1 && free@[b] == y && y != reserved) by {
                if out@.contains(y) {
                    let k = choose|k: int| 0 <= k < out@.len() && out@[k] == y;
                    if k < prev.len() {
                        assert(prev[k] == y);
                        assert(prev.contains(y));
                    }
                }
                if exists|b: int| 0 <= b < i + 1 && free@[b] == y && y != reserved {
                    let b = choose|b: int| 0 <= b < i + 1 && free@[b] == y && y != reserved;
                    if b < i {
                        assert(prev.contains(y));
                        let k = choose|k: int| 0 <= k < prev.len() && prev[k] == y;
                        assert(out@[k] == y);
                    } else {
                        assert(out@[prev.len() as int] == y);
                    }
                }
            }
        } else {
            assert forall|y: u8| out@.contains(y) <==> (exists|b: int| 0 <= b < i + 1 && free@[b] == y && y != reserved) by {
                if exists|b: int| 0 <= b < i + 1 && free@[b] == y && y != reserved {
                    let b = choose|b: int| 0 <= b < i + 1 && free@[b] == y && y != reserved;
                    assert(b < i);
                }
            }
        }
        i = i + 1;
    }
    assert forall|x: u8| out@.contains(x) <==> (free@.contains(x) && x != reserved) by {
        if free@.contains(x) && x != reserved {
            let b = choose|b: int| 0 <= b < free@.len() && free@[b] == x;
            assert(exists|b: int| 0 <= b < i && free@[b] == x && x != reserved);
        }
    }
    out
}

/// Stable ascending sort of the keys by slot number.
fn sort_keys_by_id(v: &Vec<SlotsSlotReference>) -> (r: Vec<SlotsSlotReference>)
    ensures
        r@.len() == v@.len(),
        r@.to_multiset() == v@.to_multiset(),
        forall|y: SlotsSlotReference| r@.contains(y) <==> v@.contains(y),
        forall|a: int, b: int| 0 <= a < b < r@.len() ==> r@[a].slot_id <= r@[b].slot_id,
{
    let mut out: Vec<SlotsSlotReference> = Vec::new();
    let mut i: usize = 0;
    assert(out@ =~= v@.subrange(0, 0));
    while i < v.len()
        invariant
            i <= v@.len(),
            out@.len() == i,
            out@.to_multiset() == v@.subrange(0, i as int).to_multiset(),
            forall|y: SlotsSlotReference| out@.contains(y) <==> v@.subrange(0, i as int).contains(y),
            forall|a: int, b: int| 0 <= a < b < out@.len() ==> out@[a].slot_id <= out@[b].slot_id,
        decreases v@.len() - i,
    {
        let x = v[i];
        let mut p = out.len();
        while p > 0 && out[p - 1].slot_id > x.slot_id
            invariant
                p <= out@.len(),
                forall|k: int| p <= k < out@.len() ==> (#[trigger] out@[k]).slot_id > x.slot_id,
            decreases p,
        {
            p = p - 1;
        }
        let ghost prev = out@;
        out.insert(p, x);
        assert(out@ == prev.insert(p as int, x));
        proof {
            broadcast use vstd::seq_lib::group_to_multiset_ensures;
            assert(v@.subrange(0, i + 1) =~= v@.subrange(0, i as int).push(x));
        }
        assert forall|a: int, b: int| 0 <= a < b < out@.len() implies out@[a].slot_id <= out@[b].slot_id by {
            if a < p && b < p {
                assert(out@[a] == prev[a] && out@[b] == prev[b]);
            } else if a < p && b == p {
                assert(out@[a] == prev[a]);
            } else if a < p {
                assert(out@[a] == prev[a] && out@[b] == prev[b - 1]);
            } else if a == p {
                assert(out@[b] == prev[b - 1]);
            } else {
                assert(out@[a] == prev[a - 1] && out@[b] == prev[b - 1]);
            }
        }
        let ghost cur = v@.subrange(0, i as int);
        let ghost nxt = cur.push(x);
        assert(v@.subrange(0, i + 1) =~= nxt);
        assert forall|y: SlotsSlotReference| out@.contains(y) <==> nxt.contains(y) by {
            if out@.contains(y) {
                let k = choose|k: int| 0 <= k < out@.len() && out@[k] == y;
                if k < p {
                    assert(prev[k] == y);
                    assert(prev.contains(y));
                } else if k > p {
                    assert(prev[k - 1] == y);
                    assert(prev.contains(y));
                }
                if prev.contains(y) {
                    assert(cur.contains(y));
                    let w = choose|w: int| 0 <= w < cur.len() && cur[w] == y;
                    assert(nxt[w] == y);
                } else {
                    assert(nxt[i as int] == y);
                }
            }
            if nxt.contains(y) {
                let w = choose|w: int| 0 <= w < nxt.len() && nxt[w] == y;
                if w < i {
                    assert(cur[w] == y);
                    assert(cur.contains(y));
                    assert(prev.contains(y));
                    let k = choose|k: int| 0 <= k < prev.len() && prev[k] == y;
                    if k < p {
                        assert(out@[k] == y);
                    } else {
                        assert(out@[k + 1] == y);
                    }
                } else {
                    assert(out@[p as int] == y);
                }
            }
        }
        i = i + 1;
    }
    assert(v@.subrange(0, i as int) =~= v@);
    out
}

/// A slot that only carries a type and number (its other settings are not
/// used): the source of an operation for a reference to an empty slot.
fn placeholder_slot(t: ProjectSampleSlotType, id: u8) -> (r: ProjectSampleSlot)
    ensures
        r.sample_type == t,
        r.slot_id == id,
{
    ProjectSampleSlot {
        sample_type: t,
        slot_id: id,
        path: String::new(),
        trim_bars_x100: 0,
        timestrech_mode: SampleAttributeTimestrechMode::Normal,
        loop_mode: SampleAttributeLoopMode::Off,
        trig_quantization_mode: SampleAttributeTrigQuantizationMode::PatternLength,
        gain: 24,
        bpm: 120,
    }
}

/// Where a reference to an empty slot of type `t` goes: number `se` for a
/// static slot, `fe` for a flex slot (254 for a recorder buffer).
pub open spec fn empty_target(t: ProjectSampleSlotType, se: u8, fe: u8) -> u8 {
    match t {
        ProjectSampleSlotType::Static => se,
        ProjectSampleSlotType::Flex => fe,
        ProjectSampleSlotType::RecorderBuffer => 254,
    }
}

/// The move of reference `y` (to an empty slot) to its empty target.
pub open spec fn inactive_move(y: BankSlotReference, se: u8, fe: u8) -> SlotReferenceReassignment {
    SlotReferenceReassignment {
        initial_slot_id: y.slot_id,
        new_slot_id: empty_target(y.sample_type, se, fe),
        slot_type: y.sample_type,
    }
}

/// The move of references to source slot `s` to destination slot `m`.
pub open spec fn slot_move(s: ProjectSampleSlot, m: ProjectSampleSlot) -> SlotReferenceReassignment {
    SlotReferenceReassignment { initial_slot_id: s.slot_id, new_slot_id: m.slot_id, slot_type: s.sample_type }
}

/// The move of references to a copied slot to its new number.
pub open spec fn copy_move(c: SlotFileCopy) -> SlotReferenceReassignment {
    slot_move(c.from, c.to)
}

/// The moves that operations make, in order.
pub open spec fn op_moves(ops: Seq<SampleSlotOperation>) -> Seq<SlotReferenceReassignment> {
    ops.map_values(|o: SampleSlotOperation| spec_op_reassignment(o))
}

/// The moves of the references to empty slots, in order.
pub open spec fn inactive_moves_of(refs: Seq<BankSlotReference>, se: u8, fe: u8) -> Seq<SlotReferenceReassignment>
    decreases refs.len(),
{
    if refs.len() == 0 {
        Seq::empty()
    } else {
        let p = inactive_moves_of(refs.drop_last(), se, fe);
        if refs.last().reference_type == BankSlotReferenceType::Inactive {
            p.push(inactive_move(refs.last(), se, fe))
        } else {
            p
        }
    }
}

proof fn lemma_inactive_moves_of_contains(refs: Seq<BankSlotReference>, se: u8, fe: u8)
    ensures
        forall|x: SlotReferenceReassignment| #![trigger inactive_moves_of(refs, se, fe).contains(x)]
            inactive_moves_of(refs, se, fe).contains(x) <==> exists|j: int| 0 <= j < refs.len()
                && (#[trigger] refs[j]).reference_type == BankSlotReferenceType::Inactive && inactive_move(refs[j], se, fe) == x,
    decreases refs.len(),
{
    if refs.len() > 0 {
        let d = refs.drop_last();
        lemma_inactive_moves_of_contains(d, se, fe);
        let p = inactive_moves_of(d, se, fe);
        let q = inactive_moves_of(refs, se, fe);
        assert forall|x: SlotReferenceReassignment| q.contains(x) <==> exists|j: int| 0 <= j < refs.len()
            && (#[trigger] refs[j]).reference_type == BankSlotReferenceType::Inactive && inactive_move(refs[j], se, fe) == x by {
            if q.contains(x) {
                let a = choose|a: int| 0 <= a < q.len() && q[a] == x;
                if a < p.len() {
                    assert(p[a] == x);
                    assert(p.contains(x));
                    let j = choose|j: int| 0 <= j < d.len()
                        && (#[trigger] d[j]).reference_type == BankSlotReferenceType::Inactive && inactive_move(d[j], se, fe) == x;
                    assert(refs[j] == d[j]);
                } else {
                    assert(refs[refs.len() - 1] == refs.last());
                }
            }
            if exists|j: int| 0 <= j < refs.len()
                && (#[trigger] refs[j]).reference_type == BankSlotReferenceType::Inactive && inactive_move(refs[j], se, fe) == x {
                let j = choose|j: int| 0 <= j < refs.len()
                    && (#[trigger] refs[j]).reference_type == BankSlotReferenceType::Inactive && inactive_move(refs[j], se, fe) == x;
                if j < d.len() {
                    assert(d[j] == refs[j]);
                    assert(p.contains(x));
                    let a = choose|a: int| 0 <= a < p.len() && p[a] == x;
                    assert(q[a] == x);
                } else {
                    assert(q[q.len() - 1] == x);
                }
            }
        }
    }
}

/// One operation per reference to an empty slot, moving it to its empty
/// target.
fn inactive_operations(refs: &Vec<BankSlotReference>, se: u8, fe: u8) -> (r: Vec<SampleSlotOperation>)
    ensures
        op_moves(r@) == inactive_moves_of(refs@, se, fe),
{
    let mut ops: Vec<SampleSlotOperation> = Vec::new();
    let mut i: usize = 0;
    while i < refs.len()
        invariant
            i <= refs@.len(),
            op_moves(ops@) == inactive_moves_of(refs@.subrange(0, i as int), se, fe),
        decreases refs@.len() - i,
    {
        let x = refs[i];
        assert(refs@.subrange(0, i + 1).drop_last() =~= refs@.subrange(0, i as int));
        let ghost prev = ops@;
        if x.reference_type == BankSlotReferenceType::Inactive {
            let new_slot_id: u8 = match x.sample_type {
                ProjectSampleSlotType::Static => se,
                ProjectSampleSlotType::Flex => fe,
                ProjectSampleSlotType::RecorderBuffer => 254,
            };
            ops.push(SampleSlotOperation {
                src_slot: placeholder_slot(x.sample_type, x.slot_id),
                dest_slot: placeholder_slot(x.sample_type, new_slot_id),
                op_type: SampleSlotOperationType::ReuseSlot,
            });
            assert(op_moves(ops@) =~= op_moves(prev).push(inactive_move(x, se, fe)));
        }
        i = i + 1;
    }
    assert(refs@.subrange(0, i as int) =~= refs@);
    ops
}

/// The move that key (`t`, `id`) makes when the first source slot of that
/// type and number has a destination match: references go to the match.
pub open spec fn key_reuse_move(
    ds: Seq<ProjectSampleSlot>,
    dz: Seq<ProjectSampleSlot>,
    t: ProjectSampleSlotType,
    id: u8,
) -> Option<SlotReferenceReassignment> {
    if exists|k: int| first_slot_at(ds, t, id, k) {
        let k = choose|k: int| first_slot_at(ds, t, id, k);
        match spec_best_match(ds[k], dz) {
            Some(m) => Some(slot_move(ds[k], m)),
            None => None,
        }
    } else {
        None
    }
}

proof fn lemma_first_slot_unique(ds: Seq<ProjectSampleSlot>, t: ProjectSampleSlotType, id: u8, k1: int, k2: int)
    requires
        first_slot_at(ds, t, id, k1),
        first_slot_at(ds, t, id, k2),
    ensures
        k1 == k2,
{
    if k1 < k2 {
        assert(!((ds[k1]).sample_type == t && ds[k1].slot_id == id));
    } else if k2 < k1 {
        assert(!((ds[k2]).sample_type == t && ds[k2].slot_id == id));
    }
}

/// The move of key (`t`, `id`), given the position `k` of its first slot.
proof fn lemma_key_reuse_move_at(ds: Seq<ProjectSampleSlot>, dz: Seq<ProjectSampleSlot>, t: ProjectSampleSlotType, id: u8, k: int)
    requires
        first_slot_at(ds, t, id, k),
    ensures
        key_reuse_move(ds, dz, t, id) == match spec_best_match(ds[k], dz) {
            Some(m) => Some(slot_move(ds[k], m)),
            None => None::<SlotReferenceReassignment>,
        },
{
    let k2 = choose|k2: int| first_slot_at(ds, t, id, k2);
    lemma_first_slot_unique(ds, t, id, k, k2);
}

/// The moves of the keys whose first source slot has a destination match,
/// in order.
pub open spec fn reuse_moves_of(
    ds: Seq<ProjectSampleSlot>,
    dz: Seq<ProjectSampleSlot>,
    keys: Seq<SlotsSlotReference>,
) -> Seq<SlotReferenceReassignment>
    decreases keys.len(),
{
    if keys.len() == 0 {
        Seq::empty()
    } else {
        let p = reuse_moves_of(ds, dz, keys.drop_last());
        match key_reuse_move(ds, dz, keys.last().sample_type, keys.last().slot_id) {
            Some(m) => p.push(m),
            None => p,
        }
    }
}

proof fn lemma_reuse_moves_of_contains(ds: Seq<ProjectSampleSlot>, dz: Seq<ProjectSampleSlot>, keys: Seq<SlotsSlotReference>)
    ensures
        forall|x: SlotReferenceReassignment| #![trigger reuse_moves_of(ds, dz, keys).contains(x)]
            reuse_moves_of(ds, dz, keys).contains(x) <==> exists|j: int| 0 <= j < keys.len()
                && key_reuse_move(ds, dz, (#[trigger] keys[j]).sample_type, keys[j].slot_id) == Some(x),
    decreases keys.len(),
{
    if keys.len() > 0 {
        let d = keys.drop_last();
        lemma_reuse_moves_of_contains(ds, dz, d);
        let p = reuse_moves_of(ds, dz, d);
        let q = reuse_moves_of(ds, dz, keys);
        assert forall|x: SlotReferenceReassignment| q.contains(x) <==> exists|j: int| 0 <= j < keys.len()
            && key_reuse_move(ds, dz, (#[trigger] keys[j]).sample_type, keys[j].slot_id) == Some(x) by {
            if q.contains(x) {
                let a = choose|a: int| 0 <= a < q.len() && q[a] == x;
                if a < p.len() {
                    assert(p[a] == x);
                    assert(p.contains(x));
                    let j = choose|j: int| 0 <= j < d.len()
                        && key_reuse_move(ds, dz, (#[trigger] d[j]).sample_type, d[j].slot_id) == Some(x);
                    assert(keys[j] == d[j]);
                } else {
                    assert(keys[keys.len() - 1] == keys.last());
                }
            }
            if exists|j: int| 0 <= j < keys.len() && key_reuse_move(ds, dz, (#[trigger] keys[j]).sample_type, keys[j].slot_id) == Some(x) {
                let j = choose|j: int| 0 <= j < keys.len()
                    && key_reuse_move(ds, dz, (#[trigger] keys[j]).sample_type, keys[j].slot_id) == Some(x);
                if j < d.len() {
                    assert(d[j] == keys[j]);
                    assert(p.contains(x));
                    let a = choose|a: int| 0 <= a < p.len() && p[a] == x;
                    assert(q[a] == x);
                } else {
                    assert(q[q.len() - 1] == x);
                }
            }
        }
    }
}

/// One operation per key whose first source slot has a destination match,
/// moving references to that slot to the match.
fn reuse_operations(
    ds: &Vec<ProjectSampleSlot>,
    dz: &Vec<ProjectSampleSlot>,
    keys: &Vec<SlotsSlotReference>,
) -> (r: Vec<SampleSlotOperation>)
    ensures
        op_moves(r@) == reuse_moves_of(ds@, dz@, keys@),
{
    let mut ops: Vec<SampleSlotOperation> = Vec::new();
    let mut i: usize = 0;
    while i < keys.len()
        invariant
            i <= keys@.len(),
            op_moves(ops@) == reuse_moves_of(ds@, dz@, keys@.subrange(0, i as int)),
        decreases keys@.len() - i,
    {
        let x = keys[i];
        assert(keys@.subrange(0, i + 1).drop_last() =~= keys@.subrange(0, i as int));
        assert(keys@.subrange(0, i + 1).last() == x);
        let ghost prev = ops@;
        match find_slot(ds, x.sample_type, x.slot_id) {
            Some(k) => {
                proof {
                    lemma_key_reuse_move_at(ds@, dz@, x.sample_type, x.slot_id, k as int);
                }
                match find_sample_slot_settings_match(&ds[k], dz.as_slice()) {
                    Some(new_slot) => {
                        ops.push(SampleSlotOperation {
                            src_slot: ds[k].copy_slot(),
                            dest_slot: new_slot,
                            op_type: SampleSlotOperationType::ReuseSlot,
                        });
                        assert(op_moves(ops@) =~= op_moves(prev).push(slot_move(ds@[k as int], new_slot)));
                    },
                    None => {},
                }
            },
            None => {
                assert(!exists|k: int| first_slot_at(ds@, x.sample_type, x.slot_id, k));
            },
        }
        i = i + 1;
    }
    assert(keys@.subrange(0, i as int) =~= keys@);
    ops
}

/// One operation per copied slot, moving references to it to its new number.
fn copy_operations(copies: &Vec<SlotFileCopy>) -> (r: Vec<SampleSlotOperation>)
    ensures
        r@.len() == copies@.len(),
        forall|a: int| 0 <= a < r@.len() ==> spec_op_reassignment(#[trigger] r@[a]) == copy_move(copies@[a]),
{
    let mut ops: Vec<SampleSlotOperation> = Vec::new();
    let mut i: usize = 0;
    while i < copies.len()
        invariant
            i <= copies@.len(),
            ops@.len() == i,
            forall|a: int| 0 <= a < ops@.len() ==> spec_op_reassignment(#[trigger] ops@[a]) == copy_move(copies@[a]),
        decreases copies@.len() - i,
    {
        ops.push(SampleSlotOperation {
            src_slot: copies[i].from.copy_slot(),
            dest_slot: copies[i].to.copy_slot(),
            op_type: SampleSlotOperationType::NewSlot,
        });
        i = i + 1;
    }
    ops
}

/// Whether bank `b` makes reference `y` to the slots `ds` (by a sample-slot
/// parameter lock of a pattern or a machine slot of an unsaved part).
pub open spec fn bank_ref(ds: Seq<ProjectSampleSlot>, b: Bank, y: BankSlotReference) -> bool {
    spec_patterns_ref(ds, b.patterns@, y) || spec_parts_ref(ds, b.parts_unsaved@, y)
}

/// Whether bank `b` refers to slot number `id` (of either type).
pub open spec fn bank_refers_to_id(ds: Seq<ProjectSampleSlot>, b: Bank, id: u8) -> bool {
    exists|y: BankSlotReference| #[trigger] bank_ref(ds, b, y) && y.slot_id == id
}

/// Whether `e` is the greatest number up to 127 that no slot of type `t` of
/// `dz` uses.
pub open spec fn last_empty_is(dz: Seq<ProjectSampleSlot>, t: ProjectSampleSlotType, e: u8) -> bool {
    &&& e <= 127
    &&& !slot_used(dz, t, e)
    &&& forall|y: u8| e < y <= 127 ==> slot_used(dz, t, y)
}

/// Whether `rs` (in descending order of initial number) moves exactly the
/// references of bank `b` to empty source slots, each to the greatest empty
/// destination number of its type.
pub open spec fn inactive_moves(
    ds: Seq<ProjectSampleSlot>,
    dz: Seq<ProjectSampleSlot>,
    b: Bank,
    rs: Seq<SlotReferenceReassignment>,
) -> bool {
    &&& descending_ids(rs)
    &&& forall|x: SlotReferenceReassignment| #![trigger rs.contains(x)] rs.contains(x) <==> exists|y: BankSlotReference|
        #[trigger] bank_ref(ds, b, y) && y.reference_type == BankSlotReferenceType::Inactive
            && x.slot_type == y.sample_type && x.initial_slot_id == y.slot_id && last_empty_is(dz, y.sample_type, x.new_slot_id)
}

/// Whether `rs` (in descending order of initial number) moves, for each
/// type and number whose first source slot the bank refers to (by number)
/// and a destination slot matches, references to it to that match.
pub open spec fn reuse_moves(
    ds: Seq<ProjectSampleSlot>,
    dz: Seq<ProjectSampleSlot>,
    b: Bank,
    rs: Seq<SlotReferenceReassignment>,
) -> bool {
    &&& descending_ids(rs)
    &&& forall|x: SlotReferenceReassignment| #![trigger rs.contains(x)] rs.contains(x) <==> exists|k: int|
        #[trigger] first_slot_at(ds, x.slot_type, x.initial_slot_id, k) && bank_refers_to_id(ds, b, x.initial_slot_id)
            && spec_best_match(ds[k], dz) is Some && x.new_slot_id == spec_best_match(ds[k], dz)->0.slot_id
}

/// Whether `rs` (in descending order of initial number) moves exactly the
/// references to the copied slots to their new numbers.
pub open spec fn copy_moves(copies: Seq<SlotFileCopy>, rs: Seq<SlotReferenceReassignment>) -> bool {
    &&& descending_ids(rs)
    &&& forall|x: SlotReferenceReassignment| #![trigger rs.contains(x)] rs.contains(x) <==> exists|i: int|
        0 <= i < copies.len() && copy_move(#[trigger] copies[i]) == x
}

proof fn lemma_bank_ref_type(ds: Seq<ProjectSampleSlot>, b: Bank, y: BankSlotReference)
    requires
        bank_ref(ds, b, y),
    ensures
        y.sample_type == ProjectSampleSlotType::Static || y.sample_type == ProjectSampleSlotType::Flex,
{
}

proof fn lemma_referenced_ids(refs: Seq<BankSlotReference>, ds: Seq<ProjectSampleSlot>, b: Bank, id: u8)
    requires
        forall|y: BankSlotReference| refs.contains(y) <==> bank_ref(ds, b, y),
    ensures
        referenced_id(refs, id) <==> bank_refers_to_id(ds, b, id),
{
    if referenced_id(refs, id) {
        let k = choose|k: int| 0 <= k < refs.len() && (#[trigger] refs[k]).slot_id == id;
        assert(refs.contains(refs[k]));
        assert(bank_ref(ds, b, refs[k]));
    }
    if bank_refers_to_id(ds, b, id) {
        let y = choose|y: BankSlotReference| #[trigger] bank_ref(ds, b, y) && y.slot_id == id;
        assert(refs.contains(y));
        let k = choose|k: int| 0 <= k < refs.len() && refs[k] == y;
        assert(refs[k].slot_id == id);
    }
}

proof fn lemma_inactive_moves(
    refs: Seq<BankSlotReference>,
    ds: Seq<ProjectSampleSlot>,
    dz: Seq<ProjectSampleSlot>,
    b: Bank,
    se: u8,
    fe: u8,
    ops: Seq<SampleSlotOperation>,
)
    requires
        forall|y: BankSlotReference| refs.contains(y) <==> bank_ref(ds, b, y),
        last_empty_is(dz, ProjectSampleSlotType::Static, se),
        last_empty_is(dz, ProjectSampleSlotType::Flex, fe),
        op_moves(ops) == inactive_moves_of(refs, se, fe),
    ensures
        inactive_moves(ds, dz, b, spec_sorted_reassignments(ops)),
{
    let rs = spec_sorted_reassignments(ops);
    lemma_sorted_reassignments_props(ops);
    lemma_inactive_moves_of_contains(refs, se, fe);
    assert forall|x: SlotReferenceReassignment| #![trigger rs.contains(x)] rs.contains(x) <==> exists|y: BankSlotReference|
        #[trigger] bank_ref(ds, b, y) && y.reference_type == BankSlotReferenceType::Inactive
            && x.slot_type == y.sample_type && x.initial_slot_id == y.slot_id && last_empty_is(dz, y.sample_type, x.new_slot_id) by {
        if rs.contains(x) {
            let k = choose|k: int| 0 <= k < ops.len() && spec_op_reassignment(#[trigger] ops[k]) == x;
            assert(op_moves(ops)[k] == x);
            assert(inactive_moves_of(refs, se, fe).contains(x));
            let j = choose|j: int| 0 <= j < refs.len()
                && (#[trigger] refs[j]).reference_type == BankSlotReferenceType::Inactive && inactive_move(refs[j], se, fe) == x;
            assert(refs.contains(refs[j]));
            lemma_bank_ref_type(ds, b, refs[j]);
        }
        if exists|y: BankSlotReference| #[trigger] bank_ref(ds, b, y) && y.reference_type == BankSlotReferenceType::Inactive
            && x.slot_type == y.sample_type && x.initial_slot_id == y.slot_id && last_empty_is(dz, y.sample_type, x.new_slot_id) {
            let y = choose|y: BankSlotReference| #[trigger] bank_ref(ds, b, y) && y.reference_type == BankSlotReferenceType::Inactive
                && x.slot_type == y.sample_type && x.initial_slot_id == y.slot_id && last_empty_is(dz, y.sample_type, x.new_slot_id);
            lemma_bank_ref_type(ds, b, y);
            assert(x.new_slot_id == empty_target(y.sample_type, se, fe)) by {
                if x.new_slot_id < empty_target(y.sample_type, se, fe) {
                    assert(slot_used(dz, y.sample_type, empty_target(y.sample_type, se, fe)));
                } else if x.new_slot_id > empty_target(y.sample_type, se, fe) {
                    assert(slot_used(dz, y.sample_type, x.new_slot_id));
                }
            }
            assert(refs.contains(y));
            let j = choose|j: int| 0 <= j < refs.len() && refs[j] == y;
            assert(inactive_move(refs[j], se, fe) == x);
            assert(inactive_moves_of(refs, se, fe).contains(x));
            let a = choose|a: int| 0 <= a < op_moves(ops).len() && op_moves(ops)[a] == x;
            assert(spec_op_reassignment(ops[a]) == x);
        }
    }
}

proof fn lemma_reuse_moves(
    refs: Seq<BankSlotReference>,
    ds: Seq<ProjectSampleSlot>,
    dz: Seq<ProjectSampleSlot>,
    b: Bank,
    keys: Seq<SlotsSlotReference>,
    ops: Seq<SampleSlotOperation>,
)
    requires
        forall|y: BankSlotReference| refs.contains(y) <==> bank_ref(ds, b, y),
        forall|y: SlotsSlotReference| #![trigger keys.contains(y)]
            keys.contains(y) <==> exists|k: int| #[trigger] slot_key_at(ds, dz, refs, k, y, true),
        op_moves(ops) == reuse_moves_of(ds, dz, keys),
    ensures
        reuse_moves(ds, dz, b, spec_sorted_reassignments(ops)),
{
    let rs = spec_sorted_reassignments(ops);
    lemma_sorted_reassignments_props(ops);
    lemma_reuse_moves_of_contains(ds, dz, keys);
    assert forall|x: SlotReferenceReassignment| #![trigger rs.contains(x)] rs.contains(x) <==> exists|k: int|
        #[trigger] first_slot_at(ds, x.slot_type, x.initial_slot_id, k) && bank_refers_to_id(ds, b, x.initial_slot_id)
            && spec_best_match(ds[k], dz) is Some && x.new_slot_id == spec_best_match(ds[k], dz)->0.slot_id by {
        if rs.contains(x) {
            let a = choose|a: int| 0 <= a < ops.len() && spec_op_reassignment(#[trigger] ops[a]) == x;
            assert(op_moves(ops)[a] == x);
            assert(reuse_moves_of(ds, dz, keys).contains(x));
            let j = choose|j: int| 0 <= j < keys.len()
                && key_reuse_move(ds, dz, (#[trigger] keys[j]).sample_type, keys[j].slot_id) == Some(x);
            let key = keys[j];
            assert(keys.contains(key));
            let k2 = choose|k2: int| #[trigger] slot_key_at(ds, dz, refs, k2, key, true);
            let k = choose|k: int| first_slot_at(ds, key.sample_type, key.slot_id, k);
            lemma_key_reuse_move_at(ds, dz, key.sample_type, key.slot_id, k);
            lemma_referenced_ids(refs, ds, b, key.slot_id);
            assert(first_slot_at(ds, x.slot_type, x.initial_slot_id, k));
        }
        if exists|k: int| #[trigger] first_slot_at(ds, x.slot_type, x.initial_slot_id, k) && bank_refers_to_id(ds, b, x.initial_slot_id)
            && spec_best_match(ds[k], dz) is Some && x.new_slot_id == spec_best_match(ds[k], dz)->0.slot_id {
            let k = choose|k: int| #[trigger] first_slot_at(ds, x.slot_type, x.initial_slot_id, k) && bank_refers_to_id(ds, b, x.initial_slot_id)
                && spec_best_match(ds[k], dz) is Some && x.new_slot_id == spec_best_match(ds[k], dz)->0.slot_id;
            let key = SlotsSlotReference { sample_type: x.slot_type, slot_id: x.initial_slot_id, op_type: SampleSlotOperationType::ReuseSlot };
            lemma_referenced_ids(refs, ds, b, x.initial_slot_id);
            assert(slot_key_at(ds, dz, refs, k, key, true));
            assert(keys.contains(key));
            let j = choose|j: int| 0 <= j < keys.len() && keys[j] == key;
            lemma_key_reuse_move_at(ds, dz, key.sample_type, key.slot_id, k);
            assert(key_reuse_move(ds, dz, keys[j].sample_type, keys[j].slot_id) == Some(x));
            assert(reuse_moves_of(ds, dz, keys).contains(x));
            let a = choose|a: int| 0 <= a < op_moves(ops).len() && op_moves(ops)[a] == x;
            assert(spec_op_reassignment(ops[a]) == x);
        }
    }
}

proof fn lemma_copy_moves(copies: Seq<SlotFileCopy>, ops: Seq<SampleSlotOperation>)
    requires
        ops.len() == copies.len(),
        forall|a: int| 0 <= a < ops.len() ==> spec_op_reassignment(#[trigger] ops[a]) == copy_move(copies[a]),
    ensures
        copy_moves(copies, spec_sorted_reassignments(ops)),
{
    let rs = spec_sorted_reassignments(ops);
    lemma_sorted_reassignments_props(ops);
    assert forall|x: SlotReferenceReassignment| #![trigger rs.contains(x)] rs.contains(x) <==> exists|i: int|
        0 <= i < copies.len() && copy_move(#[trigger] copies[i]) == x by {
        if rs.contains(x) {
            let a = choose|a: int| 0 <= a < ops.len() && spec_op_reassignment(#[trigger] ops[a]) == x;
            assert(copy_move(copies[a]) == x);
        }
        if exists|i: int| 0 <= i < copies.len() && copy_move(#[trigger] copies[i]) == x {
            let i = choose|i: int| 0 <= i < copies.len() && copy_move(#[trigger] copies[i]) == x;
            assert(spec_op_reassignment(ops[i]) == x);
        }
    }
}

/// Whether some copy of `cs` has a source slot of type `t` numbered `id`.
pub open spec fn has_copy_for(cs: Seq<SlotFileCopy>, t: ProjectSampleSlotType, id: u8) -> bool {
    exists|a: int| 0 <= a < cs.len() && (#[trigger] cs[a]).from.sample_type == t && cs[a].from.slot_id == id
}

proof fn lemma_has_copy_for_push(cs: Seq<SlotFileCopy>, c: SlotFileCopy, t: ProjectSampleSlotType, id: u8)
    requires
        has_copy_for(cs, t, id),
    ensures
        has_copy_for(cs.push(c), t, id),
{
    let a = choose|a: int| 0 <= a < cs.len() && (#[trigger] cs[a]).from.sample_type == t && cs[a].from.slot_id == id;
    assert(cs.push(c)[a] == cs[a]);
}

/// Whether some copy of `cs` gives a destination slot of type `t` numbered
/// `id`.
pub open spec fn has_copy_to(cs: Seq<SlotFileCopy>, t: ProjectSampleSlotType, id: u8) -> bool {
    exists|a: int| 0 <= a < cs.len() && (#[trigger] cs[a]).to.sample_type == t && cs[a].to.slot_id == id
}

proof fn lemma_has_copy_to_push(cs: Seq<SlotFileCopy>, c: SlotFileCopy, t: ProjectSampleSlotType, id: u8)
    requires
        has_copy_to(cs, t, id),
    ensures
        has_copy_to(cs.push(c), t, id),
{
    let a = choose|a: int| 0 <= a < cs.len() && (#[trigger] cs[a]).to.sample_type == t && cs[a].to.slot_id == id;
    assert(cs.push(c)[a] == cs[a]);
}

/// The copies of one type take the lowest free numbers: no free number
/// (other than the last empty one) below a copy's number is left out.
proof fn lemma_no_skipped_numbers(
    dz: Seq<ProjectSampleSlot>,
    t: ProjectSampleSlotType,
    e: u8,
    all: Seq<u8>,
    free0: Seq<u8>,
    free: Seq<u8>,
    cs: Seq<SlotFileCopy>,
)
    requires
        last_empty_is(dz, t, e),
        forall|x: u8| x <= 127 && !slot_used(dz, t, x) ==> all.contains(x),
        forall|x: u8| free0.contains(x) <==> (all.contains(x) && x != e),
        forall|y: u8| #![trigger free0.contains(y)] free0.contains(y) ==> free.contains(y) || has_copy_to(cs, t, y),
        forall|a: int, b: int| 0 <= a < cs.len() && 0 <= b < free.len() ==> cs[a].to.slot_id < free[b],
        forall|a: int| 0 <= a < cs.len() ==> (#[trigger] cs[a]).to.slot_id <= 127,
    ensures
        forall|a: int, y: u8| #![trigger cs[a], slot_used(dz, t, y)] 0 <= a < cs.len() && y < cs[a].to.slot_id && !slot_used(dz, t, y)
            && !last_empty_is(dz, t, y) ==> has_copy_to(cs, t, y),
{
    assert forall|a: int, y: u8| #![trigger cs[a], slot_used(dz, t, y)] 0 <= a < cs.len() && y < cs[a].to.slot_id && !slot_used(dz, t, y)
        && !last_empty_is(dz, t, y) implies has_copy_to(cs, t, y) by {
        assert(cs[a].to.slot_id <= 127);
        assert(all.contains(y));
        if y == e {
            assert(last_empty_is(dz, t, y));
        }
        assert(free0.contains(y));
        if free.contains(y) {
            let b = choose|b: int| 0 <= b < free.len() && free[b] == y;
            assert(cs[a].to.slot_id < free[b]);
        }
    }
}

proof fn lemma_has_copy_to_concat(cs: Seq<SlotFileCopy>, cf: Seq<SlotFileCopy>, t: ProjectSampleSlotType, y: u8)
    ensures
        has_copy_to(cs, t, y) ==> has_copy_to(cs + cf, t, y),
        has_copy_to(cf, t, y) ==> has_copy_to(cs + cf, t, y),
{
    if has_copy_to(cs, t, y) {
        let a = choose|a: int| 0 <= a < cs.len() && (#[trigger] cs[a]).to.sample_type == t && cs[a].to.slot_id == y;
        assert((cs + cf)[a] == cs[a]);
    }
    if has_copy_to(cf, t, y) {
        let a = choose|a: int| 0 <= a < cf.len() && (#[trigger] cf[a]).to.sample_type == t && cf[a].to.slot_id == y;
        assert((cs + cf)[cs.len() + a] == cf[a]);
    }
}

/// Copies of static slots followed by copies of flex slots, each group in
/// ascending order of source number and taking the lowest free numbers of its
/// type, keep both properties as one list.
proof fn lemma_copies_order(
    dz: Seq<ProjectSampleSlot>,
    cs: Seq<SlotFileCopy>,
    cf: Seq<SlotFileCopy>,
)
    requires
        forall|a: int| 0 <= a < cs.len() ==> (#[trigger] cs[a]).to.sample_type == ProjectSampleSlotType::Static,
        forall|a: int| 0 <= a < cf.len() ==> (#[trigger] cf[a]).to.sample_type == ProjectSampleSlotType::Flex,
        forall|a: int, b: int| 0 <= a < b < cs.len() ==> cs[a].from.slot_id <= cs[b].from.slot_id,
        forall|a: int, b: int| 0 <= a < b < cf.len() ==> cf[a].from.slot_id <= cf[b].from.slot_id,
        forall|a: int, y: u8| #![trigger cs[a], slot_used(dz, ProjectSampleSlotType::Static, y)] 0 <= a < cs.len() && y < cs[a].to.slot_id && !slot_used(dz, ProjectSampleSlotType::Static, y)
            && !last_empty_is(dz, ProjectSampleSlotType::Static, y) ==> has_copy_to(cs, ProjectSampleSlotType::Static, y),
        forall|a: int, y: u8| #![trigger cf[a], slot_used(dz, ProjectSampleSlotType::Flex, y)] 0 <= a < cf.len() && y < cf[a].to.slot_id && !slot_used(dz, ProjectSampleSlotType::Flex, y)
            && !last_empty_is(dz, ProjectSampleSlotType::Flex, y) ==> has_copy_to(cf, ProjectSampleSlotType::Flex, y),
    ensures
        forall|i: int, j: int| 0 <= i < j < (cs + cf).len() && (cs + cf)[i].to.sample_type == (cs + cf)[j].to.sample_type
            ==> (cs + cf)[i].from.slot_id <= (cs + cf)[j].from.slot_id,
        forall|i: int, y: u8| 0 <= i < (cs + cf).len() && y < (cs + cf)[i].to.slot_id
            && !(#[trigger] slot_used(dz, (cs + cf)[i].to.sample_type, y)) && !last_empty_is(dz, (cs + cf)[i].to.sample_type, y)
            ==> has_copy_to(cs + cf, (cs + cf)[i].to.sample_type, y),
{
    let c = cs + cf;
    let n = cs.len() as int;
    assert forall|i: int, j: int| 0 <= i < j < c.len() && c[i].to.sample_type == c[j].to.sample_type
        implies c[i].from.slot_id <= c[j].from.slot_id by {
        if j < n {
            assert(c[i] == cs[i] && c[j] == cs[j]);
        } else if i >= n {
            assert(c[i] == cf[i - n] && c[j] == cf[j - n]);
        } else {
            assert(c[i] == cs[i] && c[j] == cf[j - n]);
        }
    }
    assert forall|i: int, y: u8| 0 <= i < c.len() && y < c[i].to.slot_id
        && !(#[trigger] slot_used(dz, c[i].to.sample_type, y)) && !last_empty_is(dz, c[i].to.sample_type, y)
        implies has_copy_to(c, c[i].to.sample_type, y) by {
        lemma_has_copy_to_concat(cs, cf, c[i].to.sample_type, y);
        if i < n {
            assert(c[i] == cs[i]);
        } else {
            assert(c[i] == cf[i - n]);
        }
    }
}

/// How many numbers below `n` (at most 256) satisfy `p`.
pub open spec fn count_below(p: spec_fn(u8) -> bool, n: nat) -> nat
    decreases n,
{
    if n == 0 {
        0
    } else {
        count_below(p, (n - 1) as nat) + (if p((n - 1) as u8) { 1nat } else { 0nat })
    }
}

proof fn lemma_count_below_ext(p: spec_fn(u8) -> bool, q: spec_fn(u8) -> bool, n: nat)
    requires
        n <= 256,
        forall|id: u8| #![trigger p(id)] #![trigger q(id)] id < n ==> p(id) == q(id),
    ensures
        count_below(p, n) == count_below(q, n),
    decreases n,
{
    if n > 0 {
        lemma_count_below_ext(p, q, (n - 1) as nat);
        assert(((n - 1) as u8) < n);
    }
}

proof fn lemma_count_below_add(p: spec_fn(u8) -> bool, q: spec_fn(u8) -> bool, x: u8, n: nat)
    requires
        n <= 256,
        forall|id: u8| #![trigger q(id)] #![trigger p(id)] q(id) == (p(id) || id == x),
        !p(x),
    ensures
        count_below(q, n) == count_below(p, n) + (if x < n { 1nat } else { 0nat }),
    decreases n,
{
    if n > 0 {
        lemma_count_below_add(p, q, x, (n - 1) as nat);
        let m = (n - 1) as u8;
        assert(m as int == n - 1);
    }
}

proof fn lemma_count_below_pos(p: spec_fn(u8) -> bool, x: u8, n: nat)
    requires
        n <= 256,
        x < n,
        p(x),
    ensures
        count_below(p, n) >= 1,
    decreases n,
{
    if x < n - 1 {
        lemma_count_below_pos(p, x, (n - 1) as nat);
    } else {
        assert(((n - 1) as u8) == x);
    }
}

/// A sequence of distinct numbers is as long as the count of the numbers it
/// holds.
proof fn lemma_distinct_ids_count(s: Seq<u8>)
    requires
        s.no_duplicates(),
    ensures
        s.len() == count_below(|id: u8| s.contains(id), 256),
    decreases s.len(),
{
    if s.len() == 0 {
        lemma_count_below_ext(|id: u8| s.contains(id), |id: u8| false, 256);
        lemma_count_below_zero(256);
    } else {
        let d = s.drop_last();
        let x = s.last();
        assert forall|i: int, j: int| 0 <= i < d.len() && 0 <= j < d.len() && i != j implies d[i] != d[j] by {
            assert(d[i] == s[i] && d[j] == s[j]);
        }
        lemma_distinct_ids_count(d);
        assert forall|id: u8| s.contains(id) == (d.contains(id) || id == x) by {
            if s.contains(id) {
                let k = choose|k: int| 0 <= k < s.len() && s[k] == id;
                if k < d.len() {
                    assert(d[k] == id);
                }
            }
            if d.contains(id) {
                let k = choose|k: int| 0 <= k < d.len() && d[k] == id;
                assert(s[k] == id);
            }
            if id == x {
                assert(s[s.len() - 1] == id);
            }
        }
        if d.contains(x) {
            let k = choose|k: int| 0 <= k < d.len() && d[k] == x;
            assert(s[k] == s[s.len() - 1]);
        }
        lemma_count_below_add(|id: u8| d.contains(id), |id: u8| s.contains(id), x, 256);
    }
}

proof fn lemma_count_below_zero(n: nat)
    requires
        n <= 256,
    ensures
        count_below(|id: u8| false, n) == 0,
    decreases n,
{
    if n > 0 {
        lemma_count_below_zero((n - 1) as nat);
    }
}

/// How many keys of `s` are of type `t`.
pub open spec fn count_type(s: Seq<SlotsSlotReference>, t: ProjectSampleSlotType) -> nat
    decreases s.len(),
{
    if s.len() == 0 {
        0
    } else {
        count_type(s.drop_last(), t) + (if s.last().sample_type == t { 1nat } else { 0nat })
    }
}

proof fn lemma_count_type_concat(a: Seq<SlotsSlotReference>, b: Seq<SlotsSlotReference>, t: ProjectSampleSlotType)
    ensures
        count_type(a + b, t) == count_type(a, t) + count_type(b, t),
    decreases b.len(),
{
    if b.len() == 0 {
        assert(a + b =~= a);
    } else {
        lemma_count_type_concat(a, b.drop_last(), t);
        assert((a + b).drop_last() =~= a + b.drop_last());
        assert((a + b).last() == b.last());
    }
}

/// The key of an added slot of type `t` numbered `id`.
pub open spec fn new_key(t: ProjectSampleSlotType, id: u8) -> SlotsSlotReference {
    SlotsSlotReference { sample_type: t, slot_id: id, op_type: SampleSlotOperationType::NewSlot }
}

/// Distinct keys of added slots: as many of type `t` as numbers that a key
/// of type `t` has.
proof fn lemma_distinct_keys_count(s: Seq<SlotsSlotReference>, t: ProjectSampleSlotType)
    requires
        s.no_duplicates(),
        forall|i: int| 0 <= i < s.len() ==> (#[trigger] s[i]).op_type == SampleSlotOperationType::NewSlot,
    ensures
        count_type(s, t) == count_below(|id: u8| s.contains(new_key(t, id)), 256),
    decreases s.len(),
{
    if s.len() == 0 {
        lemma_count_below_ext(|id: u8| s.contains(new_key(t, id)), |id: u8| false, 256);
        lemma_count_below_zero(256);
    } else {
        let d = s.drop_last();
        let x = s.last();
        assert forall|i: int, j: int| 0 <= i < d.len() && 0 <= j < d.len() && i != j implies d[i] != d[j] by {
            assert(d[i] == s[i] && d[j] == s[j]);
        }
        assert forall|i: int| 0 <= i < d.len() implies (#[trigger] d[i]).op_type == SampleSlotOperationType::NewSlot by {
            assert(d[i] == s[i]);
        }
        lemma_distinct_keys_count(d, t);
        assert(x.op_type == SampleSlotOperationType::NewSlot) by {
            assert(s[s.len() - 1] == x);
        }
        assert forall|y: SlotsSlotReference| s.contains(y) == (d.contains(y) || y == x) by {
            if s.contains(y) {
                let k = choose|k: int| 0 <= k < s.len() && s[k] == y;
                if k < d.len() {
                    assert(d[k] == y);
                }
            }
            if d.contains(y) {
                let k = choose|k: int| 0 <= k < d.len() && d[k] == y;
                assert(s[k] == y);
            }
            if y == x {
                assert(s[s.len() - 1] == y);
            }
        }
        if d.contains(x) {
            let k = choose|k: int| 0 <= k < d.len() && d[k] == x;
            assert(s[k] == s[s.len() - 1]);
        }
        if x.sample_type == t {
            assert(x == new_key(t, x.slot_id));
            assert forall|id: u8| s.contains(new_key(t, id)) == (d.contains(new_key(t, id)) || id == x.slot_id) by {
                assert(s.contains(new_key(t, id)) == (d.contains(new_key(t, id)) || new_key(t, id) == x));
            }
            lemma_count_below_add(|id: u8| d.contains(new_key(t, id)), |id: u8| s.contains(new_key(t, id)), x.slot_id, 256);
        } else {
            assert forall|id: u8| id < 256 implies s.contains(new_key(t, id)) == d.contains(new_key(t, id)) by {
                assert(s.contains(new_key(t, id)) == (d.contains(new_key(t, id)) || new_key(t, id) == x));
            }
            lemma_count_below_ext(|id: u8| s.contains(new_key(t, id)), |id: u8| d.contains(new_key(t, id)), 256);
        }
    }
}

/// Whether source slots of type `t` numbered `id` must be copied: the bank
/// refers to the number, and some source slot of that type and number has
/// settings that no destination slot has.
pub open spec fn needs_copy(
    ds: Seq<ProjectSampleSlot>,
    dz: Seq<ProjectSampleSlot>,
    b: Bank,
    t: ProjectSampleSlotType,
    id: u8,
) -> bool {
    exists|k: int| 0 <= k < ds.len() && (#[trigger] ds[k]).sample_type == t && ds[k].slot_id == id
        && bank_refers_to_id(ds, b, id) && spec_best_match(ds[k], dz) is None
}

/// How many numbers of type `t` must be copied.
pub open spec fn copies_needed(
    ds: Seq<ProjectSampleSlot>,
    dz: Seq<ProjectSampleSlot>,
    b: Bank,
    t: ProjectSampleSlotType,
) -> nat {
    count_below(|id: u8| needs_copy(ds, dz, b, t, id), 256)
}

/// Whether number `id` of type `t` can take a copy: up to 127, unused in the
/// destination, and not the greatest such number (which references to empty
/// slots take).
pub open spec fn number_free(dz: Seq<ProjectSampleSlot>, t: ProjectSampleSlotType, id: u8) -> bool {
    id <= 127 && !slot_used(dz, t, id) && !last_empty_is(dz, t, id)
}

/// How many numbers of type `t` can take a copy.
pub open spec fn numbers_free(dz: Seq<ProjectSampleSlot>, t: ProjectSampleSlotType) -> nat {
    count_below(|id: u8| number_free(dz, t, id), 256)
}

/// Whether the copy of a bank (deduplicated into `b`) can be planned: each
/// slot type has an empty destination number, there are enough free numbers
/// for the slots to copy, no recorder buffer has to be copied, and the file
/// of each slot to copy has a name and an extension.
pub open spec fn copy_plan_possible(
    dir: Seq<char>,
    ds: Seq<ProjectSampleSlot>,
    dz: Seq<ProjectSampleSlot>,
    b: Bank,
) -> bool {
    &&& exists|e: u8| last_empty_is(dz, ProjectSampleSlotType::Static, e)
    &&& exists|e: u8| last_empty_is(dz, ProjectSampleSlotType::Flex, e)
    &&& copies_needed(ds, dz, b, ProjectSampleSlotType::Static) <= numbers_free(dz, ProjectSampleSlotType::Static)
    &&& copies_needed(ds, dz, b, ProjectSampleSlotType::Flex) <= numbers_free(dz, ProjectSampleSlotType::Flex)
    &&& forall|id: u8| !needs_copy(ds, dz, b, ProjectSampleSlotType::RecorderBuffer, id)
    &&& forall|t: ProjectSampleSlotType, id: u8, k: int|
        #![trigger needs_copy(ds, dz, b, t, id), first_slot_at(ds, t, id, k)]
        needs_copy(ds, dz, b, t, id) && first_slot_at(ds, t, id, k)
            ==> spec_fname_and_fext(spec_path_join(dir, ds[k].path@)) is Some
}

/// Two banks moved from the same bank by the same reassignments make the same
/// references.
proof fn lemma_bank_ref_unique(
    ds: Seq<ProjectSampleSlot>,
    b0: Bank,
    x: Bank,
    z: Bank,
    rs: Seq<SlotReferenceReassignment>,
)
    requires
        spec_bank_reassigned(b0, x, rs),
        spec_bank_reassigned(b0, z, rs),
    ensures
        forall|y: BankSlotReference| bank_ref(ds, x, y) == bank_ref(ds, z, y),
{
    assert forall|y: BankSlotReference| bank_ref(ds, x, y) implies bank_ref(ds, z, y) by {
        lemma_bank_ref_transfer(ds, b0, x, z, rs, y);
    }
    assert forall|y: BankSlotReference| bank_ref(ds, z, y) implies bank_ref(ds, x, y) by {
        lemma_bank_ref_transfer(ds, b0, z, x, rs, y);
    }
}

proof fn lemma_bank_ref_transfer(
    ds: Seq<ProjectSampleSlot>,
    b0: Bank,
    x: Bank,
    z: Bank,
    rs: Seq<SlotReferenceReassignment>,
    y: BankSlotReference,
)
    requires
        spec_bank_reassigned(b0, x, rs),
        spec_bank_reassigned(b0, z, rs),
        bank_ref(ds, x, y),
    ensures
        bank_ref(ds, z, y),
{
    if spec_patterns_ref(ds, x.patterns@, y) {
        let i = choose|i: int| 0 <= i < x.patterns@.len() && #[trigger] spec_pattern_ref(ds, x.patterns@[i], y);
        let t = choose|t: int| 0 <= t < 8 && #[trigger] spec_track_ref(ds, x.patterns@[i].audio_track_trigs@[t], y);
        let j = choose|j: int| 0 <= j < 64 && #[trigger] spec_trigs_ref(ds, x.patterns@[i].audio_track_trigs@[t], j, y);
        let px = x.patterns@[i];
        let pz = z.patterns@[i];
        assert(px.audio_track_trigs@[t] == px.audio_track_trigs@[t]);
        assert(pz.audio_track_trigs@[t] == pz.audio_track_trigs@[t]);
        assert(px.audio_track_trigs@[t].plocks@[j] == px.audio_track_trigs@[t].plocks@[j]);
        assert(pz.audio_track_trigs@[t].plocks@[j] == pz.audio_track_trigs@[t].plocks@[j]);
        assert(px.audio_track_trigs@[t].plocks@[j].static_slot_id == pz.audio_track_trigs@[t].plocks@[j].static_slot_id);
        assert(px.audio_track_trigs@[t].plocks@[j].flex_slot_id == pz.audio_track_trigs@[t].plocks@[j].flex_slot_id);
        assert(spec_trigs_ref(ds, pz.audio_track_trigs@[t], j, y));
        assert(spec_track_ref(ds, pz.audio_track_trigs@[t], y));
        assert(spec_pattern_ref(ds, pz, y));
        assert(spec_patterns_ref(ds, z.patterns@, y));
    } else {
        assert(spec_parts_ref(ds, x.parts_unsaved@, y));
        let i = choose|i: int| 0 <= i < x.parts_unsaved@.len() && #[trigger] spec_part_ref(ds, x.parts_unsaved@[i], y);
        let t = choose|t: int| 0 <= t < 8 && #[trigger] spec_part_track_ref(ds, x.parts_unsaved@[i], t, y);
        assert(x.parts_unsaved@[i].audio_track_machine_slots@[t] == z.parts_unsaved@[i].audio_track_machine_slots@[t]);
        assert(spec_part_track_ref(ds, z.parts_unsaved@[i], t, y));
        assert(spec_part_ref(ds, z.parts_unsaved@[i], y));
        assert(spec_parts_ref(ds, z.parts_unsaved@, y));
    }
}

/// Whether a key can be copied: it is not a recorder buffer's, and the file
/// of its first source slot has a name and an extension.
pub open spec fn key_copyable(dir: Seq<char>, ds: Seq<ProjectSampleSlot>, y: SlotsSlotReference) -> bool {
    &&& y.sample_type != ProjectSampleSlotType::RecorderBuffer
    &&& forall|k: int| #[trigger] first_slot_at(ds, y.sample_type, y.slot_id, k)
        ==> spec_fname_and_fext(spec_path_join(dir, ds[k].path@)) is Some
}

proof fn lemma_free_count(dz: Seq<ProjectSampleSlot>, t: ProjectSampleSlotType, e: u8, all: Seq<u8>, free: Seq<u8>)
    requires
        last_empty_is(dz, t, e),
        forall|i: int| 0 <= i < all.len() ==> (#[trigger] all[i]) <= 127 && !slot_used(dz, t, all[i]),
        forall|x: u8| x <= 127 && !slot_used(dz, t, x) ==> all.contains(x),
        forall|x: u8| free.contains(x) <==> (all.contains(x) && x != e),
        forall|a: int, b: int| 0 <= a < b < free.len() ==> free[a] > free[b],
    ensures
        free.len() == numbers_free(dz, t),
{
    assert forall|a: int, b: int| 0 <= a < free.len() && 0 <= b < free.len() && a != b implies free[a] != free[b] by {
        if a < b {
            assert(free[a] > free[b]);
        } else {
            assert(free[b] > free[a]);
        }
    }
    lemma_distinct_ids_count(free);
    assert forall|x: u8| x < 256 implies free.contains(x) == number_free(dz, t, x) by {
        if free.contains(x) {
            assert(all.contains(x));
            let i = choose|i: int| 0 <= i < all.len() && all[i] == x;
            assert(all[i] <= 127 && !slot_used(dz, t, all[i]));
            if last_empty_is(dz, t, x) {
                if x < e {
                    assert(slot_used(dz, t, e));
                } else if x > e {
                    assert(slot_used(dz, t, x));
                }
            }
        }
        if number_free(dz, t, x) {
            assert(all.contains(x));
        }
    }
    lemma_count_below_ext(|x: u8| free.contains(x), |x: u8| number_free(dz, t, x), 256);
}

proof fn lemma_needed_count(
    ds: Seq<ProjectSampleSlot>,
    dz: Seq<ProjectSampleSlot>,
    refs: Seq<BankSlotReference>,
    b: Bank,
    keys: Seq<SlotsSlotReference>,
    t: ProjectSampleSlotType,
)
    requires
        forall|y: BankSlotReference| refs.contains(y) <==> bank_ref(ds, b, y),
        forall|y: SlotsSlotReference| #![trigger keys.contains(y)]
            keys.contains(y) <==> exists|k: int| #[trigger] slot_key_at(ds, dz, refs, k, y, false),
        keys.no_duplicates(),
    ensures
        count_type(keys, t) == copies_needed(ds, dz, b, t),
        forall|id: u8| keys.contains(new_key(t, id)) == needs_copy(ds, dz, b, t, id),
{
    assert forall|i: int| 0 <= i < keys.len() implies (#[trigger] keys[i]).op_type == SampleSlotOperationType::NewSlot by {
        assert(keys.contains(keys[i]));
        let k = choose|k: int| #[trigger] slot_key_at(ds, dz, refs, k, keys[i], false);
    }
    lemma_distinct_keys_count(keys, t);
    assert forall|id: u8| keys.contains(new_key(t, id)) == needs_copy(ds, dz, b, t, id) by {
        lemma_referenced_ids(refs, ds, b, id);
        if keys.contains(new_key(t, id)) {
            let k = choose|k: int| #[trigger] slot_key_at(ds, dz, refs, k, new_key(t, id), false);
            assert(ds[k].sample_type == t && ds[k].slot_id == id);
        }
        if needs_copy(ds, dz, b, t, id) {
            let k = choose|k: int| 0 <= k < ds.len() && (#[trigger] ds[k]).sample_type == t && ds[k].slot_id == id
                && bank_refers_to_id(ds, b, id) && spec_best_match(ds[k], dz) is None;
            assert(slot_key_at(ds, dz, refs, k, new_key(t, id), false));
        }
    }
    lemma_count_below_ext(|id: u8| keys.contains(new_key(t, id)), |id: u8| needs_copy(ds, dz, b, t, id), 256);
}

/// Whether the copy can be planned does not depend on which bank stands for
/// the deduplicated bank.
proof fn lemma_plan_for_all(
    dir: Seq<char>,
    ds: Seq<ProjectSampleSlot>,
    dz: Seq<ProjectSampleSlot>,
    b0: Bank,
    b1: Bank,
    rs: Seq<SlotReferenceReassignment>,
)
    requires
        spec_bank_reassigned(b0, b1, rs),
    ensures
        forall|b: Bank| spec_bank_reassigned(b0, b, rs) ==> copy_plan_possible(dir, ds, dz, b) == copy_plan_possible(dir, ds, dz, b1),
{
    assert forall|b: Bank| spec_bank_reassigned(b0, b, rs) implies copy_plan_possible(dir, ds, dz, b) == copy_plan_possible(dir, ds, dz, b1) by {
        lemma_bank_ref_unique(ds, b0, b1, b, rs);
        assert forall|id: u8| bank_refers_to_id(ds, b, id) == bank_refers_to_id(ds, b1, id) by {
            if bank_refers_to_id(ds, b, id) {
                let y = choose|y: BankSlotReference| #[trigger] bank_ref(ds, b, y) && y.slot_id == id;
                assert(bank_ref(ds, b1, y));
            }
            if bank_refers_to_id(ds, b1, id) {
                let y = choose|y: BankSlotReference| #[trigger] bank_ref(ds, b1, y) && y.slot_id == id;
                assert(bank_ref(ds, b, y));
            }
        }
        assert forall|t: ProjectSampleSlotType, id: u8| needs_copy(ds, dz, b, t, id) == needs_copy(ds, dz, b1, t, id) by {
            assert(bank_refers_to_id(ds, b, id) == bank_refers_to_id(ds, b1, id));
        }
        lemma_count_below_ext(|id: u8| needs_copy(ds, dz, b, ProjectSampleSlotType::Static, id),
            |id: u8| needs_copy(ds, dz, b1, ProjectSampleSlotType::Static, id), 256);
        lemma_count_below_ext(|id: u8| needs_copy(ds, dz, b, ProjectSampleSlotType::Flex, id),
            |id: u8| needs_copy(ds, dz, b1, ProjectSampleSlotType::Flex, id), 256);
    }
}

/// Whether `c` is a valid file copy for a bank copy: its source is the first
/// of the deduplicated source slots `ds` with its type and number, a slot of
/// `ds` with that type and number has settings that no destination slot in
/// `dz` has, and its destination slot keeps the source's settings, takes the
/// source file's name in the destination directory, a static or flex type and
/// a number up to 127 that no destination slot of its type uses.
pub open spec fn spec_valid_copy(
    dir: Seq<char>,
    ds: Seq<ProjectSampleSlot>,
    dz: Seq<ProjectSampleSlot>,
    c: SlotFileCopy,
) -> bool {
    &&& exists|k: int| first_slot_at(ds, c.from.sample_type, c.from.slot_id, k) && ds[k] == c.from
    &&& exists|k: int| 0 <= k < ds.len() && (#[trigger] ds[k]).sample_type == c.from.sample_type
        && ds[k].slot_id == c.from.slot_id && spec_best_match(ds[k], dz) is None
    &&& same_settings_but_path(c.to, c.from)
    &&& spec_fname_and_fext(spec_path_join(dir, c.from.path@)) == Some(c.to.path@)
    &&& c.to.slot_id <= 127
    &&& !slot_used(dz, c.to.sample_type, c.to.slot_id)
    &&& (c.to.sample_type == ProjectSampleSlotType::Static || c.to.sample_type == ProjectSampleSlotType::Flex)
}

/// Plans the copy of `src_bank` (of the project in `src_project_dirpath`,
/// whose slots are `src_slots`) into a project whose slots are `dest_slots`.
///
/// The source slots are deduplicated by settings and the bank's references
/// follow. Each slot the bank refers to is then either reused (a destination
/// slot has its settings) or added to the destination under a free number
/// (its file is copied); references to empty slots are moved to the highest
/// free destination number of their type. Gives the new destination slots,
/// the changed bank and the files to copy.
///
/// Fails (see `copy_plan_possible`) when a slot type has no empty
/// destination number, when there are not enough free numbers for the slots
/// to add, when a recorder buffer would have to be added, or when the file of
/// a slot to add has no name and extension.
#[verifier::rlimit(80)]
#[verifier::spinoff_prover]
pub fn calculate_copy_bank_changes(
    src_project_dirpath: &str,
    src_slots: &[ProjectSampleSlot],
    src_bank: &Bank,
    dest_slots: &[ProjectSampleSlot],
) -> (r: Result<(Vec<ProjectSampleSlot>, Bank, Vec<SlotFileCopy>), OctatoolErrors>)
    requires
        forall|i: int| 0 <= i < src_slots@.len() ==> (#[trigger] src_slots@[i]).slot_id >= 1,
        forall|i: int| 0 <= i < dest_slots@.len() ==> (#[trigger] dest_slots@[i]).slot_id >= 1,
    ensures
        r matches Ok((slots, bank, copies)) ==> {
            let ds = spec_unique_settings(spec_zero_indexed(src_slots@));
            let dz = spec_zero_indexed(dest_slots@);
            &&& slots@.len() == dest_slots@.len() + copies@.len()
            &&& slots@.subrange(0, dest_slots@.len() as int) == dest_slots@
            &&& forall|i: int| 0 <= i < copies@.len() ==> #[trigger] slots@[dest_slots@.len() + i]
                == spec_with_id(copies@[i].to, (copies@[i].to.slot_id + 1) as u8)
            &&& forall|i: int| 0 <= i < copies@.len() ==> spec_valid_copy(src_project_dirpath@, ds, dz, #[trigger] copies@[i])
            &&& forall|i: int, j: int| 0 <= i < j < copies@.len() && copies@[i].to.sample_type == ProjectSampleSlotType::Flex
                ==> copies@[j].to.sample_type == ProjectSampleSlotType::Flex
            &&& forall|i: int, j: int| 0 <= i < j < copies@.len() && copies@[i].to.sample_type == copies@[j].to.sample_type
                ==> copies@[i].to.slot_id < copies@[j].to.slot_id
            &&& forall|i: int, j: int| 0 <= i < j < copies@.len() && copies@[i].to.sample_type == copies@[j].to.sample_type
                ==> copies@[i].from.slot_id < copies@[j].from.slot_id
            &&& forall|i: int, y: u8| 0 <= i < copies@.len() && y < copies@[i].to.slot_id
                && !(#[trigger] slot_used(dz, copies@[i].to.sample_type, y)) && !last_empty_is(dz, copies@[i].to.sample_type, y)
                ==> has_copy_to(copies@, copies@[i].to.sample_type, y)
            &&& exists|b1: Bank, rs1: Seq<SlotReferenceReassignment>, rs2: Seq<SlotReferenceReassignment>, rs3: Seq<SlotReferenceReassignment>|
                #![trigger inactive_moves(ds, dz, b1, rs1), reuse_moves(ds, dz, b1, rs2), copy_moves(copies@, rs3)]
                {
                    &&& spec_bank_reassigned(*src_bank, b1, spec_reassignments(spec_zero_indexed(src_slots@), ds))
                    &&& spec_bank_reassigned(b1, bank, rs1 + rs2 + rs3)
                    &&& inactive_moves(ds, dz, b1, rs1)
                    &&& reuse_moves(ds, dz, b1, rs2)
                    &&& copy_moves(copies@, rs3)
                    &&& forall|i: int| 0 <= i < copies@.len() ==> bank_refers_to_id(ds, b1, (#[trigger] copies@[i]).from.slot_id)
                    &&& forall|k: int| 0 <= k < ds.len() && bank_refers_to_id(ds, b1, (#[trigger] ds[k]).slot_id)
                        && spec_best_match(ds[k], dz) is None ==> has_copy_for(copies@, ds[k].sample_type, ds[k].slot_id)
                }
        },
        ({
            let ds = spec_unique_settings(spec_zero_indexed(src_slots@));
            let dz = spec_zero_indexed(dest_slots@);
            let rs0 = spec_reassignments(spec_zero_indexed(src_slots@), ds);
            &&& exists|b1: Bank| spec_bank_reassigned(*src_bank, b1, rs0)
            &&& forall|b1: Bank| spec_bank_reassigned(*src_bank, b1, rs0)
                ==> (r is Ok <==> copy_plan_possible(src_project_dirpath@, ds, dz, b1))
        }),
        r matches Err(e) ==> e == OctatoolErrors::CliNoFreeSampleSlots || e == OctatoolErrors::InvalidFilenameOrExtension,
        (forall|y: u8| y <= 127 ==> slot_used(spec_zero_indexed(dest_slots@), ProjectSampleSlotType::Static, y))
            ==> r == Err::<(Vec<ProjectSampleSlot>, Bank, Vec<SlotFileCopy>), OctatoolErrors>(OctatoolErrors::CliNoFreeSampleSlots),
        (forall|y: u8| y <= 127 ==> slot_used(spec_zero_indexed(dest_slots@), ProjectSampleSlotType::Flex, y))
            ==> r == Err::<(Vec<ProjectSampleSlot>, Bank, Vec<SlotFileCopy>), OctatoolErrors>(OctatoolErrors::CliNoFreeSampleSlots),
{
    let sz = match get_zero_indexed_slots_from_one_indexed(src_slots) {
        Ok(v) => v,
        Err(e) => {
            return Err(e);
        },
    };
    let mut one_bank: Vec<Bank> = Vec::new();
    one_bank.push(src_bank.copy_bank());
    let (ds, deduped_banks) = match get_deduplicated_sample_slots_and_updated_banks(sz.as_slice(), one_bank.as_slice()) {
        Ok(x) => x,
        Err(e) => {
            return Err(e);
        },
    };
    let mut bank = deduped_banks[0].copy_bank();
    let ghost b1: Bank = bank;
    let ghost rs0 = spec_reassignments(sz@, ds@);
    assert(spec_bank_reassigned(*src_bank, b1, rs0));
    let dz = match get_zero_indexed_slots_from_one_indexed(dest_slots) {
        Ok(v) => v,
        Err(e) => {
            return Err(e);
        },
    };

    let static_empty = match find_last_empty_slot(dz.as_slice(), &ProjectSampleSlotType::Static) {
        Ok(x) => x,
        Err(e) => {
            proof {
                assert(!exists|x: u8| last_empty_is(dz@, ProjectSampleSlotType::Static, x));
                lemma_plan_for_all(src_project_dirpath@, ds@, dz@, *src_bank, b1, rs0);
            }
            return Err(e);
        },
    };
    let flex_empty = match find_last_empty_slot(dz.as_slice(), &ProjectSampleSlotType::Flex) {
        Ok(x) => x,
        Err(e) => {
            proof {
                assert(!exists|x: u8| last_empty_is(dz@, ProjectSampleSlotType::Flex, x));
                lemma_plan_for_all(src_project_dirpath@, ds@, dz@, *src_bank, b1, rs0);
            }
            return Err(e);
        },
    };
    assert(last_empty_is(dz@, ProjectSampleSlotType::Static, static_empty));
    assert(last_empty_is(dz@, ProjectSampleSlotType::Flex, flex_empty));

    let all_static = find_free_sample_slot_ids(dz.as_slice(), ProjectSampleSlotType::Static)?;
    let all_flex = find_free_sample_slot_ids(dz.as_slice(), ProjectSampleSlotType::Flex)?;
    let mut free_static = without_reserved(&all_static, static_empty);
    let mut free_flex = without_reserved(&all_flex, flex_empty);

    let refs = find_sample_slot_refs_in_bank(ds.as_slice(), &bank)?;

    let (reuses, inserts) = classify_referenced_slots(&ds, &dz, &refs);

    let mut static_count: usize = 0;
    let mut flex_count: usize = 0;
    let mut i: usize = 0;
    while i < inserts.len()
        invariant
            i <= inserts@.len(),
            static_count <= i,
            flex_count <= i,
            static_count == count_type(inserts@.subrange(0, i as int), ProjectSampleSlotType::Static),
            flex_count == count_type(inserts@.subrange(0, i as int), ProjectSampleSlotType::Flex),
        decreases inserts@.len() - i,
    {
        assert(inserts@.subrange(0, i + 1).drop_last() =~= inserts@.subrange(0, i as int));
        assert(inserts@.subrange(0, i + 1).last() == inserts@[i as int]);
        if inserts[i].sample_type == ProjectSampleSlotType::Static {
            static_count = static_count + 1;
        } else if inserts[i].sample_type == ProjectSampleSlotType::Flex {
            flex_count = flex_count + 1;
        }
        i = i + 1;
    }
    proof {
        assert(inserts@.subrange(0, i as int) =~= inserts@);
        assert(forall|y: BankSlotReference| refs@.contains(y) <==> bank_ref(ds@, b1, y));
        lemma_needed_count(ds@, dz@, refs@, b1, inserts@, ProjectSampleSlotType::Static);
        lemma_needed_count(ds@, dz@, refs@, b1, inserts@, ProjectSampleSlotType::Flex);
        lemma_needed_count(ds@, dz@, refs@, b1, inserts@, ProjectSampleSlotType::RecorderBuffer);
        lemma_free_count(dz@, ProjectSampleSlotType::Static, static_empty, all_static@, free_static@);
        lemma_free_count(dz@, ProjectSampleSlotType::Flex, flex_empty, all_flex@, free_flex@);
    }
    if static_count > free_static.len() || flex_count > free_flex.len() {
        proof {
            lemma_plan_for_all(src_project_dirpath@, ds@, dz@, *src_bank, b1, rs0);
        }
        return Err(OctatoolErrors::CliNoFreeSampleSlots);
    }

    let inactive_ops = inactive_operations(&refs, static_empty, flex_empty);

    let sorted_reuses = sort_keys_by_id(&reuses);
    let reuse_ops = reuse_operations(&ds, &dz, &sorted_reuses);

    assert forall|a: int| 0 <= a < free_static@.len() implies (#[trigger] free_static@[a]) <= 127
        && !slot_used(dz@, ProjectSampleSlotType::Static, free_static@[a]) by {
        assert(free_static@.contains(free_static@[a]));
        let b = choose|b: int| 0 <= b < all_static@.len() && all_static@[b] == free_static@[a];
        assert(all_static@[b] <= 127);
    }
    assert forall|a: int| 0 <= a < free_flex@.len() implies (#[trigger] free_flex@[a]) <= 127
        && !slot_used(dz@, ProjectSampleSlotType::Flex, free_flex@[a]) by {
        assert(free_flex@.contains(free_flex@[a]));
        let b = choose|b: int| 0 <= b < all_flex@.len() && all_flex@[b] == free_flex@[a];
        assert(all_flex@[b] <= 127);
    }
    let sorted_inserts = sort_keys_by_id(&inserts);
    let ghost fs0 = free_static@;
    let ghost ff0 = free_flex@;
    let ghost n_ins = sorted_inserts@.len() as int;
    proof {
        inserts@.lemma_multiset_has_no_duplicates();
        sorted_inserts@.lemma_multiset_has_no_duplicates_conv();
        lemma_needed_count(ds@, dz@, refs@, b1, sorted_inserts@, ProjectSampleSlotType::Static);
        lemma_needed_count(ds@, dz@, refs@, b1, sorted_inserts@, ProjectSampleSlotType::Flex);
        assert(sorted_inserts@.subrange(0, n_ins) =~= sorted_inserts@);
    }
    let mut copies_static: Vec<SlotFileCopy> = Vec::new();
    let mut copies_flex: Vec<SlotFileCopy> = Vec::new();
    let ghost mut ks: Seq<int> = Seq::empty();
    let ghost mut kf: Seq<int> = Seq::empty();
    let mut i: usize = 0;
    while i < sorted_inserts.len()
        invariant
            i <= sorted_inserts@.len(),
            dz@ == spec_zero_indexed(dest_slots@),
            static_empty <= 127 && !slot_used(dz@, ProjectSampleSlotType::Static, static_empty),
            flex_empty <= 127 && !slot_used(dz@, ProjectSampleSlotType::Flex, flex_empty),
            forall|y: SlotsSlotReference| sorted_inserts@.contains(y) <==> inserts@.contains(y),
            forall|y: SlotsSlotReference| #![trigger inserts@.contains(y)]
                inserts@.contains(y) <==> exists|k: int| #[trigger] slot_key_at(ds@, dz@, refs@, k, y, false),
            n_ins == sorted_inserts@.len(),
            forall|y: BankSlotReference| refs@.contains(y) <==> bank_ref(ds@, b1, y),
            spec_bank_reassigned(*src_bank, b1, rs0),
            ds@ == spec_unique_settings(spec_zero_indexed(src_slots@)),
            rs0 == spec_reassignments(spec_zero_indexed(src_slots@), ds@),
            count_type(sorted_inserts@.subrange(i as int, n_ins), ProjectSampleSlotType::Static) <= free_static@.len(),
            count_type(sorted_inserts@.subrange(i as int, n_ins), ProjectSampleSlotType::Flex) <= free_flex@.len(),
            forall|j: int| 0 <= j < i ==> key_copyable(src_project_dirpath@, ds@, #[trigger] sorted_inserts@[j]),
            forall|j: int| 0 <= j < i ==> has_copy_for(copies_static@, (#[trigger] sorted_inserts@[j]).sample_type, sorted_inserts@[j].slot_id)
                || has_copy_for(copies_flex@, sorted_inserts@[j].sample_type, sorted_inserts@[j].slot_id),
            forall|a: int| 0 <= a < copies_static@.len() ==> referenced_id(refs@, (#[trigger] copies_static@[a]).from.slot_id),
            forall|a: int, b: int| 0 <= a < b < sorted_inserts@.len() ==> sorted_inserts@[a].slot_id <= sorted_inserts@[b].slot_id,
            forall|a: int, j: int| 0 <= a < copies_static@.len() && i <= j < sorted_inserts@.len()
                ==> copies_static@[a].from.slot_id <= sorted_inserts@[j].slot_id,
            forall|a: int, j: int| 0 <= a < copies_flex@.len() && i <= j < sorted_inserts@.len()
                ==> copies_flex@[a].from.slot_id <= sorted_inserts@[j].slot_id,
            forall|a: int, b: int| 0 <= a < b < copies_static@.len() ==> copies_static@[a].from.slot_id < copies_static@[b].from.slot_id,
            forall|a: int, b: int| 0 <= a < b < copies_flex@.len() ==> copies_flex@[a].from.slot_id < copies_flex@[b].from.slot_id,
            sorted_inserts@.no_duplicates(),
            ks.len() == copies_static@.len(),
            kf.len() == copies_flex@.len(),
            forall|a: int| 0 <= a < ks.len() ==> 0 <= #[trigger] ks[a] < i
                && sorted_inserts@[ks[a]] == new_key(copies_static@[a].from.sample_type, copies_static@[a].from.slot_id),
            forall|a: int| 0 <= a < kf.len() ==> 0 <= #[trigger] kf[a] < i
                && sorted_inserts@[kf[a]] == new_key(copies_flex@[a].from.sample_type, copies_flex@[a].from.slot_id),
            forall|y: u8| #![trigger fs0.contains(y)] fs0.contains(y) ==> free_static@.contains(y) || has_copy_to(copies_static@, ProjectSampleSlotType::Static, y),
            forall|y: u8| #![trigger ff0.contains(y)] ff0.contains(y) ==> free_flex@.contains(y) || has_copy_to(copies_flex@, ProjectSampleSlotType::Flex, y),
            forall|a: int| 0 <= a < copies_flex@.len() ==> referenced_id(refs@, (#[trigger] copies_flex@[a]).from.slot_id),
            forall|a: int, b: int| 0 <= a < b < free_static@.len() ==> free_static@[a] > free_static@[b],
            forall|a: int, b: int| 0 <= a < b < free_flex@.len() ==> free_flex@[a] > free_flex@[b],
            forall|a: int| 0 <= a < free_static@.len() ==> (#[trigger] free_static@[a]) <= 127
                && !slot_used(dz@, ProjectSampleSlotType::Static, free_static@[a]),
            forall|a: int| 0 <= a < free_flex@.len() ==> (#[trigger] free_flex@[a]) <= 127
                && !slot_used(dz@, ProjectSampleSlotType::Flex, free_flex@[a]),
            forall|a: int, b: int| 0 <= a < copies_static@.len() && 0 <= b < free_static@.len()
                ==> copies_static@[a].to.slot_id < free_static@[b],
            forall|a: int, b: int| 0 <= a < copies_flex@.len() && 0 <= b < free_flex@.len()
                ==> copies_flex@[a].to.slot_id < free_flex@[b],
            forall|a: int, b: int| 0 <= a < b < copies_static@.len() ==> copies_static@[a].to.slot_id < copies_static@[b].to.slot_id,
            forall|a: int, b: int| 0 <= a < b < copies_flex@.len() ==> copies_flex@[a].to.slot_id < copies_flex@[b].to.slot_id,
            forall|a: int| 0 <= a < copies_static@.len() ==> (#[trigger] copies_static@[a]).to.sample_type == ProjectSampleSlotType::Static
                && spec_valid_copy(src_project_dirpath@, ds@, dz@, copies_static@[a]),
            forall|a: int| 0 <= a < copies_flex@.len() ==> (#[trigger] copies_flex@[a]).to.sample_type == ProjectSampleSlotType::Flex
                && spec_valid_copy(src_project_dirpath@, ds@, dz@, copies_flex@[a]),
        decreases sorted_inserts@.len() - i,
    {
        let x = sorted_inserts[i];
        assert(sorted_inserts@.contains(x)) by {
            assert(sorted_inserts@[i as int] == x);
        }
        assert(inserts@.contains(x));
        let ghost kk = choose|kk: int| #[trigger] slot_key_at(ds@, dz@, refs@, kk, x, false);
        assert(slot_key_at(ds@, dz@, refs@, kk, x, false));
        proof {
            lemma_referenced_ids(refs@, ds@, b1, x.slot_id);
            assert(needs_copy(ds@, dz@, b1, x.sample_type, x.slot_id));
            let sub = sorted_inserts@.subrange(i as int, n_ins);
            let rest = sorted_inserts@.subrange(i + 1, n_ins);
            assert(sub =~= seq![x] + rest);
            lemma_count_type_concat(seq![x], rest, ProjectSampleSlotType::Static);
            lemma_count_type_concat(seq![x], rest, ProjectSampleSlotType::Flex);
            assert(seq![x].drop_last() =~= Seq::<SlotsSlotReference>::empty());
        }
        let k = match find_slot(&ds, x.sample_type, x.slot_id) {
            Some(k) => k,
            None => {
                assert(ds@[kk].sample_type == x.sample_type && ds@[kk].slot_id == x.slot_id);
                return Err(OctatoolErrors::Unknown);
            },
        };
        let src_slot = ds[k].copy_slot();
        let joined = path_join(src_project_dirpath, src_slot.path.as_str());
        let audio_fpath_rel_dest = match resolve_fname_and_fext_from_path(joined.as_str()) {
            Ok(v) => v,
            Err(e) => {
                proof {
                    assert(!copy_plan_possible(src_project_dirpath@, ds@, dz@, b1)) by {
                        assert(needs_copy(ds@, dz@, b1, x.sample_type, x.slot_id) && first_slot_at(ds@, x.sample_type, x.slot_id, k as int));
                    }
                    lemma_plan_for_all(src_project_dirpath@, ds@, dz@, *src_bank, b1, rs0);
                }
                return Err(e);
            },
        };
        proof {
            assert forall|q: int| #[trigger] first_slot_at(ds@, x.sample_type, x.slot_id, q)
                implies spec_fname_and_fext(spec_path_join(src_project_dirpath@, ds@[q].path@)) is Some by {
                lemma_first_slot_unique(ds@, x.sample_type, x.slot_id, q, k as int);
            }
        }
        match src_slot.sample_type {
            ProjectSampleSlotType::Static => {
                let ghost before = free_static@;
                assert(free_static@.len() >= 1);
                let dest_slot_id = match free_static.pop() {
                    Some(v) => v,
                    None => {
                        return Err(OctatoolErrors::CliNoFreeSampleSlots);
                    },
                };
                assert(dest_slot_id == before[before.len() - 1]);
                let dest_slot = create_sample_slot_from_existing(&src_slot, Some(audio_fpath_rel_dest.as_str()), &dest_slot_id)?;
                let c = SlotFileCopy { from: src_slot, to: dest_slot };
                assert(spec_valid_copy(src_project_dirpath@, ds@, dz@, c));
                let ghost prev_s = copies_static@;
                copies_static.push(c);
                proof {
                    let old_k = ks;
                    ks = ks.push(i as int);
                    assert(x.op_type == SampleSlotOperationType::NewSlot);
                    assert(x == new_key(c.from.sample_type, c.from.slot_id));
                    assert forall|a: int| 0 <= a < ks.len() implies 0 <= #[trigger] ks[a] < i + 1
                        && sorted_inserts@[ks[a]] == new_key(copies_static@[a].from.sample_type, copies_static@[a].from.slot_id) by {
                        if a < old_k.len() {
                            assert(ks[a] == old_k[a]);
                            assert(copies_static@[a] == prev_s[a]);
                        }
                    }
                    assert forall|a: int, b: int| 0 <= a < b < copies_static@.len() implies copies_static@[a].from.slot_id < copies_static@[b].from.slot_id by {
                        assert(copies_static@[a] == prev_s[a]);
                        if b < prev_s.len() {
                            assert(copies_static@[b] == prev_s[b]);
                        } else {
                            assert(prev_s[a].from.slot_id <= sorted_inserts@[i as int].slot_id);
                            if prev_s[a].from.slot_id == x.slot_id {
                                let j = old_k[a];
                                assert(sorted_inserts@[j] == new_key(prev_s[a].from.sample_type, prev_s[a].from.slot_id));
                                assert(prev_s[a].to.sample_type == ProjectSampleSlotType::Static);
                                assert(sorted_inserts@[j] == sorted_inserts@[i as int]);
                            }
                        }
                    }
                    assert(copies_static@[prev_s.len() as int] == c);
                    assert(has_copy_for(copies_static@, x.sample_type, x.slot_id));
                    assert(has_copy_to(copies_static@, ProjectSampleSlotType::Static, dest_slot_id));
                    assert forall|y: u8| #![trigger fs0.contains(y)] fs0.contains(y) implies free_static@.contains(y)
                        || has_copy_to(copies_static@, ProjectSampleSlotType::Static, y) by {
                        if before.contains(y) && y != dest_slot_id {
                            let q = choose|q: int| 0 <= q < before.len() && before[q] == y;
                            assert(free_static@[q] == y);
                        } else if has_copy_to(prev_s, ProjectSampleSlotType::Static, y) {
                            lemma_has_copy_to_push(prev_s, c, ProjectSampleSlotType::Static, y);
                        }
                    }
                    assert forall|j: int| 0 <= j < i + 1 implies has_copy_for(copies_static@, (#[trigger] sorted_inserts@[j]).sample_type, sorted_inserts@[j].slot_id)
                        || has_copy_for(copies_flex@, sorted_inserts@[j].sample_type, sorted_inserts@[j].slot_id) by {
                        if j < i {
                            if has_copy_for(prev_s, sorted_inserts@[j].sample_type, sorted_inserts@[j].slot_id) {
                                lemma_has_copy_for_push(prev_s, c, sorted_inserts@[j].sample_type, sorted_inserts@[j].slot_id);
                            }
                        }
                    }
                }
            },
            ProjectSampleSlotType::Flex => {
                let ghost before = free_flex@;
                assert(free_flex@.len() >= 1);
                let dest_slot_id = match free_flex.pop() {
                    Some(v) => v,
                    None => {
                        return Err(OctatoolErrors::CliNoFreeSampleSlots);
                    },
                };
                assert(dest_slot_id == before[before.len() - 1]);
                let dest_slot = create_sample_slot_from_existing(&src_slot, Some(audio_fpath_rel_dest.as_str()), &dest_slot_id)?;
                let c = SlotFileCopy { from: src_slot, to: dest_slot };
                assert(spec_valid_copy(src_project_dirpath@, ds@, dz@, c));
                let ghost prev_f = copies_flex@;
                copies_flex.push(c);
                proof {
                    let old_k = kf;
                    kf = kf.push(i as int);
                    assert(x.op_type == SampleSlotOperationType::NewSlot);
                    assert(x == new_key(c.from.sample_type, c.from.slot_id));
                    assert forall|a: int| 0 <= a < kf.len() implies 0 <= #[trigger] kf[a] < i + 1
                        && sorted_inserts@[kf[a]] == new_key(copies_flex@[a].from.sample_type, copies_flex@[a].from.slot_id) by {
                        if a < old_k.len() {
                            assert(kf[a] == old_k[a]);
                            assert(copies_flex@[a] == prev_f[a]);
                        }
                    }
                    assert forall|a: int, b: int| 0 <= a < b < copies_flex@.len() implies copies_flex@[a].from.slot_id < copies_flex@[b].from.slot_id by {
                        assert(copies_flex@[a] == prev_f[a]);
                        if b < prev_f.len() {
                            assert(copies_flex@[b] == prev_f[b]);
                        } else {
                            assert(prev_f[a].from.slot_id <= sorted_inserts@[i as int].slot_id);
                            if prev_f[a].from.slot_id == x.slot_id {
                                let j = old_k[a];
                                assert(sorted_inserts@[j] == new_key(prev_f[a].from.sample_type, prev_f[a].from.slot_id));
                                assert(prev_f[a].to.sample_type == ProjectSampleSlotType::Flex);
                                assert(sorted_inserts@[j] == sorted_inserts@[i as int]);
                            }
                        }
                    }
                    assert(copies_flex@[prev_f.len() as int] == c);
                    assert(has_copy_for(copies_flex@, x.sample_type, x.slot_id));
                    assert(has_copy_to(copies_flex@, ProjectSampleSlotType::Flex, dest_slot_id));
                    assert forall|y: u8| #![trigger ff0.contains(y)] ff0.contains(y) implies free_flex@.contains(y)
                        || has_copy_to(copies_flex@, ProjectSampleSlotType::Flex, y) by {
                        if before.contains(y) && y != dest_slot_id {
                            let q = choose|q: int| 0 <= q < before.len() && before[q] == y;
                            assert(free_flex@[q] == y);
                        } else if has_copy_to(prev_f, ProjectSampleSlotType::Flex, y) {
                            lemma_has_copy_to_push(prev_f, c, ProjectSampleSlotType::Flex, y);
                        }
                    }
                    assert forall|j: int| 0 <= j < i + 1 implies has_copy_for(copies_static@, (#[trigger] sorted_inserts@[j]).sample_type, sorted_inserts@[j].slot_id)
                        || has_copy_for(copies_flex@, sorted_inserts@[j].sample_type, sorted_inserts@[j].slot_id) by {
                        if j < i {
                            if has_copy_for(prev_f, sorted_inserts@[j].sample_type, sorted_inserts@[j].slot_id) {
                                lemma_has_copy_for_push(prev_f, c, sorted_inserts@[j].sample_type, sorted_inserts@[j].slot_id);
                            }
                        }
                    }
                }
            },
            ProjectSampleSlotType::RecorderBuffer => {
                proof {
                    assert(!copy_plan_possible(src_project_dirpath@, ds@, dz@, b1)) by {
                        assert(needs_copy(ds@, dz@, b1, ProjectSampleSlotType::RecorderBuffer, x.slot_id));
                    }
                    lemma_plan_for_all(src_project_dirpath@, ds@, dz@, *src_bank, b1, rs0);
                }
                return Err(OctatoolErrors::CliNoFreeSampleSlots);
            },
        }
        assert(key_copyable(src_project_dirpath@, ds@, sorted_inserts@[i as int]));
        i = i + 1;
    }

    apply_slot_changes_to_bank_inplace(inactive_ops.as_slice(), &mut bank);
    let ghost b2: Bank = bank;
    apply_slot_changes_to_bank_inplace(reuse_ops.as_slice(), &mut bank);
    let ghost b3: Bank = bank;

    // new destination slots: the existing ones, then the added static slots,
    // then the added flex slots (each group in ascending slot order)
    let ghost dzv = dz@;
    let mut new_zero = dz;
    let mut copies: Vec<SlotFileCopy> = Vec::new();
    let mut i: usize = 0;
    while i < copies_static.len()
        invariant
            i <= copies_static@.len(),
            new_zero@.len() == dzv.len() + copies@.len(),
            copies@ == copies_static@.subrange(0, i as int),
            new_zero@.subrange(0, dzv.len() as int) == dzv,
            forall|a: int| 0 <= a < copies@.len() ==> #[trigger] new_zero@[dzv.len() + a] == copies@[a].to,
        decreases copies_static@.len() - i,
    {
        let c = SlotFileCopy { from: copies_static[i].from.copy_slot(), to: copies_static[i].to.copy_slot() };
        new_zero.push(c.to.copy_slot());
        copies.push(c);
        assert(copies_static@.subrange(0, i + 1) =~= copies_static@.subrange(0, i as int).push(copies_static@[i as int]));
        i = i + 1;
    }
    let ghost n_static = copies@.len();
    let mut i: usize = 0;
    while i < copies_flex.len()
        invariant
            i <= copies_flex@.len(),
            n_static == copies_static@.len(),
            new_zero@.len() == dzv.len() + copies@.len(),
            copies@ == copies_static@ + copies_flex@.subrange(0, i as int),
            new_zero@.subrange(0, dzv.len() as int) == dzv,
            forall|a: int| 0 <= a < copies@.len() ==> #[trigger] new_zero@[dzv.len() + a] == copies@[a].to,
        decreases copies_flex@.len() - i,
    {
        let c = SlotFileCopy { from: copies_flex[i].from.copy_slot(), to: copies_flex[i].to.copy_slot() };
        new_zero.push(c.to.copy_slot());
        copies.push(c);
        assert(copies_flex@.subrange(0, i + 1) =~= copies_flex@.subrange(0, i as int).push(copies_flex@[i as int]));
        i = i + 1;
    }
    assert(copies_flex@.subrange(0, i as int) =~= copies_flex@);

    assert forall|a: int| 0 <= a < new_zero@.len() implies (#[trigger] new_zero@[a]).slot_id < 255 by {
        if a < dzv.len() {
            assert(new_zero@[a] == new_zero@.subrange(0, dzv.len() as int)[a]);
        } else {
            let b = a - dzv.len();
            assert(new_zero@[dzv.len() + b] == copies@[b].to);
            if b < n_static {
                assert(copies@[b] == copies_static@[b]);
            } else {
                assert(copies@[b] == copies_flex@[b - n_static]);
            }
        }
    }
    let insert_ops = copy_operations(&copies);
    apply_slot_changes_to_bank_inplace(insert_ops.as_slice(), &mut bank);
    proof {
        let rs1 = spec_sorted_reassignments(inactive_ops@);
        let rs2 = spec_sorted_reassignments(reuse_ops@);
        let rs3 = spec_sorted_reassignments(insert_ops@);
        assert(forall|y: BankSlotReference| refs@.contains(y) <==> bank_ref(ds@, b1, y));
        lemma_inactive_moves(refs@, ds@, dz@, b1, static_empty, flex_empty, inactive_ops@);
        assert forall|y: SlotsSlotReference| #![trigger sorted_reuses@.contains(y)]
            sorted_reuses@.contains(y) <==> exists|k: int| #[trigger] slot_key_at(ds@, dz@, refs@, k, y, true) by {
            assert(sorted_reuses@.contains(y) <==> reuses@.contains(y));
        }
        lemma_reuse_moves(refs@, ds@, dz@, b1, sorted_reuses@, reuse_ops@);
        lemma_copy_moves(copies@, insert_ops@);
        lemma_bank_reassigned_concat(b1, b2, b3, rs1, rs2);
        lemma_bank_reassigned_concat(b1, b3, bank, rs1 + rs2, rs3);
        lemma_no_skipped_numbers(dz@, ProjectSampleSlotType::Static, static_empty, all_static@, fs0, free_static@, copies_static@);
        lemma_no_skipped_numbers(dz@, ProjectSampleSlotType::Flex, flex_empty, all_flex@, ff0, free_flex@, copies_flex@);
        lemma_copies_order(dz@, copies_static@, copies_flex@);
        assert(copies@ == copies_static@ + copies_flex@);
        assert forall|a: int| 0 <= a < copies@.len() implies bank_refers_to_id(ds@, b1, (#[trigger] copies@[a]).from.slot_id) by {
            if a < n_static {
                assert(copies@[a] == copies_static@[a]);
            } else {
                assert(copies@[a] == copies_flex@[a - n_static]);
            }
            lemma_referenced_ids(refs@, ds@, b1, copies@[a].from.slot_id);
        }
        assert forall|k: int| 0 <= k < ds@.len() && bank_refers_to_id(ds@, b1, (#[trigger] ds@[k]).slot_id)
            && spec_best_match(ds@[k], dz@) is None implies has_copy_for(copies@, ds@[k].sample_type, ds@[k].slot_id) by {
            let key = SlotsSlotReference { sample_type: ds@[k].sample_type, slot_id: ds@[k].slot_id, op_type: SampleSlotOperationType::NewSlot };
            lemma_referenced_ids(refs@, ds@, b1, ds@[k].slot_id);
            assert(slot_key_at(ds@, dz@, refs@, k, key, false));
            assert(inserts@.contains(key));
            assert(sorted_inserts@.contains(key));
            let j = choose|j: int| 0 <= j < sorted_inserts@.len() && sorted_inserts@[j] == key;
            if has_copy_for(copies_static@, key.sample_type, key.slot_id) {
                let a = choose|a: int| 0 <= a < copies_static@.len() && (#[trigger] copies_static@[a]).from.sample_type == key.sample_type
                    && copies_static@[a].from.slot_id == key.slot_id;
                assert(copies@[a] == copies_static@[a]);
            } else {
                assert(has_copy_for(copies_flex@, key.sample_type, key.slot_id));
                let a = choose|a: int| 0 <= a < copies_flex@.len() && (#[trigger] copies_flex@[a]).from.sample_type == key.sample_type
                    && copies_flex@[a].from.slot_id == key.slot_id;
                assert(copies@[n_static + a] == copies_flex@[a]);
            }
        }
        assert(inactive_moves(ds@, dz@, b1, rs1));
        assert(reuse_moves(ds@, dz@, b1, rs2));
        assert(copy_moves(copies@, rs3));
        assert(copy_plan_possible(src_project_dirpath@, ds@, dz@, b1)) by {
            assert forall|id: u8| !needs_copy(ds@, dz@, b1, ProjectSampleSlotType::RecorderBuffer, id) by {
                if needs_copy(ds@, dz@, b1, ProjectSampleSlotType::RecorderBuffer, id) {
                    let key = new_key(ProjectSampleSlotType::RecorderBuffer, id);
                    assert(inserts@.contains(key));
                    assert(sorted_inserts@.contains(key));
                    let j = choose|j: int| 0 <= j < sorted_inserts@.len() && sorted_inserts@[j] == key;
                    assert(key_copyable(src_project_dirpath@, ds@, sorted_inserts@[j]));
                }
            }
            assert forall|t: ProjectSampleSlotType, id: u8, k: int|
                needs_copy(ds@, dz@, b1, t, id) && first_slot_at(ds@, t, id, k)
                implies spec_fname_and_fext(spec_path_join(src_project_dirpath@, ds@[k].path@)) is Some by {
                let key = new_key(t, id);
                assert(inserts@.contains(key));
                assert(sorted_inserts@.contains(key));
                let j = choose|j: int| 0 <= j < sorted_inserts@.len() && sorted_inserts@[j] == key;
                assert(key_copyable(src_project_dirpath@, ds@, sorted_inserts@[j]));
            }
        }
        lemma_plan_for_all(src_project_dirpath@, ds@, dz@, *src_bank, b1, rs0);
    }
    let slots = match get_one_indexed_slots_from_zero_indexed(new_zero.as_slice()) {
        Ok(v) => v,
        Err(e) => {
            return Err(e);
        },
    };
    proof {
        assert forall|a: int| 0 <= a < dest_slots@.len() implies slots@[a] == dest_slots@[a] by {
            assert(new_zero@[a] == new_zero@.subrange(0, dzv.len() as int)[a]);
            lemma_slot_indexing_roundtrip(dest_slots@[a]);
        }
        assert(slots@.subrange(0, dest_slots@.len() as int) =~= dest_slots@);
        assert forall|a: int| 0 <= a < copies@.len() implies spec_valid_copy(src_project_dirpath@, ds@, dz@, #[trigger] copies@[a]) by {
            if a < n_static {
                assert(copies@[a] == copies_static@[a]);
            } else {
                assert(copies@[a] == copies_flex@[a - n_static]);
            }
        }
        assert forall|a: int, b: int| 0 <= a < b < copies@.len() && copies@[a].to.sample_type == ProjectSampleSlotType::Flex
            implies copies@[b].to.sample_type == ProjectSampleSlotType::Flex by {
            if a < n_static {
                assert(copies@[a] == copies_static@[a]);
            } else {
                assert(copies@[b] == copies_flex@[b - n_static]);
            }
        }
        assert forall|a: int, b: int| 0 <= a < b < copies@.len() && copies@[a].to.sample_type == copies@[b].to.sample_type
            implies copies@[a].to.slot_id < copies@[b].to.slot_id by {
            if b < n_static {
                assert(copies@[a] == copies_static@[a]);
                assert(copies@[b] == copies_static@[b]);
            } else if a >= n_static {
                assert(copies@[a] == copies_flex@[a - n_static]);
                assert(copies@[b] == copies_flex@[b - n_static]);
            } else {
                assert(copies@[a] == copies_static@[a]);
                assert(copies@[b] == copies_flex@[b - n_static]);
            }
        }
        assert forall|a: int| 0 <= a < copies@.len() implies #[trigger] slots@[dest_slots@.len() + a]
            == spec_with_id(copies@[a].to, (copies@[a].to.slot_id + 1) as u8) by {
            assert(new_zero@[dzv.len() + a] == copies@[a].to);
        }
    }
    Ok((slots, bank, copies))
}


/// Whether `m` is the file copy of copied slot `c`: its audio file (its path
/// taken from `src_dirpath`) goes to `dest_dirpath` under the file name and
/// extension of the new slot's path, and its attributes file goes along.
pub open spec fn spec_sample_transfer(src_dirpath: Seq<char>, dest_dirpath: Seq<char>, c: SlotFileCopy, m: SampleFileMove) -> bool {
    &&& spec_fname_and_fext(c.to.path@) is Some
    &&& m.audio_from@ == spec_path_join(src_dirpath, c.from.path@)
    &&& m.ot_from@ == spec_with_extension(m.audio_from@, "ot"@)
    &&& m.audio_to@ == spec_path_join(dest_dirpath, spec_fname_and_fext(c.to.path@)->0)
    &&& m.ot_to@ == spec_with_extension(m.audio_to@, "ot"@)
}

/// The sample files to copy for the copied slots of a bank copy, from the
/// source project's directory to the destination's; an error when a new
/// slot's path has no extension.
pub fn plan_sample_transfers(
    transfers: &[SlotFileCopy],
    src_dirpath: &str,
    dest_dirpath: &str,
) -> (r: Result<Vec<SampleFileMove>, OctatoolErrors>)
    ensures
        match r {
            Ok(v) => v@.len() == transfers@.len() && forall|i: int| 0 <= i < v@.len()
                ==> spec_sample_transfer(src_dirpath@, dest_dirpath@, transfers@[i], #[trigger] v@[i]),
            Err(e) => e == OctatoolErrors::InvalidFilenameOrExtension
                && exists|i: int| 0 <= i < transfers@.len() && spec_fname_and_fext((#[trigger] transfers@[i]).to.path@) is None,
        },
{
    let mut out: Vec<SampleFileMove> = Vec::new();
    let mut i: usize = 0;
    while i < transfers.len()
        invariant
            i <= transfers@.len(),
            out@.len() == i,
            forall|k: int| 0 <= k < i ==> spec_sample_transfer(src_dirpath@, dest_dirpath@, transfers@[k], #[trigger] out@[k]),
        decreases transfers@.len() - i,
    {
        let t = &transfers[i];
        let audio_from = path_join(src_dirpath, t.from.path.as_str());
        let ot_from = resolve_otfile_fpath_from_audio_fpath(audio_from.as_str());
        let name = match resolve_fname_and_fext_from_path(t.to.path.as_str()) {
            Ok(n) => n,
            Err(e) => {
                assert(spec_fname_and_fext(transfers@[i as int].to.path@) is None);
                return Err(e);
            },
        };
        let audio_to = path_join(dest_dirpath, name.as_str());
        let ot_to = resolve_otfile_fpath_from_audio_fpath(audio_to.as_str());
        out.push(SampleFileMove { audio_from, audio_to, ot_from, ot_to });
        i = i + 1;
    }
    Ok(out)
}

/// Checks the bank numbers of a bank copy: both must lie between 1 and 16.
pub fn check_bank_numbers(source_bank_number: usize, destination_bank_number: usize) -> (r: Result<(), OctatoolErrors>)
    ensures
        r is Ok <==> (1 <= source_bank_number <= 16 && 1 <= destination_bank_number <= 16),
        r is Err ==> r == Err::<(), OctatoolErrors>(OctatoolErrors::CliInvalidBankIndex),
{
    if source_bank_number < 1 || source_bank_number > 16 || destination_bank_number < 1 || destination_bank_number > 16 {
        return Err(OctatoolErrors::CliInvalidBankIndex);
    }
    Ok(())
}

} // verus!
