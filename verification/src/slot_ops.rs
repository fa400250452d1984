//! Sample-slot bookkeeping for bank copies and slot deduplication: which slots
//! a bank refers to, which slots are free, which slots share settings, and how
//! slot references are reassigned.

use vstd::prelude::*;
use crate::banks::{spec_bank_slot_update, spec_machine_slot_update, spec_part_slot_update, AudioTrackMachineSlot, Bank, Part};
use crate::errors::OctatoolErrors;
use crate::options::ProjectSampleSlotType;
use crate::patterns::{spec_pattern_slot_update, spec_plock_slot_update, AudioTrackParameterLocks, AudioTrackTrigs, Pattern};
use crate::slots::ProjectSampleSlot;

verus! {

/// Whether some slot of type `t` has number `id`.
pub open spec fn slot_used(slots: Seq<ProjectSampleSlot>, t: ProjectSampleSlotType, id: u8) -> bool {
    exists|i: int| 0 <= i < slots.len() && (#[trigger] slots[i]).sample_type == t && slots[i].slot_id == id
}

/// Whether a slot of type `t` numbered `id` is among `slots`.
pub fn slot_id_in_use(slots: &[ProjectSampleSlot], t: ProjectSampleSlotType, id: u8) -> (r: bool)
    ensures
        r == slot_used(slots@, t, id),
{
    let mut i: usize = 0;
    while i < slots.len()
        invariant
            i <= slots@.len(),
            forall|k: int| 0 <= k < i ==> !((#[trigger] slots@[k]).sample_type == t && slots@[k].slot_id == id),
        decreases slots@.len() - i,
    {
        if slots[i].sample_type == t && slots[i].slot_id == id {
            return true;
        }
        i = i + 1;
    }
    false
}

/// Free slot numbers of type `slot_type`: the numbers 0 to 127 that no slot of
/// that type uses, in descending order.
pub fn find_free_sample_slot_ids(
    slots_inuse: &[ProjectSampleSlot],
    slot_type: ProjectSampleSlotType,
) -> (r: Result<Vec<u8>, OctatoolErrors>)
    ensures
        r matches Ok(v) && {
            &&& forall|i: int, j: int| 0 <= i < j < v@.len() ==> v@[i] > v@[j]
            &&& forall|i: int| 0 <= i < v@.len() ==> (#[trigger] v@[i]) <= 127
                && !slot_used(slots_inuse@, slot_type, v@[i])
            &&& forall|x: u8| x <= 127 && !slot_used(slots_inuse@, slot_type, x) ==> v@.contains(x)
        },
{
    let mut free: Vec<u8> = Vec::new();
    let mut x: u8 = 128;
    while x > 0
        invariant
            x <= 128,
            forall|i: int, j: int| 0 <= i < j < free@.len() ==> free@[i] > free@[j],
            forall|i: int| 0 <= i < free@.len() ==> x <= #[trigger] free@[i] <= 127
                && !slot_used(slots_inuse@, slot_type, free@[i]),
            forall|y: u8| x <= y <= 127 && !slot_used(slots_inuse@, slot_type, y) ==> free@.contains(y),
        decreases x,
    {
        x = x - 1;
        if !slot_id_in_use(slots_inuse, slot_type, x) {
            let ghost prev = free@;
            free.push(x);
            assert forall|y: u8| x <= y <= 127 && !slot_used(slots_inuse@, slot_type, y) implies free@.contains(y) by {
                if y == x {
                    assert(free@[free@.len() - 1] == y);
                } else {
                    assert(x + 1 <= y);
                    assert(prev.contains(y));
                    let k = choose|k: int| 0 <= k < prev.len() && prev[k] == y;
                    assert(free@[k] == y);
                }
            }
        }
    }
    Ok(free)
}

/// Numbers of the slots of type `t`, in slot order.
pub open spec fn spec_slot_ids(slots: Seq<ProjectSampleSlot>, t: ProjectSampleSlotType) -> Seq<u8>
    decreases slots.len(),
{
    if slots.len() == 0 {
        Seq::empty()
    } else {
        let prev = spec_slot_ids(slots.drop_last(), t);
        if slots.last().sample_type == t { prev.push(slots.last().slot_id) } else { prev }
    }
}

proof fn lemma_slot_ids_contains(slots: Seq<ProjectSampleSlot>, t: ProjectSampleSlotType, id: u8)
    ensures
        spec_slot_ids(slots, t).contains(id) <==> slot_used(slots, t, id),
    decreases slots.len(),
{
    if slots.len() > 0 {
        let d = slots.drop_last();
        lemma_slot_ids_contains(d, t, id);
        let prev = spec_slot_ids(d, t);
        if slot_used(d, t, id) {
            let i = choose|i: int| 0 <= i < d.len() && (#[trigger] d[i]).sample_type == t && d[i].slot_id == id;
            assert(slots[i] == d[i]);
        }
        if slot_used(slots, t, id) {
            let i = choose|i: int| 0 <= i < slots.len() && (#[trigger] slots[i]).sample_type == t && slots[i].slot_id == id;
            if i < d.len() {
                assert(d[i] == slots[i]);
            }
        }
        if slots.last().sample_type == t {
            let k = choose|k: int| 0 <= k < prev.push(slots.last().slot_id).len()
                && prev.push(slots.last().slot_id)[k] == id;
            if spec_slot_ids(slots, t).contains(id) && k < prev.len() {
                assert(prev[k] == id);
            }
            if prev.contains(id) {
                let k2 = choose|k2: int| 0 <= k2 < prev.len() && prev[k2] == id;
                assert(prev.push(slots.last().slot_id)[k2] == id);
            }
            if slots.last().slot_id == id {
                assert(prev.push(slots.last().slot_id)[prev.len() as int] == id);
            }
        }
    }
}

/// Numbers of the slots of type `sample_type`, in slot order.
pub fn get_sample_slot_ids(sample_slots: &[ProjectSampleSlot], sample_type: &ProjectSampleSlotType) -> (r: Vec<u8>)
    ensures
        r@ == spec_slot_ids(sample_slots@, *sample_type),
{
    let mut ids: Vec<u8> = Vec::new();
    let mut i: usize = 0;
    while i < sample_slots.len()
        invariant
            i <= sample_slots@.len(),
            ids@ == spec_slot_ids(sample_slots@.subrange(0, i as int), *sample_type),
        decreases sample_slots@.len() - i,
    {
        assert(sample_slots@.subrange(0, i + 1).drop_last() =~= sample_slots@.subrange(0, i as int));
        if sample_slots[i].sample_type == *sample_type {
            ids.push(sample_slots[i].slot_id);
        }
        i = i + 1;
    }
    assert(sample_slots@.subrange(0, i as int) =~= sample_slots@);
    ids
}

/// Whether a bank reference points at a slot with a sample loaded.
#[derive(Debug, Clone, Copy, PartialEq, Eq, Structural, Hash)]
pub enum BankSlotReferenceType {
    /// The referenced slot has no sample loaded.
    Inactive,
    /// The referenced slot has a sample loaded.
    Active,
}

/// A reference to a sample slot found in bank data.
#[derive(Debug, Clone, Copy, PartialEq, Eq, Structural, Hash)]
pub struct BankSlotReference {
    pub sample_type: ProjectSampleSlotType,
    pub slot_id: u8,
    pub reference_type: BankSlotReferenceType,
}

/// The reference to slot `id` of type `t`: active when such a slot exists.
pub open spec fn spec_slot_reference(slots: Seq<ProjectSampleSlot>, t: ProjectSampleSlotType, id: u8) -> BankSlotReference {
    BankSlotReference {
        sample_type: t,
        slot_id: id,
        reference_type: if slot_used(slots, t, id) {
            BankSlotReferenceType::Active
        } else {
            BankSlotReferenceType::Inactive
        },
    }
}

/// The reference to slot `slot_id` of type `sample_type`: active when the
/// project has such a slot, inactive otherwise.
pub fn get_active_or_inactive_bank_slot_reference(
    slots: &[ProjectSampleSlot],
    sample_type: ProjectSampleSlotType,
    slot_id: u8,
) -> (r: Result<BankSlotReference, OctatoolErrors>)
    ensures
        r == Ok::<BankSlotReference, OctatoolErrors>(spec_slot_reference(slots@, sample_type, slot_id)),
{
    let ids = get_sample_slot_ids(slots, &sample_type);
    let mut found = false;
    let mut i: usize = 0;
    while i < ids.len()
        invariant
            i <= ids@.len(),
            found <==> exists|k: int| 0 <= k < i && ids@[k] == slot_id,
        decreases ids@.len() - i,
    {
        if ids[i] == slot_id {
            found = true;
        }
        i = i + 1;
    }
    proof {
        lemma_slot_ids_contains(slots@, sample_type, slot_id);
    }
    if found {
        Ok(BankSlotReference { sample_type, slot_id, reference_type: BankSlotReferenceType::Active })
    } else {
        Ok(BankSlotReference { sample_type, slot_id, reference_type: BankSlotReferenceType::Inactive })
    }
}

/// Adds `x` to `v` unless it is already there.
fn push_unique(v: &mut Vec<BankSlotReference>, x: BankSlotReference)
    ensures
        forall|y: BankSlotReference| #![trigger final(v)@.contains(y)] final(v)@.contains(y) <==> (old(v)@.contains(y) || y == x),
        old(v)@.no_duplicates() ==> final(v)@.no_duplicates(),
{
    let mut i: usize = 0;
    while i < v.len()
        invariant
            i <= v@.len(),
            forall|k: int| 0 <= k < i ==> v@[k] != x,
        decreases v@.len() - i,
    {
        if v[i] == x {
            return;
        }
        i = i + 1;
    }
    let ghost prev = v@;
    v.push(x);
    assert forall|y: BankSlotReference| v@.contains(y) <==> (prev.contains(y) || y == x) by {
        if v@.contains(y) {
            let k = choose|k: int| 0 <= k < v@.len() && v@[k] == y;
            if k < prev.len() {
                assert(prev[k] == y);
            }
        }
        if prev.contains(y) {
            let k = choose|k: int| 0 <= k < prev.len() && prev[k] == y;
            assert(v@[k] == y);
        }
        if y == x {
            assert(v@[prev.len() as int] == y);
        }
    }
}

/// Whether `r` is a reference made by an enabled (not 255) sample-slot
/// parameter lock of trig `j` of the audio track `trigs`.
pub open spec fn spec_trigs_ref(slots: Seq<ProjectSampleSlot>, trigs: AudioTrackTrigs, j: int, r: BankSlotReference) -> bool {
    ||| (trigs.plocks@[j].static_slot_id != 255
        && r == spec_slot_reference(slots, ProjectSampleSlotType::Static, trigs.plocks@[j].static_slot_id))
    ||| (trigs.plocks@[j].flex_slot_id != 255
        && r == spec_slot_reference(slots, ProjectSampleSlotType::Flex, trigs.plocks@[j].flex_slot_id))
}

/// Whether `r` is a reference made by some parameter lock of the audio track `trigs`.
pub open spec fn spec_track_ref(slots: Seq<ProjectSampleSlot>, trigs: AudioTrackTrigs, r: BankSlotReference) -> bool {
    exists|j: int| 0 <= j < 64 && #[trigger] spec_trigs_ref(slots, trigs, j, r)
}

/// Whether `r` is a reference made by some parameter lock of pattern `p`.
pub open spec fn spec_pattern_ref(slots: Seq<ProjectSampleSlot>, p: Pattern, r: BankSlotReference) -> bool {
    exists|t: int| 0 <= t < 8 && #[trigger] spec_track_ref(slots, p.audio_track_trigs@[t], r)
}

/// Whether `r` is a reference made by some parameter lock of some pattern.
pub open spec fn spec_patterns_ref(slots: Seq<ProjectSampleSlot>, patterns: Seq<Pattern>, r: BankSlotReference) -> bool {
    exists|i: int| 0 <= i < patterns.len() && #[trigger] spec_pattern_ref(slots, patterns[i], r)
}

/// Whether `r` is a reference made by the machine slots of track `t` of part `p`.
pub open spec fn spec_part_track_ref(slots: Seq<ProjectSampleSlot>, p: Part, t: int, r: BankSlotReference) -> bool {
    ||| r == spec_slot_reference(slots, ProjectSampleSlotType::Static, p.audio_track_machine_slots@[t].static_slot_id)
    ||| r == spec_slot_reference(slots, ProjectSampleSlotType::Flex, p.audio_track_machine_slots@[t].flex_slot_id)
}

/// Whether `r` is a reference made by the machine slots of part `p`.
pub open spec fn spec_part_ref(slots: Seq<ProjectSampleSlot>, p: Part, r: BankSlotReference) -> bool {
    exists|t: int| 0 <= t < 8 && #[trigger] spec_part_track_ref(slots, p, t, r)
}

/// Whether `r` is a reference made by the machine slots of some part.
pub open spec fn spec_parts_ref(slots: Seq<ProjectSampleSlot>, parts: Seq<Part>, r: BankSlotReference) -> bool {
    exists|i: int| 0 <= i < parts.len() && #[trigger] spec_part_ref(slots, parts[i], r)
}

fn collect_track_refs(slots: &[ProjectSampleSlot], trigs: &AudioTrackTrigs, acc: &mut Vec<BankSlotReference>)
    ensures
        forall|y: BankSlotReference| #![trigger final(acc)@.contains(y)] final(acc)@.contains(y) <==> (old(acc)@.contains(y) || spec_track_ref(slots@, *trigs, y)),
        old(acc)@.no_duplicates() ==> final(acc)@.no_duplicates(),
{
    let ghost start = acc@;
    let mut j: usize = 0;
    while j < 64
        invariant
            j <= 64,
            start.no_duplicates() ==> acc@.no_duplicates(),
            forall|y: BankSlotReference| #![trigger acc@.contains(y)] acc@.contains(y) <==> (start.contains(y)
                || exists|k: int| 0 <= k < j && #[trigger] spec_trigs_ref(slots@, *trigs, k, y)),
        decreases 64 - j,
    {
        let ghost before = acc@;
        let lock = trigs.plocks[j];
        if lock.static_slot_id != 255 {
            let r = get_active_or_inactive_bank_slot_reference(slots, ProjectSampleSlotType::Static, lock.static_slot_id);
            if let Ok(r) = r {
                push_unique(acc, r);
            }
        }
        let ghost mid = acc@;
        if lock.flex_slot_id != 255 {
            let r = get_active_or_inactive_bank_slot_reference(slots, ProjectSampleSlotType::Flex, lock.flex_slot_id);
            if let Ok(r) = r {
                push_unique(acc, r);
            }
        }
        assert forall|y: BankSlotReference| #![trigger acc@.contains(y)] acc@.contains(y) <==> (start.contains(y)
            || exists|k: int| 0 <= k < j + 1 && #[trigger] spec_trigs_ref(slots@, *trigs, k, y)) by {
            if exists|k: int| 0 <= k < j + 1 && #[trigger] spec_trigs_ref(slots@, *trigs, k, y) {
                let k = choose|k: int| 0 <= k < j + 1 && #[trigger] spec_trigs_ref(slots@, *trigs, k, y);
                if k < j {
                    assert(before.contains(y));
                } else {
                    assert(k == j);
                }
            }
            if before.contains(y) {
                let k = choose|k: int| 0 <= k < j && #[trigger] spec_trigs_ref(slots@, *trigs, k, y);
                if !start.contains(y) {
                    assert(0 <= k < j + 1 && spec_trigs_ref(slots@, *trigs, k, y));
                }
            }
            if acc@.contains(y) && !before.contains(y) {
                assert(spec_trigs_ref(slots@, *trigs, j as int, y));
            }
        }
        j = j + 1;
    }
}

fn collect_pattern_refs(slots: &[ProjectSampleSlot], p: &Pattern, acc: &mut Vec<BankSlotReference>)
    ensures
        forall|y: BankSlotReference| #![trigger final(acc)@.contains(y)] final(acc)@.contains(y) <==> (old(acc)@.contains(y) || spec_pattern_ref(slots@, *p, y)),
        old(acc)@.no_duplicates() ==> final(acc)@.no_duplicates(),
{
    let ghost start = acc@;
    let mut t: usize = 0;
    while t < 8
        invariant
            t <= 8,
            start.no_duplicates() ==> acc@.no_duplicates(),
            forall|y: BankSlotReference| #![trigger acc@.contains(y)] acc@.contains(y) <==> (start.contains(y)
                || exists|u: int| 0 <= u < t && #[trigger] spec_track_ref(slots@, p.audio_track_trigs@[u], y)),
        decreases 8 - t,
    {
        let ghost before = acc@;
        collect_track_refs(slots, &p.audio_track_trigs[t], acc);
        assert forall|y: BankSlotReference| #![trigger acc@.contains(y)] acc@.contains(y) <==> (start.contains(y)
            || exists|u: int| 0 <= u < t + 1 && #[trigger] spec_track_ref(slots@, p.audio_track_trigs@[u], y)) by {
            if exists|u: int| 0 <= u < t + 1 && #[trigger] spec_track_ref(slots@, p.audio_track_trigs@[u], y) {
                let u = choose|u: int| 0 <= u < t + 1 && #[trigger] spec_track_ref(slots@, p.audio_track_trigs@[u], y);
                if u < t {
                    assert(before.contains(y));
                }
            }
            if before.contains(y) && !start.contains(y) {
                let u = choose|u: int| 0 <= u < t && #[trigger] spec_track_ref(slots@, p.audio_track_trigs@[u], y);
                assert(0 <= u < t + 1);
            }
        }
        t = t + 1;
    }
}

fn collect_part_refs(slots: &[ProjectSampleSlot], p: &Part, acc: &mut Vec<BankSlotReference>)
    ensures
        forall|y: BankSlotReference| #![trigger final(acc)@.contains(y)] final(acc)@.contains(y) <==> (old(acc)@.contains(y) || spec_part_ref(slots@, *p, y)),
        old(acc)@.no_duplicates() ==> final(acc)@.no_duplicates(),
{
    let ghost start = acc@;
    let mut t: usize = 0;
    while t < 8
        invariant
            t <= 8,
            start.no_duplicates() ==> acc@.no_duplicates(),
            forall|y: BankSlotReference| #![trigger acc@.contains(y)] acc@.contains(y) <==> (start.contains(y)
                || exists|u: int| 0 <= u < t && #[trigger] spec_part_track_ref(slots@, *p, u, y)),
        decreases 8 - t,
    {
        let ghost before = acc@;
        let m = p.audio_track_machine_slots[t];
        let r1 = get_active_or_inactive_bank_slot_reference(slots, ProjectSampleSlotType::Static, m.static_slot_id);
        if let Ok(r) = r1 {
            push_unique(acc, r);
        }
        let r2 = get_active_or_inactive_bank_slot_reference(slots, ProjectSampleSlotType::Flex, m.flex_slot_id);
        if let Ok(r) = r2 {
            push_unique(acc, r);
        }
        assert forall|y: BankSlotReference| #![trigger acc@.contains(y)] acc@.contains(y) <==> (start.contains(y)
            || exists|u: int| 0 <= u < t + 1 && #[trigger] spec_part_track_ref(slots@, *p, u, y)) by {
            if exists|u: int| 0 <= u < t + 1 && #[trigger] spec_part_track_ref(slots@, *p, u, y) {
                let u = choose|u: int| 0 <= u < t + 1 && #[trigger] spec_part_track_ref(slots@, *p, u, y);
                if u < t {
                    assert(before.contains(y));
                } else {
                    assert(u == t);
                }
            }
            if before.contains(y) && !start.contains(y) {
                let u = choose|u: int| 0 <= u < t && #[trigger] spec_part_track_ref(slots@, *p, u, y);
                assert(0 <= u < t + 1);
            }
            if acc@.contains(y) && !before.contains(y) {
                assert(spec_part_track_ref(slots@, *p, t as int, y));
            }
        }
        t = t + 1;
    }
}

fn collect_patterns_refs(slots: &[ProjectSampleSlot], patterns: &[Pattern], acc: &mut Vec<BankSlotReference>)
    ensures
        forall|y: BankSlotReference| #![trigger final(acc)@.contains(y)] final(acc)@.contains(y) <==> (old(acc)@.contains(y) || spec_patterns_ref(slots@, patterns@, y)),
        old(acc)@.no_duplicates() ==> final(acc)@.no_duplicates(),
{
    let ghost start = acc@;
    let mut i: usize = 0;
    while i < patterns.len()
        invariant
            i <= patterns@.len(),
            start.no_duplicates() ==> acc@.no_duplicates(),
            forall|y: BankSlotReference| #![trigger acc@.contains(y)] acc@.contains(y) <==> (start.contains(y)
                || exists|u: int| 0 <= u < i && #[trigger] spec_pattern_ref(slots@, patterns@[u], y)),
        decreases patterns@.len() - i,
    {
        let ghost before = acc@;
        collect_pattern_refs(slots, &patterns[i], acc);
        assert forall|y: BankSlotReference| #![trigger acc@.contains(y)] acc@.contains(y) <==> (start.contains(y)
            || exists|u: int| 0 <= u < i + 1 && #[trigger] spec_pattern_ref(slots@, patterns@[u], y)) by {
            if exists|u: int| 0 <= u < i + 1 && #[trigger] spec_pattern_ref(slots@, patterns@[u], y) {
                let u = choose|u: int| 0 <= u < i + 1 && #[trigger] spec_pattern_ref(slots@, patterns@[u], y);
                if u < i {
                    assert(before.contains(y));
                }
            }
            if before.contains(y) && !start.contains(y) {
                let u = choose|u: int| 0 <= u < i && #[trigger] spec_pattern_ref(slots@, patterns@[u], y);
                assert(0 <= u < i + 1);
            }
        }
        i = i + 1;
    }
}

fn collect_parts_refs(slots: &[ProjectSampleSlot], parts: &[Part], acc: &mut Vec<BankSlotReference>)
    ensures
        forall|y: BankSlotReference| #![trigger final(acc)@.contains(y)] final(acc)@.contains(y) <==> (old(acc)@.contains(y) || spec_parts_ref(slots@, parts@, y)),
        old(acc)@.no_duplicates() ==> final(acc)@.no_duplicates(),
{
    let ghost start = acc@;
    let mut i: usize = 0;
    while i < parts.len()
        invariant
            i <= parts@.len(),
            start.no_duplicates() ==> acc@.no_duplicates(),
            forall|y: BankSlotReference| #![trigger acc@.contains(y)] acc@.contains(y) <==> (start.contains(y)
                || exists|u: int| 0 <= u < i && #[trigger] spec_part_ref(slots@, parts@[u], y)),
        decreases parts@.len() - i,
    {
        let ghost before = acc@;
        collect_part_refs(slots, &parts[i], acc);
        assert forall|y: BankSlotReference| #![trigger acc@.contains(y)] acc@.contains(y) <==> (start.contains(y)
            || exists|u: int| 0 <= u < i + 1 && #[trigger] spec_part_ref(slots@, parts@[u], y)) by {
            if exists|u: int| 0 <= u < i + 1 && #[trigger] spec_part_ref(slots@, parts@[u], y) {
                let u = choose|u: int| 0 <= u < i + 1 && #[trigger] spec_part_ref(slots@, parts@[u], y);
                if u < i {
                    assert(before.contains(y));
                }
            }
            if before.contains(y) && !start.contains(y) {
                let u = choose|u: int| 0 <= u < i && #[trigger] spec_part_ref(slots@, parts@[u], y);
                assert(0 <= u < i + 1);
            }
        }
        i = i + 1;
    }
}

/// The sample slot references made by the enabled sample-slot parameter locks
/// of the patterns, each listed once; a reference is active when the project
/// has a slot of that type and number.
pub fn find_sample_slot_refs_in_patterns(
    slots: &[ProjectSampleSlot],
    patterns: &[Pattern],
) -> (r: Result<Vec<BankSlotReference>, OctatoolErrors>)
    ensures
        r matches Ok(v) && v@.no_duplicates()
            && forall|y: BankSlotReference| v@.contains(y) <==> spec_patterns_ref(slots@, patterns@, y),
{
    let mut acc: Vec<BankSlotReference> = Vec::new();
    collect_patterns_refs(slots, patterns, &mut acc);
    Ok(acc)
}

/// The sample slot references made by the machine slots of the parts, each
/// listed once.
pub fn find_sample_slot_refs_in_parts(
    slots: &[ProjectSampleSlot],
    parts: &[Part],
) -> (r: Result<Vec<BankSlotReference>, OctatoolErrors>)
    ensures
        r matches Ok(v) && v@.no_duplicates()
            && forall|y: BankSlotReference| v@.contains(y) <==> spec_parts_ref(slots@, parts@, y),
{
    let mut acc: Vec<BankSlotReference> = Vec::new();
    collect_parts_refs(slots, parts, &mut acc);
    Ok(acc)
}

/// The sample slot references made by a bank (its patterns and unsaved
/// parts), each listed once.
pub fn find_sample_slot_refs_in_bank(
    slots: &[ProjectSampleSlot],
    bank: &Bank,
) -> (r: Result<Vec<BankSlotReference>, OctatoolErrors>)
    ensures
        r matches Ok(v) && v@.no_duplicates()
            && forall|y: BankSlotReference| v@.contains(y) <==> (spec_patterns_ref(slots@, bank.patterns@, y)
                || spec_parts_ref(slots@, bank.parts_unsaved@, y)),
{
    let mut acc: Vec<BankSlotReference> = Vec::new();
    collect_patterns_refs(slots, bank.patterns.as_slice(), &mut acc);
    collect_parts_refs(slots, bank.parts_unsaved.as_slice(), &mut acc);
    Ok(acc)
}

/// The greatest valid slot number (0 to 127, zero-indexed) that no slot of
/// type `sample_type` uses; an error when every number is used.
pub fn find_last_empty_slot(slots: &[ProjectSampleSlot], sample_type: &ProjectSampleSlotType) -> (r: Result<u8, OctatoolErrors>)
    ensures
        match r {
            Ok(x) => x <= 127 && !slot_used(slots@, *sample_type, x)
                && forall|y: u8| x < y <= 127 ==> slot_used(slots@, *sample_type, y),
            Err(e) => e == OctatoolErrors::CliNoFreeSampleSlots
                && forall|y: u8| y <= 127 ==> slot_used(slots@, *sample_type, y),
        },
{
    let mut x: u8 = 128;
    while x > 0
        invariant
            x <= 128,
            forall|y: u8| x <= y <= 127 ==> slot_used(slots@, *sample_type, y),
        decreases x,
    {
        x = x - 1;
        if !slot_id_in_use(slots, *sample_type, x) {
            return Ok(x);
        }
    }
    Err(OctatoolErrors::CliNoFreeSampleSlots)
}

/// Whether two slots have the same settings (everything but the slot number).
pub open spec fn same_settings(a: ProjectSampleSlot, b: ProjectSampleSlot) -> bool {
    &&& a.sample_type == b.sample_type
    &&& a.path@ == b.path@
    &&& a.trim_bars_x100 == b.trim_bars_x100
    &&& a.trig_quantization_mode == b.trig_quantization_mode
    &&& a.timestrech_mode == b.timestrech_mode
    &&& a.loop_mode == b.loop_mode
    &&& a.gain == b.gain
    &&& a.bpm == b.bpm
}

/// Whether two slots have the same settings.
pub fn slot_settings_eq(a: &ProjectSampleSlot, b: &ProjectSampleSlot) -> (r: bool)
    ensures
        r == same_settings(*a, *b),
{
    a.sample_type == b.sample_type && a.path == b.path && a.trim_bars_x100 == b.trim_bars_x100
        && a.trig_quantization_mode == b.trig_quantization_mode
        && a.timestrech_mode == b.timestrech_mode && a.loop_mode == b.loop_mode
        && a.gain == b.gain && a.bpm == b.bpm
}

/// The first slot among those with the lowest number that have the settings
/// of `c`; `None` when no slot has them.
pub open spec fn spec_best_match(c: ProjectSampleSlot, s: Seq<ProjectSampleSlot>) -> Option<ProjectSampleSlot>
    decreases s.len(),
{
    if s.len() == 0 {
        None
    } else {
        let m = spec_best_match(c, s.drop_last());
        if same_settings(s.last(), c) && (m is None || s.last().slot_id < m->Some_0.slot_id) {
            Some(s.last())
        } else {
            m
        }
    }
}

proof fn lemma_best_match_props(c: ProjectSampleSlot, s: Seq<ProjectSampleSlot>)
    ensures
        match spec_best_match(c, s) {
            None => forall|k: int| 0 <= k < s.len() ==> !same_settings(#[trigger] s[k], c),
            Some(m) => exists|k: int| 0 <= k < s.len() && s[k] == m && same_settings(m, c)
                && (forall|j: int| 0 <= j < s.len() && same_settings(#[trigger] s[j], c) ==> m.slot_id <= s[j].slot_id),
        },
    decreases s.len(),
{
    if s.len() > 0 {
        let d = s.drop_last();
        lemma_best_match_props(c, d);
        match spec_best_match(c, d) {
            None => {
                assert forall|k: int| 0 <= k < d.len() implies !same_settings(#[trigger] s[k], c) by {
                    assert(s[k] == d[k]);
                    assert(!same_settings(d[k], c));
                }
            },
            Some(m) => {
                let k = choose|k: int| 0 <= k < d.len() && d[k] == m && same_settings(m, c)
                    && (forall|j: int| 0 <= j < d.len() && same_settings(#[trigger] d[j], c) ==> m.slot_id <= d[j].slot_id);
                assert(s[k] == d[k]);
                assert forall|j: int| 0 <= j < d.len() && same_settings(#[trigger] s[j], c) implies m.slot_id <= s[j].slot_id by {
                    assert(s[j] == d[j]);
                    assert(same_settings(d[j], c));
                }
            },
        }
    }
}

/// The slot with the settings of `candidate` (everything but the slot
/// number): the first among those with the lowest slot number, `None` when no
/// slot has those settings.
pub fn find_sample_slot_settings_match(candidate: &ProjectSampleSlot, slots: &[ProjectSampleSlot]) -> (r: Option<ProjectSampleSlot>)
    ensures
        r == spec_best_match(*candidate, slots@),
{
    let mut best: Option<usize> = None;
    let mut i: usize = 0;
    while i < slots.len()
        invariant
            i <= slots@.len(),
            match best {
                None => spec_best_match(*candidate, slots@.subrange(0, i as int)) is None,
                Some(b) => b < i && spec_best_match(*candidate, slots@.subrange(0, i as int)) == Some(slots@[b as int]),
            },
        decreases slots@.len() - i,
    {
        assert(slots@.subrange(0, i + 1).drop_last() =~= slots@.subrange(0, i as int));
        assert(slots@.subrange(0, i + 1).last() == slots@[i as int]);
        if slot_settings_eq(&slots[i], candidate) {
            match best {
                None => {
                    best = Some(i);
                },
                Some(b) => {
                    if slots[i].slot_id < slots[b].slot_id {
                        best = Some(i);
                    }
                },
            }
        }
        i = i + 1;
    }
    assert(slots@.subrange(0, i as int) =~= slots@);
    match best {
        None => None,
        Some(b) => Some(slots[b].copy_slot()),
    }
}

/// Slot `s` renumbered to `id`.
pub open spec fn spec_with_id(s: ProjectSampleSlot, id: u8) -> ProjectSampleSlot {
    ProjectSampleSlot { slot_id: id, ..s }
}

/// Two slots have the same settings exactly when they are equal once the
/// second's number is given to the first: every setting (type, path, trim,
/// modes, gain, tempo) agrees, and only the number may differ.
pub proof fn lemma_same_settings_up_to_number(a: ProjectSampleSlot, b: ProjectSampleSlot)
    ensures
        same_settings(a, b) <==> spec_with_id(a, b.slot_id)@ == b@,
{
}

/// A slot matched to a candidate is one of the searched slots and has every
/// setting of the candidate (only its number may differ), with the lowest
/// number among such slots; no match means no searched slot has all the
/// candidate's settings.
pub proof fn lemma_best_match_agrees(c: ProjectSampleSlot, s: Seq<ProjectSampleSlot>)
    ensures
        spec_best_match(c, s) matches Some(m) ==> {
            &&& s.contains(m)
            &&& spec_with_id(m, c.slot_id)@ == c@
            &&& forall|k: int| 0 <= k < s.len() && spec_with_id(#[trigger] s[k], c.slot_id)@ == c@ ==> m.slot_id <= s[k].slot_id
        },
        spec_best_match(c, s) is None ==> forall|k: int| 0 <= k < s.len() ==> spec_with_id(#[trigger] s[k], c.slot_id)@ != c@,
{
    lemma_best_match_props(c, s);
    assert forall|k: int| 0 <= k < s.len() implies (same_settings(#[trigger] s[k], c) <==> spec_with_id(s[k], c.slot_id)@ == c@) by {
        lemma_same_settings_up_to_number(s[k], c);
    }
    if let Some(m) = spec_best_match(c, s) {
        lemma_same_settings_up_to_number(m, c);
        let k = choose|k: int| 0 <= k < s.len() && s[k] == m && same_settings(m, c)
            && (forall|j: int| 0 <= j < s.len() && same_settings(#[trigger] s[j], c) ==> m.slot_id <= s[j].slot_id);
        assert(s[k] == m);
    }
}

/// A new slot with the settings of `existing`, numbered `new_id`, with the
/// path `new_path` when one is given and the path of `existing` otherwise.
pub fn create_sample_slot_from_existing(
    existing: &ProjectSampleSlot,
    new_path: Option<&str>,
    new_id: &u8,
) -> (r: Result<ProjectSampleSlot, OctatoolErrors>)
    ensures
        r matches Ok(s) && same_settings_but_path(s, *existing) && s.slot_id == *new_id
            && s.path@ == match new_path { Some(p) => p@, None => existing.path@ },
{
    let path = match new_path {
        Some(p) => String::from_str(p),
        None => existing.path.clone(),
    };
    ProjectSampleSlot::new(
        existing.sample_type,
        *new_id,
        path,
        Some(existing.trim_bars_x100),
        Some(existing.timestrech_mode),
        Some(existing.loop_mode),
        Some(existing.trig_quantization_mode),
        Some(existing.gain),
        Some(existing.bpm),
    )
}

/// Whether two slots have the same settings apart from the path.
pub open spec fn same_settings_but_path(a: ProjectSampleSlot, b: ProjectSampleSlot) -> bool {
    &&& a.sample_type == b.sample_type
    &&& a.trim_bars_x100 == b.trim_bars_x100
    &&& a.trig_quantization_mode == b.trig_quantization_mode
    &&& a.timestrech_mode == b.timestrech_mode
    &&& a.loop_mode == b.loop_mode
    &&& a.gain == b.gain
    &&& a.bpm == b.bpm
}

/// The slots with every number lowered by one.
pub open spec fn spec_zero_indexed(s: Seq<ProjectSampleSlot>) -> Seq<ProjectSampleSlot> {
    Seq::new(s.len(), |i: int| spec_with_id(s[i], (s[i].slot_id - 1) as u8))
}

/// The slots with every number raised by one.
pub open spec fn spec_one_indexed(s: Seq<ProjectSampleSlot>) -> Seq<ProjectSampleSlot> {
    Seq::new(s.len(), |i: int| spec_with_id(s[i], (s[i].slot_id + 1) as u8))
}

/// The slots with every number lowered by one (project files number slots
/// from 1, the bank data from 0).
pub fn get_zero_indexed_slots_from_one_indexed(slots: &[ProjectSampleSlot]) -> (r: Result<Vec<ProjectSampleSlot>, OctatoolErrors>)
    requires
        forall|i: int| 0 <= i < slots@.len() ==> (#[trigger] slots@[i]).slot_id >= 1,
    ensures
        r matches Ok(v) && v@ == spec_zero_indexed(slots@),
{
    let mut out: Vec<ProjectSampleSlot> = Vec::new();
    let mut i: usize = 0;
    while i < slots.len()
        invariant
            i <= slots@.len(),
            forall|k: int| 0 <= k < slots@.len() ==> (#[trigger] slots@[k]).slot_id >= 1,
            out@.len() == i,
            forall|k: int| 0 <= k < i ==> #[trigger] out@[k] == spec_with_id(slots@[k], (slots@[k].slot_id - 1) as u8),
        decreases slots@.len() - i,
    {
        let mut s = slots[i].copy_slot();
        s.slot_id = s.slot_id - 1;
        out.push(s);
        i = i + 1;
    }
    assert(out@ =~= spec_zero_indexed(slots@));
    Ok(out)
}

/// The slots with every number raised by one.
pub fn get_one_indexed_slots_from_zero_indexed(slots: &[ProjectSampleSlot]) -> (r: Result<Vec<ProjectSampleSlot>, OctatoolErrors>)
    requires
        forall|i: int| 0 <= i < slots@.len() ==> (#[trigger] slots@[i]).slot_id < 255,
    ensures
        r matches Ok(v) && v@ == spec_one_indexed(slots@),
{
    let mut out: Vec<ProjectSampleSlot> = Vec::new();
    let mut i: usize = 0;
    while i < slots.len()
        invariant
            i <= slots@.len(),
            forall|k: int| 0 <= k < slots@.len() ==> (#[trigger] slots@[k]).slot_id < 255,
            out@.len() == i,
            forall|k: int| 0 <= k < i ==> #[trigger] out@[k] == spec_with_id(slots@[k], (slots@[k].slot_id + 1) as u8),
        decreases slots@.len() - i,
    {
        let mut s = slots[i].copy_slot();
        s.slot_id = s.slot_id + 1;
        out.push(s);
        i = i + 1;
    }
    assert(out@ =~= spec_one_indexed(slots@));
    Ok(out)
}

/// Renumbering slots from 1 to 0 and back gives the slots that were started
/// with.
pub proof fn lemma_slot_indexing_roundtrip(s: ProjectSampleSlot)
    requires
        s.slot_id >= 1,
    ensures
        spec_with_id(spec_with_id(s, (s.slot_id - 1) as u8), (spec_with_id(s, (s.slot_id - 1) as u8).slot_id + 1) as u8) == s,
{
}

/// Whether some slot of `d` has the settings of `x`.
pub open spec fn has_settings(d: Seq<ProjectSampleSlot>, x: ProjectSampleSlot) -> bool {
    exists|k: int| 0 <= k < d.len() && same_settings(#[trigger] d[k], x)
}

/// The slots with later slots dropped when an earlier slot has the same
/// settings (the first slot of each group of equal settings stays).
pub open spec fn spec_unique_settings(s: Seq<ProjectSampleSlot>) -> Seq<ProjectSampleSlot>
    decreases s.len(),
{
    if s.len() == 0 {
        Seq::empty()
    } else {
        let d = spec_unique_settings(s.drop_last());
        if has_settings(d, s.last()) { d } else { d.push(s.last()) }
    }
}

/// A change of the slot number that references of one slot type point at.
#[derive(Debug, Clone, Copy, PartialEq, Eq, Structural)]
pub struct SlotReferenceReassignment {
    pub initial_slot_id: u8,
    pub new_slot_id: u8,
    pub slot_type: ProjectSampleSlotType,
}

/// Whether `d` holds a slot equal to `x` (number and settings).
pub open spec fn has_slot(d: Seq<ProjectSampleSlot>, x: ProjectSampleSlot) -> bool {
    exists|k: int| 0 <= k < d.len() && (#[trigger] d[k])@ == x@
}

/// The reassignments deduplication makes: for each slot (in order) that is
/// not itself kept in `d`, its number goes to the number of the matching kept
/// slot.
pub open spec fn spec_reassignments(s: Seq<ProjectSampleSlot>, d: Seq<ProjectSampleSlot>) -> Seq<SlotReferenceReassignment>
    decreases s.len(),
{
    if s.len() == 0 {
        Seq::empty()
    } else {
        let prev = spec_reassignments(s.drop_last(), d);
        if has_slot(d, s.last()) {
            prev
        } else {
            match spec_best_match(s.last(), d) {
                Some(f) => prev.push(SlotReferenceReassignment {
                    initial_slot_id: s.last().slot_id,
                    new_slot_id: f.slot_id,
                    slot_type: f.sample_type,
                }),
                None => prev,
            }
        }
    }
}

/// Slot number `id` of type `kind` after applying the reassignments in order.
pub open spec fn spec_reassigned_id(id: u8, kind: ProjectSampleSlotType, rs: Seq<SlotReferenceReassignment>) -> u8
    decreases rs.len(),
{
    if rs.len() == 0 {
        id
    } else {
        let x = spec_reassigned_id(id, kind, rs.drop_last());
        if rs.last().slot_type == kind && x == rs.last().initial_slot_id { rs.last().new_slot_id } else { x }
    }
}

/// Whether bank `after` is bank `before` with every static and flex slot
/// reference of its patterns' parameter locks and of its unsaved parts'
/// machines moved by the reassignments `rs` in order, nothing else changed.
pub open spec fn spec_bank_reassigned(before: Bank, after: Bank, rs: Seq<SlotReferenceReassignment>) -> bool {
    &&& after.patterns@.len() == before.patterns@.len()
    &&& after.parts_unsaved@.len() == before.parts_unsaved@.len()
    &&& after.parts_saved@ == before.parts_saved@
    &&& forall|i: int| 0 <= i < before.patterns@.len() ==> {
        let a = #[trigger] after.patterns@[i];
        let b = before.patterns@[i];
        &&& a.header == b.header
        &&& a.midi_track_trigs == b.midi_track_trigs
        &&& a.scale == b.scale
        &&& a.chain_behaviour == b.chain_behaviour
        &&& a.unknown == b.unknown
        &&& a.part_assignment == b.part_assignment
        &&& a.tempo_1 == b.tempo_1
        &&& a.tempo_2 == b.tempo_2
        &&& forall|t: int| 0 <= t < 8 ==> {
            let at = #[trigger] a.audio_track_trigs@[t];
            let bt = b.audio_track_trigs@[t];
            &&& at.header == bt.header
            &&& at.unknown_1 == bt.unknown_1
            &&& at.trig_masks == bt.trig_masks
            &&& at.scale_per_track_mode == bt.scale_per_track_mode
            &&& at.swing_amount == bt.swing_amount
            &&& at.pattern_settings == bt.pattern_settings
            &&& at.unknown_2 == bt.unknown_2
            &&& at.unknown_3 == bt.unknown_3
            &&& forall|k: int| 0 <= k < 64 ==> #[trigger] at.plocks@[k] == AudioTrackParameterLocks {
                static_slot_id: spec_reassigned_id(bt.plocks@[k].static_slot_id, ProjectSampleSlotType::Static, rs),
                flex_slot_id: spec_reassigned_id(bt.plocks@[k].flex_slot_id, ProjectSampleSlotType::Flex, rs),
                ..bt.plocks@[k]
            }
        }
    }
    &&& forall|i: int, t: int| 0 <= i < before.parts_unsaved@.len() && 0 <= t < 8 ==>
        #[trigger] after.parts_unsaved@[i].audio_track_machine_slots@[t] == AudioTrackMachineSlot {
            static_slot_id: spec_reassigned_id(
                before.parts_unsaved@[i].audio_track_machine_slots@[t].static_slot_id, ProjectSampleSlotType::Static, rs),
            flex_slot_id: spec_reassigned_id(
                before.parts_unsaved@[i].audio_track_machine_slots@[t].flex_slot_id, ProjectSampleSlotType::Flex, rs),
        }
}

pub(crate) proof fn lemma_bank_reassigned_empty(b: Bank)
    ensures
        spec_bank_reassigned(b, b, Seq::empty()),
{
    assert forall|i: int, t: int, k: int| 0 <= i < b.patterns@.len() && 0 <= t < 8 && 0 <= k < 64 implies
        #[trigger] b.patterns@[i].audio_track_trigs@[t].plocks@[k] == AudioTrackParameterLocks {
            static_slot_id: spec_reassigned_id(b.patterns@[i].audio_track_trigs@[t].plocks@[k].static_slot_id, ProjectSampleSlotType::Static, Seq::empty()),
            flex_slot_id: spec_reassigned_id(b.patterns@[i].audio_track_trigs@[t].plocks@[k].flex_slot_id, ProjectSampleSlotType::Flex, Seq::empty()),
            ..b.patterns@[i].audio_track_trigs@[t].plocks@[k]
        } by {
    }
}

pub(crate) proof fn lemma_bank_reassigned_step(
    b0: Bank,
    b1: Bank,
    b2: Bank,
    rs: Seq<SlotReferenceReassignment>,
    r: SlotReferenceReassignment,
)
    requires
        spec_bank_reassigned(b0, b1, rs),
        spec_bank_slot_update(b1, b2, r.slot_type, r.initial_slot_id, r.new_slot_id),
    ensures
        spec_bank_reassigned(b0, b2, rs.push(r)),
{
    let rs2 = rs.push(r);
    assert(rs2.drop_last() =~= rs);
    assert forall|i: int, t: int, k: int| 0 <= i < b0.patterns@.len() && 0 <= t < 8 && 0 <= k < 64 implies
        #[trigger] b2.patterns@[i].audio_track_trigs@[t].plocks@[k] == AudioTrackParameterLocks {
            static_slot_id: spec_reassigned_id(b0.patterns@[i].audio_track_trigs@[t].plocks@[k].static_slot_id, ProjectSampleSlotType::Static, rs2),
            flex_slot_id: spec_reassigned_id(b0.patterns@[i].audio_track_trigs@[t].plocks@[k].flex_slot_id, ProjectSampleSlotType::Flex, rs2),
            ..b0.patterns@[i].audio_track_trigs@[t].plocks@[k]
        } by {
        let p1 = b1.patterns@[i];
        assert(spec_pattern_slot_update(p1, b2.patterns@[i], r.slot_type, r.initial_slot_id, r.new_slot_id));
        let q1 = p1.audio_track_trigs@[t].plocks@[k];
        assert(b2.patterns@[i].audio_track_trigs@[t].plocks@[k]
            == spec_plock_slot_update(q1, r.slot_type, r.initial_slot_id, r.new_slot_id));
    }
    assert forall|i: int, t: int| 0 <= i < b0.patterns@.len() && 0 <= t < 8 implies {
        let at = #[trigger] b2.patterns@[i].audio_track_trigs@[t];
        let bt = b0.patterns@[i].audio_track_trigs@[t];
        &&& at.header == bt.header
        &&& at.unknown_1 == bt.unknown_1
        &&& at.trig_masks == bt.trig_masks
        &&& at.scale_per_track_mode == bt.scale_per_track_mode
        &&& at.swing_amount == bt.swing_amount
        &&& at.pattern_settings == bt.pattern_settings
        &&& at.unknown_2 == bt.unknown_2
        &&& at.unknown_3 == bt.unknown_3
    } by {
        assert(spec_pattern_slot_update(b1.patterns@[i], b2.patterns@[i], r.slot_type, r.initial_slot_id, r.new_slot_id));
    }
    assert forall|i: int| 0 <= i < b0.patterns@.len() implies {
        let a = #[trigger] b2.patterns@[i];
        let b = b0.patterns@[i];
        &&& a.header == b.header
        &&& a.midi_track_trigs == b.midi_track_trigs
        &&& a.scale == b.scale
        &&& a.chain_behaviour == b.chain_behaviour
        &&& a.unknown == b.unknown
        &&& a.part_assignment == b.part_assignment
        &&& a.tempo_1 == b.tempo_1
        &&& a.tempo_2 == b.tempo_2
    } by {
        assert(spec_pattern_slot_update(b1.patterns@[i], b2.patterns@[i], r.slot_type, r.initial_slot_id, r.new_slot_id));
    }
    assert forall|i: int, t: int| 0 <= i < b0.parts_unsaved@.len() && 0 <= t < 8 implies
        #[trigger] b2.parts_unsaved@[i].audio_track_machine_slots@[t] == AudioTrackMachineSlot {
            static_slot_id: spec_reassigned_id(
                b0.parts_unsaved@[i].audio_track_machine_slots@[t].static_slot_id, ProjectSampleSlotType::Static, rs2),
            flex_slot_id: spec_reassigned_id(
                b0.parts_unsaved@[i].audio_track_machine_slots@[t].flex_slot_id, ProjectSampleSlotType::Flex, rs2),
        } by {
        assert(spec_part_slot_update(b1.parts_unsaved@[i], b2.parts_unsaved@[i], r.slot_type, r.initial_slot_id, r.new_slot_id));
        assert(b2.parts_unsaved@[i].audio_track_machine_slots@[t] == spec_machine_slot_update(
            b1.parts_unsaved@[i].audio_track_machine_slots@[t], r.slot_type, r.initial_slot_id, r.new_slot_id));
    }
}

/// Deduplication loses no settings: every slot has a slot with the same
/// settings among the deduplicated slots.
pub proof fn lemma_unique_settings_covers(s: Seq<ProjectSampleSlot>, k: int)
    requires
        0 <= k < s.len(),
    ensures
        has_settings(spec_unique_settings(s), s[k]),
    decreases s.len(),
{
    let d = spec_unique_settings(s.drop_last());
    if k < s.len() - 1 {
        lemma_unique_settings_covers(s.drop_last(), k);
        assert(s.drop_last()[k] == s[k]);
        if !has_settings(d, s.last()) {
            let w = choose|w: int| 0 <= w < d.len() && same_settings(#[trigger] d[w], s[k]);
            assert(d.push(s.last())[w] == d[w]);
        }
    } else {
        if !has_settings(d, s.last()) {
            assert(same_settings(d.push(s.last())[d.len() as int], s[k]));
        }
    }
}

/// Whether `x` is equal (number and settings) to some slot of `d`.
fn slot_in(d: &Vec<ProjectSampleSlot>, x: &ProjectSampleSlot) -> (r: bool)
    ensures
        r == has_slot(d@, *x),
{
    let mut i: usize = 0;
    while i < d.len()
        invariant
            i <= d@.len(),
            forall|k: int| 0 <= k < i ==> (#[trigger] d@[k])@ != x@,
        decreases d@.len() - i,
    {
        if d[i].slot_id == x.slot_id && slot_settings_eq(&d[i], x) {
            assert(d@[i as int]@ == x@);
            return true;
        }
        i = i + 1;
    }
    false
}

/// Applies the reassignments in order to every bank.
fn apply_reassignments_to_banks(banks: &mut Vec<Bank>, rs: &Vec<SlotReferenceReassignment>)
    ensures
        final(banks)@.len() == old(banks)@.len(),
        forall|k: int| 0 <= k < old(banks)@.len() ==> spec_bank_reassigned(old(banks)@[k], #[trigger] final(banks)@[k], rs@),
{
    let ghost start = banks@;
    proof {
        assert forall|k: int| 0 <= k < start.len() implies spec_bank_reassigned(start[k], #[trigger] banks@[k], rs@.subrange(0, 0)) by {
            lemma_bank_reassigned_empty(start[k]);
            assert(rs@.subrange(0, 0) =~= Seq::<SlotReferenceReassignment>::empty());
        }
    }
    let mut q: usize = 0;
    while q < rs.len()
        invariant
            q <= rs@.len(),
            banks@.len() == start.len(),
            forall|k: int| 0 <= k < start.len() ==> spec_bank_reassigned(start[k], #[trigger] banks@[k], rs@.subrange(0, q as int)),
        decreases rs@.len() - q,
    {
        let r = rs[q];
        let mut k: usize = 0;
        while k < banks.len()
            invariant
                q < rs@.len(),
                r == rs@[q as int],
                k <= banks@.len(),
                banks@.len() == start.len(),
                forall|u: int| k <= u < start.len() ==> spec_bank_reassigned(start[u], #[trigger] banks@[u], rs@.subrange(0, q as int)),
                forall|u: int| 0 <= u < k ==> spec_bank_reassigned(start[u], #[trigger] banks@[u], rs@.subrange(0, q + 1)),
            decreases banks@.len() - k,
        {
            let mut b = banks[k].copy_bank();
            let ghost b1 = b;
            proof {
                assert(spec_bank_reassigned(start[k as int], banks@[k as int], rs@.subrange(0, q as int)));
            }
            b.update_sample_slot_references(&r.slot_type, &r.initial_slot_id, &r.new_slot_id);
            proof {
                assert(rs@.subrange(0, q + 1) =~= rs@.subrange(0, q as int).push(r));
                lemma_bank_reassigned_step(start[k as int], b1, b, rs@.subrange(0, q as int), r);
            }
            banks.set(k, b);
            k = k + 1;
        }
        q = q + 1;
    }
    assert(rs@.subrange(0, rs@.len() as int) =~= rs@);
}

/// Deduplicates slots by their settings (the first slot of each group of
/// equal settings stays) and moves the references of the banks from each
/// dropped slot to the slot that stays in its place.
pub fn get_deduplicated_sample_slots_and_updated_banks(
    slots: &[ProjectSampleSlot],
    banks: &[Bank],
) -> (r: Result<(Vec<ProjectSampleSlot>, Vec<Bank>), OctatoolErrors>)
    ensures
        r matches Ok((d, nb)) && {
            &&& d@ == spec_unique_settings(slots@)
            &&& nb@.len() == banks@.len()
            &&& forall|k: int| 0 <= k < banks@.len() ==> spec_bank_reassigned(banks@[k], #[trigger] nb@[k],
                spec_reassignments(slots@, spec_unique_settings(slots@)))
        },
{
    let mut deduped: Vec<ProjectSampleSlot> = Vec::new();
    let mut i: usize = 0;
    while i < slots.len()
        invariant
            i <= slots@.len(),
            deduped@ == spec_unique_settings(slots@.subrange(0, i as int)),
        decreases slots@.len() - i,
    {
        assert(slots@.subrange(0, i + 1).drop_last() =~= slots@.subrange(0, i as int));
        let mut found = false;
        let mut k: usize = 0;
        while k < deduped.len()
            invariant
                i < slots@.len(),
                k <= deduped@.len(),
                found <==> exists|w: int| 0 <= w < k && same_settings(#[trigger] deduped@[w], slots@[i as int]),
            decreases deduped@.len() - k,
        {
            if slot_settings_eq(&deduped[k], &slots[i]) {
                found = true;
            }
            k = k + 1;
        }
        if !found {
            deduped.push(slots[i].copy_slot());
        }
        i = i + 1;
    }
    assert(slots@.subrange(0, slots@.len() as int) =~= slots@);

    let mut reassignments: Vec<SlotReferenceReassignment> = Vec::new();
    let mut i: usize = 0;
    while i < slots.len()
        invariant
            i <= slots@.len(),
            deduped@ == spec_unique_settings(slots@),
            reassignments@ == spec_reassignments(slots@.subrange(0, i as int), deduped@),
        decreases slots@.len() - i,
    {
        assert(slots@.subrange(0, i + 1).drop_last() =~= slots@.subrange(0, i as int));
        let slot = &slots[i];
        if !slot_in(&deduped, slot) {
            match find_sample_slot_settings_match(slot, deduped.as_slice()) {
                Some(found) => {
                    reassignments.push(SlotReferenceReassignment {
                        initial_slot_id: slot.slot_id,
                        new_slot_id: found.slot_id,
                        slot_type: found.sample_type,
                    });
                },
                None => {
                    proof {
                        lemma_unique_settings_covers(slots@, i as int);
                        lemma_best_match_props(slots@[i as int], deduped@);
                        let w = choose|w: int| 0 <= w < deduped@.len() && same_settings(#[trigger] deduped@[w], slots@[i as int]);
                        assert(same_settings(deduped@[w], slots@[i as int]));
                        assert(same_settings(slots@[i as int], deduped@[w]));
                    }
                },
            }
        }
        i = i + 1;
    }
    assert(slots@.subrange(0, slots@.len() as int) =~= slots@);

    let mut new_banks: Vec<Bank> = Vec::new();
    let mut i: usize = 0;
    while i < banks.len()
        invariant
            i <= banks@.len(),
            new_banks@.len() == i,
            forall|k: int| 0 <= k < i ==> (#[trigger] new_banks@[k]).patterns@ == banks@[k].patterns@
                && new_banks@[k].parts_unsaved@ == banks@[k].parts_unsaved@
                && new_banks@[k].parts_saved@ == banks@[k].parts_saved@,
        decreases banks@.len() - i,
    {
        let b = banks[i].copy_bank();
        new_banks.push(b);
        i = i + 1;
    }
    let ghost copied = new_banks@;
    apply_reassignments_to_banks(&mut new_banks, &reassignments);
    proof {
        assert forall|k: int| 0 <= k < banks@.len() implies spec_bank_reassigned(banks@[k], #[trigger] new_banks@[k],
            spec_reassignments(slots@, spec_unique_settings(slots@))) by {
            assert(spec_bank_reassigned(copied[k], new_banks@[k], reassignments@));
            assert(copied[k].patterns@ == banks@[k].patterns@);
        }
    }
    Ok((deduped, new_banks))
}

/// No two deduplicated slots have the same settings.
pub proof fn lemma_unique_settings_distinct(s: Seq<ProjectSampleSlot>)
    ensures
        forall|a: int, b: int| 0 <= a < b < spec_unique_settings(s).len() ==>
            !same_settings(#[trigger] spec_unique_settings(s)[a], #[trigger] spec_unique_settings(s)[b]),
    decreases s.len(),
{
    if s.len() > 0 {
        let d = spec_unique_settings(s.drop_last());
        lemma_unique_settings_distinct(s.drop_last());
        if !has_settings(d, s.last()) {
            let e = d.push(s.last());
            assert forall|a: int, b: int| 0 <= a < b < e.len() implies !same_settings(#[trigger] e[a], #[trigger] e[b]) by {
                if b < d.len() {
                    assert(e[a] == d[a] && e[b] == d[b]);
                } else {
                    assert(e[a] == d[a]);
                    assert(e[b] == s.last());
                    if same_settings(d[a], s.last()) {
                        assert(has_settings(d, s.last()));
                    }
                }
            }
        }
    }
}

/// Every deduplicated slot is one of the input slots.
pub proof fn lemma_unique_settings_from_input(s: Seq<ProjectSampleSlot>)
    ensures
        forall|a: int| 0 <= a < spec_unique_settings(s).len() ==>
            s.contains(#[trigger] spec_unique_settings(s)[a]),
    decreases s.len(),
{
    if s.len() > 0 {
        let d = spec_unique_settings(s.drop_last());
        lemma_unique_settings_from_input(s.drop_last());
        let e = spec_unique_settings(s);
        assert forall|a: int| 0 <= a < e.len() implies s.contains(#[trigger] e[a]) by {
            if a < d.len() {
                assert(e[a] == d[a]);
                assert(s.drop_last().contains(d[a]));
                let w = choose|w: int| 0 <= w < s.drop_last().len() && s.drop_last()[w] == d[a];
                assert(s[w] == d[a]);
            } else {
                assert(e[a] == s[s.len() - 1]);
            }
        }
    }
}

/// Whether an operation creates a new slot or reuses one.
#[derive(Debug, Clone, Copy, PartialEq, Eq, Structural, Hash)]
pub enum SampleSlotOperationType {
    /// A new slot is created in the destination (its files are copied).
    NewSlot,
    /// An existing destination slot with the same settings is reused.
    ReuseSlot,
}

/// A source slot, the destination slot it becomes, and how.
#[derive(Debug, Clone, PartialEq, Eq, Hash)]
pub struct SampleSlotOperation {
    pub src_slot: ProjectSampleSlot,
    pub dest_slot: ProjectSampleSlot,
    pub op_type: SampleSlotOperationType,
}

/// The reassignment an operation makes: references to the source slot's
/// number (of its type) move to the destination slot's number.
pub open spec fn spec_op_reassignment(op: SampleSlotOperation) -> SlotReferenceReassignment {
    SlotReferenceReassignment {
        initial_slot_id: op.src_slot.slot_id,
        new_slot_id: op.dest_slot.slot_id,
        slot_type: op.src_slot.sample_type,
    }
}

/// `x` inserted into `s` after every trailing element whose initial slot
/// number is at least that of `x` (one step of a stable descending sort).
pub open spec fn spec_insert_desc(s: Seq<SlotReferenceReassignment>, x: SlotReferenceReassignment) -> Seq<SlotReferenceReassignment>
    decreases s.len(),
{
    if s.len() == 0 {
        seq![x]
    } else if s.last().initial_slot_id >= x.initial_slot_id {
        s.push(x)
    } else {
        spec_insert_desc(s.drop_last(), x).push(s.last())
    }
}

/// The operations' reassignments in descending order of source slot number;
/// operations with equal source numbers keep their order.
pub open spec fn spec_sorted_reassignments(ops: Seq<SampleSlotOperation>) -> Seq<SlotReferenceReassignment>
    decreases ops.len(),
{
    if ops.len() == 0 {
        Seq::empty()
    } else {
        spec_insert_desc(spec_sorted_reassignments(ops.drop_last()), spec_op_reassignment(ops.last()))
    }
}

proof fn lemma_insert_desc_at(s: Seq<SlotReferenceReassignment>, x: SlotReferenceReassignment, p: int)
    requires
        0 <= p <= s.len(),
        forall|k: int| p <= k < s.len() ==> (#[trigger] s[k]).initial_slot_id < x.initial_slot_id,
        p > 0 ==> s[p - 1].initial_slot_id >= x.initial_slot_id,
    ensures
        spec_insert_desc(s, x) == s.insert(p, x),
    decreases s.len(),
{
    if s.len() == 0 {
        assert(s.insert(p, x) =~= seq![x]);
    } else if p == s.len() {
        assert(s.insert(p, x) =~= s.push(x));
    } else {
        let d = s.drop_last();
        assert forall|k: int| p <= k < d.len() implies (#[trigger] d[k]).initial_slot_id < x.initial_slot_id by {
            assert(d[k] == s[k]);
        }
        if p > 0 {
            assert(d[p - 1] == s[p - 1]);
        }
        lemma_insert_desc_at(d, x, p);
        assert(d.insert(p, x).push(s.last()) =~= s.insert(p, x));
    }
}

/// Whether the reassignments come in descending order of initial slot number.
pub open spec fn descending_ids(s: Seq<SlotReferenceReassignment>) -> bool {
    forall|a: int, b: int| 0 <= a < b < s.len() ==> s[a].initial_slot_id >= s[b].initial_slot_id
}

proof fn lemma_insert_desc_props(s: Seq<SlotReferenceReassignment>, x: SlotReferenceReassignment)
    requires
        descending_ids(s),
    ensures
        descending_ids(spec_insert_desc(s, x)),
        forall|y: SlotReferenceReassignment| #![trigger spec_insert_desc(s, x).contains(y)]
            spec_insert_desc(s, x).contains(y) <==> (s.contains(y) || y == x),
    decreases s.len(),
{
    let r = spec_insert_desc(s, x);
    if s.len() == 0 {
        assert forall|y: SlotReferenceReassignment| r.contains(y) <==> (s.contains(y) || y == x) by {
            if r.contains(y) {
                assert(r[0] == x);
            }
            if y == x {
                assert(r[0] == y);
            }
        }
    } else if s.last().initial_slot_id >= x.initial_slot_id {
        assert forall|y: SlotReferenceReassignment| r.contains(y) <==> (s.contains(y) || y == x) by {
            if r.contains(y) {
                let k = choose|k: int| 0 <= k < r.len() && r[k] == y;
                if k < s.len() {
                    assert(s[k] == y);
                }
            }
            if s.contains(y) {
                let k = choose|k: int| 0 <= k < s.len() && s[k] == y;
                assert(r[k] == y);
            }
            if y == x {
                assert(r[s.len() as int] == y);
            }
        }
    } else {
        let d = s.drop_last();
        let l = s.last();
        assert forall|a: int, b: int| 0 <= a < b < d.len() implies d[a].initial_slot_id >= d[b].initial_slot_id by {
            assert(d[a] == s[a] && d[b] == s[b]);
        }
        lemma_insert_desc_props(d, x);
        let q = spec_insert_desc(d, x);
        assert(r == q.push(l));
        assert forall|a: int| 0 <= a < q.len() implies (#[trigger] q[a]).initial_slot_id >= l.initial_slot_id by {
            assert(q.contains(q[a]));
            if d.contains(q[a]) {
                let k = choose|k: int| 0 <= k < d.len() && d[k] == q[a];
                assert(s[k] == q[a]);
                assert(s[s.len() - 1] == l);
            }
        }
        assert forall|a: int, b: int| 0 <= a < b < r.len() implies r[a].initial_slot_id >= r[b].initial_slot_id by {
            assert(r[a] == q[a]);
            if b < q.len() {
                assert(r[b] == q[b]);
            } else {
                assert(r[b] == l);
            }
        }
        assert forall|y: SlotReferenceReassignment| r.contains(y) <==> (s.contains(y) || y == x) by {
            if r.contains(y) {
                let k = choose|k: int| 0 <= k < r.len() && r[k] == y;
                if k < q.len() {
                    assert(q[k] == y);
                    assert(q.contains(y));
                    if d.contains(y) {
                        let j = choose|j: int| 0 <= j < d.len() && d[j] == y;
                        assert(s[j] == y);
                    }
                } else {
                    assert(s[s.len() - 1] == y);
                }
            }
            if s.contains(y) {
                let k = choose|k: int| 0 <= k < s.len() && s[k] == y;
                if k < d.len() {
                    assert(d[k] == y);
                    assert(d.contains(y));
                    assert(q.contains(y));
                    let j = choose|j: int| 0 <= j < q.len() && q[j] == y;
                    assert(r[j] == y);
                } else {
                    assert(r[q.len() as int] == y);
                }
            }
            if y == x {
                assert(q.contains(y));
                let j = choose|j: int| 0 <= j < q.len() && q[j] == y;
                assert(r[j] == y);
            }
        }
    }
}

/// The sorted reassignments of operations come in descending order of
/// initial slot number and are exactly the operations' reassignments.
pub proof fn lemma_sorted_reassignments_props(ops: Seq<SampleSlotOperation>)
    ensures
        descending_ids(spec_sorted_reassignments(ops)),
        forall|x: SlotReferenceReassignment| spec_sorted_reassignments(ops).contains(x)
            <==> exists|k: int| 0 <= k < ops.len() && spec_op_reassignment(#[trigger] ops[k]) == x,
    decreases ops.len(),
{
    if ops.len() > 0 {
        let d = ops.drop_last();
        lemma_sorted_reassignments_props(d);
        lemma_insert_desc_props(spec_sorted_reassignments(d), spec_op_reassignment(ops.last()));
        assert forall|x: SlotReferenceReassignment| spec_sorted_reassignments(ops).contains(x)
            <==> exists|k: int| 0 <= k < ops.len() && spec_op_reassignment(#[trigger] ops[k]) == x by {
            if exists|k: int| 0 <= k < ops.len() && spec_op_reassignment(#[trigger] ops[k]) == x {
                let k = choose|k: int| 0 <= k < ops.len() && spec_op_reassignment(#[trigger] ops[k]) == x;
                if k < d.len() {
                    assert(d[k] == ops[k]);
                }
            }
            if spec_sorted_reassignments(d).contains(x) {
                let k = choose|k: int| 0 <= k < d.len() && spec_op_reassignment(#[trigger] d[k]) == x;
                assert(ops[k] == d[k]);
            }
        }
    }
}

/// Applies the operations' slot changes to the bank: references to each
/// operation's source slot move to its destination slot, operations taken in
/// descending order of source slot number (so a reference is not moved twice
/// by operations whose numbers chain upwards).
pub fn apply_slot_changes_to_bank_inplace(operations: &[SampleSlotOperation], bank: &mut Bank)
    ensures
        spec_bank_reassigned(*old(bank), *final(bank), spec_sorted_reassignments(operations@)),
{
    let mut sorted: Vec<SlotReferenceReassignment> = Vec::new();
    let mut i: usize = 0;
    while i < operations.len()
        invariant
            i <= operations@.len(),
            sorted@ == spec_sorted_reassignments(operations@.subrange(0, i as int)),
        decreases operations@.len() - i,
    {
        assert(operations@.subrange(0, i + 1).drop_last() =~= operations@.subrange(0, i as int));
        let x = SlotReferenceReassignment {
            initial_slot_id: operations[i].src_slot.slot_id,
            new_slot_id: operations[i].dest_slot.slot_id,
            slot_type: operations[i].src_slot.sample_type,
        };
        let mut p = sorted.len();
        while p > 0 && sorted[p - 1].initial_slot_id < x.initial_slot_id
            invariant
                p <= sorted@.len(),
                forall|k: int| p <= k < sorted@.len() ==> (#[trigger] sorted@[k]).initial_slot_id < x.initial_slot_id,
            decreases p,
        {
            p = p - 1;
        }
        proof {
            lemma_insert_desc_at(sorted@, x, p as int);
        }
        sorted.insert(p, x);
        i = i + 1;
    }
    assert(operations@.subrange(0, operations@.len() as int) =~= operations@);
    let mut banks: Vec<Bank> = Vec::new();
    banks.push(bank.copy_bank());
    apply_reassignments_to_banks(&mut banks, &sorted);
    *bank = banks[0].copy_bank();
}

proof fn lemma_reassigned_id_concat(x: u8, kind: ProjectSampleSlotType, rs1: Seq<SlotReferenceReassignment>, rs2: Seq<SlotReferenceReassignment>)
    ensures
        spec_reassigned_id(x, kind, rs1 + rs2) == spec_reassigned_id(spec_reassigned_id(x, kind, rs1), kind, rs2),
    decreases rs2.len(),
{
    if rs2.len() == 0 {
        assert(rs1 + rs2 =~= rs1);
    } else {
        lemma_reassigned_id_concat(x, kind, rs1, rs2.drop_last());
        assert((rs1 + rs2).drop_last() =~= rs1 + rs2.drop_last());
        assert((rs1 + rs2).last() == rs2.last());
    }
}

/// Moving references by `rs1` and then by `rs2` is moving them by `rs1`
/// followed by `rs2`.
pub proof fn lemma_bank_reassigned_concat(
    b0: Bank,
    b1: Bank,
    b2: Bank,
    rs1: Seq<SlotReferenceReassignment>,
    rs2: Seq<SlotReferenceReassignment>,
)
    requires
        spec_bank_reassigned(b0, b1, rs1),
        spec_bank_reassigned(b1, b2, rs2),
    ensures
        spec_bank_reassigned(b0, b2, rs1 + rs2),
{
    let rs = rs1 + rs2;
    assert forall|i: int, t: int, k: int| 0 <= i < b0.patterns@.len() && 0 <= t < 8 && 0 <= k < 64 implies
        #[trigger] b2.patterns@[i].audio_track_trigs@[t].plocks@[k] == AudioTrackParameterLocks {
            static_slot_id: spec_reassigned_id(b0.patterns@[i].audio_track_trigs@[t].plocks@[k].static_slot_id, ProjectSampleSlotType::Static, rs),
            flex_slot_id: spec_reassigned_id(b0.patterns@[i].audio_track_trigs@[t].plocks@[k].flex_slot_id, ProjectSampleSlotType::Flex, rs),
            ..b0.patterns@[i].audio_track_trigs@[t].plocks@[k]
        } by {
        let q0 = b0.patterns@[i].audio_track_trigs@[t].plocks@[k];
        let q1 = b1.patterns@[i].audio_track_trigs@[t].plocks@[k];
        assert(b1.patterns@[i].audio_track_trigs@[t] == b1.patterns@[i].audio_track_trigs@[t]);
        assert(q1 == AudioTrackParameterLocks {
            static_slot_id: spec_reassigned_id(q0.static_slot_id, ProjectSampleSlotType::Static, rs1),
            flex_slot_id: spec_reassigned_id(q0.flex_slot_id, ProjectSampleSlotType::Flex, rs1),
            ..q0
        });
        lemma_reassigned_id_concat(q0.static_slot_id, ProjectSampleSlotType::Static, rs1, rs2);
        lemma_reassigned_id_concat(q0.flex_slot_id, ProjectSampleSlotType::Flex, rs1, rs2);
    }
    assert forall|i: int, t: int| 0 <= i < b0.parts_unsaved@.len() && 0 <= t < 8 implies
        #[trigger] b2.parts_unsaved@[i].audio_track_machine_slots@[t] == AudioTrackMachineSlot {
            static_slot_id: spec_reassigned_id(
                b0.parts_unsaved@[i].audio_track_machine_slots@[t].static_slot_id, ProjectSampleSlotType::Static, rs),
            flex_slot_id: spec_reassigned_id(
                b0.parts_unsaved@[i].audio_track_machine_slots@[t].flex_slot_id, ProjectSampleSlotType::Flex, rs),
        } by {
        let m0 = b0.parts_unsaved@[i].audio_track_machine_slots@[t];
        assert(b1.parts_unsaved@[i].audio_track_machine_slots@[t] == b1.parts_unsaved@[i].audio_track_machine_slots@[t]);
        lemma_reassigned_id_concat(m0.static_slot_id, ProjectSampleSlotType::Static, rs1, rs2);
        lemma_reassigned_id_concat(m0.flex_slot_id, ProjectSampleSlotType::Flex, rs1, rs2);
    }
}

} // verus!
