//! Listings of the sample slots that a bank or one of its parts refers to.

use vstd::prelude::*;
use crate::banks::{Bank, Part};
use crate::patterns::Pattern;
use crate::errors::OctatoolErrors;
use crate::options::ProjectSampleSlotType;
use crate::slot_ops::{
    find_sample_slot_refs_in_patterns,
    find_sample_slot_refs_in_bank, find_sample_slot_refs_in_parts, get_zero_indexed_slots_from_one_indexed,
    spec_parts_ref, spec_patterns_ref, spec_zero_indexed, BankSlotReference, BankSlotReferenceType,
};
use crate::slots::ProjectSampleSlot;

verus! {

/// One line of a slot usage listing.
#[derive(Debug, Clone, PartialEq, Eq)]
pub struct SlotUseListItem {
    /// Whether the referenced slot has a sample loaded.
    pub sample_loaded: bool,
    pub sample_type: ProjectSampleSlotType,
    /// Slot number as the project file numbers it (from 1).
    pub slot_id: u8,
    /// Path of the loaded sample.
    pub path: Option<String>,
}

/// Whether a reference is listed: every reference, or only the active ones
/// (those to slots with a sample loaded) when `ignore_empty_slots` is set.
pub open spec fn spec_listed(ignore_empty_slots: bool, x: BankSlotReference) -> bool {
    !ignore_empty_slots || x.reference_type == BankSlotReferenceType::Active
}

/// Whether reference `x` has no listing line: its number is 255 (one past
/// it cannot be written), or it is active and no project slot has its number.
pub open spec fn spec_item_fails(ps: Seq<ProjectSampleSlot>, x: BankSlotReference) -> bool {
    x.slot_id == 255 || (x.reference_type == BankSlotReferenceType::Active && spec_slot_numbered(ps, x.slot_id) is None)
}

/// Whether some listed reference among those that satisfy `refd` has no
/// listing line (see `spec_item_fails`).
pub open spec fn spec_listing_fails(
    ps: Seq<ProjectSampleSlot>,
    refd: spec_fn(BankSlotReference) -> bool,
    ignore_empty_slots: bool,
) -> bool {
    exists|y: BankSlotReference| #[trigger] refd(y) && spec_listed(ignore_empty_slots, y) && spec_item_fails(ps, y)
}

/// The first project slot numbered `id` (of any type).
pub open spec fn spec_slot_numbered(ps: Seq<ProjectSampleSlot>, id: u8) -> Option<ProjectSampleSlot>
    decreases ps.len(),
{
    if ps.len() == 0 {
        None
    } else {
        let f = spec_slot_numbered(ps.drop_last(), id);
        if f is Some {
            f
        } else if ps.last().slot_id == id {
            Some(ps.last())
        } else {
            None
        }
    }
}

/// The listing line of reference `x` (a reference number is one below the
/// project file's number; the path is that of the project slot whose number
/// equals the reference number).
pub open spec fn spec_list_item(ps: Seq<ProjectSampleSlot>, x: BankSlotReference, item: SlotUseListItem) -> bool {
    &&& item.sample_loaded == (x.reference_type == BankSlotReferenceType::Active)
    &&& item.sample_type == x.sample_type
    &&& item.slot_id == x.slot_id + 1
    &&& match item.path {
        Some(p) => item.sample_loaded && (spec_slot_numbered(ps, x.slot_id) matches Some(s) && p@ == s.path@),
        None => !item.sample_loaded,
    }
}

fn slot_numbered(ps: &[ProjectSampleSlot], id: u8) -> (r: Option<String>)
    ensures
        match r {
            Some(p) => spec_slot_numbered(ps@, id) matches Some(s) && p@ == s.path@,
            None => spec_slot_numbered(ps@, id) is None,
        },
{
    let mut i: usize = 0;
    while i < ps.len()
        invariant
            i <= ps@.len(),
            spec_slot_numbered(ps@.subrange(0, i as int), id) is None,
        decreases ps@.len() - i,
    {
        assert(ps@.subrange(0, i + 1).drop_last() =~= ps@.subrange(0, i as int));
        if ps[i].slot_id == id {
            let ghost found = ps@[i as int];
            let mut n: usize = i + 1;
            while n < ps.len()
                invariant
                    i < n <= ps@.len(),
                    spec_slot_numbered(ps@.subrange(0, n as int), id) == Some(found),
                decreases ps@.len() - n,
            {
                assert(ps@.subrange(0, n + 1).drop_last() =~= ps@.subrange(0, n as int));
                n = n + 1;
            }
            assert(ps@.subrange(0, ps@.len() as int) =~= ps@);
            return Some(ps[i].path.clone());
        }
        i = i + 1;
    }
    assert(ps@.subrange(0, ps@.len() as int) =~= ps@);
    None
}

/// The listing of the references `refs`: those listed under
/// `ignore_empty_slots`, ascending by slot number, as listing lines. An error
/// when a listed reference has number 255, or is active but no project slot
/// has its number.
fn list_refs(
    project_slots: &[ProjectSampleSlot],
    refs: &Vec<BankSlotReference>,
    ignore_empty_slots: bool,
) -> (r: Result<(Vec<BankSlotReference>, Vec<SlotUseListItem>), OctatoolErrors>)
    requires
        refs@.no_duplicates(),
    ensures
        match r {
            Ok((sel, items)) => spec_selection_lists(
                project_slots@, |y: BankSlotReference| refs@.contains(y), ignore_empty_slots, sel@, items@),
            Err(e) => e == OctatoolErrors::Unknown,
        },
        r is Err <==> exists|y: BankSlotReference| #[trigger] refs@.contains(y) && spec_listed(ignore_empty_slots, y)
            && spec_item_fails(project_slots@, y),
{
    // selection, then a stable insertion sort by slot number
    let mut sel: Vec<BankSlotReference> = Vec::new();
    let mut i: usize = 0;
    while i < refs.len()
        invariant
            i <= refs@.len(),
            refs@.no_duplicates(),
            sel@.no_duplicates(),
            forall|y: BankSlotReference| #![trigger sel@.contains(y)] sel@.contains(y) <==> (refs@.subrange(0, i as int).contains(y) && spec_listed(ignore_empty_slots, y)),
            forall|a: int, b: int| 0 <= a < b < sel@.len() ==> sel@[a].slot_id <= sel@[b].slot_id,
        decreases refs@.len() - i,
    {
        let x = refs[i];
        let ghost cur = refs@.subrange(0, i as int);
        assert(refs@.subrange(0, i + 1) =~= cur.push(x));
        if !ignore_empty_slots || x.reference_type == BankSlotReferenceType::Active {
            let mut p = sel.len();
            while p > 0 && sel[p - 1].slot_id > x.slot_id
                invariant
                    p <= sel@.len(),
                    forall|k: int| p <= k < sel@.len() ==> (#[trigger] sel@[k]).slot_id > x.slot_id,
                decreases p,
            {
                p = p - 1;
            }
            let ghost prev = sel@;
            assert(!prev.contains(x)) by {
                if prev.contains(x) {
                    assert(cur.contains(x));
                    let w = choose|w: int| 0 <= w < cur.len() && cur[w] == x;
                    assert(refs@[w] == refs@[i as int]);
                }
            }
            sel.insert(p, x);
            assert(sel@ == prev.insert(p as int, x));
            assert forall|a: int, b: int| 0 <= a < b < sel@.len() implies sel@[a] != sel@[b] by {
                if b < p {
                    assert(sel@[a] == prev[a] && sel@[b] == prev[b]);
                } else if b == p {
                    assert(sel@[a] == prev[a]);
                } else if a < p {
                    assert(sel@[a] == prev[a] && sel@[b] == prev[b - 1]);
                } else if a == p {
                    assert(sel@[b] == prev[b - 1]);
                } else {
                    assert(sel@[a] == prev[a - 1] && sel@[b] == prev[b - 1]);
                }
            }
            assert forall|a: int, b: int| 0 <= a < b < sel@.len() implies sel@[a].slot_id <= sel@[b].slot_id by {
                if a < p && b < p {
                    assert(sel@[a] == prev[a] && sel@[b] == prev[b]);
                } else if a < p && b == p {
                    assert(sel@[a] == prev[a]);
                    if p > 0 {
                        assert(prev[p - 1].slot_id <= x.slot_id);
                        assert(prev[a].slot_id <= prev[p - 1].slot_id);
                    }
                } else if a < p {
                    assert(sel@[a] == prev[a] && sel@[b] == prev[b - 1]);
                } else if a == p {
                    assert(sel@[b] == prev[b - 1]);
                } else {
                    assert(sel@[a] == prev[a - 1] && sel@[b] == prev[b - 1]);
                }
            }
            assert forall|y: BankSlotReference| #![trigger sel@.contains(y)] sel@.contains(y) <==> (cur.push(x).contains(y) && spec_listed(ignore_empty_slots, y)) by {
                if cur.push(x).contains(y) && spec_listed(ignore_empty_slots, y) {
                    assert(prev.contains(y) == (cur.contains(y) && spec_listed(ignore_empty_slots, y)));
                }
                if sel@.contains(y) {
                    let k = choose|k: int| 0 <= k < sel@.len() && sel@[k] == y;
                    if k < p {
                        assert(prev[k] == y);
                        assert(prev.contains(y));
                    } else if k > p {
                        assert(prev[k - 1] == y);
                        assert(prev.contains(y));
                    }
                    if prev.contains(y) {
                        assert(prev.contains(y) == (cur.contains(y) && spec_listed(ignore_empty_slots, y)));
                        assert(cur.contains(y));
                        let w = choose|w: int| 0 <= w < cur.len() && cur[w] == y;
                        assert(cur.push(x)[w] == y);
                    } else {
                        assert(cur.push(x)[i as int] == y);
                    }
                }
                if cur.push(x).contains(y) && spec_listed(ignore_empty_slots, y) {
                    let w = choose|w: int| 0 <= w < cur.push(x).len() && cur.push(x)[w] == y;
                    if w < i {
                        assert(cur[w] == y);
                        assert(cur.contains(y));
                        assert(prev.contains(y));
                        let k = choose|k: int| 0 <= k < prev.len() && prev[k] == y;
                        if k < p {
                            assert(sel@[k] == y);
                        } else {
                            assert(sel@[k + 1] == y);
                        }
                    } else {
                        assert(sel@[p as int] == y);
                    }
                }
            }
        } else {
            assert forall|y: BankSlotReference| #![trigger sel@.contains(y)] sel@.contains(y) <==> (cur.push(x).contains(y) && spec_listed(ignore_empty_slots, y)) by {
                if cur.push(x).contains(y) && spec_listed(ignore_empty_slots, y) {
                    let w = choose|w: int| 0 <= w < cur.push(x).len() && cur.push(x)[w] == y;
                    if w < i {
                        assert(cur[w] == y);
                    }
                }
                if sel@.contains(y) {
                    assert(sel@.contains(y) == (cur.contains(y) && spec_listed(ignore_empty_slots, y)));
                    assert(cur.contains(y));
                    let w = choose|w: int| 0 <= w < cur.len() && cur[w] == y;
                    assert(cur.push(x)[w] == y);
                }
            }
        }
        i = i + 1;
    }
    assert(refs@.subrange(0, i as int) =~= refs@);
    assert forall|y: BankSlotReference| sel@.contains(y) <==> (refs@.contains(y) && spec_listed(ignore_empty_slots, y)) by {
        assert(refs@.subrange(0, i as int) == refs@);
        assert(sel@.contains(y) == (refs@.subrange(0, i as int).contains(y) && spec_listed(ignore_empty_slots, y)));
    }

    let mut items: Vec<SlotUseListItem> = Vec::new();
    let mut k: usize = 0;
    while k < sel.len()
        invariant
            k <= sel@.len(),
            items@.len() == k,
            forall|a: int| 0 <= a < k ==> spec_list_item(project_slots@, sel@[a], #[trigger] items@[a]),
            forall|a: int| 0 <= a < k ==> !spec_item_fails(project_slots@, #[trigger] sel@[a]),
            forall|y: BankSlotReference| #![trigger sel@.contains(y)] sel@.contains(y) <==> (refs@.contains(y) && spec_listed(ignore_empty_slots, y)),
        decreases sel@.len() - k,
    {
        let x = sel[k];
        proof {
            assert(sel@[k as int] == x);
            assert(sel@.contains(x));
            assert(refs@.contains(x) && spec_listed(ignore_empty_slots, x));
        }
        if x.slot_id == 255 {
            assert(spec_item_fails(project_slots@, x));
            return Err(OctatoolErrors::Unknown);
        }
        let loaded = x.reference_type == BankSlotReferenceType::Active;
        let path = if loaded {
            match slot_numbered(project_slots, x.slot_id) {
                Some(p) => Some(p),
                None => {
                    assert(spec_item_fails(project_slots@, x));
                    return Err(OctatoolErrors::Unknown);
                },
            }
        } else {
            None
        };
        items.push(SlotUseListItem { sample_loaded: loaded, sample_type: x.sample_type, slot_id: x.slot_id + 1, path });
        k = k + 1;
    }
    proof {
        assert forall|y: BankSlotReference| refs@.contains(y) && spec_listed(ignore_empty_slots, y)
            implies !spec_item_fails(project_slots@, y) by {
            assert(sel@.contains(y));
            let a = choose|a: int| 0 <= a < sel@.len() && sel@[a] == y;
            assert(!spec_item_fails(project_slots@, sel@[a]));
        }
    }
    Ok((sel, items))
}

/// Whether `items` lists the references `sel`, which are those that satisfy
/// `refd` and are listed (see `spec_listed`), ascending by slot number, one
/// line each.
pub open spec fn spec_selection_lists(
    ps: Seq<ProjectSampleSlot>,
    refd: spec_fn(BankSlotReference) -> bool,
    ignore_empty_slots: bool,
    sel: Seq<BankSlotReference>,
    items: Seq<SlotUseListItem>,
) -> bool {
    &&& sel.len() == items.len()
    &&& sel.no_duplicates()
    &&& forall|y: BankSlotReference| sel.contains(y) <==> (refd(y) && spec_listed(ignore_empty_slots, y))
    &&& forall|a: int, b: int| 0 <= a < b < sel.len() ==> sel[a].slot_id <= sel[b].slot_id
    &&& forall|a: int| 0 <= a < sel.len() ==> spec_list_item(ps, sel[a], #[trigger] items[a])
}

/// Whether `items` is a listing of the references that satisfy `refd`: the
/// listed ones (see `spec_listed`), ascending by slot number, one line each.
pub open spec fn spec_listing(
    ps: Seq<ProjectSampleSlot>,
    refd: spec_fn(BankSlotReference) -> bool,
    ignore_empty_slots: bool,
    items: Seq<SlotUseListItem>,
) -> bool {
    exists|sel: Seq<BankSlotReference>| #[trigger] spec_selection_lists(ps, refd, ignore_empty_slots, sel, items)
}

fn list_part_slot_refs(
    project_slots: &[ProjectSampleSlot],
    part: Part,
    ignore_empty_slots: bool,
) -> (r: Result<Vec<SlotUseListItem>, OctatoolErrors>)
    requires
        forall|i: int| 0 <= i < project_slots@.len() ==> (#[trigger] project_slots@[i]).slot_id >= 1,
    ensures
        match r {
            Ok(items) => spec_listing(
                project_slots@,
                |y: BankSlotReference| spec_parts_ref(spec_zero_indexed(project_slots@), seq![part], y),
                ignore_empty_slots,
                items@,
            ),
            Err(e) => e == OctatoolErrors::Unknown,
        },
        r is Err <==> spec_listing_fails(
            project_slots@,
            |y: BankSlotReference| spec_parts_ref(spec_zero_indexed(project_slots@), seq![part], y),
            ignore_empty_slots,
        ),
{
    let zero = match get_zero_indexed_slots_from_one_indexed(project_slots) {
        Ok(v) => v,
        Err(e) => {
            return Err(e);
        },
    };
    let mut parts: Vec<Part> = Vec::new();
    parts.push(part);
    assert(parts@ =~= seq![part]);
    let refs = match find_sample_slot_refs_in_parts(zero.as_slice(), parts.as_slice()) {
        Ok(v) => v,
        Err(e) => {
            return Err(e);
        },
    };
    let res = list_refs(project_slots, &refs, ignore_empty_slots);
    proof {
        let refd = |y: BankSlotReference| spec_parts_ref(spec_zero_indexed(project_slots@), seq![part], y);
        assert forall|y: BankSlotReference| #[trigger] refs@.contains(y) <==> refd(y) by {
            assert(refs@.contains(y) <==> spec_parts_ref(zero@, parts@, y));
        }
        if res is Err {
            let y = choose|y: BankSlotReference| #[trigger] refs@.contains(y) && spec_listed(ignore_empty_slots, y)
                && spec_item_fails(project_slots@, y);
            assert(refd(y) && spec_listed(ignore_empty_slots, y) && spec_item_fails(project_slots@, y));
        }
        if spec_listing_fails(project_slots@, refd, ignore_empty_slots) {
            let y = choose|y: BankSlotReference| #[trigger] refd(y) && spec_listed(ignore_empty_slots, y)
                && spec_item_fails(project_slots@, y);
            assert(refs@.contains(y));
        }
    }
    let (sel, items) = match res {
        Ok(x) => x,
        Err(e) => {
            return Err(e);
        },
    };
    proof {
        let refd = |y: BankSlotReference| spec_parts_ref(spec_zero_indexed(project_slots@), seq![part], y);
        assert forall|y: BankSlotReference| sel@.contains(y) <==> (refd(y) && spec_listed(ignore_empty_slots, y)) by {
            assert(refs@.contains(y) <==> spec_parts_ref(zero@, parts@, y));
        }
        assert(spec_selection_lists(project_slots@, refd, ignore_empty_slots, sel@, items@));
    }
    Ok(items)
}

/// The listing of the sample slots that unsaved part `part_id` (1 to the
/// number of parts) of a bank refers to, for a project with slots
/// `project_slots` (numbered from 1).
/// Empty slots are left out when `ignore_empty_slots` is set. Fails with
/// `Unknown` when a listed reference is numbered 255, or is loaded but no
/// project slot has its number.
pub fn list_unsaved_part_sample_slot_references(
    project_slots: &[ProjectSampleSlot],
    bank: &Bank,
    part_id: usize,
    ignore_empty_slots: bool,
) -> (r: Result<Vec<SlotUseListItem>, OctatoolErrors>)
    requires
        1 <= part_id <= bank.parts_unsaved@.len(),
        forall|i: int| 0 <= i < project_slots@.len() ==> (#[trigger] project_slots@[i]).slot_id >= 1,
    ensures
        match r {
            Ok(items) => spec_listing(
                project_slots@,
                |y: BankSlotReference| spec_parts_ref(spec_zero_indexed(project_slots@), seq![bank.parts_unsaved@[part_id - 1]], y),
                ignore_empty_slots,
                items@,
            ),
            Err(e) => e == OctatoolErrors::Unknown,
        },
        r is Err <==> spec_listing_fails(
            project_slots@,
            |y: BankSlotReference| spec_parts_ref(spec_zero_indexed(project_slots@), seq![bank.parts_unsaved@[part_id - 1]], y),
            ignore_empty_slots,
        ),
{
    list_part_slot_refs(project_slots, bank.parts_unsaved[part_id - 1], ignore_empty_slots)
}

/// The listing of the sample slots that saved part `part_id` (1 to the
/// number of parts) of a bank refers to, for a project with slots
/// `project_slots` (numbered from 1).
/// Empty slots are left out when `ignore_empty_slots` is set. Fails with
/// `Unknown` when a listed reference is numbered 255, or is loaded but no
/// project slot has its number.
pub fn list_saved_part_sample_slot_references(
    project_slots: &[ProjectSampleSlot],
    bank: &Bank,
    part_id: usize,
    ignore_empty_slots: bool,
) -> (r: Result<Vec<SlotUseListItem>, OctatoolErrors>)
    requires
        1 <= part_id <= bank.parts_saved@.len(),
        forall|i: int| 0 <= i < project_slots@.len() ==> (#[trigger] project_slots@[i]).slot_id >= 1,
    ensures
        match r {
            Ok(items) => spec_listing(
                project_slots@,
                |y: BankSlotReference| spec_parts_ref(spec_zero_indexed(project_slots@), seq![bank.parts_saved@[part_id - 1]], y),
                ignore_empty_slots,
                items@,
            ),
            Err(e) => e == OctatoolErrors::Unknown,
        },
        r is Err <==> spec_listing_fails(
            project_slots@,
            |y: BankSlotReference| spec_parts_ref(spec_zero_indexed(project_slots@), seq![bank.parts_saved@[part_id - 1]], y),
            ignore_empty_slots,
        ),
{
    list_part_slot_refs(project_slots, bank.parts_saved[part_id - 1], ignore_empty_slots)
}

/// The listing of the sample slots that a bank (its patterns and unsaved
/// parts) refers to, for a project with slots `project_slots` (numbered
/// from 1).
/// Empty slots are left out when `ignore_empty_slots` is set. Fails with
/// `Unknown` when a listed reference is numbered 255, or is loaded but no
/// project slot has its number.
pub fn list_bank_sample_slot_references(
    project_slots: &[ProjectSampleSlot],
    bank: &Bank,
    ignore_empty_slots: bool,
) -> (r: Result<Vec<SlotUseListItem>, OctatoolErrors>)
    requires
        forall|i: int| 0 <= i < project_slots@.len() ==> (#[trigger] project_slots@[i]).slot_id >= 1,
    ensures
        match r {
            Ok(items) => spec_listing(
                project_slots@,
                |y: BankSlotReference| spec_patterns_ref(spec_zero_indexed(project_slots@), bank.patterns@, y)
                    || spec_parts_ref(spec_zero_indexed(project_slots@), bank.parts_unsaved@, y),
                ignore_empty_slots,
                items@,
            ),
            Err(e) => e == OctatoolErrors::Unknown,
        },
        r is Err <==> spec_listing_fails(
            project_slots@,
            |y: BankSlotReference| spec_patterns_ref(spec_zero_indexed(project_slots@), bank.patterns@, y)
                    || spec_parts_ref(spec_zero_indexed(project_slots@), bank.parts_unsaved@, y),
            ignore_empty_slots,
        ),
{
    let zero = match get_zero_indexed_slots_from_one_indexed(project_slots) {
        Ok(v) => v,
        Err(e) => {
            return Err(e);
        },
    };
    let refs = match find_sample_slot_refs_in_bank(zero.as_slice(), bank) {
        Ok(v) => v,
        Err(e) => {
            return Err(e);
        },
    };
    let res = list_refs(project_slots, &refs, ignore_empty_slots);
    proof {
        let refd = |y: BankSlotReference| spec_patterns_ref(spec_zero_indexed(project_slots@), bank.patterns@, y)
            || spec_parts_ref(spec_zero_indexed(project_slots@), bank.parts_unsaved@, y);
        assert forall|y: BankSlotReference| #[trigger] refs@.contains(y) <==> refd(y) by {
            assert(refs@.contains(y) <==> (spec_patterns_ref(zero@, bank.patterns@, y) || spec_parts_ref(zero@, bank.parts_unsaved@, y)));
        }
        if res is Err {
            let y = choose|y: BankSlotReference| #[trigger] refs@.contains(y) && spec_listed(ignore_empty_slots, y)
                && spec_item_fails(project_slots@, y);
            assert(refd(y) && spec_listed(ignore_empty_slots, y) && spec_item_fails(project_slots@, y));
        }
        if spec_listing_fails(project_slots@, refd, ignore_empty_slots) {
            let y = choose|y: BankSlotReference| #[trigger] refd(y) && spec_listed(ignore_empty_slots, y)
                && spec_item_fails(project_slots@, y);
            assert(refs@.contains(y));
        }
    }
    let (sel, items) = match res {
        Ok(x) => x,
        Err(e) => {
            return Err(e);
        },
    };
    proof {
        let refd = |y: BankSlotReference| spec_patterns_ref(spec_zero_indexed(project_slots@), bank.patterns@, y)
            || spec_parts_ref(spec_zero_indexed(project_slots@), bank.parts_unsaved@, y);
        assert forall|y: BankSlotReference| sel@.contains(y) <==> (refd(y) && spec_listed(ignore_empty_slots, y)) by {
            assert(refs@.contains(y) <==> (spec_patterns_ref(zero@, bank.patterns@, y) || spec_parts_ref(zero@, bank.parts_unsaved@, y)));
        }
        assert(spec_selection_lists(project_slots@, refd, ignore_empty_slots, sel@, items@));
    }
    Ok(items)
}

/// The listing of the sample slots that pattern `pattern_id` (1 to the
/// number of patterns) of a bank refers to by its parameter locks, for a
/// project with slots `project_slots` (numbered from 1).
/// Empty slots are left out when `ignore_empty_slots` is set. Fails with
/// `Unknown` when a listed reference is numbered 255, or is loaded but no
/// project slot has its number.
pub fn list_pattern_sample_slot_references(
    project_slots: &[ProjectSampleSlot],
    bank: &Bank,
    pattern_id: usize,
    ignore_empty_slots: bool,
) -> (r: Result<Vec<SlotUseListItem>, OctatoolErrors>)
    requires
        1 <= pattern_id <= bank.patterns@.len(),
        forall|i: int| 0 <= i < project_slots@.len() ==> (#[trigger] project_slots@[i]).slot_id >= 1,
    ensures
        match r {
            Ok(items) => spec_listing(
                project_slots@,
                |y: BankSlotReference| spec_patterns_ref(spec_zero_indexed(project_slots@), seq![bank.patterns@[pattern_id - 1]], y),
                ignore_empty_slots,
                items@,
            ),
            Err(e) => e == OctatoolErrors::Unknown,
        },
        r is Err <==> spec_listing_fails(
            project_slots@,
            |y: BankSlotReference| spec_patterns_ref(spec_zero_indexed(project_slots@), seq![bank.patterns@[pattern_id - 1]], y),
            ignore_empty_slots,
        ),
{
    let zero = match get_zero_indexed_slots_from_one_indexed(project_slots) {
        Ok(v) => v,
        Err(e) => {
            return Err(e);
        },
    };
    let mut patterns: Vec<Pattern> = Vec::new();
    patterns.push(bank.patterns[pattern_id - 1]);
    assert(patterns@ =~= seq![bank.patterns@[pattern_id - 1]]);
    let refs = match find_sample_slot_refs_in_patterns(zero.as_slice(), patterns.as_slice()) {
        Ok(v) => v,
        Err(e) => {
            return Err(e);
        },
    };
    let res = list_refs(project_slots, &refs, ignore_empty_slots);
    proof {
        let refd = |y: BankSlotReference| spec_patterns_ref(spec_zero_indexed(project_slots@), seq![bank.patterns@[pattern_id - 1]], y);
        assert forall|y: BankSlotReference| #[trigger] refs@.contains(y) <==> refd(y) by {
            assert(refs@.contains(y) <==> spec_patterns_ref(zero@, patterns@, y));
        }
        if res is Err {
            let y = choose|y: BankSlotReference| #[trigger] refs@.contains(y) && spec_listed(ignore_empty_slots, y)
                && spec_item_fails(project_slots@, y);
            assert(refd(y) && spec_listed(ignore_empty_slots, y) && spec_item_fails(project_slots@, y));
        }
        if spec_listing_fails(project_slots@, refd, ignore_empty_slots) {
            let y = choose|y: BankSlotReference| #[trigger] refd(y) && spec_listed(ignore_empty_slots, y)
                && spec_item_fails(project_slots@, y);
            assert(refs@.contains(y));
        }
    }
    let (sel, items) = match res {
        Ok(x) => x,
        Err(e) => {
            return Err(e);
        },
    };
    proof {
        let refd = |y: BankSlotReference| spec_patterns_ref(spec_zero_indexed(project_slots@), seq![bank.patterns@[pattern_id - 1]], y);
        assert forall|y: BankSlotReference| sel@.contains(y) <==> (refd(y) && spec_listed(ignore_empty_slots, y)) by {
            assert(refs@.contains(y) <==> spec_patterns_ref(zero@, patterns@, y));
        }
        assert(spec_selection_lists(project_slots@, refd, ignore_empty_slots, sel@, items@));
    }
    Ok(items)
}

} // verus!
