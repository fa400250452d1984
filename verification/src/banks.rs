//! The sample-slot data of bank files: patterns (parameter locks) and parts
//! (audio track machine sample slots).

use vstd::prelude::*;
use crate::errors::OctatoolErrors;
use crate::options::ProjectSampleSlotType;
use crate::patterns::{spec_pattern_slot_update, Pattern};

verus! {

/// Sample slots assigned to the machines of one audio track in a part.
#[derive(Debug, Clone, Copy, PartialEq, Eq, Structural)]
pub struct AudioTrackMachineSlot {
    pub static_slot_id: u8,
    pub flex_slot_id: u8,
}

/// A part of a bank, as far as its sample slot assignments go.
#[derive(Debug, Clone, Copy, PartialEq, Eq)]
pub struct Part {
    /// Machine sample slots of the eight audio tracks.
    pub audio_track_machine_slots: [AudioTrackMachineSlot; 8],
}

/// A machine slot assignment after replacing slot `old` by `new` for slots of
/// type `sample_type` (recorder buffers are never assigned here).
pub open spec fn spec_machine_slot_update(
    m: AudioTrackMachineSlot,
    sample_type: ProjectSampleSlotType,
    old: u8,
    new: u8,
) -> AudioTrackMachineSlot {
    match sample_type {
        ProjectSampleSlotType::Static => if m.static_slot_id == old {
            AudioTrackMachineSlot { static_slot_id: new, ..m }
        } else {
            m
        },
        ProjectSampleSlotType::Flex => if m.flex_slot_id == old {
            AudioTrackMachineSlot { flex_slot_id: new, ..m }
        } else {
            m
        },
        ProjectSampleSlotType::RecorderBuffer => m,
    }
}

/// Whether part `after` is part `before` with every machine slot updated.
pub open spec fn spec_part_slot_update(
    before: Part,
    after: Part,
    sample_type: ProjectSampleSlotType,
    old: u8,
    new: u8,
) -> bool {
    forall|t: int| 0 <= t < 8 ==> #[trigger] after.audio_track_machine_slots@[t]
        == spec_machine_slot_update(before.audio_track_machine_slots@[t], sample_type, old, new)
}

impl Part {
    /// Replaces sample slot `old_id` by `new_id` in the machine assignments of
    /// slots of type `sample_type` on every audio track.
    pub fn update_machine_sample_slot(
        &mut self,
        sample_type: &ProjectSampleSlotType,
        old_id: &u8,
        new_id: &u8,
    ) -> (r: Result<(), OctatoolErrors>)
        ensures
            r is Ok,
            spec_part_slot_update(*old(self), *final(self), *sample_type, *old_id, *new_id),
    {
        let ghost before = *self;
        let mut t: usize = 0;
        while t < 8
            invariant
                t <= 8,
                forall|u: int| t <= u < 8 ==> #[trigger] self.audio_track_machine_slots@[u]
                    == before.audio_track_machine_slots@[u],
                forall|u: int| 0 <= u < t ==> #[trigger] self.audio_track_machine_slots@[u]
                    == spec_machine_slot_update(before.audio_track_machine_slots@[u], *sample_type, *old_id, *new_id),
            decreases 8 - t,
        {
            let mut m = self.audio_track_machine_slots[t];
            match sample_type {
                ProjectSampleSlotType::Static => {
                    if m.static_slot_id == *old_id {
                        m.static_slot_id = *new_id;
                    }
                },
                ProjectSampleSlotType::Flex => {
                    if m.flex_slot_id == *old_id {
                        m.flex_slot_id = *new_id;
                    }
                },
                ProjectSampleSlotType::RecorderBuffer => {},
            }
            self.audio_track_machine_slots[t] = m;
            t = t + 1;
        }
        Ok(())
    }
}

/// The sample-slot data of a bank: its 16 patterns and its 4 parts in unsaved
/// and saved state.
#[derive(Debug, Clone, PartialEq, Eq)]
pub struct Bank {
    pub patterns: Vec<Pattern>,
    pub parts_unsaved: Vec<Part>,
    pub parts_saved: Vec<Part>,
}

/// Whether bank `after` is bank `before` with slot `old` of type
/// `sample_type` replaced by `new` in every pattern and every unsaved part;
/// saved parts stay as they were.
pub open spec fn spec_bank_slot_update(
    before: Bank,
    after: Bank,
    sample_type: ProjectSampleSlotType,
    old: u8,
    new: u8,
) -> bool {
    &&& after.patterns@.len() == before.patterns@.len()
    &&& after.parts_unsaved@.len() == before.parts_unsaved@.len()
    &&& after.parts_saved@ == before.parts_saved@
    &&& forall|i: int| 0 <= i < before.patterns@.len() ==> spec_pattern_slot_update(
        before.patterns@[i], #[trigger] after.patterns@[i], sample_type, old, new)
    &&& forall|i: int| 0 <= i < before.parts_unsaved@.len() ==> spec_part_slot_update(
        before.parts_unsaved@[i], #[trigger] after.parts_unsaved@[i], sample_type, old, new)
}

impl Bank {
    /// Replaces slot `old_id` of type `sample_type` by `new_id` in every
    /// pattern's parameter locks and every unsaved part's machine slots.
    pub fn update_sample_slot_references(
        &mut self,
        sample_type: &ProjectSampleSlotType,
        old_id: &u8,
        new_id: &u8,
    )
        ensures
            spec_bank_slot_update(*old(self), *final(self), *sample_type, *old_id, *new_id),
    {
        let ghost before = *self;
        let mut i: usize = 0;
        let n = self.patterns.len();
        while i < n
            invariant
                n == before.patterns@.len(),
                i <= n,
                self.patterns@.len() == n,
                self.parts_unsaved == before.parts_unsaved,
                self.parts_saved == before.parts_saved,
                forall|k: int| i <= k < n ==> #[trigger] self.patterns@[k] == before.patterns@[k],
                forall|k: int| 0 <= k < i ==> spec_pattern_slot_update(
                    before.patterns@[k], #[trigger] self.patterns@[k], *sample_type, *old_id, *new_id),
            decreases n - i,
        {
            let mut p = self.patterns[i];
            let _ = p.update_plock_sample_slots(sample_type, old_id, new_id);
            self.patterns.set(i, p);
            i = i + 1;
        }
        let m = self.parts_unsaved.len();
        let mut j: usize = 0;
        while j < m
            invariant
                m == before.parts_unsaved@.len(),
                j <= m,
                self.patterns@.len() == n,
                self.parts_unsaved@.len() == m,
                self.parts_saved == before.parts_saved,
                forall|k: int| 0 <= k < n ==> spec_pattern_slot_update(
                    before.patterns@[k], #[trigger] self.patterns@[k], *sample_type, *old_id, *new_id),
                forall|k: int| j <= k < m ==> #[trigger] self.parts_unsaved@[k] == before.parts_unsaved@[k],
                forall|k: int| 0 <= k < j ==> spec_part_slot_update(
                    before.parts_unsaved@[k], #[trigger] self.parts_unsaved@[k], *sample_type, *old_id, *new_id),
            decreases m - j,
        {
            let mut p = self.parts_unsaved[j];
            let _ = p.update_machine_sample_slot(sample_type, old_id, new_id);
            self.parts_unsaved.set(j, p);
            j = j + 1;
        }
    }
}

impl Bank {
    /// A copy of this bank.
    pub fn copy_bank(&self) -> (r: Bank)
        ensures
            r.patterns@ == self.patterns@,
            r.parts_unsaved@ == self.parts_unsaved@,
            r.parts_saved@ == self.parts_saved@,
    {
        let mut patterns: Vec<Pattern> = Vec::new();
        let mut i: usize = 0;
        while i < self.patterns.len()
            invariant
                i <= self.patterns@.len(),
                patterns@ == self.patterns@.subrange(0, i as int),
            decreases self.patterns@.len() - i,
        {
            patterns.push(self.patterns[i]);
            i = i + 1;
        }
        let mut parts_unsaved: Vec<Part> = Vec::new();
        let mut i: usize = 0;
        while i < self.parts_unsaved.len()
            invariant
                i <= self.parts_unsaved@.len(),
                parts_unsaved@ == self.parts_unsaved@.subrange(0, i as int),
            decreases self.parts_unsaved@.len() - i,
        {
            parts_unsaved.push(self.parts_unsaved[i]);
            i = i + 1;
        }
        let mut parts_saved: Vec<Part> = Vec::new();
        let mut i: usize = 0;
        while i < self.parts_saved.len()
            invariant
                i <= self.parts_saved@.len(),
                parts_saved@ == self.parts_saved@.subrange(0, i as int),
            decreases self.parts_saved@.len() - i,
        {
            parts_saved.push(self.parts_saved[i]);
            i = i + 1;
        }
        assert(patterns@ =~= self.patterns@);
        assert(parts_unsaved@ =~= self.parts_unsaved@);
        assert(parts_saved@ =~= self.parts_saved@);
        Bank { patterns, parts_unsaved, parts_saved }
    }
}


/// Replaces slot `old` of type `sample_type` by `new` in the sample-slot
/// parameter locks of every audio track of `pattern`.
pub fn pattern_update_sample_slot_refs(
    pattern: &mut Pattern,
    sample_type: &ProjectSampleSlotType,
    old_id: &u8,
    new_id: &u8,
) -> (r: Result<(), OctatoolErrors>)
    ensures
        r is Ok,
        spec_pattern_slot_update(*old(pattern), *final(pattern), *sample_type, *old_id, *new_id),
{
    pattern.update_plock_sample_slots(sample_type, old_id, new_id)
}

/// Replaces slot `old_id` of type `sample_type` by `new_id` in the machine slots
/// of every audio track of `part`.
pub fn part_update_sample_slot_refs(
    part: &mut Part,
    sample_type: &ProjectSampleSlotType,
    old_id: &u8,
    new_id: &u8,
) -> (r: Result<(), OctatoolErrors>)
    ensures
        r is Ok,
        spec_part_slot_update(*old(part), *final(part), *sample_type, *old_id, *new_id),
{
    part.update_machine_sample_slot(sample_type, old_id, new_id)
}

/// Whether every part number in `indexes` (at least one) is between 1
/// and 4.
pub fn part_index_is_valid(indexes: &[usize]) -> (r: bool)
    requires
        indexes@.len() > 0,
    ensures
        r == forall|i: int| 0 <= i < indexes@.len() ==> 1 <= #[trigger] indexes@[i] <= 4,
{
    let mut max_elem: usize = indexes[0];
    let mut min_elem: usize = indexes[0];
    let mut i: usize = 1;
    while i < indexes.len()
        invariant
            1 <= i <= indexes@.len(),
            exists|k: int| 0 <= k < i && indexes@[k] == max_elem,
            exists|k: int| 0 <= k < i && indexes@[k] == min_elem,
            forall|k: int| 0 <= k < i ==> min_elem <= #[trigger] indexes@[k] <= max_elem,
        decreases indexes@.len() - i,
    {
        if indexes[i] > max_elem {
            max_elem = indexes[i];
        }
        if indexes[i] < min_elem {
            min_elem = indexes[i];
        }
        i = i + 1;
    }
    max_elem <= 4 && min_elem >= 1
}

} // verus!
