//! Direct bank transfer between projects: every source sample slot that the
//! bank uses gets a new slot (with default settings) in the destination
//! project and the bank's references follow; the audio files are copied to
//! the destination set's audio pool.

use vstd::prelude::*;
use crate::banks::{spec_bank_slot_update, spec_machine_slot_update, spec_part_slot_update, AudioTrackMachineSlot, Bank, Part};
use crate::errors::OctatoolErrors;
use crate::options::ProjectSampleSlotType;
use crate::paths::{path_file_name, path_join, path_parent, spec_file_name, spec_path_join, spec_path_parent};
use crate::patterns::{AudioTrackParameterLocks, AudioTrackTrigs, Pattern};
use crate::slot_ops::{
    lemma_bank_reassigned_empty, lemma_bank_reassigned_step, slot_used, spec_bank_reassigned,
    spec_reassigned_id, SlotReferenceReassignment,
};
use crate::slots::{ProjectSampleSlot, SlotView};
use crate::options::{SampleAttributeLoopMode, SampleAttributeTimestrechMode, SampleAttributeTrigQuantizationMode};

verus! {

/// Whether a parameter lock locks slot `id` of type `t` (locks of 128 and
/// more, 255 being "no lock", are not references).
pub open spec fn plock_refers(l: AudioTrackParameterLocks, t: ProjectSampleSlotType, id: u8) -> bool {
    &&& id < 128
    &&& match t {
        ProjectSampleSlotType::Static => l.static_slot_id == id,
        ProjectSampleSlotType::Flex => l.flex_slot_id == id,
        ProjectSampleSlotType::RecorderBuffer => false,
    }
}

/// Whether a machine assignment uses slot `id` of type `t`.
pub open spec fn machine_refers(m: AudioTrackMachineSlot, t: ProjectSampleSlotType, id: u8) -> bool {
    match t {
        ProjectSampleSlotType::Static => m.static_slot_id == id,
        ProjectSampleSlotType::Flex => m.flex_slot_id == id,
        ProjectSampleSlotType::RecorderBuffer => false,
    }
}

/// Whether some trig of an audio track locks slot `id` of type `t`.
pub open spec fn trigs_refer(trigs: AudioTrackTrigs, t: ProjectSampleSlotType, id: u8) -> bool {
    exists|j: int| 0 <= j < 64 && plock_refers(#[trigger] trigs.plocks@[j], t, id)
}

/// Whether some audio track of a pattern locks slot `id` of type `t`.
pub open spec fn pattern_refers(p: Pattern, t: ProjectSampleSlotType, id: u8) -> bool {
    exists|k: int| 0 <= k < 8 && trigs_refer(#[trigger] p.audio_track_trigs@[k], t, id)
}

/// Whether some audio track machine of a part uses slot `id` of type `t`.
pub open spec fn part_refers(p: Part, t: ProjectSampleSlotType, id: u8) -> bool {
    exists|k: int| 0 <= k < 8 && machine_refers(#[trigger] p.audio_track_machine_slots@[k], t, id)
}

/// Whether some part of `parts` uses slot `id` of type `t`.
pub open spec fn parts_refer(parts: Seq<Part>, t: ProjectSampleSlotType, id: u8) -> bool {
    exists|i: int| 0 <= i < parts.len() && part_refers(#[trigger] parts[i], t, id)
}

/// Whether a bank uses slot `id` of type `t`: in a pattern's parameter locks,
/// or in an unsaved or saved part's machines.
pub open spec fn bank_refers(b: Bank, t: ProjectSampleSlotType, id: u8) -> bool {
    ||| exists|i: int| 0 <= i < b.patterns@.len() && pattern_refers(#[trigger] b.patterns@[i], t, id)
    ||| parts_refer(b.parts_unsaved@, t, id)
    ||| parts_refer(b.parts_saved@, t, id)
}

fn trigs_refer_exec(trigs: &AudioTrackTrigs, t: ProjectSampleSlotType, id: u8) -> (r: bool)
    ensures
        r == trigs_refer(*trigs, t, id),
{
    if id >= 128 {
        return false;
    }
    let mut j: usize = 0;
    while j < 64
        invariant
            j <= 64,
            id < 128,
            forall|q: int| 0 <= q < j ==> !plock_refers(#[trigger] trigs.plocks@[q], t, id),
        decreases 64 - j,
    {
        let l = trigs.plocks[j];
        let hit = match t {
            ProjectSampleSlotType::Static => l.static_slot_id == id,
            ProjectSampleSlotType::Flex => l.flex_slot_id == id,
            ProjectSampleSlotType::RecorderBuffer => false,
        };
        if hit {
            assert(plock_refers(trigs.plocks@[j as int], t, id));
            return true;
        }
        j = j + 1;
    }
    false
}

fn pattern_refers_exec(p: &Pattern, t: ProjectSampleSlotType, id: u8) -> (r: bool)
    ensures
        r == pattern_refers(*p, t, id),
{
    let mut k: usize = 0;
    while k < 8
        invariant
            k <= 8,
            forall|q: int| 0 <= q < k ==> !trigs_refer(#[trigger] p.audio_track_trigs@[q], t, id),
        decreases 8 - k,
    {
        if trigs_refer_exec(&p.audio_track_trigs[k], t, id) {
            assert(trigs_refer(p.audio_track_trigs@[k as int], t, id));
            return true;
        }
        k = k + 1;
    }
    false
}

fn part_refers_exec(p: &Part, t: ProjectSampleSlotType, id: u8) -> (r: bool)
    ensures
        r == part_refers(*p, t, id),
{
    let mut k: usize = 0;
    while k < 8
        invariant
            k <= 8,
            forall|q: int| 0 <= q < k ==> !machine_refers(#[trigger] p.audio_track_machine_slots@[q], t, id),
        decreases 8 - k,
    {
        let m = p.audio_track_machine_slots[k];
        let hit = match t {
            ProjectSampleSlotType::Static => m.static_slot_id == id,
            ProjectSampleSlotType::Flex => m.flex_slot_id == id,
            ProjectSampleSlotType::RecorderBuffer => false,
        };
        if hit {
            assert(machine_refers(p.audio_track_machine_slots@[k as int], t, id));
            return true;
        }
        k = k + 1;
    }
    false
}

fn parts_refer_exec(parts: &Vec<Part>, t: ProjectSampleSlotType, id: u8) -> (r: bool)
    ensures
        r == parts_refer(parts@, t, id),
{
    let mut i: usize = 0;
    while i < parts.len()
        invariant
            i <= parts@.len(),
            forall|q: int| 0 <= q < i ==> !part_refers(#[trigger] parts@[q], t, id),
        decreases parts@.len() - i,
    {
        if part_refers_exec(&parts[i], t, id) {
            assert(part_refers(parts@[i as int], t, id));
            return true;
        }
        i = i + 1;
    }
    false
}

/// Whether the bank uses slot `id` of type `t`.
pub fn bank_refers_to_slot(b: &Bank, t: ProjectSampleSlotType, id: u8) -> (r: bool)
    ensures
        r == bank_refers(*b, t, id),
{
    let mut i: usize = 0;
    while i < b.patterns.len()
        invariant
            i <= b.patterns@.len(),
            forall|q: int| 0 <= q < i ==> !pattern_refers(#[trigger] b.patterns@[q], t, id),
        decreases b.patterns@.len() - i,
    {
        if pattern_refers_exec(&b.patterns[i], t, id) {
            assert(pattern_refers(b.patterns@[i as int], t, id));
            return true;
        }
        i = i + 1;
    }
    parts_refer_exec(&b.parts_unsaved, t, id) || parts_refer_exec(&b.parts_saved, t, id)
}

/// The first slot of `ps` of type `t` numbered `id`.
pub open spec fn spec_first_slot(ps: Seq<ProjectSampleSlot>, t: ProjectSampleSlotType, id: u8) -> Option<ProjectSampleSlot>
    decreases ps.len(),
{
    if ps.len() == 0 {
        None
    } else {
        let f = spec_first_slot(ps.drop_last(), t, id);
        if f is Some {
            f
        } else if ps.last().sample_type == t && ps.last().slot_id == id {
            Some(ps.last())
        } else {
            None
        }
    }
}

proof fn lemma_first_slot_prefix(ps: Seq<ProjectSampleSlot>, t: ProjectSampleSlotType, id: u8, n: int)
    requires
        0 <= n <= ps.len(),
        forall|j: int| 0 <= j < n ==> !((#[trigger] ps[j]).sample_type == t && ps[j].slot_id == id),
    ensures
        spec_first_slot(ps.subrange(0, n), t, id) is None,
    decreases n,
{
    if n > 0 {
        assert(ps.subrange(0, n).drop_last() =~= ps.subrange(0, n - 1));
        lemma_first_slot_prefix(ps, t, id, n - 1);
    }
}

proof fn lemma_first_slot_extend(ps: Seq<ProjectSampleSlot>, t: ProjectSampleSlotType, id: u8, k: int, n: int)
    requires
        0 <= k < n <= ps.len(),
        spec_first_slot(ps.subrange(0, k + 1), t, id) == Some(ps[k]),
    ensures
        spec_first_slot(ps.subrange(0, n), t, id) == Some(ps[k]),
    decreases n,
{
    if n > k + 1 {
        assert(ps.subrange(0, n).drop_last() =~= ps.subrange(0, n - 1));
        lemma_first_slot_extend(ps, t, id, k, n - 1);
    }
}

/// The first slot of type `t` numbered `id`, as `spec_first_slot` says.
fn first_slot(ps: &[ProjectSampleSlot], t: ProjectSampleSlotType, id: u8) -> (r: Option<ProjectSampleSlot>)
    ensures
        r == spec_first_slot(ps@, t, id),
{
    let mut i: usize = 0;
    while i < ps.len()
        invariant
            i <= ps@.len(),
            forall|q: int| 0 <= q < i ==> !((#[trigger] ps@[q]).sample_type == t && ps@[q].slot_id == id),
        decreases ps@.len() - i,
    {
        if ps[i].sample_type == t && ps[i].slot_id == id {
            proof {
                lemma_first_slot_prefix(ps@, t, id, i as int);
                assert(ps@.subrange(0, i + 1).drop_last() =~= ps@.subrange(0, i as int));
                lemma_first_slot_extend(ps@, t, id, i as int, ps@.len() as int);
                assert(ps@.subrange(0, ps@.len() as int) =~= ps@);
            }
            return Some(ps[i].copy_slot());
        }
        i = i + 1;
    }
    proof {
        lemma_first_slot_prefix(ps@, t, id, ps@.len() as int);
        assert(ps@.subrange(0, ps@.len() as int) =~= ps@);
    }
    None
}

/// The slots of type `t` among the first `n` numbers that the bank uses and
/// the project has, in ascending number order (the first slot of each number).
pub open spec fn spec_active_slots(ps: Seq<ProjectSampleSlot>, b: Bank, t: ProjectSampleSlotType, n: nat) -> Seq<ProjectSampleSlot>
    decreases n,
{
    if n == 0 {
        Seq::empty()
    } else {
        let prev = spec_active_slots(ps, b, t, (n - 1) as nat);
        let id = (n - 1) as u8;
        if bank_refers(b, t, id) {
            match spec_first_slot(ps, t, id) {
                Some(s) => prev.push(s),
                None => prev,
            }
        } else {
            prev
        }
    }
}

/// The project's slots of type `slot_type` that the bank uses (in pattern
/// parameter locks below 128 or in unsaved or saved part machines), each
/// listed once, in ascending slot number order.
pub fn find_active_sample_slots(
    project_slots: &[ProjectSampleSlot],
    bank: &Bank,
    slot_type: &ProjectSampleSlotType,
) -> (r: Result<Vec<ProjectSampleSlot>, OctatoolErrors>)
    ensures
        r matches Ok(v) && v@ == spec_active_slots(project_slots@, *bank, *slot_type, 256),
{
    let mut out: Vec<ProjectSampleSlot> = Vec::new();
    let mut n: u16 = 0;
    while n < 256
        invariant
            n <= 256,
            out@ == spec_active_slots(project_slots@, *bank, *slot_type, n as nat),
        decreases 256 - n,
    {
        let id: u8 = n as u8;
        if bank_refers_to_slot(bank, *slot_type, id) {
            match first_slot(project_slots, *slot_type, id) {
                Some(s) => {
                    out.push(s);
                },
                None => {},
            }
        }
        n = n + 1;
    }
    Ok(out)
}

/// The numbers 1 to `n` that no slot of type `t` in `ds` uses, ascending.
pub open spec fn spec_free_ids(ds: Seq<ProjectSampleSlot>, t: ProjectSampleSlotType, n: nat) -> Seq<u8>
    decreases n,
{
    if n == 0 {
        Seq::empty()
    } else {
        let prev = spec_free_ids(ds, t, (n - 1) as nat);
        if slot_used(ds, t, n as u8) {
            prev
        } else {
            prev.push(n as u8)
        }
    }
}

proof fn lemma_free_ids_len(ds: Seq<ProjectSampleSlot>, t: ProjectSampleSlotType, n: nat)
    ensures
        spec_free_ids(ds, t, n).len() <= n,
    decreases n,
{
    if n > 0 {
        lemma_free_ids_len(ds, t, (n - 1) as nat);
    }
}

/// The slot numbers 1 to 128 of type `t` that no slot in `ds` uses, in
/// ascending order.
fn free_slot_numbers(ds: &[ProjectSampleSlot], t: ProjectSampleSlotType) -> (r: Vec<u8>)
    ensures
        r@ == spec_free_ids(ds@, t, 128),
{
    let mut out: Vec<u8> = Vec::new();
    let mut n: u8 = 1;
    while n <= 128
        invariant
            1 <= n <= 129,
            out@ == spec_free_ids(ds@, t, (n - 1) as nat),
        decreases 129 - n,
    {
        if !crate::slot_ops::slot_id_in_use(ds, t, n) {
            out.push(n);
        }
        n = n + 1;
    }
    out
}

/// Whether the parts `after` are the parts `before` with every machine's
/// static and flex slot moved by the reassignments `rs` in order.
pub open spec fn spec_parts_reassigned(before: Seq<Part>, after: Seq<Part>, rs: Seq<SlotReferenceReassignment>) -> bool {
    &&& after.len() == before.len()
    &&& forall|i: int, t: int| 0 <= i < before.len() && 0 <= t < 8 ==>
        #[trigger] after[i].audio_track_machine_slots@[t] == AudioTrackMachineSlot {
            static_slot_id: spec_reassigned_id(
                before[i].audio_track_machine_slots@[t].static_slot_id, ProjectSampleSlotType::Static, rs),
            flex_slot_id: spec_reassigned_id(
                before[i].audio_track_machine_slots@[t].flex_slot_id, ProjectSampleSlotType::Flex, rs),
        }
}

proof fn lemma_parts_reassigned_step(
    p0: Seq<Part>,
    p1: Seq<Part>,
    p2: Seq<Part>,
    rs: Seq<SlotReferenceReassignment>,
    r: SlotReferenceReassignment,
)
    requires
        spec_parts_reassigned(p0, p1, rs),
        p2.len() == p1.len(),
        forall|i: int| 0 <= i < p1.len() ==> spec_part_slot_update(p1[i], #[trigger] p2[i], r.slot_type, r.initial_slot_id, r.new_slot_id),
    ensures
        spec_parts_reassigned(p0, p2, rs.push(r)),
{
    let rs2 = rs.push(r);
    assert(rs2.drop_last() =~= rs);
    assert forall|i: int, t: int| 0 <= i < p0.len() && 0 <= t < 8 implies
        #[trigger] p2[i].audio_track_machine_slots@[t] == AudioTrackMachineSlot {
            static_slot_id: spec_reassigned_id(
                p0[i].audio_track_machine_slots@[t].static_slot_id, ProjectSampleSlotType::Static, rs2),
            flex_slot_id: spec_reassigned_id(
                p0[i].audio_track_machine_slots@[t].flex_slot_id, ProjectSampleSlotType::Flex, rs2),
        } by {
        assert(spec_part_slot_update(p1[i], p2[i], r.slot_type, r.initial_slot_id, r.new_slot_id));
        assert(p2[i].audio_track_machine_slots@[t] == spec_machine_slot_update(
            p1[i].audio_track_machine_slots@[t], r.slot_type, r.initial_slot_id, r.new_slot_id));
    }
}

/// Replaces slot `old_id` of type `t` by `new_id` in every part's machines.
fn update_parts(parts: &mut Vec<Part>, t: &ProjectSampleSlotType, old_id: &u8, new_id: &u8)
    ensures
        final(parts)@.len() == old(parts)@.len(),
        forall|i: int| 0 <= i < old(parts)@.len() ==> spec_part_slot_update(
            old(parts)@[i], #[trigger] final(parts)@[i], *t, *old_id, *new_id),
{
    let ghost before = parts@;
    let mut i: usize = 0;
    while i < parts.len()
        invariant
            i <= parts@.len(),
            parts@.len() == before.len(),
            forall|k: int| i <= k < before.len() ==> #[trigger] parts@[k] == before[k],
            forall|k: int| 0 <= k < i ==> spec_part_slot_update(before[k], #[trigger] parts@[k], *t, *old_id, *new_id),
        decreases before.len() - i,
    {
        let mut p = parts[i];
        let _ = p.update_machine_sample_slot(t, old_id, new_id);
        parts.set(i, p);
        i = i + 1;
    }
}

/// Whether bank `after` is bank `before` with every static and flex slot
/// reference (pattern parameter locks, unsaved and saved part machines)
/// moved by the reassignments `rs` in order.
pub open spec fn spec_bank_transferred(before: Bank, after: Bank, rs: Seq<SlotReferenceReassignment>) -> bool {
    &&& spec_bank_reassigned(
        before,
        Bank { patterns: after.patterns, parts_unsaved: after.parts_unsaved, parts_saved: before.parts_saved },
        rs,
    )
    &&& spec_parts_reassigned(before.parts_saved@, after.parts_saved@, rs)
}

/// An audio file to copy from one project to another.
#[derive(Debug, Clone, PartialEq, Eq)]
pub struct FileTransfer {
    pub from: String,
    pub to: String,
}

/// The directory of the source project: the parent of its project file.
pub open spec fn spec_source_dir(source_project_filepath: Seq<char>) -> Option<Seq<char>> {
    spec_path_parent(source_project_filepath)
}

/// The audio pool of the destination set: `AUDIO` in the parent of the
/// destination project's directory.
pub open spec fn spec_dest_pool(destination_project_filepath: Seq<char>) -> Option<Seq<char>> {
    match spec_path_parent(destination_project_filepath) {
        Some(d) => match spec_path_parent(d) {
            Some(set) => Some(spec_path_join(set, "AUDIO"@)),
            None => None,
        },
        None => None,
    }
}

/// The slots a transfer gives new numbers: the used static slots, then the
/// used flex slots.
pub open spec fn spec_transfer_slots(src: Seq<ProjectSampleSlot>, b: Bank) -> Seq<ProjectSampleSlot> {
    spec_active_slots(src, b, ProjectSampleSlotType::Static, 256) + spec_active_slots(src, b, ProjectSampleSlotType::Flex, 256)
}

/// The destination number of the `i`-th transferred slot: the static ones
/// take the free static numbers in ascending order, the flex ones the free
/// flex numbers.
pub open spec fn spec_transfer_id(src: Seq<ProjectSampleSlot>, b: Bank, dest: Seq<ProjectSampleSlot>, i: int) -> u8 {
    let ns = spec_active_slots(src, b, ProjectSampleSlotType::Static, 256).len();
    if i < ns {
        spec_free_ids(dest, ProjectSampleSlotType::Static, 128)[i]
    } else {
        spec_free_ids(dest, ProjectSampleSlotType::Flex, 128)[i - ns]
    }
}

/// The reassignments of a transfer, in order.
pub open spec fn spec_transfer_reassignments(
    src: Seq<ProjectSampleSlot>,
    b: Bank,
    dest: Seq<ProjectSampleSlot>,
) -> Seq<SlotReferenceReassignment> {
    let act = spec_transfer_slots(src, b);
    Seq::new(act.len(), |i: int| SlotReferenceReassignment {
        initial_slot_id: act[i].slot_id,
        new_slot_id: spec_transfer_id(src, b, dest, i),
        slot_type: act[i].sample_type,
    })
}

/// Whether the transfer has free destination numbers enough for the used
/// static and flex slots.
pub open spec fn spec_transfer_fits(src: Seq<ProjectSampleSlot>, b: Bank, dest: Seq<ProjectSampleSlot>) -> bool {
    &&& spec_active_slots(src, b, ProjectSampleSlotType::Static, 256).len() <= spec_free_ids(dest, ProjectSampleSlotType::Static, 128).len()
    &&& spec_active_slots(src, b, ProjectSampleSlotType::Flex, 256).len() <= spec_free_ids(dest, ProjectSampleSlotType::Flex, 128).len()
}

/// Plans the transfer of a bank from one project to another. Each source
/// slot the bank uses (static first, then flex, each in ascending number
/// order) gets the next free destination number of its type (ascending from
/// 1), a path in the destination set's audio pool with the source file's
/// name, and default settings; the bank's references (patterns, unsaved and
/// saved parts) are moved slot by slot in that order. Gives the bank, the
/// destination project's slots (existing ones first) and the audio files to
/// copy. Errors: a project path without the needed parent directories, not
/// enough free destination slots, a slot path without a file name.
pub fn copy_bank(
    source_bank: &Bank,
    source_project_filepath: &str,
    source_slots: &[ProjectSampleSlot],
    destination_project_filepath: &str,
    destination_slots: &[ProjectSampleSlot],
) -> (r: Result<(Bank, Vec<ProjectSampleSlot>, Vec<FileTransfer>), OctatoolErrors>)
    ensures
        match r {
            Ok((bank, slots, transfers)) => {
                let act = spec_transfer_slots(source_slots@, *source_bank);
                let n = destination_slots@.len();
                &&& spec_source_dir(source_project_filepath@) is Some
                &&& spec_dest_pool(destination_project_filepath@) is Some
                &&& spec_transfer_fits(source_slots@, *source_bank, destination_slots@)
                &&& spec_bank_transferred(*source_bank, bank, spec_transfer_reassignments(source_slots@, *source_bank, destination_slots@))
                &&& slots@.len() == n + act.len()
                &&& forall|i: int| 0 <= i < n ==> (#[trigger] slots@[i])@ == destination_slots@[i]@
                &&& transfers@.len() == act.len()
                &&& forall|i: int| 0 <= i < act.len() ==> {
                    let name = spec_file_name(act[i].path@)->Some_0;
                    let to = spec_path_join(spec_dest_pool(destination_project_filepath@)->Some_0, name);
                    &&& spec_file_name(act[i].path@) is Some
                    &&& (#[trigger] slots@[n + i])@ == (SlotView {
                        sample_type: act[i].sample_type,
                        slot_id: spec_transfer_id(source_slots@, *source_bank, destination_slots@, i),
                        path: to,
                        trim_bars_x100: 0,
                        timestrech_mode: SampleAttributeTimestrechMode::Off,
                        loop_mode: SampleAttributeLoopMode::Off,
                        trig_quantization_mode: SampleAttributeTrigQuantizationMode::Direct,
                        gain: 24,
                        bpm: 120,
                    })
                    &&& transfers@[i].from@ == spec_path_join(spec_source_dir(source_project_filepath@)->Some_0, act[i].path@)
                    &&& transfers@[i].to@ == to
                }
            },
            Err(e) => {
                ||| spec_source_dir(source_project_filepath@) is None
                ||| spec_dest_pool(destination_project_filepath@) is None
                ||| (e == OctatoolErrors::CliNoFreeSampleSlots && !spec_transfer_fits(source_slots@, *source_bank, destination_slots@))
                ||| (e == OctatoolErrors::InvalidFilenameOrExtension && exists|i: int|
                    0 <= i < spec_transfer_slots(source_slots@, *source_bank).len()
                    && spec_file_name((#[trigger] spec_transfer_slots(source_slots@, *source_bank)[i]).path@) is None)
            },
        },
{
    let src_dir = match path_parent(source_project_filepath) {
        Some(d) => d,
        None => {
            return Err(OctatoolErrors::PathDoesNotExist);
        },
    };
    let dest_project_dir = match path_parent(destination_project_filepath) {
        Some(d) => d,
        None => {
            return Err(OctatoolErrors::PathDoesNotExist);
        },
    };
    let dest_set_dir = match path_parent(dest_project_dir.as_str()) {
        Some(d) => d,
        None => {
            return Err(OctatoolErrors::PathDoesNotExist);
        },
    };
    let pool = path_join(dest_set_dir.as_str(), "AUDIO");

    let free_static = free_slot_numbers(destination_slots, ProjectSampleSlotType::Static);
    let free_flex = free_slot_numbers(destination_slots, ProjectSampleSlotType::Flex);
    let active_static = match find_active_sample_slots(source_slots, source_bank, &ProjectSampleSlotType::Static) {
        Ok(v) => v,
        Err(e) => {
            return Err(e);
        },
    };
    let active_flex = match find_active_sample_slots(source_slots, source_bank, &ProjectSampleSlotType::Flex) {
        Ok(v) => v,
        Err(e) => {
            return Err(e);
        },
    };
    if active_static.len() > free_static.len() || active_flex.len() > free_flex.len() {
        return Err(OctatoolErrors::CliNoFreeSampleSlots);
    }

    let ghost act = spec_transfer_slots(source_slots@, *source_bank);
    let ghost all_rs = spec_transfer_reassignments(source_slots@, *source_bank, destination_slots@);
    proof {
        lemma_free_ids_len(destination_slots@, ProjectSampleSlotType::Static, 128);
        lemma_free_ids_len(destination_slots@, ProjectSampleSlotType::Flex, 128);
    }
    let ns = active_static.len();
    let total = active_static.len() + active_flex.len();
    let mut bank = source_bank.copy_bank();
    let mut saved = source_bank.copy_bank().parts_saved;
    let mut new_slots: Vec<ProjectSampleSlot> = Vec::new();
    let mut transfers: Vec<FileTransfer> = Vec::new();
    proof {
        lemma_bank_reassigned_empty(*source_bank);
        assert(spec_parts_reassigned(source_bank.parts_saved@, saved@, Seq::empty()));
    }
    let mut i: usize = 0;
    while i < total
        invariant
            i <= total,
            ns == active_static@.len(),
            total == act.len(),
            act == active_static@ + active_flex@,
            active_static@ == spec_active_slots(source_slots@, *source_bank, ProjectSampleSlotType::Static, 256),
            active_flex@ == spec_active_slots(source_slots@, *source_bank, ProjectSampleSlotType::Flex, 256),
            free_static@ == spec_free_ids(destination_slots@, ProjectSampleSlotType::Static, 128),
            free_flex@ == spec_free_ids(destination_slots@, ProjectSampleSlotType::Flex, 128),
            active_static@.len() <= free_static@.len(),
            active_flex@.len() <= free_flex@.len(),
            all_rs == spec_transfer_reassignments(source_slots@, *source_bank, destination_slots@),
            spec_bank_reassigned(*source_bank, bank, all_rs.subrange(0, i as int)),
            spec_parts_reassigned(source_bank.parts_saved@, saved@, all_rs.subrange(0, i as int)),
            src_dir@ == spec_source_dir(source_project_filepath@)->Some_0,
            spec_source_dir(source_project_filepath@) is Some,
            spec_dest_pool(destination_project_filepath@) == Some(pool@),
            new_slots@.len() == i,
            transfers@.len() == i,
            forall|k: int| 0 <= k < i ==> {
                let name = spec_file_name(act[k].path@)->Some_0;
                let to = spec_path_join(pool@, name);
                &&& spec_file_name(act[k].path@) is Some
                &&& (#[trigger] new_slots@[k])@ == (SlotView {
                    sample_type: act[k].sample_type,
                    slot_id: spec_transfer_id(source_slots@, *source_bank, destination_slots@, k),
                    path: to,
                    trim_bars_x100: 0,
                    timestrech_mode: SampleAttributeTimestrechMode::Off,
                    loop_mode: SampleAttributeLoopMode::Off,
                    trig_quantization_mode: SampleAttributeTrigQuantizationMode::Direct,
                    gain: 24,
                    bpm: 120,
                })
                &&& transfers@[k].from@ == spec_path_join(src_dir@, act[k].path@)
                &&& transfers@[k].to@ == to
            },
        decreases total - i,
    {
        let slot = if i < ns {
            active_static[i].copy_slot()
        } else {
            active_flex[i - ns].copy_slot()
        };
        assert(slot == act[i as int]);
        let dest_id: u8 = if i < ns {
            free_static[i]
        } else {
            free_flex[i - ns]
        };
        assert(all_rs[i as int] == SlotReferenceReassignment {
            initial_slot_id: slot.slot_id,
            new_slot_id: dest_id,
            slot_type: slot.sample_type,
        });
        let ghost bank_before = bank;
        let ghost saved_before = saved@;
        bank.update_sample_slot_references(&slot.sample_type, &slot.slot_id, &dest_id);
        update_parts(&mut saved, &slot.sample_type, &slot.slot_id, &dest_id);
        proof {
            assert(all_rs.subrange(0, i + 1) =~= all_rs.subrange(0, i as int).push(all_rs[i as int]));
            lemma_bank_reassigned_step(*source_bank, bank_before, bank, all_rs.subrange(0, i as int), all_rs[i as int]);
            lemma_parts_reassigned_step(source_bank.parts_saved@, saved_before, saved@, all_rs.subrange(0, i as int), all_rs[i as int]);
        }
        let from = path_join(src_dir.as_str(), slot.path.as_str());
        let name = match path_file_name(slot.path.as_str()) {
            Some(n) => n,
            None => {
                return Err(OctatoolErrors::InvalidFilenameOrExtension);
            },
        };
        let to = path_join(pool.as_str(), name.as_str());
        let to_path = path_join(pool.as_str(), name.as_str());
        let new_slot = match ProjectSampleSlot::new(slot.sample_type, dest_id, to_path, None, None, None, None, None, None) {
            Ok(s) => s,
            Err(e) => {
                return Err(e);
            },
        };
        new_slots.push(new_slot);
        transfers.push(FileTransfer { from, to });
        i = i + 1;
    }

    let mut slots: Vec<ProjectSampleSlot> = Vec::new();
    let mut k: usize = 0;
    while k < destination_slots.len()
        invariant
            k <= destination_slots@.len(),
            slots@.len() == k,
            forall|q: int| 0 <= q < k ==> (#[trigger] slots@[q])@ == destination_slots@[q]@,
        decreases destination_slots@.len() - k,
    {
        slots.push(destination_slots[k].copy_slot());
        k = k + 1;
    }
    let n = slots.len();
    let mut k: usize = 0;
    while k < new_slots.len()
        invariant
            k <= new_slots@.len(),
            n == destination_slots@.len(),
            slots@.len() == n + k,
            forall|q: int| 0 <= q < n ==> (#[trigger] slots@[q])@ == destination_slots@[q]@,
            forall|q: int| 0 <= q < k ==> (#[trigger] slots@[n + q])@ == new_slots@[q]@,
        decreases new_slots@.len() - k,
    {
        slots.push(new_slots[k].copy_slot());
        k = k + 1;
    }
    let result = Bank { patterns: bank.patterns, parts_unsaved: bank.parts_unsaved, parts_saved: saved };
    proof {
        assert(all_rs.subrange(0, total as int) =~= all_rs);
    }
    Ok((result, slots, transfers))
}

} // verus!
