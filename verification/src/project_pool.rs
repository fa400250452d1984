//! Gathering a project's sample files into one directory (the project's own
//! directory or the set's audio pool), and finding the sample files of a
//! project directory that no slot uses.

use vstd::prelude::*;
use crate::errors::OctatoolErrors;
use crate::paths::{
    path_file_name, path_join, path_parent, path_with_extension, spec_file_name, spec_path_join, spec_path_parent,
    spec_with_extension,
};
use crate::slots::SlotView;
use crate::strings::str_eq;
use crate::slots::ProjectSampleSlot;

verus! {

/// `s` with `x` inserted after every element numbered at most `x`'s number
/// at its end (one step of a stable ascending sort by slot number).
pub open spec fn spec_insert_by_id(s: Seq<ProjectSampleSlot>, x: ProjectSampleSlot) -> Seq<ProjectSampleSlot>
    decreases s.len(),
{
    if s.len() == 0 {
        seq![x]
    } else if s.last().slot_id <= x.slot_id {
        s.push(x)
    } else {
        spec_insert_by_id(s.drop_last(), x).push(s.last())
    }
}

/// The slots sorted by slot number; slots with equal numbers keep their
/// order.
pub open spec fn spec_sorted_by_id(s: Seq<ProjectSampleSlot>) -> Seq<ProjectSampleSlot>
    decreases s.len(),
{
    if s.len() == 0 {
        Seq::empty()
    } else {
        spec_insert_by_id(spec_sorted_by_id(s.drop_last()), s.last())
    }
}

proof fn lemma_insert_by_id_at(s: Seq<ProjectSampleSlot>, x: ProjectSampleSlot, p: int)
    requires
        0 <= p <= s.len(),
        forall|k: int| p <= k < s.len() ==> (#[trigger] s[k]).slot_id > x.slot_id,
        p > 0 ==> s[p - 1].slot_id <= x.slot_id,
    ensures
        spec_insert_by_id(s, x) == s.insert(p, x),
    decreases s.len(),
{
    if s.len() == 0 {
        assert(s.insert(p, x) =~= seq![x]);
    } else if p == s.len() {
        assert(s.insert(p, x) =~= s.push(x));
    } else {
        let d = s.drop_last();
        assert forall|k: int| p <= k < d.len() implies (#[trigger] d[k]).slot_id > x.slot_id by {
            assert(d[k] == s[k]);
        }
        if p > 0 {
            assert(d[p - 1] == s[p - 1]);
        }
        lemma_insert_by_id_at(d, x, p);
        assert(d.insert(p, x).push(s.last()) =~= s.insert(p, x));
    }
}

proof fn lemma_insert_by_id_props(s: Seq<ProjectSampleSlot>, x: ProjectSampleSlot)
    requires
        forall|a: int, b: int| 0 <= a < b < s.len() ==> s[a].slot_id <= s[b].slot_id,
    ensures
        forall|a: int, b: int| 0 <= a < b < spec_insert_by_id(s, x).len()
            ==> spec_insert_by_id(s, x)[a].slot_id <= spec_insert_by_id(s, x)[b].slot_id,
        spec_insert_by_id(s, x).to_multiset() == s.to_multiset().insert(x),
    decreases s.len(),
{
    broadcast use vstd::seq_lib::group_to_multiset_ensures;
    let r = spec_insert_by_id(s, x);
    if s.len() == 0 {
        assert(r =~= Seq::<ProjectSampleSlot>::empty().push(x));
    } else if s.last().slot_id <= x.slot_id {
    } else {
        let d = s.drop_last();
        let l = s.last();
        assert forall|a: int, b: int| 0 <= a < b < d.len() implies d[a].slot_id <= d[b].slot_id by {
            assert(d[a] == s[a] && d[b] == s[b]);
        }
        lemma_insert_by_id_props(d, x);
        let q = spec_insert_by_id(d, x);
        assert(r == q.push(l));
        assert(s =~= d.push(l));
        assert forall|a: int| 0 <= a < q.len() implies (#[trigger] q[a]).slot_id <= l.slot_id by {
            assert(q.to_multiset().count(q[a]) > 0);
            assert(d.to_multiset().insert(x).count(q[a]) > 0);
            if q[a] != x {
                assert(d.to_multiset().count(q[a]) > 0);
                assert(d.contains(q[a]));
                let k = choose|k: int| 0 <= k < d.len() && d[k] == q[a];
                assert(s[k] == q[a]);
                assert(s[s.len() - 1] == l);
            }
        }
        assert forall|a: int, b: int| 0 <= a < b < r.len() implies r[a].slot_id <= r[b].slot_id by {
            assert(r[a] == q[a]);
            if b < q.len() {
                assert(r[b] == q[b]);
            } else {
                assert(r[b] == l);
            }
        }
    }
}

/// Sorting by slot number puts the slots in ascending order of number and
/// keeps every slot (as many times as it occurs).
pub proof fn lemma_sorted_by_id(s: Seq<ProjectSampleSlot>)
    ensures
        forall|a: int, b: int| 0 <= a < b < spec_sorted_by_id(s).len()
            ==> spec_sorted_by_id(s)[a].slot_id <= spec_sorted_by_id(s)[b].slot_id,
        spec_sorted_by_id(s).to_multiset() == s.to_multiset(),
    decreases s.len(),
{
    broadcast use vstd::seq_lib::group_to_multiset_ensures;
    if s.len() > 0 {
        lemma_sorted_by_id(s.drop_last());
        lemma_insert_by_id_props(spec_sorted_by_id(s.drop_last()), s.last());
        assert(s =~= s.drop_last().push(s.last()));
    }
}

/// The slots sorted by slot number (slots with equal numbers keep their
/// order).
pub fn sort_slots_by_id(slots: &[ProjectSampleSlot]) -> (r: Vec<ProjectSampleSlot>)
    ensures
        r@ == spec_sorted_by_id(slots@),
{
    let mut out: Vec<ProjectSampleSlot> = Vec::new();
    let mut i: usize = 0;
    while i < slots.len()
        invariant
            i <= slots@.len(),
            out@ == spec_sorted_by_id(slots@.subrange(0, i as int)),
        decreases slots@.len() - i,
    {
        assert(slots@.subrange(0, i + 1).drop_last() =~= slots@.subrange(0, i as int));
        let x = slots[i].copy_slot();
        let mut p = out.len();
        while p > 0 && out[p - 1].slot_id > x.slot_id
            invariant
                p <= out@.len(),
                forall|k: int| p <= k < out@.len() ==> (#[trigger] out@[k]).slot_id > x.slot_id,
            decreases p,
        {
            p = p - 1;
        }
        proof {
            lemma_insert_by_id_at(out@, x, p as int);
        }
        out.insert(p, x);
        i = i + 1;
    }
    assert(slots@.subrange(0, i as int) =~= slots@);
    out
}


/// A sample's audio file and its attributes (`.ot`) file, copied to a new
/// place (the attributes file only where it exists).
#[derive(Debug, Clone, PartialEq, Eq)]
pub struct SampleFileMove {
    pub audio_from: String,
    pub audio_to: String,
    pub ot_from: String,
    pub ot_to: String,
}

/// A slot after its sample files are gathered: the slot with its new path,
/// and the files to copy (none for a slot without a path, such as a
/// recorder buffer).
#[derive(Debug, Clone, PartialEq, Eq)]
pub struct SlotRelocation {
    pub slot: ProjectSampleSlot,
    pub files: Option<SampleFileMove>,
}

/// Whether `r` gathers slot `s` of the project in `project_dir` into
/// `target_dir`: a slot without a path stays as it is; another takes the path
/// of its file name in `target_dir`, its audio file (its path taken from
/// `project_dir`) is copied there, and so is its attributes file.
pub open spec fn spec_relocation(project_dir: Seq<char>, target_dir: Seq<char>, s: ProjectSampleSlot, r: SlotRelocation) -> bool {
    if s.path@.len() == 0 {
        r.slot@ == s@ && r.files is None
    } else {
        &&& spec_file_name(s.path@) is Some
        &&& r.slot@ == (SlotView { path: spec_path_join(target_dir, spec_file_name(s.path@)->0), ..s@ })
        &&& r.files matches Some(m) && {
            &&& m.audio_from@ == spec_path_join(project_dir, s.path@)
            &&& m.audio_to@ == r.slot.path@
            &&& m.ot_from@ == spec_with_extension(m.audio_from@, "ot"@)
            &&& m.ot_to@ == spec_with_extension(m.audio_to@, "ot"@)
        }
    }
}

/// Plans the gathering of the sample files of the project in `project_dir`
/// into `target_dir`: the slots in order of number, each file copied to
/// `target_dir` under its file name and the slot pointed at the copy. An
/// error when a slot's path has no file name.
pub fn plan_sample_gathering(
    project_dir: &str,
    target_dir: &str,
    slots: &[ProjectSampleSlot],
) -> (r: Result<Vec<SlotRelocation>, OctatoolErrors>)
    ensures
        match r {
            Ok(v) => v@.len() == slots@.len() && forall|i: int| 0 <= i < v@.len()
                ==> spec_relocation(project_dir@, target_dir@, #[trigger] spec_sorted_by_id(slots@)[i], v@[i]),
            Err(e) => e == OctatoolErrors::InvalidFilenameOrExtension && exists|i: int| 0 <= i < slots@.len()
                && (#[trigger] spec_sorted_by_id(slots@)[i]).path@.len() > 0 && spec_file_name(spec_sorted_by_id(slots@)[i].path@) is None,
        },
{
    let sorted = sort_slots_by_id(slots);
    proof {
        lemma_sorted_by_id(slots@);
        broadcast use vstd::seq_lib::group_to_multiset_ensures;
        assert(sorted@.to_multiset().len() == slots@.to_multiset().len());
        assert(sorted@.len() == slots@.len());
    }
    let mut out: Vec<SlotRelocation> = Vec::new();
    let mut i: usize = 0;
    while i < sorted.len()
        invariant
            i <= sorted@.len(),
            sorted@ == spec_sorted_by_id(slots@),
            sorted@.len() == slots@.len(),
            out@.len() == i,
            forall|k: int| 0 <= k < i ==> spec_relocation(project_dir@, target_dir@, #[trigger] sorted@[k], out@[k]),
        decreases sorted@.len() - i,
    {
        let s = sorted[i].copy_slot();
        if s.path.unicode_len() == 0 {
            out.push(SlotRelocation { slot: s, files: None });
        } else {
            let fname = match path_file_name(s.path.as_str()) {
                Some(f) => f,
                None => {
                    assert(sorted@[i as int].path@.len() > 0);
                    return Err(OctatoolErrors::InvalidFilenameOrExtension);
                },
            };
            let audio_from = path_join(project_dir, s.path.as_str());
            let audio_to = path_join(target_dir, fname.as_str());
            proof {
                reveal_strlit("ot");
            }
            let ot_from = path_with_extension(audio_from.as_str(), "ot");
            let ot_to = path_with_extension(audio_to.as_str(), "ot");
            let slot = ProjectSampleSlot {
                sample_type: s.sample_type,
                slot_id: s.slot_id,
                path: audio_to.clone(),
                trim_bars_x100: s.trim_bars_x100,
                timestrech_mode: s.timestrech_mode,
                loop_mode: s.loop_mode,
                trig_quantization_mode: s.trig_quantization_mode,
                gain: s.gain,
                bpm: s.bpm,
            };
            out.push(SlotRelocation { slot, files: Some(SampleFileMove { audio_from, audio_to, ot_from, ot_to }) });
        }
        assert(spec_relocation(project_dir@, target_dir@, sorted@[i as int], out@[i as int]));
        i = i + 1;
    }
    Ok(out)
}

/// Plans the gathering of a project's sample files into the set's audio pool
/// (`AUDIO` beside the project's directory), for the project file at
/// `project_file`. An error when the project file has no directory, or the
/// directory no parent, or a slot's path has no file name.
pub fn plan_audio_pool_consolidation(
    project_file: &str,
    slots: &[ProjectSampleSlot],
) -> (r: Result<Vec<SlotRelocation>, OctatoolErrors>)
    ensures
        match r {
            Ok(v) => spec_path_parent(project_file@) matches Some(dir) && spec_path_parent(dir) matches Some(set)
                && v@.len() == slots@.len() && forall|i: int| 0 <= i < v@.len() ==> spec_relocation(dir,
                    spec_path_join(set, "AUDIO"@), #[trigger] spec_sorted_by_id(slots@)[i], v@[i]),
            Err(e) => match spec_path_parent(project_file@) {
                None => e == OctatoolErrors::PathDoesNotExist,
                Some(dir) => match spec_path_parent(dir) {
                    None => e == OctatoolErrors::PathDoesNotExist,
                    Some(set) => e == OctatoolErrors::InvalidFilenameOrExtension && exists|i: int| 0 <= i < slots@.len()
                        && (#[trigger] spec_sorted_by_id(slots@)[i]).path@.len() > 0 && spec_file_name(spec_sorted_by_id(slots@)[i].path@) is None,
                },
            },
        },
{
    let dir = match path_parent(project_file) {
        Some(d) => d,
        None => {
            return Err(OctatoolErrors::PathDoesNotExist);
        },
    };
    let set = match path_parent(dir.as_str()) {
        Some(d) => d,
        None => {
            return Err(OctatoolErrors::PathDoesNotExist);
        },
    };
    proof {
        reveal_strlit("AUDIO");
    }
    let pool = path_join(set.as_str(), "AUDIO");
    plan_sample_gathering(dir.as_str(), pool.as_str(), slots)
}

/// Plans the gathering of a project's sample files into the project's own
/// directory, for the project file at `project_file`. An error when the
/// project file has no directory, or a slot's path has no file name.
pub fn plan_project_pool_consolidation(
    project_file: &str,
    slots: &[ProjectSampleSlot],
) -> (r: Result<Vec<SlotRelocation>, OctatoolErrors>)
    ensures
        match r {
            Ok(v) => spec_path_parent(project_file@) matches Some(dir)
                && v@.len() == slots@.len() && forall|i: int| 0 <= i < v@.len()
                    ==> spec_relocation(dir, dir, #[trigger] spec_sorted_by_id(slots@)[i], v@[i]),
            Err(e) => match spec_path_parent(project_file@) {
                None => e == OctatoolErrors::PathDoesNotExist,
                Some(dir) => e == OctatoolErrors::InvalidFilenameOrExtension && exists|i: int| 0 <= i < slots@.len()
                    && (#[trigger] spec_sorted_by_id(slots@)[i]).path@.len() > 0 && spec_file_name(spec_sorted_by_id(slots@)[i].path@) is None,
            },
        },
{
    let dir = match path_parent(project_file) {
        Some(d) => d,
        None => {
            return Err(OctatoolErrors::PathDoesNotExist);
        },
    };
    plan_sample_gathering(dir.as_str(), dir.as_str(), slots)
}

/// The texts of `samples` that no text of `used` equals, in order.
pub open spec fn spec_unused(used: Seq<Seq<char>>, samples: Seq<Seq<char>>) -> Seq<Seq<char>>
    decreases samples.len(),
{
    if samples.len() == 0 {
        Seq::empty()
    } else {
        let p = spec_unused(used, samples.drop_last());
        if used.contains(samples.last()) {
            p
        } else {
            p.push(samples.last())
        }
    }
}

/// The purge list holds exactly the scanned samples that no slot uses: a
/// sample is listed if and only if it was scanned and no used path equals
/// it, and the list is no longer than the scan.
pub proof fn lemma_unused_exactly(used: Seq<Seq<char>>, samples: Seq<Seq<char>>)
    ensures
        forall|x: Seq<char>| #[trigger] spec_unused(used, samples).contains(x) <==> (samples.contains(x) && !used.contains(x)),
        spec_unused(used, samples).len() <= samples.len(),
    decreases samples.len(),
{
    if samples.len() > 0 {
        let d = samples.drop_last();
        lemma_unused_exactly(used, d);
        let p = spec_unused(used, d);
        assert forall|x: Seq<char>| #[trigger] spec_unused(used, samples).contains(x) <==> (samples.contains(x) && !used.contains(x)) by {
            if samples.contains(x) {
                let i = choose|i: int| 0 <= i < samples.len() && samples[i] == x;
                if i < samples.len() - 1 {
                    assert(d[i] == x);
                    assert(d.contains(x));
                }
            }
            if d.contains(x) {
                let i = choose|i: int| 0 <= i < d.len() && d[i] == x;
                assert(samples[i] == x);
            }
            if !used.contains(samples.last()) {
                assert(spec_unused(used, samples) == p.push(samples.last()));
                if p.push(samples.last()).contains(x) {
                    let i = choose|i: int| 0 <= i < p.len() + 1 && p.push(samples.last())[i] == x;
                    if i < p.len() {
                        assert(p[i] == x);
                    }
                }
                if x == samples.last() {
                    assert(p.push(samples.last())[p.len() as int] == x);
                }
                if p.contains(x) {
                    let i = choose|i: int| 0 <= i < p.len() && p[i] == x;
                    assert(p.push(samples.last())[i] == x);
                }
            }
            if x == samples.last() {
                assert(samples[samples.len() - 1] == x);
            }
        }
    }
}

/// The sample files of a project directory (`samples`) that no slot uses
/// (`used`: the slots' file paths), in order: the files to remove when the
/// project's pool is purged.
pub fn unused_sample_files(used: &[String], samples: &[String]) -> (r: Vec<String>)
    ensures
        r@.map_values(|x: String| x@) == spec_unused(used@.map_values(|x: String| x@), samples@.map_values(|x: String| x@)),
{
    let ghost u = used@.map_values(|x: String| x@);
    let mut out: Vec<String> = Vec::new();
    let mut i: usize = 0;
    while i < samples.len()
        invariant
            i <= samples@.len(),
            u == used@.map_values(|x: String| x@),
            out@.map_values(|x: String| x@) == spec_unused(u, samples@.subrange(0, i as int).map_values(|x: String| x@)),
        decreases samples@.len() - i,
    {
        let ghost pre = samples@.subrange(0, i as int).map_values(|x: String| x@);
        let ghost nxt = samples@.subrange(0, i + 1).map_values(|x: String| x@);
        assert(nxt.drop_last() =~= pre);
        assert(nxt.last() == samples@[i as int]@);
        let mut found = false;
        let mut j: usize = 0;
        while j < used.len()
            invariant
                j <= used@.len(),
                i < samples@.len(),
                u == used@.map_values(|x: String| x@),
                found <==> exists|k: int| 0 <= k < j && u[k] == samples@[i as int]@,
            decreases used@.len() - j,
        {
            assert(u[j as int] == used@[j as int]@);
            if str_eq(used[j].as_str(), samples[i].as_str()) {
                found = true;
            }
            j = j + 1;
        }
        assert(found <==> u.contains(samples@[i as int]@));
        let ghost prev = out@;
        if !found {
            out.push(samples[i].clone());
            assert(out@.map_values(|x: String| x@) =~= prev.map_values(|x: String| x@).push(samples@[i as int]@));
        }
        i = i + 1;
    }
    assert(samples@.subrange(0, i as int) =~= samples@);
    out
}

} // verus!
