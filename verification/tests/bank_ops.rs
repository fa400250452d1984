use octatools::bank_copy::{calculate_copy_bank_changes, check_bank_numbers, plan_sample_transfers};
use octatools::bank_transfer::{copy_bank, find_active_sample_slots};
use octatools::banks::{part_index_is_valid, part_update_sample_slot_refs, pattern_update_sample_slot_refs, AudioTrackMachineSlot, Bank, Part};
use octatools::errors::OctatoolErrors;
use octatools::options::ProjectSampleSlotType;
use octatools::patterns::Pattern;
use octatools::slot_listing::{
    list_bank_sample_slot_references, list_pattern_sample_slot_references, list_saved_part_sample_slot_references,
    list_unsaved_part_sample_slot_references,
};
use octatools::slot_ops::{find_free_sample_slot_ids, find_last_empty_slot, get_zero_indexed_slots_from_one_indexed};
use octatools::slots::ProjectSampleSlot;

fn slot(t: ProjectSampleSlotType, id: u8, path: &str) -> ProjectSampleSlot {
    ProjectSampleSlot::new(t, id, path.to_string(), None, None, None, None, None, None).unwrap()
}

/// A part whose track `t` uses static and flex slot `t`.
fn track_numbered_part() -> Part {
    let mut m = [AudioTrackMachineSlot { static_slot_id: 0, flex_slot_id: 0 }; 8];
    for (t, x) in m.iter_mut().enumerate() {
        x.static_slot_id = t as u8;
        x.flex_slot_id = t as u8;
    }
    Part { audio_track_machine_slots: m }
}

fn bank_with_part(p: Part) -> Bank {
    Bank { patterns: vec![Pattern::default(); 16], parts_unsaved: vec![p; 4], parts_saved: vec![p; 4] }
}

#[test]
fn copy_bank_changes_add_a_new_slot() {
    let src = vec![slot(ProjectSampleSlotType::Static, 1, "a.wav")];
    let dest = vec![slot(ProjectSampleSlotType::Static, 1, "b.wav")];
    let bank = bank_with_part(track_numbered_part());
    let (slots, new_bank, copies) = calculate_copy_bank_changes("src", &src, &bank, &dest).unwrap();
    assert_eq!(slots.len(), 2);
    assert_eq!(slots[0], dest[0]);
    assert_eq!(slots[1].slot_id, 2);
    assert_eq!(slots[1].path, "a.wav");
    assert_eq!(slots[1].sample_type, ProjectSampleSlotType::Static);
    assert_eq!(copies.len(), 1);
    assert_eq!(copies[0].from.slot_id, 0);
    assert_eq!(copies[0].to.slot_id, 1);
    for part in &new_bank.parts_unsaved {
        assert_eq!(part.audio_track_machine_slots[0].static_slot_id, 1);
        for t in 1..8 {
            assert_eq!(part.audio_track_machine_slots[t].static_slot_id, 127);
        }
        for t in 0..8 {
            assert_eq!(part.audio_track_machine_slots[t].flex_slot_id, 127);
        }
    }
    assert_eq!(new_bank.parts_saved, bank.parts_saved);
}

#[test]
fn copy_bank_changes_reuse_a_matching_slot() {
    let src = vec![slot(ProjectSampleSlotType::Static, 1, "a.wav")];
    let dest = vec![slot(ProjectSampleSlotType::Static, 5, "a.wav")];
    let bank = bank_with_part(track_numbered_part());
    let (slots, new_bank, copies) = calculate_copy_bank_changes("src", &src, &bank, &dest).unwrap();
    assert_eq!(slots, dest);
    assert!(copies.is_empty());
    assert_eq!(new_bank.parts_unsaved[0].audio_track_machine_slots[0].static_slot_id, 4);
}

#[test]
fn copy_bank_changes_need_an_empty_slot() {
    let mut dest = Vec::new();
    for id in 1..=128u8 {
        dest.push(slot(ProjectSampleSlotType::Static, id, "x.wav"));
    }
    let bank = bank_with_part(track_numbered_part());
    let r = calculate_copy_bank_changes("src", &[], &bank, &dest);
    assert_eq!(r.unwrap_err(), OctatoolErrors::CliNoFreeSampleSlots);
}

#[test]
fn free_and_last_empty_slots() {
    let zero = get_zero_indexed_slots_from_one_indexed(&[
        slot(ProjectSampleSlotType::Static, 1, "a.wav"),
        slot(ProjectSampleSlotType::Static, 127, "b.wav"),
        slot(ProjectSampleSlotType::Flex, 3, "c.wav"),
    ])
    .unwrap();
    let free = find_free_sample_slot_ids(&zero, ProjectSampleSlotType::Static).unwrap();
    // numbers 0 to 127, less the used 0 and 126
    assert_eq!(free.len(), 126);
    assert_eq!(free[0], 127);
    assert_eq!(free[1], 125);
    assert_eq!(*free.last().unwrap(), 1);
    assert_eq!(find_last_empty_slot(&zero, &ProjectSampleSlotType::Static).unwrap(), 127);
    assert_eq!(find_last_empty_slot(&zero, &ProjectSampleSlotType::Flex).unwrap(), 127);
}

#[test]
fn transfer_moves_used_slots_to_the_audio_pool() {
    let src = vec![slot(ProjectSampleSlotType::Static, 1, "x/a.wav")];
    let dest = vec![slot(ProjectSampleSlotType::Static, 1, "b.wav")];
    let mut m = [AudioTrackMachineSlot { static_slot_id: 200, flex_slot_id: 200 }; 8];
    m[0].static_slot_id = 1;
    let bank = bank_with_part(Part { audio_track_machine_slots: m });
    let active = find_active_sample_slots(&src, &bank, &ProjectSampleSlotType::Static).unwrap();
    assert_eq!(active, src);
    let (new_bank, slots, transfers) = copy_bank(&bank, "src/project.work", &src, "set/proj/project.work", &dest).unwrap();
    assert_eq!(slots.len(), 2);
    assert_eq!(slots[1].slot_id, 2);
    assert_eq!(slots[1].path, "set/AUDIO/a.wav");
    assert_eq!(transfers.len(), 1);
    assert_eq!(transfers[0].from, "src/x/a.wav");
    assert_eq!(transfers[0].to, "set/AUDIO/a.wav");
    assert_eq!(new_bank.parts_unsaved[0].audio_track_machine_slots[0].static_slot_id, 2);
    assert_eq!(new_bank.parts_saved[3].audio_track_machine_slots[0].static_slot_id, 2);
    assert_eq!(new_bank.parts_saved[3].audio_track_machine_slots[1].static_slot_id, 200);
}

#[test]
fn transfer_without_free_slots_fails() {
    let src = vec![slot(ProjectSampleSlotType::Static, 1, "x/a.wav")];
    let mut dest = Vec::new();
    for id in 1..=128u8 {
        dest.push(slot(ProjectSampleSlotType::Static, id, "x.wav"));
    }
    let mut m = [AudioTrackMachineSlot { static_slot_id: 200, flex_slot_id: 200 }; 8];
    m[0].static_slot_id = 1;
    let bank = bank_with_part(Part { audio_track_machine_slots: m });
    let r = copy_bank(&bank, "src/project.work", &src, "set/proj/project.work", &dest);
    assert_eq!(r.unwrap_err(), OctatoolErrors::CliNoFreeSampleSlots);
}

#[test]
fn part_listing_of_empty_slots() {
    let project: Vec<ProjectSampleSlot> = Vec::new();
    let bank = bank_with_part(track_numbered_part());
    let items = list_unsaved_part_sample_slot_references(&project, &bank, 1, false).unwrap();
    assert_eq!(items.len(), 16);
    assert!(items.iter().all(|x| !x.sample_loaded && x.path.is_none()));
    assert!(items.windows(2).all(|w| w[0].slot_id <= w[1].slot_id));
    assert_eq!(items[0].slot_id, 1);
    let saved = list_saved_part_sample_slot_references(&project, &bank, 4, false).unwrap();
    assert_eq!(saved.len(), 16);
    // with empty slots left out, nothing is left
    let loaded = list_unsaved_part_sample_slot_references(&project, &bank, 1, true).unwrap();
    assert!(loaded.is_empty());
}

#[test]
fn part_listing_leaves_out_empty_slots() {
    let project = vec![slot(ProjectSampleSlotType::Static, 1, "a.wav"), slot(ProjectSampleSlotType::Static, 2, "b.wav")];
    let m = [AudioTrackMachineSlot { static_slot_id: 1, flex_slot_id: 3 }; 8];
    let bank = bank_with_part(Part { audio_track_machine_slots: m });
    let loaded = list_unsaved_part_sample_slot_references(&project, &bank, 1, true).unwrap();
    assert_eq!(loaded.len(), 1);
    assert!(loaded[0].sample_loaded);
    assert_eq!(loaded[0].slot_id, 2);
    assert_eq!(loaded[0].sample_type, ProjectSampleSlotType::Static);
    assert_eq!(loaded[0].path, Some("a.wav".to_string()));
    let all = list_unsaved_part_sample_slot_references(&project, &bank, 1, false).unwrap();
    assert_eq!(all.len(), 2);
    assert_eq!(all[0], loaded[0]);
    assert_eq!(all[1].slot_id, 4);
    assert_eq!(all[1].sample_type, ProjectSampleSlotType::Flex);
    assert!(!all[1].sample_loaded && all[1].path.is_none());
}

#[test]
fn part_listing_of_loaded_slots() {
    let project = vec![slot(ProjectSampleSlotType::Static, 1, "a.wav"), slot(ProjectSampleSlotType::Static, 2, "b.wav")];
    let bank = bank_with_part(track_numbered_part());
    let items = list_unsaved_part_sample_slot_references(&project, &bank, 2, true);
    // the loaded slot numbered 0 (zero-based) is looked up by that number
    // among the project's slots (numbered from 1): none is found
    assert_eq!(items.unwrap_err(), OctatoolErrors::Unknown);
}

#[test]
fn pattern_slot_refs_are_updated_by_type() {
    let mut p = Pattern::default();
    p.audio_track_trigs[0].plocks[0].static_slot_id = 3;
    p.audio_track_trigs[1].plocks[5].static_slot_id = 3;
    p.audio_track_trigs[2].plocks[7].flex_slot_id = 3;
    assert!(pattern_update_sample_slot_refs(&mut p, &ProjectSampleSlotType::Static, &3, &9).is_ok());
    assert_eq!(p.audio_track_trigs[0].plocks[0].static_slot_id, 9);
    assert_eq!(p.audio_track_trigs[1].plocks[5].static_slot_id, 9);
    assert_eq!(p.audio_track_trigs[2].plocks[7].flex_slot_id, 3);
    assert!(pattern_update_sample_slot_refs(&mut p, &ProjectSampleSlotType::RecorderBuffer, &3, &1).is_ok());
    assert_eq!(p.audio_track_trigs[2].plocks[7].flex_slot_id, 3);
}

#[test]
fn part_slot_refs_are_updated_by_type() {
    let mut part = track_numbered_part();
    assert!(part_update_sample_slot_refs(&mut part, &ProjectSampleSlotType::Flex, &2, &40).is_ok());
    assert_eq!(part.audio_track_machine_slots[2].flex_slot_id, 40);
    assert_eq!(part.audio_track_machine_slots[2].static_slot_id, 2);
    assert_eq!(part.audio_track_machine_slots[3].flex_slot_id, 3);
}

#[test]
fn pattern_listing_of_locked_slots() {
    let project = vec![slot(ProjectSampleSlotType::Static, 1, "a.wav")];
    let mut bank = bank_with_part(track_numbered_part());
    bank.patterns[2].audio_track_trigs[0].plocks[0].static_slot_id = 5;
    bank.patterns[2].audio_track_trigs[3].plocks[1].flex_slot_id = 2;
    let items = list_pattern_sample_slot_references(&project, &bank, 3, false).unwrap();
    assert_eq!(items.len(), 2);
    assert_eq!(items[0].slot_id, 3);
    assert_eq!(items[0].sample_type, ProjectSampleSlotType::Flex);
    assert_eq!(items[1].slot_id, 6);
    assert_eq!(items[1].sample_type, ProjectSampleSlotType::Static);
    assert!(items.iter().all(|x| !x.sample_loaded && x.path.is_none()));
    let none = list_pattern_sample_slot_references(&project, &bank, 1, false).unwrap();
    assert!(none.is_empty());
    let loaded = list_pattern_sample_slot_references(&project, &bank, 3, true).unwrap();
    assert!(loaded.is_empty());
}

#[test]
fn pattern_listing_names_each_slot_once() {
    let project = vec![slot(ProjectSampleSlotType::Static, 1, "a.wav")];
    let mut bank = bank_with_part(track_numbered_part());
    bank.patterns[1].audio_track_trigs[0].plocks[0].static_slot_id = 5;
    bank.patterns[1].audio_track_trigs[2].plocks[9].static_slot_id = 5;
    bank.patterns[1].audio_track_trigs[4].plocks[3].flex_slot_id = 5;
    let items = list_pattern_sample_slot_references(&project, &bank, 2, false).unwrap();
    assert_eq!(items.len(), 2);
    assert!(items.iter().all(|x| x.slot_id == 6 && !x.sample_loaded));
    assert!(items.iter().any(|x| x.sample_type == ProjectSampleSlotType::Static));
    assert!(items.iter().any(|x| x.sample_type == ProjectSampleSlotType::Flex));
}

#[test]
fn bank_listing_of_locked_and_machine_slots() {
    let project: Vec<ProjectSampleSlot> = Vec::new();
    let mut bank = bank_with_part(track_numbered_part());
    bank.patterns[0].audio_track_trigs[0].plocks[0].static_slot_id = 40;
    let items = list_bank_sample_slot_references(&project, &bank, false).unwrap();
    // machine slots 0..7 of both types and the locked static slot 40, all empty
    assert_eq!(items.len(), 17);
    assert!(items.iter().any(|x| x.slot_id == 41 && x.sample_type == ProjectSampleSlotType::Static));
    assert!(items.windows(2).all(|w| w[0].slot_id <= w[1].slot_id));
    assert!(items.iter().all(|x| !x.sample_loaded));
    assert!(list_bank_sample_slot_references(&project, &bank, true).unwrap().is_empty());
    // a loaded slot whose number has no project slot of that number cannot be listed
    let one = vec![slot(ProjectSampleSlotType::Static, 1, "a.wav")];
    assert_eq!(list_bank_sample_slot_references(&one, &bank, false).unwrap_err(), OctatoolErrors::Unknown);
}

#[test]
fn copy_bank_changes_without_free_numbers_fail() {
    let src = vec![slot(ProjectSampleSlotType::Static, 1, "a.wav")];
    let mut dest = Vec::new();
    for id in 1..=127u8 {
        dest.push(slot(ProjectSampleSlotType::Static, id, "x.wav"));
    }
    let bank = bank_with_part(track_numbered_part());
    let r = calculate_copy_bank_changes("src", &src, &bank, &dest);
    assert_eq!(r.unwrap_err(), OctatoolErrors::CliNoFreeSampleSlots);
}

#[test]
fn copy_bank_changes_of_a_file_without_extension_fail() {
    let src = vec![slot(ProjectSampleSlotType::Static, 1, "noext")];
    let dest = vec![slot(ProjectSampleSlotType::Static, 1, "b.wav")];
    let bank = bank_with_part(track_numbered_part());
    let r = calculate_copy_bank_changes("src", &src, &bank, &dest);
    assert_eq!(r.unwrap_err(), OctatoolErrors::InvalidFilenameOrExtension);
}

#[test]
fn sample_transfers_of_copied_slots() {
    let src = vec![slot(ProjectSampleSlotType::Static, 1, "../AUDIO/kits/a.wav")];
    let dest = vec![slot(ProjectSampleSlotType::Static, 1, "b.wav")];
    let bank = bank_with_part(track_numbered_part());
    let (_, _, copies) = calculate_copy_bank_changes("/sets/SRC", &src, &bank, &dest).unwrap();
    let moves = plan_sample_transfers(&copies, "/sets/SRC", "/sets/DEST").unwrap();
    assert_eq!(moves.len(), 1);
    assert_eq!(moves[0].audio_from, "/sets/SRC/../AUDIO/kits/a.wav");
    assert_eq!(moves[0].ot_from, "/sets/SRC/../AUDIO/kits/a.ot");
    assert_eq!(moves[0].audio_to, "/sets/DEST/a.wav");
    assert_eq!(moves[0].ot_to, "/sets/DEST/a.ot");
    let mut bad = copies.clone();
    bad[0].to.path = "noext".to_string();
    assert_eq!(plan_sample_transfers(&bad, "/s", "/d").unwrap_err(), OctatoolErrors::InvalidFilenameOrExtension);
}

#[test]
fn part_indexes_are_checked() {
    assert!(part_index_is_valid(&[1, 4, 2]));
    assert!(!part_index_is_valid(&[0]));
    assert!(!part_index_is_valid(&[2, 5]));
}

#[test]
fn bank_numbers_are_checked() {
    assert!(check_bank_numbers(1, 16).is_ok());
    assert_eq!(check_bank_numbers(0, 3), Err(OctatoolErrors::CliInvalidBankIndex));
    assert_eq!(check_bank_numbers(3, 17), Err(OctatoolErrors::CliInvalidBankIndex));
}
