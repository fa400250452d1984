use octatools::errors::OctatoolErrors;
use octatools::options::ProjectSampleSlotType;
use octatools::project_pool::{
    plan_audio_pool_consolidation, plan_project_pool_consolidation, plan_sample_gathering, sort_slots_by_id,
    unused_sample_files,
};
use octatools::slots::ProjectSampleSlot;

fn slot(t: ProjectSampleSlotType, id: u8, path: &str) -> ProjectSampleSlot {
    ProjectSampleSlot::new(t, id, path.to_string(), None, None, None, None, None, None).unwrap()
}

#[test]
fn slots_are_sorted_by_number_stably() {
    let slots = vec![
        slot(ProjectSampleSlotType::Flex, 3, "c.wav"),
        slot(ProjectSampleSlotType::Static, 1, "a.wav"),
        slot(ProjectSampleSlotType::Static, 3, "d.wav"),
        slot(ProjectSampleSlotType::Flex, 2, "b.wav"),
    ];
    let sorted = sort_slots_by_id(&slots);
    let ids: Vec<u8> = sorted.iter().map(|s| s.slot_id).collect();
    assert_eq!(ids, vec![1, 2, 3, 3]);
    assert_eq!(sorted[2].path, "c.wav");
    assert_eq!(sorted[3].path, "d.wav");
}

#[test]
fn gathering_into_the_audio_pool() {
    let slots = vec![
        slot(ProjectSampleSlotType::Static, 2, "../AUDIO/kits/kick.wav"),
        slot(ProjectSampleSlotType::RecorderBuffer, 129, ""),
        slot(ProjectSampleSlotType::Flex, 1, "loop.wav"),
    ];
    let plan = plan_audio_pool_consolidation("/sets/SET/PROJ/project.work", &slots).unwrap();
    assert_eq!(plan.len(), 3);
    assert_eq!(plan[0].slot.slot_id, 1);
    assert_eq!(plan[0].slot.path, "/sets/SET/AUDIO/loop.wav");
    let m = plan[0].files.clone().unwrap();
    assert_eq!(m.audio_from, "/sets/SET/PROJ/loop.wav");
    assert_eq!(m.audio_to, "/sets/SET/AUDIO/loop.wav");
    assert_eq!(m.ot_from, "/sets/SET/PROJ/loop.ot");
    assert_eq!(m.ot_to, "/sets/SET/AUDIO/loop.ot");
    assert_eq!(plan[1].slot.path, "/sets/SET/AUDIO/kick.wav");
    assert_eq!(plan[1].files.clone().unwrap().audio_from, "/sets/SET/PROJ/../AUDIO/kits/kick.wav");
    assert_eq!(plan[2].slot, slots[1]);
    assert!(plan[2].files.is_none());
}

#[test]
fn gathering_into_the_project_directory() {
    let slots = vec![slot(ProjectSampleSlotType::Static, 1, "../AUDIO/a.wav")];
    let plan = plan_project_pool_consolidation("/sets/SET/PROJ/project.work", &slots).unwrap();
    assert_eq!(plan[0].slot.path, "/sets/SET/PROJ/a.wav");
    assert_eq!(plan[0].files.clone().unwrap().audio_to, "/sets/SET/PROJ/a.wav");
}

#[test]
fn gathering_a_path_without_file_name_fails() {
    let slots = vec![slot(ProjectSampleSlotType::Static, 1, "../AUDIO/..")];
    assert_eq!(plan_sample_gathering("p", "q", &slots).unwrap_err(), OctatoolErrors::InvalidFilenameOrExtension);
    assert_eq!(plan_project_pool_consolidation("", &slots).unwrap_err(), OctatoolErrors::PathDoesNotExist);
    assert_eq!(plan_audio_pool_consolidation("project.work", &slots).unwrap_err(), OctatoolErrors::PathDoesNotExist);
}

#[test]
fn unused_samples_are_those_no_slot_names() {
    let used = vec!["/p/a.wav".to_string(), "/p/c.wav".to_string()];
    let samples = vec!["/p/a.wav".to_string(), "/p/b.wav".to_string(), "/p/c.wav".to_string(), "/p/d.aif".to_string()];
    assert_eq!(unused_sample_files(&used, &samples), vec!["/p/b.wav".to_string(), "/p/d.aif".to_string()]);
    assert!(unused_sample_files(&samples, &samples).is_empty());
}
