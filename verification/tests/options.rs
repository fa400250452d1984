use octatools::errors::OctatoolErrors;
use octatools::options::{
    ProjectSampleSlotType, SampleAttributeLoopMode, SampleAttributeTimestrechMode, SampleAttributeTrigQuantizationMode,
};
use octatools::patterns::{AudioTrackParameterLocks, Pattern};
use octatools::slots::ProjectSampleSlot;

#[test]
fn option_values_roundtrip() {
    for v in 0..300u32 {
        if let Ok(m) = SampleAttributeLoopMode::from_value(&v) {
            assert_eq!(m.value(), v);
        }
        if let Ok(m) = SampleAttributeTimestrechMode::from_value(&v) {
            assert_eq!(m.value(), v);
        }
        if let Ok(m) = SampleAttributeTrigQuantizationMode::from_value(&v) {
            assert_eq!(m.value(), v);
        }
    }
    assert_eq!(SampleAttributeTimestrechMode::from_value(&1), Err(OctatoolErrors::NoMatchingOptionEnumValue));
    assert_eq!(SampleAttributeTrigQuantizationMode::from_value(&255), Ok(SampleAttributeTrigQuantizationMode::Direct));
    assert_eq!(SampleAttributeTrigQuantizationMode::default(), SampleAttributeTrigQuantizationMode::Direct);
    assert_eq!(ProjectSampleSlotType::from_value("FLEX"), Ok(ProjectSampleSlotType::Flex));
    assert_eq!(ProjectSampleSlotType::Static.value(), "STATIC");
    assert!(ProjectSampleSlotType::from_value("flex").is_err());
}

#[test]
fn default_slots_are_recorder_buffers() {
    let d = ProjectSampleSlot::defaults();
    assert_eq!(d.len(), 8);
    for (i, s) in d.iter().enumerate() {
        assert_eq!(s.slot_id as usize, 129 + i);
        assert_eq!(s.sample_type, ProjectSampleSlotType::RecorderBuffer);
        assert_eq!(s.gain, 24);
        assert_eq!(s.bpm, 120);
    }
}

#[test]
fn default_pattern_has_no_locks() {
    let p = Pattern::default();
    assert_eq!(p.tempo_1, 11);
    assert_eq!(p.tempo_2, 64);
    assert_eq!(p.audio_track_trigs[3].plocks[10], AudioTrackParameterLocks::default());
    assert_eq!(p.audio_track_trigs[0].plocks[0].static_slot_id, 255);
    assert_eq!(p.audio_track_trigs[0].trig_masks.swing, [170; 8]);
}
