use octatools::errors::OctatoolErrors;
use octatools::keyvalues::{parse_hashmap_string_value, parse_hashmap_string_value_bool, KeyValues};
use octatools::settings::{
    AudioControlPage, ControlMenu, MidiChannelsMidiPage, MidiSyncMidiPage, MidiTrackTrigModes, MixerMenu,
    ProjectMidiChannels, TempoMenu,
};

fn map(entries: &[(&str, &str)]) -> KeyValues {
    let mut m = KeyValues::new();
    for (k, v) in entries {
        m.insert(k.to_string(), v.to_string());
    }
    m
}

fn control_entries() -> Vec<(&'static str, &'static str)> {
    vec![
        ("master_track", "0"),
        ("cue_studio_mode", "1"),
        ("gate_ab", "127"),
        ("gate_cd", "127"),
        ("input_delay_compensation", "0"),
        ("pattern_change_chain_behavior", "0"),
        ("pattern_change_auto_silence_tracks", "0"),
        ("pattern_change_auto_trig_lfos", "1"),
        ("load_24bit_flex", "0"),
        ("dynamic_recorders", "0"),
        ("record_24bit", "0"),
        ("reserved_recorder_count", "8"),
        ("reserved_recorder_length", "16"),
        ("metronome_time_signature", "3"),
        ("metronome_time_signature_denominator", "2"),
        ("metronome_preroll", "0"),
        ("metronome_cue_volume", "32"),
        ("metronome_main_volume", "0"),
        ("metronome_pitch", "12"),
        ("metronome_tonal", "1"),
        ("metronome_enabled", "0"),
        ("midi_audio_trk_cc_in", "1"),
        ("midi_audio_trk_cc_out", "3"),
        ("midi_audio_trk_note_in", "1"),
        ("midi_audio_trk_note_out", "3"),
        ("midi_midi_trk_cc_in", "1"),
        ("midi_clock_send", "0"),
        ("midi_clock_receive", "0"),
        ("midi_transport_send", "0"),
        ("midi_transport_receive", "0"),
        ("midi_program_change_send", "0"),
        ("midi_program_change_send_ch", "-1"),
        ("midi_program_change_receive", "0"),
        ("midi_program_change_receive_ch", "16"),
        ("midi_trig_ch1", "0"),
        ("midi_trig_ch2", "1"),
        ("midi_trig_ch3", "2"),
        ("midi_trig_ch4", "3"),
        ("midi_trig_ch5", "4"),
        ("midi_trig_ch6", "5"),
        ("midi_trig_ch7", "6"),
        ("midi_trig_ch8", "7"),
        ("midi_auto_channel", "10"),
    ]
}

#[test]
fn keyvalues_last_insert_wins() {
    let mut m = KeyValues::new();
    assert!(m.get("a").is_none());
    m.insert("a".to_string(), "1".to_string());
    m.insert("b".to_string(), "2".to_string());
    m.insert("a".to_string(), "3".to_string());
    assert_eq!(m.get("a").unwrap(), "3");
    assert_eq!(m.get("b").unwrap(), "2");
}

#[test]
fn typed_reads() {
    let m = map(&[("x", "300"), ("y", "-5"), ("z", "+7"), ("f", "2"), ("e", "")]);
    assert_eq!(parse_hashmap_string_value(&m, "x", None, false, 0, 255), Err(OctatoolErrors::InvalidKeyValue));
    assert_eq!(parse_hashmap_string_value(&m, "x", None, false, 0, 65535), Ok(300));
    assert_eq!(parse_hashmap_string_value(&m, "y", None, true, -128, 127), Ok(-5));
    assert_eq!(parse_hashmap_string_value(&m, "y", None, false, 0, 255), Err(OctatoolErrors::InvalidKeyValue));
    assert_eq!(parse_hashmap_string_value(&m, "z", None, false, 0, 255), Ok(7));
    assert_eq!(parse_hashmap_string_value(&m, "e", None, false, 0, 255), Err(OctatoolErrors::InvalidKeyValue));
    assert_eq!(parse_hashmap_string_value(&m, "missing", None, false, 0, 255), Err(OctatoolErrors::MissingKeyValue));
    assert_eq!(parse_hashmap_string_value(&m, "missing", Some("9"), false, 0, 255), Ok(9));
    assert_eq!(parse_hashmap_string_value_bool(&m, "f", None), Err(OctatoolErrors::InvalidKeyValue));
}

#[test]
fn mixer_menu() {
    let m = map(&[
        ("gain_ab", "64"),
        ("gain_cd", "64"),
        ("dir_ab", "0"),
        ("dir_cd", "0"),
        ("phones_mix", "64"),
        ("main_to_cue", "0"),
        ("main_level", "0"),
        ("cue_level", "0"),
    ]);
    let x = MixerMenu::from_hashmap(&m).unwrap();
    assert_eq!(x.gain_ab, 64);
    assert_eq!(x.phones_mix, 64);
    assert_eq!(x.cue_level, 0);
    let short = map(&[("gain_ab", "64")]);
    assert_eq!(MixerMenu::from_hashmap(&short), Err(OctatoolErrors::MissingKeyValue));
    let bad = map(&[("gain_ab", "x")]);
    assert_eq!(MixerMenu::from_hashmap(&bad), Err(OctatoolErrors::InvalidKeyValue));
}

#[test]
fn tempo_menu() {
    let m = map(&[("tempox24", "2880"), ("pattern_tempo_enabled", "1")]);
    let t = TempoMenu::from_hashmap(&m).unwrap();
    assert_eq!(t.tempo, 120);
    assert!(t.pattern_tempo_enabled);
}

#[test]
fn midi_track_trig_modes() {
    let mut entries = Vec::new();
    for i in 1..=8 {
        entries.push((format!("trig_mode_midi_track_{i}"), (i % 2).to_string()));
    }
    let mut m = KeyValues::new();
    for (k, v) in entries {
        m.insert(k, v);
    }
    let x = MidiTrackTrigModes::from_hashmap(&m).unwrap();
    assert_eq!(x.trig_mode_midi_track_1, 1);
    assert_eq!(x.trig_mode_midi_track_8, 0);
}

#[test]
fn control_menu() {
    let m = map(&control_entries());
    let c = ControlMenu::from_hashmap(&m).unwrap();
    assert!(c.audio.cue_studio_mode);
    assert!(!c.audio.master_track);
    assert_eq!(c.input.gate_ab, 127);
    assert!(!c.sequencer.pattern_change_auto_silence_tracks);
    assert!(c.sequencer.pattern_change_auto_trig_lfos);
    assert_eq!(c.memory.reserved_recorder_length, 16);
    assert_eq!(c.metronome.metronome_pitch, 12);
    assert_eq!(c.midi.sync.midi_progchange_send_channel, ProjectMidiChannels::Disabled);
    assert_eq!(c.midi.sync.midi_progchange_receive_channel, ProjectMidiChannels::Sixteen);
    assert_eq!(c.midi.channels.midi_auto_channel, 10);
    assert_eq!(AudioControlPage::from_hashmap(&m).unwrap(), c.audio);
}

#[test]
fn midi_channel_values() {
    assert_eq!(ProjectMidiChannels::from_value(&-1), Ok(ProjectMidiChannels::Disabled));
    assert_eq!(ProjectMidiChannels::from_value(&0), Err(OctatoolErrors::NoMatchingOptionEnumValue));
    assert_eq!(ProjectMidiChannels::from_value(&17), Err(OctatoolErrors::NoMatchingOptionEnumValue));
    assert_eq!(ProjectMidiChannels::Seven.value(), 7);
    let mut entries = control_entries();
    entries.retain(|(k, _)| *k != "midi_program_change_send_ch");
    entries.push(("midi_program_change_send_ch", "0"));
    let m = map(&entries);
    assert_eq!(MidiSyncMidiPage::from_hashmap(&m), Err(OctatoolErrors::NoMatchingOptionEnumValue));
    assert!(MidiChannelsMidiPage::from_hashmap(&m).is_ok());
}
