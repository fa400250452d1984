//! Project settings (mixer, tempo, control menu, MIDI track trig modes) read
//! from the key/value entries of a project file.

use vstd::prelude::*;
use crate::errors::OctatoolErrors;
use crate::keyvalues::{parse_hashmap_string_value, parse_hashmap_string_value_bool, spec_read_value, KeyValues};

verus! {

/// MIDI channel setting of a project: disabled (stored as `-1`) or a channel
/// from 1 to 16.
#[derive(Debug, Clone, Copy, PartialEq, Eq, Structural, Hash)]
pub enum ProjectMidiChannels {
    Disabled,
    One,
    Two,
    Three,
    Four,
    Five,
    Six,
    Seven,
    Eight,
    Nine,
    Ten,
    Eleven,
    Twelve,
    Thirteen,
    Fourteen,
    Fifteen,
    Sixteen,
}

impl ProjectMidiChannels {
    /// The number stored in project files for each setting.
    pub open spec fn spec_value(self) -> i8 {
        match self {
            ProjectMidiChannels::Disabled => -1i8,
            ProjectMidiChannels::One => 1,
            ProjectMidiChannels::Two => 2,
            ProjectMidiChannels::Three => 3,
            ProjectMidiChannels::Four => 4,
            ProjectMidiChannels::Five => 5,
            ProjectMidiChannels::Six => 6,
            ProjectMidiChannels::Seven => 7,
            ProjectMidiChannels::Eight => 8,
            ProjectMidiChannels::Nine => 9,
            ProjectMidiChannels::Ten => 10,
            ProjectMidiChannels::Eleven => 11,
            ProjectMidiChannels::Twelve => 12,
            ProjectMidiChannels::Thirteen => 13,
            ProjectMidiChannels::Fourteen => 14,
            ProjectMidiChannels::Fifteen => 15,
            ProjectMidiChannels::Sixteen => 16,
        }
    }

    /// Setting for a stored value; an error for a value that names none.
    pub open spec fn spec_from_value(v: i8) -> Result<Self, OctatoolErrors> {
        if v == -1 {
            Ok(ProjectMidiChannels::Disabled)
        } else if v == 1 {
            Ok(ProjectMidiChannels::One)
        } else if v == 2 {
            Ok(ProjectMidiChannels::Two)
        } else if v == 3 {
            Ok(ProjectMidiChannels::Three)
        } else if v == 4 {
            Ok(ProjectMidiChannels::Four)
        } else if v == 5 {
            Ok(ProjectMidiChannels::Five)
        } else if v == 6 {
            Ok(ProjectMidiChannels::Six)
        } else if v == 7 {
            Ok(ProjectMidiChannels::Seven)
        } else if v == 8 {
            Ok(ProjectMidiChannels::Eight)
        } else if v == 9 {
            Ok(ProjectMidiChannels::Nine)
        } else if v == 10 {
            Ok(ProjectMidiChannels::Ten)
        } else if v == 11 {
            Ok(ProjectMidiChannels::Eleven)
        } else if v == 12 {
            Ok(ProjectMidiChannels::Twelve)
        } else if v == 13 {
            Ok(ProjectMidiChannels::Thirteen)
        } else if v == 14 {
            Ok(ProjectMidiChannels::Fourteen)
        } else if v == 15 {
            Ok(ProjectMidiChannels::Fifteen)
        } else if v == 16 {
            Ok(ProjectMidiChannels::Sixteen)
        } else {
            Err(OctatoolErrors::NoMatchingOptionEnumValue)
        }
    }

    /// Stored value of this setting.
    pub fn value(&self) -> (r: i8)
        ensures
            r == self.spec_value(),
    {
        match self {
            ProjectMidiChannels::Disabled => -1,
            ProjectMidiChannels::One => 1,
            ProjectMidiChannels::Two => 2,
            ProjectMidiChannels::Three => 3,
            ProjectMidiChannels::Four => 4,
            ProjectMidiChannels::Five => 5,
            ProjectMidiChannels::Six => 6,
            ProjectMidiChannels::Seven => 7,
            ProjectMidiChannels::Eight => 8,
            ProjectMidiChannels::Nine => 9,
            ProjectMidiChannels::Ten => 10,
            ProjectMidiChannels::Eleven => 11,
            ProjectMidiChannels::Twelve => 12,
            ProjectMidiChannels::Thirteen => 13,
            ProjectMidiChannels::Fourteen => 14,
            ProjectMidiChannels::Fifteen => 15,
            ProjectMidiChannels::Sixteen => 16,
        }
    }

    /// Setting for a stored value; an error for a value that names none.
    pub fn from_value(v: &i8) -> (r: Result<Self, OctatoolErrors>)
        ensures
            r == Self::spec_from_value(*v),
    {
        match *v {
            -1 => Ok(ProjectMidiChannels::Disabled),
            1 => Ok(ProjectMidiChannels::One),
            2 => Ok(ProjectMidiChannels::Two),
            3 => Ok(ProjectMidiChannels::Three),
            4 => Ok(ProjectMidiChannels::Four),
            5 => Ok(ProjectMidiChannels::Five),
            6 => Ok(ProjectMidiChannels::Six),
            7 => Ok(ProjectMidiChannels::Seven),
            8 => Ok(ProjectMidiChannels::Eight),
            9 => Ok(ProjectMidiChannels::Nine),
            10 => Ok(ProjectMidiChannels::Ten),
            11 => Ok(ProjectMidiChannels::Eleven),
            12 => Ok(ProjectMidiChannels::Twelve),
            13 => Ok(ProjectMidiChannels::Thirteen),
            14 => Ok(ProjectMidiChannels::Fourteen),
            15 => Ok(ProjectMidiChannels::Fifteen),
            16 => Ok(ProjectMidiChannels::Sixteen),
            _ => Err(OctatoolErrors::NoMatchingOptionEnumValue),
        }
    }
}

/// Reading a stored MIDI channel value gives back the setting it was stored
/// from, and every value that reads as a setting is that setting's value.
pub proof fn lemma_midi_channel_value_roundtrip(c: ProjectMidiChannels, v: i8)
    ensures
        ProjectMidiChannels::spec_from_value(c.spec_value()) == Ok::<ProjectMidiChannels, OctatoolErrors>(c),
        ProjectMidiChannels::spec_from_value(v) matches Ok(d) ==> d.spec_value() == v,
{
}

/// An entry read as a `u8`.
pub open spec fn spec_read_u8(h: Map<Seq<char>, Seq<char>>, key: Seq<char>) -> Result<u8, OctatoolErrors> {
    match spec_read_value(h, key, None, false, 0, 255) {
        Ok(v) => Ok(v as u8),
        Err(e) => Err(e),
    }
}

/// An entry read as a `u32`.
pub open spec fn spec_read_u32(h: Map<Seq<char>, Seq<char>>, key: Seq<char>) -> Result<u32, OctatoolErrors> {
    match spec_read_value(h, key, None, false, 0, 0xffff_ffff) {
        Ok(v) => Ok(v as u32),
        Err(e) => Err(e),
    }
}

/// An entry read as a flag: `0` is false, `1` is true.
pub open spec fn spec_read_flag(h: Map<Seq<char>, Seq<char>>, key: Seq<char>) -> Result<bool, OctatoolErrors> {
    match spec_read_value(h, key, None, false, 0, 255) {
        Ok(v) => if v == 0 {
            Ok(false)
        } else if v == 1 {
            Ok(true)
        } else {
            Err(OctatoolErrors::InvalidKeyValue)
        },
        Err(e) => Err(e),
    }
}

/// An entry read as a MIDI channel setting (an `i8` naming a setting).
pub open spec fn spec_read_channel(h: Map<Seq<char>, Seq<char>>, key: Seq<char>) -> Result<ProjectMidiChannels, OctatoolErrors> {
    match spec_read_value(h, key, None, true, -128, 127) {
        Ok(v) => ProjectMidiChannels::spec_from_value(v as i8),
        Err(e) => Err(e),
    }
}

fn read_u8(hmap: &KeyValues, key: &str) -> (r: Result<u8, OctatoolErrors>)
    ensures
        r == spec_read_u8(hmap@, key@),
{
    let v = parse_hashmap_string_value(hmap, key, None, false, 0, 255)?;
    Ok(v as u8)
}

fn read_u32(hmap: &KeyValues, key: &str) -> (r: Result<u32, OctatoolErrors>)
    ensures
        r == spec_read_u32(hmap@, key@),
{
    let v = parse_hashmap_string_value(hmap, key, None, false, 0, 0xffff_ffff)?;
    Ok(v as u32)
}

fn read_flag(hmap: &KeyValues, key: &str) -> (r: Result<bool, OctatoolErrors>)
    ensures
        r == spec_read_flag(hmap@, key@),
{
    parse_hashmap_string_value_bool(hmap, key, None)
}

fn read_channel(hmap: &KeyValues, key: &str) -> (r: Result<ProjectMidiChannels, OctatoolErrors>)
    ensures
        r == spec_read_channel(hmap@, key@),
{
    let v = parse_hashmap_string_value(hmap, key, None, true, -128, 127)?;
    let b: i8 = v as i8;
    ProjectMidiChannels::from_value(&b)
}

/// Settings of the project's `TEMPO` menu.
#[derive(Debug, Clone, Copy, PartialEq, Eq, Structural)]
pub struct TempoMenu {
    /// Project tempo in BPM (stored multiplied by 24).
    pub tempo: u32,
    /// Whether patterns play at their own tempo rather than the project's.
    pub pattern_tempo_enabled: bool,
}

/// The `TempoMenu` read from the entries `tempox24` (divided by 24) and
/// `pattern_tempo_enabled`.
pub open spec fn spec_tempo_menu(h: Map<Seq<char>, Seq<char>>) -> Result<TempoMenu, OctatoolErrors> {
    match spec_read_u32(h, "tempox24"@) {
        Err(e) => Err(e),
        Ok(t) => match spec_read_flag(h, "pattern_tempo_enabled"@) {
            Err(e) => Err(e),
            Ok(p) => Ok(TempoMenu { tempo: (t / 24) as u32, pattern_tempo_enabled: p }),
        },
    }
}

impl TempoMenu {
    /// Reads the tempo menu from the key/value entries of a project file.
    pub fn from_hashmap(hmap: &KeyValues) -> (r: Result<Self, OctatoolErrors>)
        ensures
            r == spec_tempo_menu(hmap@),
    {
        let t = read_u32(hmap, "tempox24")?;
        let pattern_tempo_enabled = read_flag(hmap, "pattern_tempo_enabled")?;
        Ok(TempoMenu { tempo: t / 24, pattern_tempo_enabled })
    }
}

/// `PROJECT` -> `CONTROL` -> `MIDI SEQUENCER` page (project files hold no
/// entry for it).
#[derive(Debug, Clone, Copy, PartialEq, Eq, Structural)]
pub struct MidiSequencerControlPage {}

/// Settings of the project's `MIXER` menu.
#[derive(Debug, Clone, Copy, PartialEq, Eq, Structural)]
pub struct MixerMenu {
    /// Gain of the AB inputs.
    pub gain_ab: u8,
    /// Gain of the CD inputs.
    pub gain_cd: u8,
    /// Direct routing level of the AB inputs.
    pub dir_ab: u8,
    /// Direct routing level of the CD inputs.
    pub dir_cd: u8,
    /// Main/cue mix on the headphones output.
    pub phones_mix: u8,
    /// Main to cue send level.
    pub main_to_cue: u8,
    /// Level of the main outputs.
    pub main_level: u8,
    /// Level of the cue outputs.
    pub cue_level: u8,
}

/// The `MixerMenu` read from the entries `gain_ab`, `gain_cd`, `dir_ab`, `dir_cd`, `phones_mix`, `main_to_cue`, `main_level`, `cue_level` (in that order; the
/// first entry that cannot be read gives the error).
pub open spec fn spec_mixer_menu(h: Map<Seq<char>, Seq<char>>) -> Result<MixerMenu, OctatoolErrors> {
    match spec_read_u8(h, "gain_ab"@) {
        Err(e) => Err(e),
        Ok(gain_ab) => 
        match spec_read_u8(h, "gain_cd"@) {
            Err(e) => Err(e),
            Ok(gain_cd) => 
            match spec_read_u8(h, "dir_ab"@) {
                Err(e) => Err(e),
                Ok(dir_ab) => 
                match spec_read_u8(h, "dir_cd"@) {
                    Err(e) => Err(e),
                    Ok(dir_cd) => 
                    match spec_read_u8(h, "phones_mix"@) {
                        Err(e) => Err(e),
                        Ok(phones_mix) => 
                        match spec_read_u8(h, "main_to_cue"@) {
                            Err(e) => Err(e),
                            Ok(main_to_cue) => 
                            match spec_read_u8(h, "main_level"@) {
                                Err(e) => Err(e),
                                Ok(main_level) => 
                                match spec_read_u8(h, "cue_level"@) {
                                    Err(e) => Err(e),
                                    Ok(cue_level) => 
                                    Ok(MixerMenu { gain_ab, gain_cd, dir_ab, dir_cd, phones_mix, main_to_cue, main_level, cue_level }),
                                },
                            },
                        },
                    },
                },
            },
        },
    }
}

impl MixerMenu {
    /// Reads the page from the key/value entries of a project file.
    pub fn from_hashmap(hmap: &KeyValues) -> (r: Result<Self, OctatoolErrors>)
        ensures
            r == spec_mixer_menu(hmap@),
    {
        let gain_ab = read_u8(hmap, "gain_ab")?;
        let gain_cd = read_u8(hmap, "gain_cd")?;
        let dir_ab = read_u8(hmap, "dir_ab")?;
        let dir_cd = read_u8(hmap, "dir_cd")?;
        let phones_mix = read_u8(hmap, "phones_mix")?;
        let main_to_cue = read_u8(hmap, "main_to_cue")?;
        let main_level = read_u8(hmap, "main_level")?;
        let cue_level = read_u8(hmap, "cue_level")?;
        Ok(MixerMenu { gain_ab, gain_cd, dir_ab, dir_cd, phones_mix, main_to_cue, main_level, cue_level })
    }
}

/// Trig mode of each MIDI track (track or chromatic).
#[derive(Debug, Clone, Copy, PartialEq, Eq, Structural)]
pub struct MidiTrackTrigModes {
    /// Trig mode of MIDI track 1.
    pub trig_mode_midi_track_1: u8,
    /// Trig mode of MIDI track 2.
    pub trig_mode_midi_track_2: u8,
    /// Trig mode of MIDI track 3.
    pub trig_mode_midi_track_3: u8,
    /// Trig mode of MIDI track 4.
    pub trig_mode_midi_track_4: u8,
    /// Trig mode of MIDI track 5.
    pub trig_mode_midi_track_5: u8,
    /// Trig mode of MIDI track 6.
    pub trig_mode_midi_track_6: u8,
    /// Trig mode of MIDI track 7.
    pub trig_mode_midi_track_7: u8,
    /// Trig mode of MIDI track 8.
    pub trig_mode_midi_track_8: u8,
}

/// The `MidiTrackTrigModes` read from the entries `trig_mode_midi_track_1`, `trig_mode_midi_track_2`, `trig_mode_midi_track_3`, `trig_mode_midi_track_4`, `trig_mode_midi_track_5`, `trig_mode_midi_track_6`, `trig_mode_midi_track_7`, `trig_mode_midi_track_8` (in that order; the
/// first entry that cannot be read gives the error).
pub open spec fn spec_midi_track_trig_modes(h: Map<Seq<char>, Seq<char>>) -> Result<MidiTrackTrigModes, OctatoolErrors> {
    match spec_read_u8(h, "trig_mode_midi_track_1"@) {
        Err(e) => Err(e),
        Ok(trig_mode_midi_track_1) => 
        match spec_read_u8(h, "trig_mode_midi_track_2"@) {
            Err(e) => Err(e),
            Ok(trig_mode_midi_track_2) => 
            match spec_read_u8(h, "trig_mode_midi_track_3"@) {
                Err(e) => Err(e),
                Ok(trig_mode_midi_track_3) => 
                match spec_read_u8(h, "trig_mode_midi_track_4"@) {
                    Err(e) => Err(e),
                    Ok(trig_mode_midi_track_4) => 
                    match spec_read_u8(h, "trig_mode_midi_track_5"@) {
                        Err(e) => Err(e),
                        Ok(trig_mode_midi_track_5) => 
                        match spec_read_u8(h, "trig_mode_midi_track_6"@) {
                            Err(e) => Err(e),
                            Ok(trig_mode_midi_track_6) => 
                            match spec_read_u8(h, "trig_mode_midi_track_7"@) {
                                Err(e) => Err(e),
                                Ok(trig_mode_midi_track_7) => 
                                match spec_read_u8(h, "trig_mode_midi_track_8"@) {
                                    Err(e) => Err(e),
                                    Ok(trig_mode_midi_track_8) => 
                                    Ok(MidiTrackTrigModes { trig_mode_midi_track_1, trig_mode_midi_track_2, trig_mode_midi_track_3, trig_mode_midi_track_4, trig_mode_midi_track_5, trig_mode_midi_track_6, trig_mode_midi_track_7, trig_mode_midi_track_8 }),
                                },
                            },
                        },
                    },
                },
            },
        },
    }
}

impl MidiTrackTrigModes {
    /// Reads the page from the key/value entries of a project file.
    pub fn from_hashmap(hmap: &KeyValues) -> (r: Result<Self, OctatoolErrors>)
        ensures
            r == spec_midi_track_trig_modes(hmap@),
    {
        let trig_mode_midi_track_1 = read_u8(hmap, "trig_mode_midi_track_1")?;
        let trig_mode_midi_track_2 = read_u8(hmap, "trig_mode_midi_track_2")?;
        let trig_mode_midi_track_3 = read_u8(hmap, "trig_mode_midi_track_3")?;
        let trig_mode_midi_track_4 = read_u8(hmap, "trig_mode_midi_track_4")?;
        let trig_mode_midi_track_5 = read_u8(hmap, "trig_mode_midi_track_5")?;
        let trig_mode_midi_track_6 = read_u8(hmap, "trig_mode_midi_track_6")?;
        let trig_mode_midi_track_7 = read_u8(hmap, "trig_mode_midi_track_7")?;
        let trig_mode_midi_track_8 = read_u8(hmap, "trig_mode_midi_track_8")?;
        Ok(MidiTrackTrigModes { trig_mode_midi_track_1, trig_mode_midi_track_2, trig_mode_midi_track_3, trig_mode_midi_track_4, trig_mode_midi_track_5, trig_mode_midi_track_6, trig_mode_midi_track_7, trig_mode_midi_track_8 })
    }
}

/// `PROJECT` -> `CONTROL` -> `AUDIO` page.
#[derive(Debug, Clone, Copy, PartialEq, Eq, Structural)]
pub struct AudioControlPage {
    /// Whether track 8 is a master track.
    pub master_track: bool,
    /// Whether the cue outputs are in studio mode.
    pub cue_studio_mode: bool,
}

/// The `AudioControlPage` read from the entries `master_track`, `cue_studio_mode` (in that order; the
/// first entry that cannot be read gives the error).
pub open spec fn spec_audio_control_page(h: Map<Seq<char>, Seq<char>>) -> Result<AudioControlPage, OctatoolErrors> {
    match spec_read_flag(h, "master_track"@) {
        Err(e) => Err(e),
        Ok(master_track) => 
        match spec_read_flag(h, "cue_studio_mode"@) {
            Err(e) => Err(e),
            Ok(cue_studio_mode) => 
            Ok(AudioControlPage { master_track, cue_studio_mode }),
        },
    }
}

impl AudioControlPage {
    /// Reads the page from the key/value entries of a project file.
    pub fn from_hashmap(hmap: &KeyValues) -> (r: Result<Self, OctatoolErrors>)
        ensures
            r == spec_audio_control_page(hmap@),
    {
        let master_track = read_flag(hmap, "master_track")?;
        let cue_studio_mode = read_flag(hmap, "cue_studio_mode")?;
        Ok(AudioControlPage { master_track, cue_studio_mode })
    }
}

/// `PROJECT` -> `CONTROL` -> `INPUT` page.
#[derive(Debug, Clone, Copy, PartialEq, Eq, Structural)]
pub struct InputControlPage {
    /// Noise gate level of the AB inputs.
    pub gate_ab: u8,
    /// Noise gate level of the CD inputs.
    pub gate_cd: u8,
    /// Whether incoming audio is delay compensated.
    pub input_delay_compensation: bool,
}

/// The `InputControlPage` read from the entries `gate_ab`, `gate_cd`, `input_delay_compensation` (in that order; the
/// first entry that cannot be read gives the error).
pub open spec fn spec_input_control_page(h: Map<Seq<char>, Seq<char>>) -> Result<InputControlPage, OctatoolErrors> {
    match spec_read_u8(h, "gate_ab"@) {
        Err(e) => Err(e),
        Ok(gate_ab) => 
        match spec_read_u8(h, "gate_cd"@) {
            Err(e) => Err(e),
            Ok(gate_cd) => 
            match spec_read_flag(h, "input_delay_compensation"@) {
                Err(e) => Err(e),
                Ok(input_delay_compensation) => 
                Ok(InputControlPage { gate_ab, gate_cd, input_delay_compensation }),
            },
        },
    }
}

impl InputControlPage {
    /// Reads the page from the key/value entries of a project file.
    pub fn from_hashmap(hmap: &KeyValues) -> (r: Result<Self, OctatoolErrors>)
        ensures
            r == spec_input_control_page(hmap@),
    {
        let gate_ab = read_u8(hmap, "gate_ab")?;
        let gate_cd = read_u8(hmap, "gate_cd")?;
        let input_delay_compensation = read_flag(hmap, "input_delay_compensation")?;
        Ok(InputControlPage { gate_ab, gate_cd, input_delay_compensation })
    }
}

/// `PROJECT` -> `CONTROL` -> `SEQUENCER` page.
#[derive(Debug, Clone, Copy, PartialEq, Eq, Structural)]
pub struct SequencerControlPage {
    /// When chained patterns start playing.
    pub pattern_change_chain_behaviour: u8,
    /// Whether tracks are silenced on a pattern change.
    pub pattern_change_auto_silence_tracks: bool,
    /// Whether LFOs are retriggered on a pattern change.
    pub pattern_change_auto_trig_lfos: bool,
}

/// The `SequencerControlPage` read from the entries `pattern_change_chain_behavior`, `pattern_change_auto_silence_tracks`, `pattern_change_auto_trig_lfos` (in that order; the
/// first entry that cannot be read gives the error).
pub open spec fn spec_sequencer_control_page(h: Map<Seq<char>, Seq<char>>) -> Result<SequencerControlPage, OctatoolErrors> {
    match spec_read_u8(h, "pattern_change_chain_behavior"@) {
        Err(e) => Err(e),
        Ok(pattern_change_chain_behaviour) => 
        match spec_read_flag(h, "pattern_change_auto_silence_tracks"@) {
            Err(e) => Err(e),
            Ok(pattern_change_auto_silence_tracks) => 
            match spec_read_flag(h, "pattern_change_auto_trig_lfos"@) {
                Err(e) => Err(e),
                Ok(pattern_change_auto_trig_lfos) => 
                Ok(SequencerControlPage { pattern_change_chain_behaviour, pattern_change_auto_silence_tracks, pattern_change_auto_trig_lfos }),
            },
        },
    }
}

impl SequencerControlPage {
    /// Reads the page from the key/value entries of a project file.
    pub fn from_hashmap(hmap: &KeyValues) -> (r: Result<Self, OctatoolErrors>)
        ensures
            r == spec_sequencer_control_page(hmap@),
    {
        let pattern_change_chain_behaviour = read_u8(hmap, "pattern_change_chain_behavior")?;
        let pattern_change_auto_silence_tracks = read_flag(hmap, "pattern_change_auto_silence_tracks")?;
        let pattern_change_auto_trig_lfos = read_flag(hmap, "pattern_change_auto_trig_lfos")?;
        Ok(SequencerControlPage { pattern_change_chain_behaviour, pattern_change_auto_silence_tracks, pattern_change_auto_trig_lfos })
    }
}

/// `PROJECT` -> `CONTROL` -> `MEMORY` page.
#[derive(Debug, Clone, Copy, PartialEq, Eq, Structural)]
pub struct MemoryControlPage {
    /// Whether flex samples load in 24 bit.
    pub load_24bit_flex: bool,
    /// Whether recorders may use free flex memory.
    pub dynamic_recorders: bool,
    /// Whether recordings are 24 bit.
    pub record_24bit: bool,
    /// Number of reserved track recorders.
    pub reserved_recorder_count: u8,
    /// Sequencer steps reserved for track recorders.
    pub reserved_recorder_length: u32,
}

/// The `MemoryControlPage` read from the entries `load_24bit_flex`, `dynamic_recorders`, `record_24bit`, `reserved_recorder_count`, `reserved_recorder_length` (in that order; the
/// first entry that cannot be read gives the error).
pub open spec fn spec_memory_control_page(h: Map<Seq<char>, Seq<char>>) -> Result<MemoryControlPage, OctatoolErrors> {
    match spec_read_flag(h, "load_24bit_flex"@) {
        Err(e) => Err(e),
        Ok(load_24bit_flex) => 
        match spec_read_flag(h, "dynamic_recorders"@) {
            Err(e) => Err(e),
            Ok(dynamic_recorders) => 
            match spec_read_flag(h, "record_24bit"@) {
                Err(e) => Err(e),
                Ok(record_24bit) => 
                match spec_read_u8(h, "reserved_recorder_count"@) {
                    Err(e) => Err(e),
                    Ok(reserved_recorder_count) => 
                    match spec_read_u32(h, "reserved_recorder_length"@) {
                        Err(e) => Err(e),
                        Ok(reserved_recorder_length) => 
                        Ok(MemoryControlPage { load_24bit_flex, dynamic_recorders, record_24bit, reserved_recorder_count, reserved_recorder_length }),
                    },
                },
            },
        },
    }
}

impl MemoryControlPage {
    /// Reads the page from the key/value entries of a project file.
    pub fn from_hashmap(hmap: &KeyValues) -> (r: Result<Self, OctatoolErrors>)
        ensures
            r == spec_memory_control_page(hmap@),
    {
        let load_24bit_flex = read_flag(hmap, "load_24bit_flex")?;
        let dynamic_recorders = read_flag(hmap, "dynamic_recorders")?;
        let record_24bit = read_flag(hmap, "record_24bit")?;
        let reserved_recorder_count = read_u8(hmap, "reserved_recorder_count")?;
        let reserved_recorder_length = read_u32(hmap, "reserved_recorder_length")?;
        Ok(MemoryControlPage { load_24bit_flex, dynamic_recorders, record_24bit, reserved_recorder_count, reserved_recorder_length })
    }
}

/// `PROJECT` -> `CONTROL` -> `METRONOME` page.
#[derive(Debug, Clone, Copy, PartialEq, Eq, Structural)]
pub struct MetronomeControlPage {
    /// Time signature numerator.
    pub metronome_time_signature: u8,
    /// Time signature denominator.
    pub metronome_time_signature_denominator: u8,
    /// Bars of preroll.
    pub metronome_preroll: u8,
    /// Click level on the cue outputs.
    pub metronome_cue_volume: u8,
    /// Click level on the main outputs.
    pub metronome_main_volume: u8,
    /// Click pitch.
    pub metronome_pitch: u8,
    /// Whether the click is tonal.
    pub metronome_tonal: bool,
    /// Whether the metronome is on.
    pub metronome_enabled: bool,
}

/// The `MetronomeControlPage` read from the entries `metronome_time_signature`, `metronome_time_signature_denominator`, `metronome_preroll`, `metronome_cue_volume`, `metronome_main_volume`, `metronome_pitch`, `metronome_tonal`, `metronome_enabled` (in that order; the
/// first entry that cannot be read gives the error).
pub open spec fn spec_metronome_control_page(h: Map<Seq<char>, Seq<char>>) -> Result<MetronomeControlPage, OctatoolErrors> {
    match spec_read_u8(h, "metronome_time_signature"@) {
        Err(e) => Err(e),
        Ok(metronome_time_signature) => 
        match spec_read_u8(h, "metronome_time_signature_denominator"@) {
            Err(e) => Err(e),
            Ok(metronome_time_signature_denominator) => 
            match spec_read_u8(h, "metronome_preroll"@) {
                Err(e) => Err(e),
                Ok(metronome_preroll) => 
                match spec_read_u8(h, "metronome_cue_volume"@) {
                    Err(e) => Err(e),
                    Ok(metronome_cue_volume) => 
                    match spec_read_u8(h, "metronome_main_volume"@) {
                        Err(e) => Err(e),
                        Ok(metronome_main_volume) => 
                        match spec_read_u8(h, "metronome_pitch"@) {
                            Err(e) => Err(e),
                            Ok(metronome_pitch) => 
                            match spec_read_flag(h, "metronome_tonal"@) {
                                Err(e) => Err(e),
                                Ok(metronome_tonal) => 
                                match spec_read_flag(h, "metronome_enabled"@) {
                                    Err(e) => Err(e),
                                    Ok(metronome_enabled) => 
                                    Ok(MetronomeControlPage { metronome_time_signature, metronome_time_signature_denominator, metronome_preroll, metronome_cue_volume, metronome_main_volume, metronome_pitch, metronome_tonal, metronome_enabled }),
                                },
                            },
                        },
                    },
                },
            },
        },
    }
}

impl MetronomeControlPage {
    /// Reads the page from the key/value entries of a project file.
    pub fn from_hashmap(hmap: &KeyValues) -> (r: Result<Self, OctatoolErrors>)
        ensures
            r == spec_metronome_control_page(hmap@),
    {
        let metronome_time_signature = read_u8(hmap, "metronome_time_signature")?;
        let metronome_time_signature_denominator = read_u8(hmap, "metronome_time_signature_denominator")?;
        let metronome_preroll = read_u8(hmap, "metronome_preroll")?;
        let metronome_cue_volume = read_u8(hmap, "metronome_cue_volume")?;
        let metronome_main_volume = read_u8(hmap, "metronome_main_volume")?;
        let metronome_pitch = read_u8(hmap, "metronome_pitch")?;
        let metronome_tonal = read_flag(hmap, "metronome_tonal")?;
        let metronome_enabled = read_flag(hmap, "metronome_enabled")?;
        Ok(MetronomeControlPage { metronome_time_signature, metronome_time_signature_denominator, metronome_preroll, metronome_cue_volume, metronome_main_volume, metronome_pitch, metronome_tonal, metronome_enabled })
    }
}

/// `PROJECT` -> `CONTROL` -> `MIDI` -> `CONTROL` page.
#[derive(Debug, Clone, Copy, PartialEq, Eq, Structural)]
pub struct MidiControlMidiPage {
    /// Whether audio tracks respond to incoming CC messages.
    pub midi_audio_track_cc_in: bool,
    /// How audio tracks send CC messages.
    pub midi_audio_track_cc_out: u8,
    /// How audio tracks respond to incoming notes.
    pub midi_audio_track_note_in: u8,
    /// How audio tracks send notes.
    pub midi_audio_track_note_out: u8,
    /// Incoming CC setting of the MIDI tracks.
    pub midi_midi_track_cc_in: u8,
}

/// The `MidiControlMidiPage` read from the entries `midi_audio_trk_cc_in`, `midi_audio_trk_cc_out`, `midi_audio_trk_note_in`, `midi_audio_trk_note_out`, `midi_midi_trk_cc_in` (in that order; the
/// first entry that cannot be read gives the error).
pub open spec fn spec_midi_control_midi_page(h: Map<Seq<char>, Seq<char>>) -> Result<MidiControlMidiPage, OctatoolErrors> {
    match spec_read_flag(h, "midi_audio_trk_cc_in"@) {
        Err(e) => Err(e),
        Ok(midi_audio_track_cc_in) => 
        match spec_read_u8(h, "midi_audio_trk_cc_out"@) {
            Err(e) => Err(e),
            Ok(midi_audio_track_cc_out) => 
            match spec_read_u8(h, "midi_audio_trk_note_in"@) {
                Err(e) => Err(e),
                Ok(midi_audio_track_note_in) => 
                match spec_read_u8(h, "midi_audio_trk_note_out"@) {
                    Err(e) => Err(e),
                    Ok(midi_audio_track_note_out) => 
                    match spec_read_u8(h, "midi_midi_trk_cc_in"@) {
                        Err(e) => Err(e),
                        Ok(midi_midi_track_cc_in) => 
                        Ok(MidiControlMidiPage { midi_audio_track_cc_in, midi_audio_track_cc_out, midi_audio_track_note_in, midi_audio_track_note_out, midi_midi_track_cc_in }),
                    },
                },
            },
        },
    }
}

impl MidiControlMidiPage {
    /// Reads the page from the key/value entries of a project file.
    pub fn from_hashmap(hmap: &KeyValues) -> (r: Result<Self, OctatoolErrors>)
        ensures
            r == spec_midi_control_midi_page(hmap@),
    {
        let midi_audio_track_cc_in = read_flag(hmap, "midi_audio_trk_cc_in")?;
        let midi_audio_track_cc_out = read_u8(hmap, "midi_audio_trk_cc_out")?;
        let midi_audio_track_note_in = read_u8(hmap, "midi_audio_trk_note_in")?;
        let midi_audio_track_note_out = read_u8(hmap, "midi_audio_trk_note_out")?;
        let midi_midi_track_cc_in = read_u8(hmap, "midi_midi_trk_cc_in")?;
        Ok(MidiControlMidiPage { midi_audio_track_cc_in, midi_audio_track_cc_out, midi_audio_track_note_in, midi_audio_track_note_out, midi_midi_track_cc_in })
    }
}

/// `PROJECT` -> `CONTROL` -> `MIDI` -> `SYNC` page.
#[derive(Debug, Clone, Copy, PartialEq, Eq, Structural)]
pub struct MidiSyncMidiPage {
    /// Whether MIDI clock is sent.
    pub midi_clock_send: bool,
    /// Whether MIDI clock is received.
    pub midi_clock_receive: bool,
    /// Whether transport messages are sent.
    pub midi_transport_send: bool,
    /// Whether transport messages are received.
    pub midi_transport_receive: bool,
    /// Whether program changes are sent.
    pub midi_progchange_send: bool,
    /// Channel program changes are sent on.
    pub midi_progchange_send_channel: ProjectMidiChannels,
    /// Whether program changes are received.
    pub midi_progchange_receive: bool,
    /// Channel program changes are received on.
    pub midi_progchange_receive_channel: ProjectMidiChannels,
}

/// The `MidiSyncMidiPage` read from the entries `midi_clock_send`, `midi_clock_receive`, `midi_transport_send`, `midi_transport_receive`, `midi_program_change_send`, `midi_program_change_send_ch`, `midi_program_change_receive`, `midi_program_change_receive_ch` (in that order; the
/// first entry that cannot be read gives the error).
pub open spec fn spec_midi_sync_midi_page(h: Map<Seq<char>, Seq<char>>) -> Result<MidiSyncMidiPage, OctatoolErrors> {
    match spec_read_flag(h, "midi_clock_send"@) {
        Err(e) => Err(e),
        Ok(midi_clock_send) => 
        match spec_read_flag(h, "midi_clock_receive"@) {
            Err(e) => Err(e),
            Ok(midi_clock_receive) => 
            match spec_read_flag(h, "midi_transport_send"@) {
                Err(e) => Err(e),
                Ok(midi_transport_send) => 
                match spec_read_flag(h, "midi_transport_receive"@) {
                    Err(e) => Err(e),
                    Ok(midi_transport_receive) => 
                    match spec_read_flag(h, "midi_program_change_send"@) {
                        Err(e) => Err(e),
                        Ok(midi_progchange_send) => 
                        match spec_read_channel(h, "midi_program_change_send_ch"@) {
                            Err(e) => Err(e),
                            Ok(midi_progchange_send_channel) => 
                            match spec_read_flag(h, "midi_program_change_receive"@) {
                                Err(e) => Err(e),
                                Ok(midi_progchange_receive) => 
                                match spec_read_channel(h, "midi_program_change_receive_ch"@) {
                                    Err(e) => Err(e),
                                    Ok(midi_progchange_receive_channel) => 
                                    Ok(MidiSyncMidiPage { midi_clock_send, midi_clock_receive, midi_transport_send, midi_transport_receive, midi_progchange_send, midi_progchange_send_channel, midi_progchange_receive, midi_progchange_receive_channel }),
                                },
                            },
                        },
                    },
                },
            },
        },
    }
}

impl MidiSyncMidiPage {
    /// Reads the page from the key/value entries of a project file.
    pub fn from_hashmap(hmap: &KeyValues) -> (r: Result<Self, OctatoolErrors>)
        ensures
            r == spec_midi_sync_midi_page(hmap@),
    {
        let midi_clock_send = read_flag(hmap, "midi_clock_send")?;
        let midi_clock_receive = read_flag(hmap, "midi_clock_receive")?;
        let midi_transport_send = read_flag(hmap, "midi_transport_send")?;
        let midi_transport_receive = read_flag(hmap, "midi_transport_receive")?;
        let midi_progchange_send = read_flag(hmap, "midi_program_change_send")?;
        let midi_progchange_send_channel = read_channel(hmap, "midi_program_change_send_ch")?;
        let midi_progchange_receive = read_flag(hmap, "midi_program_change_receive")?;
        let midi_progchange_receive_channel = read_channel(hmap, "midi_program_change_receive_ch")?;
        Ok(MidiSyncMidiPage { midi_clock_send, midi_clock_receive, midi_transport_send, midi_transport_receive, midi_progchange_send, midi_progchange_send_channel, midi_progchange_receive, midi_progchange_receive_channel })
    }
}

/// `PROJECT` -> `CONTROL` -> `MIDI` -> `CHANNELS` page.
#[derive(Debug, Clone, Copy, PartialEq, Eq, Structural)]
pub struct MidiChannelsMidiPage {
    /// MIDI channel of trig 1.
    pub midi_trig_ch1: u8,
    /// MIDI channel of trig 2.
    pub midi_trig_ch2: u8,
    /// MIDI channel of trig 3.
    pub midi_trig_ch3: u8,
    /// MIDI channel of trig 4.
    pub midi_trig_ch4: u8,
    /// MIDI channel of trig 5.
    pub midi_trig_ch5: u8,
    /// MIDI channel of trig 6.
    pub midi_trig_ch6: u8,
    /// MIDI channel of trig 7.
    pub midi_trig_ch7: u8,
    /// MIDI channel of trig 8.
    pub midi_trig_ch8: u8,
    /// Auto MIDI channel.
    pub midi_auto_channel: u8,
}

/// The `MidiChannelsMidiPage` read from the entries `midi_trig_ch1`, `midi_trig_ch2`, `midi_trig_ch3`, `midi_trig_ch4`, `midi_trig_ch5`, `midi_trig_ch6`, `midi_trig_ch7`, `midi_trig_ch8`, `midi_auto_channel` (in that order; the
/// first entry that cannot be read gives the error).
pub open spec fn spec_midi_channels_midi_page(h: Map<Seq<char>, Seq<char>>) -> Result<MidiChannelsMidiPage, OctatoolErrors> {
    match spec_read_u8(h, "midi_trig_ch1"@) {
        Err(e) => Err(e),
        Ok(midi_trig_ch1) => 
        match spec_read_u8(h, "midi_trig_ch2"@) {
            Err(e) => Err(e),
            Ok(midi_trig_ch2) => 
            match spec_read_u8(h, "midi_trig_ch3"@) {
                Err(e) => Err(e),
                Ok(midi_trig_ch3) => 
                match spec_read_u8(h, "midi_trig_ch4"@) {
                    Err(e) => Err(e),
                    Ok(midi_trig_ch4) => 
                    match spec_read_u8(h, "midi_trig_ch5"@) {
                        Err(e) => Err(e),
                        Ok(midi_trig_ch5) => 
                        match spec_read_u8(h, "midi_trig_ch6"@) {
                            Err(e) => Err(e),
                            Ok(midi_trig_ch6) => 
                            match spec_read_u8(h, "midi_trig_ch7"@) {
                                Err(e) => Err(e),
                                Ok(midi_trig_ch7) => 
                                match spec_read_u8(h, "midi_trig_ch8"@) {
                                    Err(e) => Err(e),
                                    Ok(midi_trig_ch8) => 
                                    match spec_read_u8(h, "midi_auto_channel"@) {
                                        Err(e) => Err(e),
                                        Ok(midi_auto_channel) => 
                                        Ok(MidiChannelsMidiPage { midi_trig_ch1, midi_trig_ch2, midi_trig_ch3, midi_trig_ch4, midi_trig_ch5, midi_trig_ch6, midi_trig_ch7, midi_trig_ch8, midi_auto_channel }),
                                    },
                                },
                            },
                        },
                    },
                },
            },
        },
    }
}

impl MidiChannelsMidiPage {
    /// Reads the page from the key/value entries of a project file.
    pub fn from_hashmap(hmap: &KeyValues) -> (r: Result<Self, OctatoolErrors>)
        ensures
            r == spec_midi_channels_midi_page(hmap@),
    {
        let midi_trig_ch1 = read_u8(hmap, "midi_trig_ch1")?;
        let midi_trig_ch2 = read_u8(hmap, "midi_trig_ch2")?;
        let midi_trig_ch3 = read_u8(hmap, "midi_trig_ch3")?;
        let midi_trig_ch4 = read_u8(hmap, "midi_trig_ch4")?;
        let midi_trig_ch5 = read_u8(hmap, "midi_trig_ch5")?;
        let midi_trig_ch6 = read_u8(hmap, "midi_trig_ch6")?;
        let midi_trig_ch7 = read_u8(hmap, "midi_trig_ch7")?;
        let midi_trig_ch8 = read_u8(hmap, "midi_trig_ch8")?;
        let midi_auto_channel = read_u8(hmap, "midi_auto_channel")?;
        Ok(MidiChannelsMidiPage { midi_trig_ch1, midi_trig_ch2, midi_trig_ch3, midi_trig_ch4, midi_trig_ch5, midi_trig_ch6, midi_trig_ch7, midi_trig_ch8, midi_auto_channel })
    }
}

/// The `MIDI` sub-menu of the control menu.
#[derive(Debug, Clone, Copy, PartialEq, Eq, Structural)]
pub struct MidiSubMenu {
    pub control: MidiControlMidiPage,
    pub sync: MidiSyncMidiPage,
    pub channels: MidiChannelsMidiPage,
}

/// The `MidiSubMenu` read from its three pages in order.
pub open spec fn spec_midi_sub_menu(h: Map<Seq<char>, Seq<char>>) -> Result<MidiSubMenu, OctatoolErrors> {
    match spec_midi_control_midi_page(h) {
        Err(e) => Err(e),
        Ok(control) => match spec_midi_sync_midi_page(h) {
            Err(e) => Err(e),
            Ok(sync) => match spec_midi_channels_midi_page(h) {
                Err(e) => Err(e),
                Ok(channels) => Ok(MidiSubMenu { control, sync, channels }),
            },
        },
    }
}

impl MidiSubMenu {
    /// Reads the MIDI sub-menu from the key/value entries of a project file.
    pub fn from_hashmap(hmap: &KeyValues) -> (r: Result<Self, OctatoolErrors>)
        ensures
            r == spec_midi_sub_menu(hmap@),
    {
        let control = MidiControlMidiPage::from_hashmap(hmap)?;
        let sync = MidiSyncMidiPage::from_hashmap(hmap)?;
        let channels = MidiChannelsMidiPage::from_hashmap(hmap)?;
        Ok(MidiSubMenu { control, sync, channels })
    }
}

/// All pages of the project's `CONTROL` menu.
#[derive(Debug, Clone, Copy, PartialEq, Eq, Structural)]
pub struct ControlMenu {
    pub audio: AudioControlPage,
    pub input: InputControlPage,
    pub sequencer: SequencerControlPage,
    pub midi_sequencer: MidiSequencerControlPage,
    pub memory: MemoryControlPage,
    pub metronome: MetronomeControlPage,
    pub midi: MidiSubMenu,
}

/// The `ControlMenu` read page by page (audio, input, sequencer, memory,
/// metronome, MIDI); the first page that cannot be read gives the error.
pub open spec fn spec_control_menu(h: Map<Seq<char>, Seq<char>>) -> Result<ControlMenu, OctatoolErrors> {
    match spec_audio_control_page(h) {
        Err(e) => Err(e),
        Ok(audio) => match spec_input_control_page(h) {
            Err(e) => Err(e),
            Ok(input) => match spec_sequencer_control_page(h) {
                Err(e) => Err(e),
                Ok(sequencer) => match spec_memory_control_page(h) {
                    Err(e) => Err(e),
                    Ok(memory) => match spec_metronome_control_page(h) {
                        Err(e) => Err(e),
                        Ok(metronome) => match spec_midi_sub_menu(h) {
                            Err(e) => Err(e),
                            Ok(midi) => Ok(ControlMenu {
                                audio,
                                input,
                                sequencer,
                                midi_sequencer: MidiSequencerControlPage {},
                                memory,
                                metronome,
                                midi,
                            }),
                        },
                    },
                },
            },
        },
    }
}

impl ControlMenu {
    /// Reads the whole control menu from the key/value entries of a project
    /// file.
    pub fn from_hashmap(hmap: &KeyValues) -> (r: Result<Self, OctatoolErrors>)
        ensures
            r == spec_control_menu(hmap@),
    {
        let audio = AudioControlPage::from_hashmap(hmap)?;
        let input = InputControlPage::from_hashmap(hmap)?;
        let sequencer = SequencerControlPage::from_hashmap(hmap)?;
        let memory = MemoryControlPage::from_hashmap(hmap)?;
        let metronome = MetronomeControlPage::from_hashmap(hmap)?;
        let midi = MidiSubMenu::from_hashmap(hmap)?;
        Ok(ControlMenu {
            audio,
            input,
            sequencer,
            midi_sequencer: MidiSequencerControlPage {},
            memory,
            metronome,
            midi,
        })
    }
}

/// Reading a `MixerMenu` succeeds exactly when each of its entries can be read,
/// and then takes each setting from the entry of its own name.
pub proof fn lemma_mixer_menu_fields(h: Map<Seq<char>, Seq<char>>)
    ensures
        spec_mixer_menu(h) is Ok <==> (spec_read_u8(h, "gain_ab"@) is Ok
            && spec_read_u8(h, "gain_cd"@) is Ok
            && spec_read_u8(h, "dir_ab"@) is Ok
            && spec_read_u8(h, "dir_cd"@) is Ok
            && spec_read_u8(h, "phones_mix"@) is Ok
            && spec_read_u8(h, "main_to_cue"@) is Ok
            && spec_read_u8(h, "main_level"@) is Ok
            && spec_read_u8(h, "cue_level"@) is Ok),
        spec_mixer_menu(h) matches Ok(m) ==> {
            &&& spec_read_u8(h, "gain_ab"@) == Ok::<_, OctatoolErrors>(m.gain_ab)
            &&& spec_read_u8(h, "gain_cd"@) == Ok::<_, OctatoolErrors>(m.gain_cd)
            &&& spec_read_u8(h, "dir_ab"@) == Ok::<_, OctatoolErrors>(m.dir_ab)
            &&& spec_read_u8(h, "dir_cd"@) == Ok::<_, OctatoolErrors>(m.dir_cd)
            &&& spec_read_u8(h, "phones_mix"@) == Ok::<_, OctatoolErrors>(m.phones_mix)
            &&& spec_read_u8(h, "main_to_cue"@) == Ok::<_, OctatoolErrors>(m.main_to_cue)
            &&& spec_read_u8(h, "main_level"@) == Ok::<_, OctatoolErrors>(m.main_level)
            &&& spec_read_u8(h, "cue_level"@) == Ok::<_, OctatoolErrors>(m.cue_level)
        },
{
}

/// Reading a `MidiTrackTrigModes` succeeds exactly when each of its entries can be read,
/// and then takes each setting from the entry of its own name.
pub proof fn lemma_midi_track_trig_modes_fields(h: Map<Seq<char>, Seq<char>>)
    ensures
        spec_midi_track_trig_modes(h) is Ok <==> (spec_read_u8(h, "trig_mode_midi_track_1"@) is Ok
            && spec_read_u8(h, "trig_mode_midi_track_2"@) is Ok
            && spec_read_u8(h, "trig_mode_midi_track_3"@) is Ok
            && spec_read_u8(h, "trig_mode_midi_track_4"@) is Ok
            && spec_read_u8(h, "trig_mode_midi_track_5"@) is Ok
            && spec_read_u8(h, "trig_mode_midi_track_6"@) is Ok
            && spec_read_u8(h, "trig_mode_midi_track_7"@) is Ok
            && spec_read_u8(h, "trig_mode_midi_track_8"@) is Ok),
        spec_midi_track_trig_modes(h) matches Ok(m) ==> {
            &&& spec_read_u8(h, "trig_mode_midi_track_1"@) == Ok::<_, OctatoolErrors>(m.trig_mode_midi_track_1)
            &&& spec_read_u8(h, "trig_mode_midi_track_2"@) == Ok::<_, OctatoolErrors>(m.trig_mode_midi_track_2)
            &&& spec_read_u8(h, "trig_mode_midi_track_3"@) == Ok::<_, OctatoolErrors>(m.trig_mode_midi_track_3)
            &&& spec_read_u8(h, "trig_mode_midi_track_4"@) == Ok::<_, OctatoolErrors>(m.trig_mode_midi_track_4)
            &&& spec_read_u8(h, "trig_mode_midi_track_5"@) == Ok::<_, OctatoolErrors>(m.trig_mode_midi_track_5)
            &&& spec_read_u8(h, "trig_mode_midi_track_6"@) == Ok::<_, OctatoolErrors>(m.trig_mode_midi_track_6)
            &&& spec_read_u8(h, "trig_mode_midi_track_7"@) == Ok::<_, OctatoolErrors>(m.trig_mode_midi_track_7)
            &&& spec_read_u8(h, "trig_mode_midi_track_8"@) == Ok::<_, OctatoolErrors>(m.trig_mode_midi_track_8)
        },
{
}

/// Reading a `AudioControlPage` succeeds exactly when each of its entries can be read,
/// and then takes each setting from the entry of its own name.
pub proof fn lemma_audio_control_page_fields(h: Map<Seq<char>, Seq<char>>)
    ensures
        spec_audio_control_page(h) is Ok <==> (spec_read_flag(h, "master_track"@) is Ok
            && spec_read_flag(h, "cue_studio_mode"@) is Ok),
        spec_audio_control_page(h) matches Ok(m) ==> {
            &&& spec_read_flag(h, "master_track"@) == Ok::<_, OctatoolErrors>(m.master_track)
            &&& spec_read_flag(h, "cue_studio_mode"@) == Ok::<_, OctatoolErrors>(m.cue_studio_mode)
        },
{
}

/// Reading a `InputControlPage` succeeds exactly when each of its entries can be read,
/// and then takes each setting from the entry of its own name.
pub proof fn lemma_input_control_page_fields(h: Map<Seq<char>, Seq<char>>)
    ensures
        spec_input_control_page(h) is Ok <==> (spec_read_u8(h, "gate_ab"@) is Ok
            && spec_read_u8(h, "gate_cd"@) is Ok
            && spec_read_flag(h, "input_delay_compensation"@) is Ok),
        spec_input_control_page(h) matches Ok(m) ==> {
            &&& spec_read_u8(h, "gate_ab"@) == Ok::<_, OctatoolErrors>(m.gate_ab)
            &&& spec_read_u8(h, "gate_cd"@) == Ok::<_, OctatoolErrors>(m.gate_cd)
            &&& spec_read_flag(h, "input_delay_compensation"@) == Ok::<_, OctatoolErrors>(m.input_delay_compensation)
        },
{
}

/// Reading a `SequencerControlPage` succeeds exactly when each of its entries can be read,
/// and then takes each setting from the entry of its own name.
pub proof fn lemma_sequencer_control_page_fields(h: Map<Seq<char>, Seq<char>>)
    ensures
        spec_sequencer_control_page(h) is Ok <==> (spec_read_u8(h, "pattern_change_chain_behavior"@) is Ok
            && spec_read_flag(h, "pattern_change_auto_silence_tracks"@) is Ok
            && spec_read_flag(h, "pattern_change_auto_trig_lfos"@) is Ok),
        spec_sequencer_control_page(h) matches Ok(m) ==> {
            &&& spec_read_u8(h, "pattern_change_chain_behavior"@) == Ok::<_, OctatoolErrors>(m.pattern_change_chain_behaviour)
            &&& spec_read_flag(h, "pattern_change_auto_silence_tracks"@) == Ok::<_, OctatoolErrors>(m.pattern_change_auto_silence_tracks)
            &&& spec_read_flag(h, "pattern_change_auto_trig_lfos"@) == Ok::<_, OctatoolErrors>(m.pattern_change_auto_trig_lfos)
        },
{
}

/// Reading a `MemoryControlPage` succeeds exactly when each of its entries can be read,
/// and then takes each setting from the entry of its own name.
pub proof fn lemma_memory_control_page_fields(h: Map<Seq<char>, Seq<char>>)
    ensures
        spec_memory_control_page(h) is Ok <==> (spec_read_flag(h, "load_24bit_flex"@) is Ok
            && spec_read_flag(h, "dynamic_recorders"@) is Ok
            && spec_read_flag(h, "record_24bit"@) is Ok
            && spec_read_u8(h, "reserved_recorder_count"@) is Ok
            && spec_read_u32(h, "reserved_recorder_length"@) is Ok),
        spec_memory_control_page(h) matches Ok(m) ==> {
            &&& spec_read_flag(h, "load_24bit_flex"@) == Ok::<_, OctatoolErrors>(m.load_24bit_flex)
            &&& spec_read_flag(h, "dynamic_recorders"@) == Ok::<_, OctatoolErrors>(m.dynamic_recorders)
            &&& spec_read_flag(h, "record_24bit"@) == Ok::<_, OctatoolErrors>(m.record_24bit)
            &&& spec_read_u8(h, "reserved_recorder_count"@) == Ok::<_, OctatoolErrors>(m.reserved_recorder_count)
            &&& spec_read_u32(h, "reserved_recorder_length"@) == Ok::<_, OctatoolErrors>(m.reserved_recorder_length)
        },
{
}

/// Reading a `MetronomeControlPage` succeeds exactly when each of its entries can be read,
/// and then takes each setting from the entry of its own name.
pub proof fn lemma_metronome_control_page_fields(h: Map<Seq<char>, Seq<char>>)
    ensures
        spec_metronome_control_page(h) is Ok <==> (spec_read_u8(h, "metronome_time_signature"@) is Ok
            && spec_read_u8(h, "metronome_time_signature_denominator"@) is Ok
            && spec_read_u8(h, "metronome_preroll"@) is Ok
            && spec_read_u8(h, "metronome_cue_volume"@) is Ok
            && spec_read_u8(h, "metronome_main_volume"@) is Ok
            && spec_read_u8(h, "metronome_pitch"@) is Ok
            && spec_read_flag(h, "metronome_tonal"@) is Ok
            && spec_read_flag(h, "metronome_enabled"@) is Ok),
        spec_metronome_control_page(h) matches Ok(m) ==> {
            &&& spec_read_u8(h, "metronome_time_signature"@) == Ok::<_, OctatoolErrors>(m.metronome_time_signature)
            &&& spec_read_u8(h, "metronome_time_signature_denominator"@) == Ok::<_, OctatoolErrors>(m.metronome_time_signature_denominator)
            &&& spec_read_u8(h, "metronome_preroll"@) == Ok::<_, OctatoolErrors>(m.metronome_preroll)
            &&& spec_read_u8(h, "metronome_cue_volume"@) == Ok::<_, OctatoolErrors>(m.metronome_cue_volume)
            &&& spec_read_u8(h, "metronome_main_volume"@) == Ok::<_, OctatoolErrors>(m.metronome_main_volume)
            &&& spec_read_u8(h, "metronome_pitch"@) == Ok::<_, OctatoolErrors>(m.metronome_pitch)
            &&& spec_read_flag(h, "metronome_tonal"@) == Ok::<_, OctatoolErrors>(m.metronome_tonal)
            &&& spec_read_flag(h, "metronome_enabled"@) == Ok::<_, OctatoolErrors>(m.metronome_enabled)
        },
{
}

/// Reading a `MidiControlMidiPage` succeeds exactly when each of its entries can be read,
/// and then takes each setting from the entry of its own name.
pub proof fn lemma_midi_control_midi_page_fields(h: Map<Seq<char>, Seq<char>>)
    ensures
        spec_midi_control_midi_page(h) is Ok <==> (spec_read_flag(h, "midi_audio_trk_cc_in"@) is Ok
            && spec_read_u8(h, "midi_audio_trk_cc_out"@) is Ok
            && spec_read_u8(h, "midi_audio_trk_note_in"@) is Ok
            && spec_read_u8(h, "midi_audio_trk_note_out"@) is Ok
            && spec_read_u8(h, "midi_midi_trk_cc_in"@) is Ok),
        spec_midi_control_midi_page(h) matches Ok(m) ==> {
            &&& spec_read_flag(h, "midi_audio_trk_cc_in"@) == Ok::<_, OctatoolErrors>(m.midi_audio_track_cc_in)
            &&& spec_read_u8(h, "midi_audio_trk_cc_out"@) == Ok::<_, OctatoolErrors>(m.midi_audio_track_cc_out)
            &&& spec_read_u8(h, "midi_audio_trk_note_in"@) == Ok::<_, OctatoolErrors>(m.midi_audio_track_note_in)
            &&& spec_read_u8(h, "midi_audio_trk_note_out"@) == Ok::<_, OctatoolErrors>(m.midi_audio_track_note_out)
            &&& spec_read_u8(h, "midi_midi_trk_cc_in"@) == Ok::<_, OctatoolErrors>(m.midi_midi_track_cc_in)
        },
{
}

/// Reading a `MidiSyncMidiPage` succeeds exactly when each of its entries can be read,
/// and then takes each setting from the entry of its own name.
pub proof fn lemma_midi_sync_midi_page_fields(h: Map<Seq<char>, Seq<char>>)
    ensures
        spec_midi_sync_midi_page(h) is Ok <==> (spec_read_flag(h, "midi_clock_send"@) is Ok
            && spec_read_flag(h, "midi_clock_receive"@) is Ok
            && spec_read_flag(h, "midi_transport_send"@) is Ok
            && spec_read_flag(h, "midi_transport_receive"@) is Ok
            && spec_read_flag(h, "midi_program_change_send"@) is Ok
            && spec_read_channel(h, "midi_program_change_send_ch"@) is Ok
            && spec_read_flag(h, "midi_program_change_receive"@) is Ok
            && spec_read_channel(h, "midi_program_change_receive_ch"@) is Ok),
        spec_midi_sync_midi_page(h) matches Ok(m) ==> {
            &&& spec_read_flag(h, "midi_clock_send"@) == Ok::<_, OctatoolErrors>(m.midi_clock_send)
            &&& spec_read_flag(h, "midi_clock_receive"@) == Ok::<_, OctatoolErrors>(m.midi_clock_receive)
            &&& spec_read_flag(h, "midi_transport_send"@) == Ok::<_, OctatoolErrors>(m.midi_transport_send)
            &&& spec_read_flag(h, "midi_transport_receive"@) == Ok::<_, OctatoolErrors>(m.midi_transport_receive)
            &&& spec_read_flag(h, "midi_program_change_send"@) == Ok::<_, OctatoolErrors>(m.midi_progchange_send)
            &&& spec_read_channel(h, "midi_program_change_send_ch"@) == Ok::<_, OctatoolErrors>(m.midi_progchange_send_channel)
            &&& spec_read_flag(h, "midi_program_change_receive"@) == Ok::<_, OctatoolErrors>(m.midi_progchange_receive)
            &&& spec_read_channel(h, "midi_program_change_receive_ch"@) == Ok::<_, OctatoolErrors>(m.midi_progchange_receive_channel)
        },
{
}

/// Reading a `MidiChannelsMidiPage` succeeds exactly when each of its entries can be read,
/// and then takes each setting from the entry of its own name.
pub proof fn lemma_midi_channels_midi_page_fields(h: Map<Seq<char>, Seq<char>>)
    ensures
        spec_midi_channels_midi_page(h) is Ok <==> (spec_read_u8(h, "midi_trig_ch1"@) is Ok
            && spec_read_u8(h, "midi_trig_ch2"@) is Ok
            && spec_read_u8(h, "midi_trig_ch3"@) is Ok
            && spec_read_u8(h, "midi_trig_ch4"@) is Ok
            && spec_read_u8(h, "midi_trig_ch5"@) is Ok
            && spec_read_u8(h, "midi_trig_ch6"@) is Ok
            && spec_read_u8(h, "midi_trig_ch7"@) is Ok
            && spec_read_u8(h, "midi_trig_ch8"@) is Ok
            && spec_read_u8(h, "midi_auto_channel"@) is Ok),
        spec_midi_channels_midi_page(h) matches Ok(m) ==> {
            &&& spec_read_u8(h, "midi_trig_ch1"@) == Ok::<_, OctatoolErrors>(m.midi_trig_ch1)
            &&& spec_read_u8(h, "midi_trig_ch2"@) == Ok::<_, OctatoolErrors>(m.midi_trig_ch2)
            &&& spec_read_u8(h, "midi_trig_ch3"@) == Ok::<_, OctatoolErrors>(m.midi_trig_ch3)
            &&& spec_read_u8(h, "midi_trig_ch4"@) == Ok::<_, OctatoolErrors>(m.midi_trig_ch4)
            &&& spec_read_u8(h, "midi_trig_ch5"@) == Ok::<_, OctatoolErrors>(m.midi_trig_ch5)
            &&& spec_read_u8(h, "midi_trig_ch6"@) == Ok::<_, OctatoolErrors>(m.midi_trig_ch6)
            &&& spec_read_u8(h, "midi_trig_ch7"@) == Ok::<_, OctatoolErrors>(m.midi_trig_ch7)
            &&& spec_read_u8(h, "midi_trig_ch8"@) == Ok::<_, OctatoolErrors>(m.midi_trig_ch8)
            &&& spec_read_u8(h, "midi_auto_channel"@) == Ok::<_, OctatoolErrors>(m.midi_auto_channel)
        },
{
}

/// Reading a `MidiSubMenu` succeeds exactly when each of its entries can be read,
/// and then takes each setting from the entry of its own name.
pub proof fn lemma_midi_sub_menu_fields(h: Map<Seq<char>, Seq<char>>)
    ensures
        spec_midi_sub_menu(h) is Ok <==> (spec_midi_control_midi_page(h) is Ok
            && spec_midi_sync_midi_page(h) is Ok
            && spec_midi_channels_midi_page(h) is Ok),
        spec_midi_sub_menu(h) matches Ok(m) ==> {
            &&& spec_midi_control_midi_page(h) == Ok::<_, OctatoolErrors>(m.control)
            &&& spec_midi_sync_midi_page(h) == Ok::<_, OctatoolErrors>(m.sync)
            &&& spec_midi_channels_midi_page(h) == Ok::<_, OctatoolErrors>(m.channels)
        },
{
}

/// Reading the `TempoMenu` succeeds exactly when both of its entries can be
/// read; the tempo is the `tempox24` entry divided by 24, and the pattern
/// tempo flag is the `pattern_tempo_enabled` entry.
pub proof fn lemma_tempo_menu_fields(h: Map<Seq<char>, Seq<char>>)
    ensures
        spec_tempo_menu(h) is Ok <==> (spec_read_u32(h, "tempox24"@) is Ok && spec_read_flag(h, "pattern_tempo_enabled"@) is Ok),
        spec_tempo_menu(h) matches Ok(m) ==> {
            &&& spec_read_u32(h, "tempox24"@) matches Ok(t) && m.tempo == t / 24
            &&& spec_read_flag(h, "pattern_tempo_enabled"@) == Ok::<_, OctatoolErrors>(m.pattern_tempo_enabled)
        },
{
}

/// Reading the `ControlMenu` succeeds exactly when each of its pages can be
/// read, and then holds each page as read on its own.
pub proof fn lemma_control_menu_fields(h: Map<Seq<char>, Seq<char>>)
    ensures
        spec_control_menu(h) is Ok <==> (spec_audio_control_page(h) is Ok && spec_input_control_page(h) is Ok
            && spec_sequencer_control_page(h) is Ok && spec_memory_control_page(h) is Ok
            && spec_metronome_control_page(h) is Ok && spec_midi_sub_menu(h) is Ok),
        spec_control_menu(h) matches Ok(m) ==> {
            &&& spec_audio_control_page(h) == Ok::<_, OctatoolErrors>(m.audio)
            &&& spec_input_control_page(h) == Ok::<_, OctatoolErrors>(m.input)
            &&& spec_sequencer_control_page(h) == Ok::<_, OctatoolErrors>(m.sequencer)
            &&& spec_memory_control_page(h) == Ok::<_, OctatoolErrors>(m.memory)
            &&& spec_metronome_control_page(h) == Ok::<_, OctatoolErrors>(m.metronome)
            &&& spec_midi_sub_menu(h) == Ok::<_, OctatoolErrors>(m.midi)
        },
{
}

/// The numbers that project files store for the MIDI channel settings:
/// disabled is -1 and channel `n` is `n` (0 names no setting).
pub proof fn lemma_midi_channel_values()
    ensures
        ProjectMidiChannels::Disabled.spec_value() == -1,
        ProjectMidiChannels::One.spec_value() == 1,
        ProjectMidiChannels::Two.spec_value() == 2,
        ProjectMidiChannels::Three.spec_value() == 3,
        ProjectMidiChannels::Four.spec_value() == 4,
        ProjectMidiChannels::Five.spec_value() == 5,
        ProjectMidiChannels::Six.spec_value() == 6,
        ProjectMidiChannels::Seven.spec_value() == 7,
        ProjectMidiChannels::Eight.spec_value() == 8,
        ProjectMidiChannels::Nine.spec_value() == 9,
        ProjectMidiChannels::Ten.spec_value() == 10,
        ProjectMidiChannels::Eleven.spec_value() == 11,
        ProjectMidiChannels::Twelve.spec_value() == 12,
        ProjectMidiChannels::Thirteen.spec_value() == 13,
        ProjectMidiChannels::Fourteen.spec_value() == 14,
        ProjectMidiChannels::Fifteen.spec_value() == 15,
        ProjectMidiChannels::Sixteen.spec_value() == 16,
        ProjectMidiChannels::spec_from_value(0) is Err,
{
}

} // verus!
