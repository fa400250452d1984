//! Project sample slots as stored in the `[SAMPLE]` sections of an Octatrack
//! project file.

use vstd::prelude::*;
use crate::errors::OctatoolErrors;
use crate::keyvalues::{parse_hashmap_string_value, spec_read_value, KeyValues};
use crate::options::{
    ProjectSampleSlotType, SampleAttributeLoopMode, SampleAttributeTimestrechMode,
    SampleAttributeTrigQuantizationMode,
};

verus! {

/// A sample slot of a project.
#[derive(Debug, Clone, PartialEq, Eq, Hash)]
pub struct ProjectSampleSlot {
    /// Type of sample: STATIC or FLEX (or a recorder buffer).
    pub sample_type: ProjectSampleSlotType,
    /// Number of the slot: up to 128 for static and flex slots, 129 to 136 for
    /// the eight recorder buffers.
    pub slot_id: u8,
    /// Path of the audio file, relative to the project directory.
    pub path: String,
    /// Trim length in bars, multiplied by 100.
    pub trim_bars_x100: u16,
    /// Time-stretch mode of the slot.
    pub timestrech_mode: SampleAttributeTimestrechMode,
    /// Loop mode of the slot.
    pub loop_mode: SampleAttributeLoopMode,
    /// Trig quantization mode of the slot.
    pub trig_quantization_mode: SampleAttributeTrigQuantizationMode,
    /// Gain of the slot relative to the default (the file stores it plus 48).
    pub gain: i8,
    /// Tempo of the sample in this slot.
    pub bpm: u16,
}

/// Mathematical value of a sample slot: its fields, the path as characters.
pub struct SlotView {
    pub sample_type: ProjectSampleSlotType,
    pub slot_id: u8,
    pub path: Seq<char>,
    pub trim_bars_x100: u16,
    pub timestrech_mode: SampleAttributeTimestrechMode,
    pub loop_mode: SampleAttributeLoopMode,
    pub trig_quantization_mode: SampleAttributeTrigQuantizationMode,
    pub gain: i8,
    pub bpm: u16,
}

impl View for ProjectSampleSlot {
    type V = SlotView;

    open spec fn view(&self) -> SlotView {
        SlotView {
            sample_type: self.sample_type,
            slot_id: self.slot_id,
            path: self.path@,
            trim_bars_x100: self.trim_bars_x100,
            timestrech_mode: self.timestrech_mode,
            loop_mode: self.loop_mode,
            trig_quantization_mode: self.trig_quantization_mode,
            gain: self.gain,
            bpm: self.bpm,
        }
    }
}

/// The default recorder-buffer slot with number `id`.
pub open spec fn spec_recorder_slot(id: u8) -> SlotView {
    SlotView {
        sample_type: ProjectSampleSlotType::RecorderBuffer,
        slot_id: id,
        path: Seq::empty(),
        trim_bars_x100: 0,
        timestrech_mode: SampleAttributeTimestrechMode::Off,
        loop_mode: SampleAttributeLoopMode::Off,
        trig_quantization_mode: SampleAttributeTrigQuantizationMode::Direct,
        gain: 24,
        bpm: 120,
    }
}

impl ProjectSampleSlot {
    /// A copy of this slot.
    pub fn copy_slot(&self) -> (r: Self)
        ensures
            r == *self,
            r@ == self@,
    {
        ProjectSampleSlot {
            sample_type: self.sample_type,
            slot_id: self.slot_id,
            path: self.path.clone(),
            trim_bars_x100: self.trim_bars_x100,
            timestrech_mode: self.timestrech_mode,
            loop_mode: self.loop_mode,
            trig_quantization_mode: self.trig_quantization_mode,
            gain: self.gain,
            bpm: self.bpm,
        }
    }

    /// A new slot; settings that are not given take their defaults
    /// (trim 0, default modes, gain 24, tempo 120).
    #[allow(clippy::too_many_arguments)]
    pub fn new(
        sample_type: ProjectSampleSlotType,
        slot_id: u8,
        path: String,
        trim_bars_x100: Option<u16>,
        timestretch_mode: Option<SampleAttributeTimestrechMode>,
        loop_mode: Option<SampleAttributeLoopMode>,
        trig_quantization_mode: Option<SampleAttributeTrigQuantizationMode>,
        gain: Option<i8>,
        bpm: Option<u16>,
    ) -> (r: Result<Self, OctatoolErrors>)
        ensures
            r matches Ok(s) && s@ == (SlotView {
                sample_type,
                slot_id,
                path: path@,
                trim_bars_x100: match trim_bars_x100 { Some(x) => x, None => 0 },
                timestrech_mode: match timestretch_mode {
                    Some(x) => x,
                    None => SampleAttributeTimestrechMode::Off,
                },
                loop_mode: match loop_mode { Some(x) => x, None => SampleAttributeLoopMode::Off },
                trig_quantization_mode: match trig_quantization_mode {
                    Some(x) => x,
                    None => SampleAttributeTrigQuantizationMode::Direct,
                },
                gain: match gain { Some(x) => x, None => 24 },
                bpm: match bpm { Some(x) => x, None => 120 },
            }),
    {
        Ok(ProjectSampleSlot {
            sample_type,
            slot_id,
            path,
            trim_bars_x100: match trim_bars_x100 { Some(x) => x, None => 0 },
            timestrech_mode: match timestretch_mode {
                Some(x) => x,
                None => SampleAttributeTimestrechMode::default(),
            },
            loop_mode: match loop_mode {
                Some(x) => x,
                None => SampleAttributeLoopMode::default(),
            },
            trig_quantization_mode: match trig_quantization_mode {
                Some(x) => x,
                None => SampleAttributeTrigQuantizationMode::default(),
            },
            gain: match gain { Some(x) => x, None => 24 },
            bpm: match bpm { Some(x) => x, None => 120 },
        })
    }

    /// The default slots of a project: the eight recorder buffers, numbered
    /// 129 to 136 in ascending order.
    pub fn defaults() -> (r: Vec<Self>)
        ensures
            r@.len() == 8,
            forall|i: int| 0 <= i < 8 ==> (#[trigger] r@[i])@ == spec_recorder_slot((129 + i) as u8),
    {
        let mut slots: Vec<Self> = Vec::new();
        let mut id: u8 = 129;
        while id <= 136
            invariant
                129 <= id <= 137,
                slots@.len() == id - 129,
                forall|i: int| 0 <= i < slots@.len() ==> (#[trigger] slots@[i])@ == spec_recorder_slot((129 + i) as u8),
            decreases 137 - id,
        {
            slots.push(ProjectSampleSlot {
                sample_type: ProjectSampleSlotType::RecorderBuffer,
                slot_id: id,
                path: String::new(),
                trim_bars_x100: 0,
                timestrech_mode: SampleAttributeTimestrechMode::default(),
                loop_mode: SampleAttributeLoopMode::default(),
                trig_quantization_mode: SampleAttributeTrigQuantizationMode::default(),
                gain: 24,
                bpm: 120,
            });
            id = id + 1;
        }
        slots
    }
}

/// The number `slot` entry of a sample section names.
pub open spec fn spec_parse_id(m: Map<Seq<char>, Seq<char>>) -> Result<u8, OctatoolErrors> {
    match spec_read_value(m, "slot"@, None, false, 0, 255) {
        Ok(v) => Ok(v as u8),
        Err(_) => Err(OctatoolErrors::ProjectSampleSlotParsingError),
    }
}

/// Reads the slot number (`slot` entry): an error when it is missing or not a `u8`.
pub fn parse_id(hmap: &KeyValues) -> (r: Result<u8, OctatoolErrors>)
    ensures
        r == spec_parse_id(hmap@),
{
    match parse_hashmap_string_value(hmap, "slot", None, false, 0, 255) {
        Ok(v) => Ok(v as u8),
        Err(_) => Err(OctatoolErrors::ProjectSampleSlotParsingError),
    }
}

/// The trim length the `trim_barsx100` entry gives (0 when it is absent or invalid).
pub open spec fn spec_trim_bars(m: Map<Seq<char>, Seq<char>>) -> u16 {
    match spec_read_value(m, "trim_barsx100"@, Some("0"@), false, 0, 65535) {
        Ok(v) => v as u16,
        Err(_) => 0,
    }
}

/// Reads the trim length (`trim_barsx100` entry), 0 when absent or invalid.
pub fn parse_trim_bars(hmap: &KeyValues) -> (r: Result<u16, OctatoolErrors>)
    ensures
        r == Ok::<u16, OctatoolErrors>(spec_trim_bars(hmap@)),
{
    let x = match parse_hashmap_string_value(hmap, "trim_barsx100", Some("0"), false, 0, 65535) {
        Ok(v) => v as u16,
        Err(_) => 0,
    };
    Ok(x)
}

/// The loop mode the `loopmode` entry gives (its number, 0 when absent or
/// invalid, read as a loop mode).
pub open spec fn spec_loop_mode(m: Map<Seq<char>, Seq<char>>) -> Result<SampleAttributeLoopMode, OctatoolErrors> {
    let x: u32 = match spec_read_value(m, "loopmode"@, Some("0"@), false, 0, 0xffff_ffff) {
        Ok(v) => v as u32,
        Err(_) => 0,
    };
    SampleAttributeLoopMode::spec_from_value(x)
}

/// Reads the loop mode (`loopmode` entry).
pub fn parse_loop_mode(hmap: &KeyValues) -> (r: Result<SampleAttributeLoopMode, OctatoolErrors>)
    ensures
        r == spec_loop_mode(hmap@),
{
    let x: u32 = match parse_hashmap_string_value(hmap, "loopmode", Some("0"), false, 0, 0xffff_ffff) {
        Ok(v) => v as u32,
        Err(_) => 0,
    };
    SampleAttributeLoopMode::from_value(&x)
}

/// The time-stretch mode the `tsmode` entry gives (its number, 0 when absent
/// or invalid, read as a time-stretch mode).
pub open spec fn spec_tstrech_mode(m: Map<Seq<char>, Seq<char>>) -> Result<SampleAttributeTimestrechMode, OctatoolErrors> {
    let x: u32 = match spec_read_value(m, "tsmode"@, Some("0"@), false, 0, 0xffff_ffff) {
        Ok(v) => v as u32,
        Err(_) => 0,
    };
    SampleAttributeTimestrechMode::spec_from_value(x)
}

/// Reads the time-stretch mode (`tsmode` entry).
pub fn parse_tstrech_mode(hmap: &KeyValues) -> (r: Result<SampleAttributeTimestrechMode, OctatoolErrors>)
    ensures
        r == spec_tstrech_mode(hmap@),
{
    let x: u32 = match parse_hashmap_string_value(hmap, "tsmode", Some("0"), false, 0, 0xffff_ffff) {
        Ok(v) => v as u32,
        Err(_) => 0,
    };
    SampleAttributeTimestrechMode::from_value(&x)
}

/// The quantization mode the `trigquantization` entry gives: its `i16` number
/// (255 when absent or invalid), with negative numbers taken as 255, read as a
/// quantization mode.
pub open spec fn spec_trig_quantize_mode(m: Map<Seq<char>, Seq<char>>) -> Result<SampleAttributeTrigQuantizationMode, OctatoolErrors> {
    let x: int = match spec_read_value(m, "trigquantization"@, Some("255"@), true, -32768, 32767) {
        Ok(v) => v,
        Err(_) => 255,
    };
    let y: u32 = if x < 0 { 255 } else { x as u32 };
    SampleAttributeTrigQuantizationMode::spec_from_value(y)
}

/// Reads the trig quantization mode (`trigquantization` entry).
pub fn parse_trig_quantize_mode(hmap: &KeyValues) -> (r: Result<SampleAttributeTrigQuantizationMode, OctatoolErrors>)
    ensures
        r == spec_trig_quantize_mode(hmap@),
{
    let x_i16: i64 = match parse_hashmap_string_value(hmap, "trigquantization", Some("255"), true, -32768, 32767) {
        Ok(v) => v,
        Err(_) => 255,
    };
    let x_u32: u32 = if x_i16 < 0 { 255 } else { x_i16 as u32 };
    SampleAttributeTrigQuantizationMode::from_value(&x_u32)
}

/// The stored gain number of the `gain` entry (48 when absent or invalid).
pub open spec fn spec_gain_raw(m: Map<Seq<char>, Seq<char>>) -> int {
    match spec_read_value(m, "gain"@, Some("48"@), true, -128, 127) {
        Ok(v) => v,
        Err(_) => 48,
    }
}

/// Reads the gain (`gain` entry, an `i8` stored plus 48).
pub fn parse_gain(hmap: &KeyValues) -> (r: Result<i8, OctatoolErrors>)
    requires
        spec_gain_raw(hmap@) >= -80,
    ensures
        r == Ok::<i8, OctatoolErrors>((spec_gain_raw(hmap@) - 48) as i8),
{
    let x: i64 = match parse_hashmap_string_value(hmap, "gain", Some("48"), true, -128, 127) {
        Ok(v) => v,
        Err(_) => 48,
    };
    Ok((x - 48) as i8)
}

/// The tempo the `bpm` entry gives: its `u16` number (2880 when absent or
/// invalid) divided by 24.
pub open spec fn spec_tempo(m: Map<Seq<char>, Seq<char>>) -> u16 {
    let x: int = match spec_read_value(m, "bpm"@, Some("2880"@), false, 0, 65535) {
        Ok(v) => v,
        Err(_) => 2880,
    };
    (x / 24) as u16
}

/// Reads the tempo (`bpm` entry, stored multiplied by 24).
pub fn parse_tempo(hmap: &KeyValues) -> (r: Result<u16, OctatoolErrors>)
    ensures
        r == Ok::<u16, OctatoolErrors>(spec_tempo(hmap@)),
{
    let x: i64 = match parse_hashmap_string_value(hmap, "bpm", Some("2880"), false, 0, 65535) {
        Ok(v) => v,
        Err(_) => 2880,
    };
    Ok((x / 24) as u16)
}

/// What the type text of a sample section is: recorder buffers (numbers 129
/// and above) are always `RECORDER`, other slots name their type.
pub open spec fn spec_type_text(m: Map<Seq<char>, Seq<char>>, id: u8) -> Seq<char> {
    if id >= 129 { "RECORDER"@ } else { m["type"@] }
}

/// The inputs on which reading a sample section does not fail on a missing
/// entry or an out-of-range gain: the `type` entry (for slots numbered below
/// 129) and the `path` entry are present when they are read, and the stored
/// gain is at least -80 when it is read.
pub open spec fn spec_slot_readable(m: Map<Seq<char>, Seq<char>>) -> bool {
    match spec_parse_id(m) {
        Err(_) => true,
        Ok(id) => {
            &&& (id < 129 ==> m.contains_key("type"@))
            &&& (ProjectSampleSlotType::spec_from_value(spec_type_text(m, id)) is Ok ==> {
                &&& m.contains_key("path"@)
                &&& (spec_loop_mode(m) is Ok && spec_tstrech_mode(m) is Ok
                    && spec_trig_quantize_mode(m) is Ok ==> spec_gain_raw(m) >= -80)
            })
        },
    }
}

/// Whether reading a sample section's entries can go ahead (see
/// `spec_slot_readable`).
pub fn slot_readable(hmap: &KeyValues) -> (r: bool)
    ensures
        r == spec_slot_readable(hmap@),
{
    let id = match parse_id(hmap) {
        Err(_) => {
            return true;
        },
        Ok(id) => id,
    };
    let type_ok = if id >= 129 {
        proof {
            reveal_strlit("RECORDER");
        }
        true
    } else {
        match hmap.get("type") {
            None => {
                return false;
            },
            Some(t) => ProjectSampleSlotType::from_value(t.as_str()).is_ok(),
        }
    };
    if !type_ok {
        return true;
    }
    if hmap.get("path").is_none() {
        return false;
    }
    if parse_loop_mode(hmap).is_ok() && parse_tstrech_mode(hmap).is_ok() && parse_trig_quantize_mode(hmap).is_ok() {
        let x: i64 = match parse_hashmap_string_value(hmap, "gain", Some("48"), true, -128, 127) {
            Ok(v) => v,
            Err(_) => 48,
        };
        x >= -80
    } else {
        true
    }
}

/// The sample slot a sample section's entries describe, or the first error
/// met while reading them (number, type, loop mode, time-stretch mode,
/// quantization mode, in that order).
pub open spec fn spec_slot_from_map(m: Map<Seq<char>, Seq<char>>) -> Result<SlotView, OctatoolErrors> {
    match spec_parse_id(m) {
        Err(e) => Err(e),
        Ok(id) => match ProjectSampleSlotType::spec_from_value(spec_type_text(m, id)) {
            Err(e) => Err(e),
            Ok(t) => match spec_loop_mode(m) {
                Err(e) => Err(e),
                Ok(lm) => match spec_tstrech_mode(m) {
                    Err(e) => Err(e),
                    Ok(ts) => match spec_trig_quantize_mode(m) {
                        Err(e) => Err(e),
                        Ok(tq) => Ok(SlotView {
                            sample_type: t,
                            slot_id: id,
                            path: m["path"@],
                            trim_bars_x100: spec_trim_bars(m),
                            timestrech_mode: ts,
                            loop_mode: lm,
                            trig_quantization_mode: tq,
                            gain: (spec_gain_raw(m) - 48) as i8,
                            bpm: spec_tempo(m),
                        }),
                    },
                },
            },
        },
    }
}

/// A slot read from the entries of a `[SAMPLE]` section takes each setting
/// from its own entry: the number from `slot`, the path from `path`, the trim
/// from `trim_barsx100`, the time-stretch, loop and trig quantization modes
/// from `tsmode`, `loopmode` and `trigquantization`, the gain from `gain`
/// (less 48) and the tempo from `bpm`.
pub proof fn lemma_slot_from_map_fields(m: Map<Seq<char>, Seq<char>>)
    ensures
        spec_slot_from_map(m) matches Ok(v) ==> {
            &&& spec_parse_id(m) == Ok::<_, OctatoolErrors>(v.slot_id)
            &&& v.path == m["path"@]
            &&& v.trim_bars_x100 == spec_trim_bars(m)
            &&& spec_tstrech_mode(m) == Ok::<_, OctatoolErrors>(v.timestrech_mode)
            &&& spec_loop_mode(m) == Ok::<_, OctatoolErrors>(v.loop_mode)
            &&& spec_trig_quantize_mode(m) == Ok::<_, OctatoolErrors>(v.trig_quantization_mode)
            &&& v.gain == (spec_gain_raw(m) - 48) as i8
            &&& v.bpm == spec_tempo(m)
        },
{
}

impl ProjectSampleSlot {
    /// Reads a sample slot from the (lower-cased) entries of one `[SAMPLE]`
    /// section of a project file.
    pub fn from_hashmap(hmap: &KeyValues) -> (r: Result<Self, OctatoolErrors>)
        requires
            spec_slot_readable(hmap@),
        ensures
            match r {
                Ok(s) => spec_slot_from_map(hmap@) == Ok::<SlotView, OctatoolErrors>(s@),
                Err(e) => spec_slot_from_map(hmap@) == Err::<SlotView, OctatoolErrors>(e),
            },
    {
        let slot_id = parse_id(hmap)?;
        let sample_type = if slot_id >= 129 {
            ProjectSampleSlotType::from_value("RECORDER")?
        } else {
            let t = hmap.get("type");
            match t {
                Some(t) => ProjectSampleSlotType::from_value(t.as_str())?,
                None => {
                    assert(false);
                    return Err(OctatoolErrors::ProjectSampleSlotParsingError);
                },
            }
        };
        let path = match hmap.get("path") {
            Some(p) => p.clone(),
            None => {
                assert(false);
                return Err(OctatoolErrors::ProjectSampleSlotParsingError);
            },
        };
        let trim_bars = parse_trim_bars(hmap)?;
        let loop_mode = parse_loop_mode(hmap)?;
        let timestrech_mode = parse_tstrech_mode(hmap)?;
        let trig_quantization_mode = parse_trig_quantize_mode(hmap)?;
        let gain = parse_gain(hmap)?;
        let bpm = parse_tempo(hmap)?;
        Ok(ProjectSampleSlot {
            sample_type,
            slot_id,
            path,
            trim_bars_x100: trim_bars,
            timestrech_mode,
            loop_mode,
            trig_quantization_mode,
            gain,
            bpm,
        })
    }
}

} // verus!
