//! Option values stored in Octatrack data files for sample slots.

use vstd::prelude::*;
use crate::errors::OctatoolErrors;
use crate::strings::str_eq;

verus! {

/// Loop mode of a sample (slot or attributes file).
#[derive(Debug, Clone, Copy, PartialEq, Eq, Structural, Hash)]
pub enum SampleAttributeLoopMode {
    Off,
    Normal,
    PingPong,
}

impl SampleAttributeLoopMode {
    /// The number stored in data files for each loop mode.
    pub open spec fn spec_value(self) -> u32 {
        match self {
            SampleAttributeLoopMode::Off => 0,
            SampleAttributeLoopMode::Normal => 1,
            SampleAttributeLoopMode::PingPong => 2,
        }
    }

    /// Option for a stored value (an error for a value that names no option).
    pub open spec fn spec_from_value(v: u32) -> Result<Self, OctatoolErrors> {
        if v == 0 {
            Ok(SampleAttributeLoopMode::Off)
        } else if v == 1 {
            Ok(SampleAttributeLoopMode::Normal)
        } else if v == 2 {
            Ok(SampleAttributeLoopMode::PingPong)
        } else {
            Err(OctatoolErrors::NoMatchingOptionEnumValue)
        }
    }

    /// Stored value of this option.
    pub fn value(&self) -> (r: u32)
        ensures
            r == self.spec_value(),
    {
        match self {
            SampleAttributeLoopMode::Off => 0,
            SampleAttributeLoopMode::Normal => 1,
            SampleAttributeLoopMode::PingPong => 2,
        }
    }

    /// Option for a stored value; an error for a value that names no option.
    pub fn from_value(v: &u32) -> (r: Result<Self, OctatoolErrors>)
        ensures
            r == Self::spec_from_value(*v),
    {
        match *v {
            0 => Ok(SampleAttributeLoopMode::Off),
            1 => Ok(SampleAttributeLoopMode::Normal),
            2 => Ok(SampleAttributeLoopMode::PingPong),
            _ => Err(OctatoolErrors::NoMatchingOptionEnumValue),
        }
    }
}

impl Default for SampleAttributeLoopMode {
    /// The default option (`Off`).
    fn default() -> (r: Self)
        ensures
            r == SampleAttributeLoopMode::Off,
    {
        SampleAttributeLoopMode::Off
    }
}

/// Time-stretch algorithm of a sample (slot or attributes file).
#[derive(Debug, Clone, Copy, PartialEq, Eq, Structural, Hash)]
pub enum SampleAttributeTimestrechMode {
    Off,
    Normal,
    Beat,
}

impl SampleAttributeTimestrechMode {
    /// The number stored in data files for each time-stretch mode.
    pub open spec fn spec_value(self) -> u32 {
        match self {
            SampleAttributeTimestrechMode::Off => 0,
            SampleAttributeTimestrechMode::Normal => 2,
            SampleAttributeTimestrechMode::Beat => 3,
        }
    }

    /// Option for a stored value (an error for a value that names no option).
    pub open spec fn spec_from_value(v: u32) -> Result<Self, OctatoolErrors> {
        if v == 0 {
            Ok(SampleAttributeTimestrechMode::Off)
        } else if v == 2 {
            Ok(SampleAttributeTimestrechMode::Normal)
        } else if v == 3 {
            Ok(SampleAttributeTimestrechMode::Beat)
        } else {
            Err(OctatoolErrors::NoMatchingOptionEnumValue)
        }
    }

    /// Stored value of this option.
    pub fn value(&self) -> (r: u32)
        ensures
            r == self.spec_value(),
    {
        match self {
            SampleAttributeTimestrechMode::Off => 0,
            SampleAttributeTimestrechMode::Normal => 2,
            SampleAttributeTimestrechMode::Beat => 3,
        }
    }

    /// Option for a stored value; an error for a value that names no option.
    pub fn from_value(v: &u32) -> (r: Result<Self, OctatoolErrors>)
        ensures
            r == Self::spec_from_value(*v),
    {
        match *v {
            0 => Ok(SampleAttributeTimestrechMode::Off),
            2 => Ok(SampleAttributeTimestrechMode::Normal),
            3 => Ok(SampleAttributeTimestrechMode::Beat),
            _ => Err(OctatoolErrors::NoMatchingOptionEnumValue),
        }
    }
}

impl Default for SampleAttributeTimestrechMode {
    /// The default option (`Off`).
    fn default() -> (r: Self)
        ensures
            r == SampleAttributeTimestrechMode::Off,
    {
        SampleAttributeTimestrechMode::Off
    }
}

/// Trig quantization of a sample (slot or attributes file).
#[derive(Debug, Clone, Copy, PartialEq, Eq, Structural, Hash)]
pub enum SampleAttributeTrigQuantizationMode {
    Direct,
    PatternLength,
    OneStep,
    TwoSteps,
    ThreeSteps,
    FourSteps,
    SixSteps,
    EightSteps,
    TwelveSteps,
    SixteenSteps,
    TwentyFourSteps,
    ThirtyTwoSteps,
    FourtyEightSteps,
    SixtyFourSteps,
    NinetySixSteps,
    OneTwentyEightSteps,
    OneNinetyTwoSteps,
    TwoFiveSixSteps,
}

impl SampleAttributeTrigQuantizationMode {
    /// The number stored in data files for each quantization mode (`Direct` is 255).
    pub open spec fn spec_value(self) -> u32 {
        match self {
            SampleAttributeTrigQuantizationMode::Direct => 255,
            SampleAttributeTrigQuantizationMode::PatternLength => 0,
            SampleAttributeTrigQuantizationMode::OneStep => 1,
            SampleAttributeTrigQuantizationMode::TwoSteps => 2,
            SampleAttributeTrigQuantizationMode::ThreeSteps => 3,
            SampleAttributeTrigQuantizationMode::FourSteps => 4,
            SampleAttributeTrigQuantizationMode::SixSteps => 6,
            SampleAttributeTrigQuantizationMode::EightSteps => 8,
            SampleAttributeTrigQuantizationMode::TwelveSteps => 12,
            SampleAttributeTrigQuantizationMode::SixteenSteps => 16,
            SampleAttributeTrigQuantizationMode::TwentyFourSteps => 24,
            SampleAttributeTrigQuantizationMode::ThirtyTwoSteps => 32,
            SampleAttributeTrigQuantizationMode::FourtyEightSteps => 48,
            SampleAttributeTrigQuantizationMode::SixtyFourSteps => 64,
            SampleAttributeTrigQuantizationMode::NinetySixSteps => 96,
            SampleAttributeTrigQuantizationMode::OneTwentyEightSteps => 128,
            SampleAttributeTrigQuantizationMode::OneNinetyTwoSteps => 192,
            SampleAttributeTrigQuantizationMode::TwoFiveSixSteps => 256,
        }
    }

    /// Option for a stored value (an error for a value that names no option).
    pub open spec fn spec_from_value(v: u32) -> Result<Self, OctatoolErrors> {
        if v == 255 {
            Ok(SampleAttributeTrigQuantizationMode::Direct)
        } else if v == 0 {
            Ok(SampleAttributeTrigQuantizationMode::PatternLength)
        } else if v == 1 {
            Ok(SampleAttributeTrigQuantizationMode::OneStep)
        } else if v == 2 {
            Ok(SampleAttributeTrigQuantizationMode::TwoSteps)
        } else if v == 3 {
            Ok(SampleAttributeTrigQuantizationMode::ThreeSteps)
        } else if v == 4 {
            Ok(SampleAttributeTrigQuantizationMode::FourSteps)
        } else if v == 6 {
            Ok(SampleAttributeTrigQuantizationMode::SixSteps)
        } else if v == 8 {
            Ok(SampleAttributeTrigQuantizationMode::EightSteps)
        } else if v == 12 {
            Ok(SampleAttributeTrigQuantizationMode::TwelveSteps)
        } else if v == 16 {
            Ok(SampleAttributeTrigQuantizationMode::SixteenSteps)
        } else if v == 24 {
            Ok(SampleAttributeTrigQuantizationMode::TwentyFourSteps)
        } else if v == 32 {
            Ok(SampleAttributeTrigQuantizationMode::ThirtyTwoSteps)
        } else if v == 48 {
            Ok(SampleAttributeTrigQuantizationMode::FourtyEightSteps)
        } else if v == 64 {
            Ok(SampleAttributeTrigQuantizationMode::SixtyFourSteps)
        } else if v == 96 {
            Ok(SampleAttributeTrigQuantizationMode::NinetySixSteps)
        } else if v == 128 {
            Ok(SampleAttributeTrigQuantizationMode::OneTwentyEightSteps)
        } else if v == 192 {
            Ok(SampleAttributeTrigQuantizationMode::OneNinetyTwoSteps)
        } else if v == 256 {
            Ok(SampleAttributeTrigQuantizationMode::TwoFiveSixSteps)
        } else {
            Err(OctatoolErrors::NoMatchingOptionEnumValue)
        }
    }

    /// Stored value of this option.
    pub fn value(&self) -> (r: u32)
        ensures
            r == self.spec_value(),
    {
        match self {
            SampleAttributeTrigQuantizationMode::Direct => 255,
            SampleAttributeTrigQuantizationMode::PatternLength => 0,
            SampleAttributeTrigQuantizationMode::OneStep => 1,
            SampleAttributeTrigQuantizationMode::TwoSteps => 2,
            SampleAttributeTrigQuantizationMode::ThreeSteps => 3,
            SampleAttributeTrigQuantizationMode::FourSteps => 4,
            SampleAttributeTrigQuantizationMode::SixSteps => 6,
            SampleAttributeTrigQuantizationMode::EightSteps => 8,
            SampleAttributeTrigQuantizationMode::TwelveSteps => 12,
            SampleAttributeTrigQuantizationMode::SixteenSteps => 16,
            SampleAttributeTrigQuantizationMode::TwentyFourSteps => 24,
            SampleAttributeTrigQuantizationMode::ThirtyTwoSteps => 32,
            SampleAttributeTrigQuantizationMode::FourtyEightSteps => 48,
            SampleAttributeTrigQuantizationMode::SixtyFourSteps => 64,
            SampleAttributeTrigQuantizationMode::NinetySixSteps => 96,
            SampleAttributeTrigQuantizationMode::OneTwentyEightSteps => 128,
            SampleAttributeTrigQuantizationMode::OneNinetyTwoSteps => 192,
            SampleAttributeTrigQuantizationMode::TwoFiveSixSteps => 256,
        }
    }

    /// Option for a stored value; an error for a value that names no option.
    pub fn from_value(v: &u32) -> (r: Result<Self, OctatoolErrors>)
        ensures
            r == Self::spec_from_value(*v),
    {
        match *v {
            255 => Ok(SampleAttributeTrigQuantizationMode::Direct),
            0 => Ok(SampleAttributeTrigQuantizationMode::PatternLength),
            1 => Ok(SampleAttributeTrigQuantizationMode::OneStep),
            2 => Ok(SampleAttributeTrigQuantizationMode::TwoSteps),
            3 => Ok(SampleAttributeTrigQuantizationMode::ThreeSteps),
            4 => Ok(SampleAttributeTrigQuantizationMode::FourSteps),
            6 => Ok(SampleAttributeTrigQuantizationMode::SixSteps),
            8 => Ok(SampleAttributeTrigQuantizationMode::EightSteps),
            12 => Ok(SampleAttributeTrigQuantizationMode::TwelveSteps),
            16 => Ok(SampleAttributeTrigQuantizationMode::SixteenSteps),
            24 => Ok(SampleAttributeTrigQuantizationMode::TwentyFourSteps),
            32 => Ok(SampleAttributeTrigQuantizationMode::ThirtyTwoSteps),
            48 => Ok(SampleAttributeTrigQuantizationMode::FourtyEightSteps),
            64 => Ok(SampleAttributeTrigQuantizationMode::SixtyFourSteps),
            96 => Ok(SampleAttributeTrigQuantizationMode::NinetySixSteps),
            128 => Ok(SampleAttributeTrigQuantizationMode::OneTwentyEightSteps),
            192 => Ok(SampleAttributeTrigQuantizationMode::OneNinetyTwoSteps),
            256 => Ok(SampleAttributeTrigQuantizationMode::TwoFiveSixSteps),
            _ => Err(OctatoolErrors::NoMatchingOptionEnumValue),
        }
    }
}

impl Default for SampleAttributeTrigQuantizationMode {
    /// The default option (`Direct`).
    fn default() -> (r: Self)
        ensures
            r == SampleAttributeTrigQuantizationMode::Direct,
    {
        SampleAttributeTrigQuantizationMode::Direct
    }
}

/// Type of a project sample slot.
#[derive(Debug, Clone, Copy, PartialEq, Eq, Structural, Hash)]
pub enum ProjectSampleSlotType {
    /// Static machine sample slot.
    Static,
    /// Flex machine sample slot.
    Flex,
    /// Recorder buffer (stored as a flex slot with an id above 128).
    RecorderBuffer,
}

impl ProjectSampleSlotType {
    /// The text used for each slot type in project files.
    pub open spec fn spec_value(self) -> Seq<char> {
        match self {
            ProjectSampleSlotType::Static => "STATIC"@,
            ProjectSampleSlotType::Flex => "FLEX"@,
            ProjectSampleSlotType::RecorderBuffer => "RECORDER"@,
        }
    }

    /// Slot type named by a text (an error for any other text).
    pub open spec fn spec_from_value(v: Seq<char>) -> Result<Self, OctatoolErrors> {
        if v == "STATIC"@ {
            Ok(ProjectSampleSlotType::Static)
        } else if v == "FLEX"@ {
            Ok(ProjectSampleSlotType::Flex)
        } else if v == "RECORDER"@ {
            Ok(ProjectSampleSlotType::RecorderBuffer)
        } else {
            Err(OctatoolErrors::NoMatchingOptionEnumValue)
        }
    }

    /// Text of this slot type.
    pub fn value(&self) -> (r: String)
        ensures
            r@ == self.spec_value(),
    {
        match self {
            ProjectSampleSlotType::Static => String::from_str("STATIC"),
            ProjectSampleSlotType::Flex => String::from_str("FLEX"),
            ProjectSampleSlotType::RecorderBuffer => String::from_str("RECORDER"),
        }
    }

    /// Slot type named by `v`; an error for any other text.
    pub fn from_value(v: &str) -> (r: Result<Self, OctatoolErrors>)
        ensures
            r == Self::spec_from_value(v@),
    {
        if str_eq(v, "STATIC") {
            Ok(ProjectSampleSlotType::Static)
        } else if str_eq(v, "FLEX") {
            Ok(ProjectSampleSlotType::Flex)
        } else if str_eq(v, "RECORDER") {
            Ok(ProjectSampleSlotType::RecorderBuffer)
        } else {
            Err(OctatoolErrors::NoMatchingOptionEnumValue)
        }
    }
}

/// Reading a stored loop-mode value gives back exactly the mode that was
/// stored, and a value reads as a mode only if it is that mode's value.
pub proof fn lemma_loop_mode_value_roundtrip(m: SampleAttributeLoopMode, v: u32)
    ensures
        SampleAttributeLoopMode::spec_from_value(m.spec_value()) == Ok::<SampleAttributeLoopMode, OctatoolErrors>(m),
        SampleAttributeLoopMode::spec_from_value(v) == Ok::<SampleAttributeLoopMode, OctatoolErrors>(m) ==> m.spec_value() == v,
{
}

/// Reading a stored time-stretch value gives back exactly the mode that was
/// stored, and a value reads as a mode only if it is that mode's value.
pub proof fn lemma_timestretch_mode_value_roundtrip(m: SampleAttributeTimestrechMode, v: u32)
    ensures
        SampleAttributeTimestrechMode::spec_from_value(m.spec_value()) == Ok::<SampleAttributeTimestrechMode, OctatoolErrors>(m),
        SampleAttributeTimestrechMode::spec_from_value(v) == Ok::<SampleAttributeTimestrechMode, OctatoolErrors>(m) ==> m.spec_value() == v,
{
}

/// Reading a stored trig-quantization value gives back exactly the mode that
/// was stored, and a value reads as a mode only if it is that mode's value.
pub proof fn lemma_trig_quantization_mode_value_roundtrip(m: SampleAttributeTrigQuantizationMode, v: u32)
    ensures
        SampleAttributeTrigQuantizationMode::spec_from_value(m.spec_value()) == Ok::<SampleAttributeTrigQuantizationMode, OctatoolErrors>(m),
        SampleAttributeTrigQuantizationMode::spec_from_value(v) == Ok::<SampleAttributeTrigQuantizationMode, OctatoolErrors>(m) ==> m.spec_value() == v,
{
}

/// Reading the text of a slot type gives back that slot type, and a text
/// reads as a slot type only if it is that type's text.
pub proof fn lemma_slot_type_value_roundtrip(m: ProjectSampleSlotType, v: Seq<char>)
    ensures
        ProjectSampleSlotType::spec_from_value(m.spec_value()) == Ok::<ProjectSampleSlotType, OctatoolErrors>(m),
        ProjectSampleSlotType::spec_from_value(v) == Ok::<ProjectSampleSlotType, OctatoolErrors>(m) ==> m.spec_value() == v,
{
    reveal_strlit("STATIC");
    reveal_strlit("FLEX");
    reveal_strlit("RECORDER");
    assert("STATIC"@ != "FLEX"@) by {
        assert("STATIC"@.len() != "FLEX"@.len());
    }
    assert("STATIC"@ != "RECORDER"@) by {
        assert("STATIC"@.len() != "RECORDER"@.len());
    }
    assert("FLEX"@ != "RECORDER"@) by {
        assert("FLEX"@.len() != "RECORDER"@.len());
    }
}

/// The numbers that sample attributes files store for the loop modes: off
/// is 0, normal 1, ping-pong 2.
pub proof fn lemma_loop_mode_values()
    ensures
        SampleAttributeLoopMode::Off.spec_value() == 0,
        SampleAttributeLoopMode::Normal.spec_value() == 1,
        SampleAttributeLoopMode::PingPong.spec_value() == 2,
{
}

/// The numbers that sample attributes files store for the time-stretch
/// modes: off is 0, normal 2, beat 3 (1 names no mode).
pub proof fn lemma_timestretch_mode_values()
    ensures
        SampleAttributeTimestrechMode::Off.spec_value() == 0,
        SampleAttributeTimestrechMode::Normal.spec_value() == 2,
        SampleAttributeTimestrechMode::Beat.spec_value() == 3,
        SampleAttributeTimestrechMode::spec_from_value(1) is Err,
{
}

/// The numbers that sample attributes files store for the trig quantization
/// modes: direct is 255, pattern length 0, and each step mode its number of
/// steps.
pub proof fn lemma_trig_quantization_mode_values()
    ensures
        SampleAttributeTrigQuantizationMode::Direct.spec_value() == 255,
        SampleAttributeTrigQuantizationMode::PatternLength.spec_value() == 0,
        SampleAttributeTrigQuantizationMode::OneStep.spec_value() == 1,
        SampleAttributeTrigQuantizationMode::TwoSteps.spec_value() == 2,
        SampleAttributeTrigQuantizationMode::ThreeSteps.spec_value() == 3,
        SampleAttributeTrigQuantizationMode::FourSteps.spec_value() == 4,
        SampleAttributeTrigQuantizationMode::SixSteps.spec_value() == 6,
        SampleAttributeTrigQuantizationMode::EightSteps.spec_value() == 8,
        SampleAttributeTrigQuantizationMode::TwelveSteps.spec_value() == 12,
        SampleAttributeTrigQuantizationMode::SixteenSteps.spec_value() == 16,
        SampleAttributeTrigQuantizationMode::TwentyFourSteps.spec_value() == 24,
        SampleAttributeTrigQuantizationMode::ThirtyTwoSteps.spec_value() == 32,
        SampleAttributeTrigQuantizationMode::FourtyEightSteps.spec_value() == 48,
        SampleAttributeTrigQuantizationMode::SixtyFourSteps.spec_value() == 64,
        SampleAttributeTrigQuantizationMode::NinetySixSteps.spec_value() == 96,
        SampleAttributeTrigQuantizationMode::OneTwentyEightSteps.spec_value() == 128,
        SampleAttributeTrigQuantizationMode::OneNinetyTwoSteps.spec_value() == 192,
        SampleAttributeTrigQuantizationMode::TwoFiveSixSteps.spec_value() == 256,
{
}

/// The texts that project files write for the slot types: `STATIC`, `FLEX`
/// and `RECORDER`.
pub proof fn lemma_slot_type_texts()
    ensures
        ProjectSampleSlotType::Static.spec_value() == "STATIC"@,
        ProjectSampleSlotType::Flex.spec_value() == "FLEX"@,
        ProjectSampleSlotType::RecorderBuffer.spec_value() == "RECORDER"@,
{
}

} // verus!
