//! Sample attributes (`.ot`) files: their fields, the byte order swap applied
//! to them on little-endian systems, and their checksum.

use vstd::prelude::*;
use vstd::arithmetic::div_mod::lemma_add_mod_noop;
use crate::options::{SampleAttributeLoopMode, SampleAttributeTimestrechMode, SampleAttributeTrigQuantizationMode};

verus! {

/// Header bytes (and the spacer bytes after them) of a sample attributes
/// file: `FORM....DPS1SMPA` followed by seven spacer bytes.
pub const FULL_HEADER: [u8; 23] = [
    0x46, 0x4F, 0x52, 0x4D, 0x00, 0x00, 0x00, 0x00, 0x44, 0x50, 0x53, 0x31, 0x53, 0x4D, 0x50, 0x41,
    0x00, 0x00, 0x00, 0x00, 0x00, 0x02, 0x00,
];

/// Errors of building sample attributes from settings.
#[derive(Debug, Clone, Copy, PartialEq, Eq, Structural, Hash)]
pub enum SampleAttributeErrors {
    /// The tempo is outside 30 to 300 BPM (720 to 7200 stored).
    TempoOutOfBounds,
    /// The gain is outside -24 to +24 dB (0 to 96 stored).
    GainOutOfBounds,
    /// Fewer bytes than a sample attributes file holds (832).
    InvalidLength,
}

/// `x` with its four bytes in reverse order.
pub open spec fn spec_swap_u32(x: u32) -> u32 {
    ((x & 0xff) << 24u32) | ((x & 0xff00) << 8u32) | ((x >> 8u32) & 0xff00) | (x >> 24u32)
}

/// `x` with its two bytes in reverse order.
pub open spec fn spec_swap_u16(x: u16) -> u16 {
    ((x & 0xff) << 8u16) | (x >> 8u16)
}

/// Reverses the byte order of a `u32`.
pub fn swap_u32(x: u32) -> (r: u32)
    ensures
        r == spec_swap_u32(x),
{
    ((x & 0xff) << 24u32) | ((x & 0xff00) << 8u32) | ((x >> 8u32) & 0xff00) | (x >> 24u32)
}

/// Reverses the byte order of a `u16`.
pub fn swap_u16(x: u16) -> (r: u16)
    ensures
        r == spec_swap_u16(x),
{
    ((x & 0xff) << 8u16) | (x >> 8u16)
}

/// Byte `k` (0 is the lowest) of a `u32` becomes byte `3 - k` when its bytes
/// are swapped, and swapping twice gives the number back.
pub proof fn lemma_swap_u32(x: u32)
    ensures
        spec_swap_u32(spec_swap_u32(x)) == x,
        spec_swap_u32(x) & 0xff == (x >> 24u32) & 0xff,
        (spec_swap_u32(x) >> 8u32) & 0xff == (x >> 16u32) & 0xff,
        (spec_swap_u32(x) >> 16u32) & 0xff == (x >> 8u32) & 0xff,
        (spec_swap_u32(x) >> 24u32) & 0xff == x & 0xff,
{
    assert(spec_swap_u32(spec_swap_u32(x)) == x) by (bit_vector);
    assert(spec_swap_u32(x) & 0xff == (x >> 24u32) & 0xff) by (bit_vector);
    assert((spec_swap_u32(x) >> 8u32) & 0xff == (x >> 16u32) & 0xff) by (bit_vector);
    assert((spec_swap_u32(x) >> 16u32) & 0xff == (x >> 8u32) & 0xff) by (bit_vector);
    assert((spec_swap_u32(x) >> 24u32) & 0xff == x & 0xff) by (bit_vector);
}

/// Swapping the two bytes of a `u16` twice gives the number back; the low
/// byte becomes the high byte.
pub proof fn lemma_swap_u16(x: u16)
    ensures
        spec_swap_u16(spec_swap_u16(x)) == x,
        spec_swap_u16(x) & 0xff == x >> 8u16,
        spec_swap_u16(x) >> 8u16 == x & 0xff,
{
    assert(spec_swap_u16(spec_swap_u16(x)) == x) by (bit_vector);
    assert(spec_swap_u16(x) & 0xff == x >> 8u16) by (bit_vector);
    assert(spec_swap_u16(x) >> 8u16 == x & 0xff) by (bit_vector);
}

/// Byte order swap of every field of a data file structure (applied before
/// writing and after reading on little-endian systems).
pub trait SwapBytes {
    /// The swapped type.
    type T;

    /// The value with the bytes of each field swapped.
    fn swap_bytes(self) -> Result<Self::T, SampleAttributeErrors>;
}

/// Trim and loop points of one slice of a sample.
#[derive(Debug, Clone, Copy, PartialEq, Eq, Structural, Hash)]
pub struct Slice {
    pub trim_start: u32,
    pub trim_end: u32,
    /// `0xFFFFFFFF` when the slice has no loop point.
    pub loop_start: u32,
}

/// The slice with the bytes of each field swapped.
pub open spec fn spec_swapped_slice(s: Slice) -> Slice {
    Slice {
        trim_start: spec_swap_u32(s.trim_start),
        trim_end: spec_swap_u32(s.trim_end),
        loop_start: spec_swap_u32(s.loop_start),
    }
}

impl SwapBytes for Slice {
    type T = Slice;

    fn swap_bytes(self) -> (r: Result<Slice, SampleAttributeErrors>)
        ensures
            r == Ok::<Slice, SampleAttributeErrors>(spec_swapped_slice(self)),
    {
        Ok(Slice {
            trim_start: swap_u32(self.trim_start),
            trim_end: swap_u32(self.trim_end),
            loop_start: swap_u32(self.loop_start),
        })
    }
}

/// The 64 slice positions of a sample and how many of them are used.
#[derive(Debug, Clone, Copy, PartialEq, Eq)]
pub struct Slices {
    pub slices: [Slice; 64],
    pub count: u32,
}

/// Trim settings of a sample.
#[derive(Debug, Clone, Copy, PartialEq, Eq, Structural, Hash)]
pub struct SampleTrimConfig {
    pub start: u32,
    pub end: u32,
    pub length: u32,
}

/// Loop settings of a sample.
#[derive(Debug, Clone, Copy, PartialEq, Eq, Structural, Hash)]
pub struct SampleLoopConfig {
    pub start: u32,
    pub length: u32,
    pub mode: SampleAttributeLoopMode,
}

/// Contents of a sample attributes (`.ot`) file, with its numbers as stored:
/// tempo is BPM times 24, gain is `2 * (dB + 24)`.
#[derive(Debug, Clone, Copy, PartialEq, Eq)]
pub struct SampleAttributes {
    pub header: [u8; 23],
    pub tempo: u32,
    pub trim_len: u32,
    pub loop_len: u32,
    pub stretch: u32,
    pub loop_mode: u32,
    pub gain: u16,
    pub quantization: u8,
    pub trim_start: u32,
    pub trim_end: u32,
    pub loop_start: u32,
    pub slices: [Slice; 64],
    pub slices_len: u32,
    /// Sum of the bytes between header and checksum (see
    /// `calculate_checksum_sample_attr_bytes`); 0 until computed.
    pub checksum: u16,
}

/// Whether `r` is `a` with the bytes of every number swapped and the
/// standard header.
pub open spec fn spec_swapped_attributes(a: SampleAttributes, r: SampleAttributes) -> bool {
    &&& r.header@ == FULL_HEADER@
    &&& r.tempo == spec_swap_u32(a.tempo)
    &&& r.trim_len == spec_swap_u32(a.trim_len)
    &&& r.loop_len == spec_swap_u32(a.loop_len)
    &&& r.stretch == spec_swap_u32(a.stretch)
    &&& r.loop_mode == spec_swap_u32(a.loop_mode)
    &&& r.gain == spec_swap_u16(a.gain)
    &&& r.quantization == a.quantization
    &&& r.trim_start == spec_swap_u32(a.trim_start)
    &&& r.trim_end == spec_swap_u32(a.trim_end)
    &&& r.loop_start == spec_swap_u32(a.loop_start)
    &&& forall|i: int| 0 <= i < 64 ==> #[trigger] r.slices@[i] == spec_swapped_slice(a.slices@[i])
    &&& r.slices_len == spec_swap_u32(a.slices_len)
    &&& r.checksum == spec_swap_u16(a.checksum)
}

impl SwapBytes for SampleAttributes {
    type T = SampleAttributes;

    /// Swaps the bytes of every number (the header is set to the standard
    /// header).
    fn swap_bytes(self) -> (r: Result<SampleAttributes, SampleAttributeErrors>)
        ensures
            r matches Ok(s) && spec_swapped_attributes(self, s),
    {
        let mut bswapped_slices: [Slice; 64] = self.slices;
        let mut i: usize = 0;
        while i < 64
            invariant
                i <= 64,
                forall|k: int| 0 <= k < i ==> #[trigger] bswapped_slices@[k] == spec_swapped_slice(self.slices@[k]),
            decreases 64 - i,
        {
            let s = match self.slices[i].swap_bytes() {
                Ok(s) => s,
                Err(e) => {
                    return Err(e);
                },
            };
            bswapped_slices[i] = s;
            i = i + 1;
        }
        Ok(SampleAttributes {
            header: FULL_HEADER,
            tempo: swap_u32(self.tempo),
            trim_len: swap_u32(self.trim_len),
            loop_len: swap_u32(self.loop_len),
            stretch: swap_u32(self.stretch),
            loop_mode: swap_u32(self.loop_mode),
            gain: swap_u16(self.gain),
            quantization: self.quantization,
            trim_start: swap_u32(self.trim_start),
            trim_end: swap_u32(self.trim_end),
            loop_start: swap_u32(self.loop_start),
            slices: bswapped_slices,
            slices_len: swap_u32(self.slices_len),
            checksum: swap_u16(self.checksum),
        })
    }
}

/// Swapping the bytes of sample attributes twice gives back the attributes
/// (when they carry the standard header).
pub proof fn lemma_swap_attributes_twice(a: SampleAttributes, b: SampleAttributes, c: SampleAttributes)
    requires
        a.header@ == FULL_HEADER@,
        spec_swapped_attributes(a, b),
        spec_swapped_attributes(b, c),
    ensures
        c == a,
{
    lemma_swap_u32(a.tempo);
    lemma_swap_u32(a.trim_len);
    lemma_swap_u32(a.loop_len);
    lemma_swap_u32(a.stretch);
    lemma_swap_u32(a.loop_mode);
    lemma_swap_u16(a.gain);
    lemma_swap_u32(a.trim_start);
    lemma_swap_u32(a.trim_end);
    lemma_swap_u32(a.loop_start);
    lemma_swap_u32(a.slices_len);
    lemma_swap_u16(a.checksum);
    assert forall|i: int| 0 <= i < 64 implies #[trigger] c.slices@[i] == a.slices@[i] by {
        lemma_swap_u32(a.slices@[i].trim_start);
        lemma_swap_u32(a.slices@[i].trim_end);
        lemma_swap_u32(a.slices@[i].loop_start);
    }
    assert(c.slices =~= a.slices);
    assert(c.header =~= a.header);
}

/// The sample attributes built from settings, or the error for the first
/// setting out of range (gain before tempo).
pub open spec fn spec_new_attributes(
    tempo: u32,
    stretch: SampleAttributeTimestrechMode,
    quantization: SampleAttributeTrigQuantizationMode,
    gain: u16,
    trim_config: SampleTrimConfig,
    loop_config: SampleLoopConfig,
    slices: Slices,
) -> Result<SampleAttributes, SampleAttributeErrors> {
    if gain > 96 {
        Err(SampleAttributeErrors::GainOutOfBounds)
    } else if tempo < 720 || tempo > 7200 {
        Err(SampleAttributeErrors::TempoOutOfBounds)
    } else {
        Ok(SampleAttributes {
            header: FULL_HEADER,
            gain,
            stretch: stretch.spec_value(),
            tempo,
            quantization: quantization.spec_value() as u8,
            trim_start: trim_config.start,
            trim_end: trim_config.end,
            trim_len: trim_config.length,
            loop_start: loop_config.start,
            loop_len: loop_config.length,
            loop_mode: loop_config.mode.spec_value(),
            slices: slices.slices,
            slices_len: slices.count,
            checksum: 0,
        })
    }
}

/// Attributes built from settings take each field from its own setting: the
/// tempo, gain, time-stretch and trig quantization as given (the
/// quantization stored in one byte, so modulo 256), the trim start,
/// end and length from the trim settings, the loop start, length and mode
/// from the loop settings, and the slices and their number from `slices`;
/// the header is the standard one and the checksum is left at 0. The build
/// fails exactly when the gain is above 96 or the tempo outside 720 to 7200.
pub proof fn lemma_new_attributes_fields(
    tempo: u32,
    stretch: SampleAttributeTimestrechMode,
    quantization: SampleAttributeTrigQuantizationMode,
    gain: u16,
    trim_config: SampleTrimConfig,
    loop_config: SampleLoopConfig,
    slices: Slices,
)
    ensures
        spec_new_attributes(tempo, stretch, quantization, gain, trim_config, loop_config, slices) is Ok
            <==> (gain <= 96 && 720 <= tempo <= 7200),
        spec_new_attributes(tempo, stretch, quantization, gain, trim_config, loop_config, slices) matches Ok(a) ==> {
            &&& a.header == FULL_HEADER
            &&& a.tempo == tempo
            &&& a.gain == gain
            &&& a.stretch == stretch.spec_value()
            &&& a.quantization as int == quantization.spec_value() % 256
            &&& a.trim_start == trim_config.start
            &&& a.trim_end == trim_config.end
            &&& a.trim_len == trim_config.length
            &&& a.loop_start == loop_config.start
            &&& a.loop_len == loop_config.length
            &&& a.loop_mode == loop_config.mode.spec_value()
            &&& a.slices == slices.slices
            &&& a.slices_len == slices.count
            &&& a.checksum == 0
        },
{
    let v = quantization.spec_value();
    assert(v as u8 as u32 == v % 256) by (bit_vector);
}

impl SampleAttributes {
    /// Sample attributes from settings. `tempo` is the stored tempo (BPM
    /// times 24, 720 to 7200 for 30 to 300 BPM) and `gain` the stored gain
    /// (`2 * (dB + 24)`, 0 to 96 for -24 to +24 dB); the checksum is left at 0.
    pub fn new(
        tempo: &u32,
        stretch: &SampleAttributeTimestrechMode,
        quantization: &SampleAttributeTrigQuantizationMode,
        gain: &u16,
        trim_config: &SampleTrimConfig,
        loop_config: &SampleLoopConfig,
        slices: &Slices,
    ) -> (r: Result<Self, SampleAttributeErrors>)
        ensures
            r == spec_new_attributes(*tempo, *stretch, *quantization, *gain, *trim_config, *loop_config, *slices),
    {
        if *gain > 96 {
            return Err(SampleAttributeErrors::GainOutOfBounds);
        }
        if *tempo < 720 || *tempo > 7200 {
            return Err(SampleAttributeErrors::TempoOutOfBounds);
        }
        let q = quantization.value();
        Ok(SampleAttributes {
            header: FULL_HEADER,
            gain: *gain,
            stretch: stretch.value(),
            tempo: *tempo,
            quantization: q as u8,
            trim_start: trim_config.start,
            trim_end: trim_config.end,
            trim_len: trim_config.length,
            loop_start: loop_config.start,
            loop_len: loop_config.length,
            loop_mode: loop_config.mode.value(),
            slices: slices.slices,
            slices_len: slices.count,
            checksum: 0,
        })
    }
}

/// Sum of the bytes of `s`.
pub open spec fn byte_sum(s: Seq<u8>) -> int
    decreases s.len(),
{
    if s.len() == 0 {
        0
    } else {
        byte_sum(s.drop_last()) + s.last()
    }
}

/// The checksum of the bytes of a sample attributes file: the sum of the
/// bytes after the 16 header bytes and before the two checksum bytes, modulo
/// 65536.
pub open spec fn spec_checksum(bytes: Seq<u8>) -> u16 {
    (byte_sum(bytes.subrange(16, bytes.len() - 2)) % 65536) as u16
}

/// The checksum of the bytes of a sample attributes file (832 bytes when
/// well formed): the sum of all bytes after the 16 header bytes and before
/// the final two checksum bytes, wrapping around at 65536.
pub fn calculate_checksum_sample_attr_bytes(bytes: &[u8]) -> (r: Result<u16, SampleAttributeErrors>)
    requires
        bytes@.len() >= 18,
    ensures
        r == Ok::<u16, SampleAttributeErrors>(spec_checksum(bytes@)),
{
    let end = bytes.len() - 2;
    let mut chk: u32 = 0;
    let mut i: usize = 16;
    while i < end
        invariant
            16 <= i <= end,
            end == bytes@.len() - 2,
            chk < 65536,
            chk == byte_sum(bytes@.subrange(16, i as int)) % 65536,
        decreases end - i,
    {
        let ghost before = bytes@.subrange(16, i as int);
        assert(bytes@.subrange(16, i + 1).drop_last() =~= before);
        proof {
            lemma_add_mod_noop(byte_sum(before), bytes@[i as int] as int, 65536);
            assert((bytes@[i as int] as int) % 65536 == bytes@[i as int] as int);
            assert((chk as int % 65536) == chk as int);
        }
        chk = (chk + bytes[i] as u32) % 65536;
        i = i + 1;
    }
    Ok(chk as u16)
}

/// Raw bytes of a sample attributes file.
#[derive(Debug, Clone, Copy, PartialEq, Eq)]
pub struct SampleAttributesRawBytes {
    pub data: [u8; 832],
}

/// The slice of an audio file of `len` samples placed at sample `trim_start`
/// of a chain (no loop point).
pub open spec fn spec_chain_slice(len: u32, trim_start: int) -> Slice {
    Slice { trim_start: trim_start as u32, trim_end: (trim_start + len) as u32, loop_start: 0xFFFF_FFFF }
}

/// The slice of an unchained audio file of `wav_len` samples that starts at
/// sample `trim_start` of the eventual chain.
pub fn create_slice_from_wavfile(wav_len: u32, trim_start: u32) -> (r: Result<Slice, SampleAttributeErrors>)
    requires
        trim_start + wav_len <= u32::MAX,
    ensures
        r == Ok::<Slice, SampleAttributeErrors>(spec_chain_slice(wav_len, trim_start as int)),
{
    Ok(Slice { trim_start, trim_end: trim_start + wav_len, loop_start: 0xFFFF_FFFF })
}

/// Sum of the first `n` lengths.
pub open spec fn prefix_sum(lens: Seq<u32>, n: int) -> int
    decreases n,
{
    if n <= 0 {
        0
    } else {
        prefix_sum(lens, n - 1) + lens[n - 1]
    }
}

pub(crate) proof fn lemma_prefix_sum_monotone(lens: Seq<u32>, a: int, b: int)
    requires
        0 <= a <= b,
    ensures
        prefix_sum(lens, a) <= prefix_sum(lens, b),
    decreases b - a,
{
    if a < b {
        lemma_prefix_sum_monotone(lens, a, b - 1);
    }
}

/// The all-zero slice of an unused slice position.
pub open spec fn spec_zero_slice() -> Slice {
    Slice { trim_start: 0, trim_end: 0, loop_start: 0 }
}

/// The slices of a chain of audio files of the given lengths, laid end to
/// end from sample `offset`; unused positions are all-zero slices.
pub fn create_slices_from_wavfiles(wav_lens: &[u32], offset: u32) -> (r: Result<Slices, SampleAttributeErrors>)
    requires
        wav_lens@.len() <= 64,
        offset + prefix_sum(wav_lens@, wav_lens@.len() as int) <= u32::MAX,
    ensures
        r matches Ok(x) && {
            &&& x.count == wav_lens@.len()
            &&& forall|i: int| 0 <= i < wav_lens@.len() ==> #[trigger] x.slices@[i]
                == spec_chain_slice(wav_lens@[i], offset + prefix_sum(wav_lens@, i))
            &&& forall|i: int| wav_lens@.len() <= i < 64 ==> #[trigger] x.slices@[i] == spec_zero_slice()
        },
{
    let mut slices_arr: [Slice; 64] = [Slice { trim_start: 0, trim_end: 0, loop_start: 0 }; 64];
    let mut off: u32 = offset;
    let mut i: usize = 0;
    while i < wav_lens.len()
        invariant
            i <= wav_lens@.len() <= 64,
            off == offset + prefix_sum(wav_lens@, i as int),
            offset + prefix_sum(wav_lens@, wav_lens@.len() as int) <= u32::MAX,
            forall|k: int| 0 <= k < i ==> #[trigger] slices_arr@[k]
                == spec_chain_slice(wav_lens@[k], offset + prefix_sum(wav_lens@, k)),
            forall|k: int| i <= k < 64 ==> #[trigger] slices_arr@[k] == spec_zero_slice(),
        decreases wav_lens@.len() - i,
    {
        proof {
            lemma_prefix_sum_monotone(wav_lens@, i + 1, wav_lens@.len() as int);
        }
        let s = match create_slice_from_wavfile(wav_lens[i], off) {
            Ok(s) => s,
            Err(e) => {
                return Err(e);
            },
        };
        slices_arr[i] = s;
        off = off + wav_lens[i];
        i = i + 1;
    }
    Ok(Slices { slices: slices_arr, count: wav_lens.len() as u32 })
}

/// Stored tempo of 120 BPM.
pub open spec fn spec_default_tempo() -> u32 {
    2880
}

/// Stored gain of 0 dB.
pub open spec fn spec_default_gain() -> u16 {
    48
}

/// Whether `a` is the default attributes file for an audio file of
/// `wav_len` samples.
pub open spec fn is_default_attributes(a: SampleAttributes, wav_len: u32) -> bool {
    &&& a.header@ == FULL_HEADER@
    &&& a.tempo == spec_default_tempo()
    &&& a.gain == spec_default_gain()
    &&& a.stretch == SampleAttributeTimestrechMode::Off.spec_value()
    &&& a.quantization == SampleAttributeTrigQuantizationMode::Direct.spec_value() as u8
    &&& a.loop_mode == SampleAttributeLoopMode::Off.spec_value()
    &&& a.trim_start == 0 && a.trim_end == wav_len && a.trim_len == wav_len
    &&& a.loop_start == 0 && a.loop_len == wav_len
    &&& a.slices_len == 0
    &&& forall|i: int| 0 <= i < 64 ==> #[trigger] a.slices@[i] == spec_zero_slice()
    &&& a.checksum == 0
}

/// The default attributes file for an audio file of `wav_len` samples: 120
/// BPM, 0 dB, default modes, trimmed and looped over the whole file, no
/// slices.
pub fn create_default_ot_file_for_wav_file(wav_len: u32) -> (r: Result<SampleAttributes, SampleAttributeErrors>)
    ensures
        r matches Ok(a) && is_default_attributes(a, wav_len),
{
    let trim = SampleTrimConfig { start: 0, end: wav_len, length: wav_len };
    let looping = SampleLoopConfig { start: 0, length: wav_len, mode: SampleAttributeLoopMode::default() };
    let slices = Slices { slices: [Slice { trim_start: 0, trim_end: 0, loop_start: 0 }; 64], count: 0 };
    SampleAttributes::new(
        &2880,
        &SampleAttributeTimestrechMode::default(),
        &SampleAttributeTrigQuantizationMode::default(),
        &48,
        &trim,
        &looping,
        &slices,
    )
}

/// The default attributes files for audio files of the given lengths, in
/// order.
pub fn create_default_ot_files_for_wav_files(wav_lens: &[u32]) -> (r: Result<Vec<SampleAttributes>, SampleAttributeErrors>)
    ensures
        r matches Ok(v) && v@.len() == wav_lens@.len() && forall|i: int| 0 <= i < wav_lens@.len() ==>
            is_default_attributes(#[trigger] v@[i], wav_lens@[i]),
{
    let mut out: Vec<SampleAttributes> = Vec::new();
    let mut i: usize = 0;
    while i < wav_lens.len()
        invariant
            i <= wav_lens@.len(),
            out@.len() == i,
            forall|k: int| 0 <= k < i ==> is_default_attributes(#[trigger] out@[k], wav_lens@[k]),
        decreases wav_lens@.len() - i,
    {
        let a = match create_default_ot_file_for_wav_file(wav_lens[i]) {
            Ok(a) => a,
            Err(e) => {
                return Err(e);
            },
        };
        out.push(a);
        i = i + 1;
    }
    Ok(out)
}

/// Why an audio file cannot be sliced into equal parts.
#[derive(Debug, Clone, Copy, PartialEq, Eq, Structural)]
pub enum CliSampleErrors {
    /// More slices than an attributes file holds (64).
    TooManySlices,
    /// Fewer than 128 samples.
    AudioTooShort,
}

impl CliSampleErrors {
    /// The message text of the error.
    pub open spec fn spec_description(self) -> Seq<char> {
        match self {
            CliSampleErrors::TooManySlices => "maximum number of slices in a sample file is 64"@,
            CliSampleErrors::AudioTooShort => "audio file too short, must have minimum 128 discrete samples"@,
        }
    }

    /// The message text of the error.
    pub fn description(&self) -> (r: String)
        ensures
            r@ == self.spec_description(),
    {
        match self {
            CliSampleErrors::TooManySlices => String::from_str("maximum number of slices in a sample file is 64"),
            CliSampleErrors::AudioTooShort => String::from_str("audio file too short, must have minimum 128 discrete samples"),
        }
    }
}

/// The attributes of an audio file of `wav_len` samples cut into `n_slices`
/// equal slices (the last samples left over when the length does not divide
/// evenly), at 120 BPM and 0 dB, trimmed over the whole file; `bars` is the
/// file's length in bars times 100 (its trim and loop length). An error for
/// more than 64 slices, else for fewer than 128 samples.
pub fn create_equally_sliced_sample(wav_len: u32, n_slices: usize, bars: u32) -> (r: Result<SampleAttributes, CliSampleErrors>)
    requires
        1 <= n_slices,
    ensures
        n_slices > 64 ==> r == Err::<SampleAttributes, CliSampleErrors>(CliSampleErrors::TooManySlices),
        n_slices <= 64 && wav_len < 128 ==> r == Err::<SampleAttributes, CliSampleErrors>(CliSampleErrors::AudioTooShort),
        n_slices <= 64 && wav_len >= 128 ==> (r matches Ok(a) && {
            let len = wav_len / (n_slices as u32);
            &&& a.header@ == FULL_HEADER@
            &&& a.tempo == spec_default_tempo()
            &&& a.gain == spec_default_gain()
            &&& a.trim_start == 0 && a.trim_end == wav_len && a.trim_len == bars
            &&& a.loop_start == 0 && a.loop_len == bars
            &&& a.loop_mode == SampleAttributeLoopMode::Off.spec_value()
            &&& a.slices_len == n_slices
            &&& forall|i: int| 0 <= i < n_slices ==> #[trigger] a.slices@[i]
                == (Slice { trim_start: (i * len) as u32, trim_end: (i * len + len) as u32, loop_start: 0xFFFF_FFFF })
            &&& forall|i: int| n_slices <= i < 64 ==> #[trigger] a.slices@[i] == spec_zero_slice()
            &&& a.checksum == 0
        }),
{
    if n_slices > 64 {
        return Err(CliSampleErrors::TooManySlices);
    }
    if wav_len < 128 {
        return Err(CliSampleErrors::AudioTooShort);
    }
    let len: u32 = wav_len / (n_slices as u32);
    let mut slices_arr: [Slice; 64] = [Slice { trim_start: 0, trim_end: 0, loop_start: 0 }; 64];
    let mut i: usize = 0;
    while i < n_slices
        invariant
            1 <= n_slices <= 64,
            i <= n_slices,
            len == wav_len / (n_slices as u32),
            forall|k: int| 0 <= k < i ==> #[trigger] slices_arr@[k]
                == (Slice { trim_start: (k * len) as u32, trim_end: (k * len + len) as u32, loop_start: 0xFFFF_FFFF }),
            forall|k: int| i <= k < 64 ==> #[trigger] slices_arr@[k] == spec_zero_slice(),
        decreases n_slices - i,
    {
        assert((i as int) * (len as int) + len <= (n_slices as int) * (len as int)) by (nonlinear_arith)
            requires i < n_slices;
        proof {
            vstd::arithmetic::div_mod::lemma_fundamental_div_mod(wav_len as int, n_slices as int);
            vstd::arithmetic::div_mod::lemma_mod_pos_bound(wav_len as int, n_slices as int);
            assert(len as int == (wav_len as int) / (n_slices as int));
        }
        let trim_start: u32 = (i as u32) * len;
        let trim_end: u32 = trim_start + len;
        slices_arr[i] = Slice { trim_start, trim_end, loop_start: 0xFFFF_FFFF };
        i = i + 1;
    }
    let slices = Slices { slices: slices_arr, count: n_slices as u32 };
    let trim = SampleTrimConfig { start: 0, end: wav_len, length: bars };
    let looping = SampleLoopConfig { start: 0, length: bars, mode: SampleAttributeLoopMode::default() };
    match SampleAttributes::new(
        &2880,
        &SampleAttributeTimestrechMode::default(),
        &SampleAttributeTrigQuantizationMode::default(),
        &48,
        &trim,
        &looping,
        &slices,
    ) {
        Ok(a) => Ok(a),
        Err(_) => {
            assert(false);
            Err(CliSampleErrors::AudioTooShort)
        },
    }
}

} // verus!
