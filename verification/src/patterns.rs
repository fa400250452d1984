//! Pattern data of bank files: trig bitmasks and per-trig parameter locks.

use vstd::prelude::*;
use crate::errors::OctatoolErrors;
use crate::options::ProjectSampleSlotType;

verus! {

/// Value of trig position `i` (0 to 7) in a half-page bitmask: `2^i`.
pub open spec fn halfpage_position_value(i: int) -> u8 {
    if i == 0 { 1 }
    else if i == 1 { 2 }
    else if i == 2 { 4 }
    else if i == 3 { 8 }
    else if i == 4 { 16 }
    else if i == 5 { 32 }
    else if i == 6 { 64 }
    else { 128 }
}

/// Whether trig position `i` of a half page is active in `bitmask`.
pub open spec fn halfpage_trig_active(bitmask: u8, i: int) -> bool {
    (bitmask & halfpage_position_value(i)) > 0
}

/// Given a half-page trig bitmask, the eight booleans telling whether each
/// trig of the half page is active (position `i` has mask value `2^i`).
pub fn get_halfpage_trigs_from_bitmask_value(bitmask: &u8) -> (r: Result<[bool; 8], OctatoolErrors>)
    ensures
        r matches Ok(a) && forall|i: int| 0 <= i < 8 ==> #[trigger] a@[i] == halfpage_trig_active(*bitmask, i),
{
    let m = *bitmask;
    let arr: [bool; 8] = [
        (m & 1) > 0,
        (m & 2) > 0,
        (m & 4) > 0,
        (m & 8) > 0,
        (m & 16) > 0,
        (m & 32) > 0,
        (m & 64) > 0,
        (m & 128) > 0,
    ];
    Ok(arr)
}

/// Given the eight half-page bitmasks of a track, the 64 booleans telling
/// whether each trig is active: bitmask `k` gives trigs `8k` to `8k + 7`.
pub fn get_track_trigs_from_bitmasks(bitmasks: &[u8; 8]) -> (r: Result<[bool; 64], OctatoolErrors>)
    ensures
        r matches Ok(a) && forall|i: int| 0 <= i < 64 ==> #[trigger] a@[i] == halfpage_trig_active(bitmasks@[i / 8], i % 8),
{
    let mut trigs: [bool; 64] = [false; 64];
    let mut k: usize = 0;
    while k < 8
        invariant
            k <= 8,
            forall|i: int| 0 <= i < 8 * k ==> #[trigger] trigs@[i] == halfpage_trig_active(bitmasks@[i / 8], i % 8),
        decreases 8 - k,
    {
        let half = match get_halfpage_trigs_from_bitmask_value(&bitmasks[k]) {
            Ok(h) => h,
            Err(_) => {
                assert(false);
                return Err(OctatoolErrors::Unknown);
            },
        };
        let mut j: usize = 0;
        while j < 8
            invariant
                k < 8,
                j <= 8,
                forall|i: int| 0 <= i < 8 ==> #[trigger] half@[i] == halfpage_trig_active(bitmasks@[k as int], i),
                forall|i: int| 0 <= i < 8 * k + j ==> #[trigger] trigs@[i] == halfpage_trig_active(bitmasks@[i / 8], i % 8),
            decreases 8 - j,
        {
            trigs[8 * k + j] = half[j];
            assert((8 * k + j) / 8 == k as int && (8 * k + j) % 8 == j as int) by (nonlinear_arith)
                requires j < 8;
            j = j + 1;
        }
        k = k + 1;
    }
    Ok(trigs)
}

/// Every half-page bitmask is the sum of the position values of its active
/// trigs, so a mask can be rebuilt from the trigs it describes.
pub proof fn lemma_halfpage_mask_is_sum_of_active_positions(m: u8)
    ensures
        (if halfpage_trig_active(m, 0) { 1int } else { 0 })
        + (if halfpage_trig_active(m, 1) { 2int } else { 0 })
        + (if halfpage_trig_active(m, 2) { 4int } else { 0 })
        + (if halfpage_trig_active(m, 3) { 8int } else { 0 })
        + (if halfpage_trig_active(m, 4) { 16int } else { 0 })
        + (if halfpage_trig_active(m, 5) { 32int } else { 0 })
        + (if halfpage_trig_active(m, 6) { 64int } else { 0 })
        + (if halfpage_trig_active(m, 7) { 128int } else { 0 }) == m,
{
    assert(
        (if (m & 1u8) > 0 { 1int } else { 0 })
        + (if (m & 2u8) > 0 { 2int } else { 0 })
        + (if (m & 4u8) > 0 { 4int } else { 0 })
        + (if (m & 8u8) > 0 { 8int } else { 0 })
        + (if (m & 16u8) > 0 { 16int } else { 0 })
        + (if (m & 32u8) > 0 { 32int } else { 0 })
        + (if (m & 64u8) > 0 { 64int } else { 0 })
        + (if (m & 128u8) > 0 { 128int } else { 0 }) == m) by (bit_vector);
}

} // verus!

verus! {

/// A trig's parameter locks on the playback (machine) page of an audio track.
#[derive(Debug, Clone, Copy, PartialEq, Eq, Structural)]
pub struct AudioTrackParameterLockPlayback {
    pub param1: u8,
    pub param2: u8,
    pub param3: u8,
    pub param4: u8,
    pub param5: u8,
    pub param6: u8,
}

/// LFO page values.
#[derive(Debug, Clone, Copy, PartialEq, Eq, Structural)]
pub struct LfoParamsValues {
    pub spd1: u8,
    pub spd2: u8,
    pub spd3: u8,
    pub dep1: u8,
    pub dep2: u8,
    pub dep3: u8,
}

/// Amp page values of an audio track.
#[derive(Debug, Clone, Copy, PartialEq, Eq, Structural)]
pub struct AudioTrackAmpParamsValues {
    pub atk: u8,
    pub hold: u8,
    pub rel: u8,
    pub vol: u8,
    pub bal: u8,
    pub unused: u8,
}

/// FX page values of an audio track.
#[derive(Debug, Clone, Copy, PartialEq, Eq, Structural)]
pub struct AudioTrackFxParamsValues {
    pub param_1: u8,
    pub param_2: u8,
    pub param_3: u8,
    pub param_4: u8,
    pub param_5: u8,
    pub param_6: u8,
}

/// MIDI page values of a MIDI track.
#[derive(Debug, Clone, Copy, PartialEq, Eq, Structural)]
pub struct MidiTrackMidiParamsValues {
    pub note: u8,
    pub vel: u8,
    pub len: u8,
    pub not2: u8,
    pub not3: u8,
    pub not4: u8,
}

/// LFO page values of a MIDI track.
#[derive(Debug, Clone, Copy, PartialEq, Eq, Structural)]
pub struct MidiTrackLfoParamsValues {
    pub spd1: u8,
    pub spd2: u8,
    pub spd3: u8,
    pub dep1: u8,
    pub dep2: u8,
    pub dep3: u8,
}

/// Arpeggiator page values of a MIDI track.
#[derive(Debug, Clone, Copy, PartialEq, Eq, Structural)]
pub struct MidiTrackArpParamsValues {
    pub tran: u8,
    pub leg: u8,
    pub mode: u8,
    pub spd: u8,
    pub rnge: u8,
    pub nlen: u8,
}

/// First CC page values of a MIDI track.
#[derive(Debug, Clone, Copy, PartialEq, Eq, Structural)]
pub struct MidiTrackCc1ParamsValues {
    pub pb: u8,
    pub at: u8,
    pub cc1: u8,
    pub cc2: u8,
    pub cc3: u8,
    pub cc4: u8,
}

/// Second CC page values of a MIDI track.
#[derive(Debug, Clone, Copy, PartialEq, Eq, Structural)]
pub struct MidiTrackCc2ParamsValues {
    pub cc5: u8,
    pub cc6: u8,
    pub cc7: u8,
    pub cc8: u8,
    pub cc9: u8,
    pub cc10: u8,
}

/// A single trig's parameter locks on an audio track (255 means "not locked").
#[derive(Debug, Clone, Copy, PartialEq, Eq, Structural)]
pub struct AudioTrackParameterLocks {
    pub machine: AudioTrackParameterLockPlayback,
    pub lfo: LfoParamsValues,
    pub amp: AudioTrackAmpParamsValues,
    pub fx1: AudioTrackFxParamsValues,
    pub fx2: AudioTrackFxParamsValues,
    /// Lock of the track's static machine sample slot for this trig.
    pub static_slot_id: u8,
    /// Lock of the track's flex machine sample slot for this trig.
    pub flex_slot_id: u8,
}

/// A single trig's parameter locks on a MIDI track (255 means "not locked").
#[derive(Debug, Clone, Copy, PartialEq, Eq)]
pub struct MidiTrackParameterLocks {
    pub midi: MidiTrackMidiParamsValues,
    pub lfo: MidiTrackLfoParamsValues,
    pub arp: MidiTrackArpParamsValues,
    pub ctrl1: MidiTrackCc1ParamsValues,
    pub ctrl2: MidiTrackCc2ParamsValues,
    pub unknown: [u8; 2],
}

/// Audio and MIDI track pattern playback settings.
#[derive(Debug, Clone, Copy, PartialEq, Eq, Structural)]
pub struct TrackPatternSettings {
    pub start_silent: u8,
    pub plays_free: u8,
    pub trig_mode: u8,
    pub trig_quant: u8,
    pub oneshot_trk: u8,
}

/// Track scale when the pattern is in per-track scale mode.
#[derive(Debug, Clone, Copy, PartialEq, Eq, Structural)]
pub struct TrackPerTrackModeScale {
    pub per_track_len: u8,
    pub per_track_scale: u8,
}

/// Pattern level scaling settings.
#[derive(Debug, Clone, Copy, PartialEq, Eq, Structural)]
pub struct PatternScaleSettings {
    pub master_len_per_track_multiplier: u8,
    pub master_len_per_track: u8,
    pub master_scale_per_track: u8,
    pub master_len: u8,
    pub master_scale: u8,
    pub scale_mode: u8,
}

/// Chaining behaviour of a pattern.
#[derive(Debug, Clone, Copy, PartialEq, Eq, Structural)]
pub struct PatternChainBehavior {
    pub use_pattern_setting: u8,
    pub use_project_setting: u8,
}

/// Trig bitmasks of an audio track (eight half-page masks per trig type;
/// see `get_track_trigs_from_bitmasks`).
#[derive(Debug, Clone, Copy, PartialEq, Eq)]
pub struct AudioTrackTrigMasks {
    pub trigger: [u8; 8],
    pub trigless: [u8; 8],
    pub plock: [u8; 8],
    pub oneshot: [u8; 8],
    pub recorder: [u8; 32],
    pub swing: [u8; 8],
    pub slide: [u8; 8],
}

/// Trig bitmasks of a MIDI track.
#[derive(Debug, Clone, Copy, PartialEq, Eq)]
pub struct MidiTrackTrigMasks {
    pub trigger: [u8; 8],
    pub trigless: [u8; 8],
    pub plock: [u8; 8],
    pub swing: [u8; 8],
    pub unknown: [u8; 8],
}

/// Trigs of an audio track within a pattern.
#[derive(Debug, Clone, Copy, PartialEq, Eq)]
pub struct AudioTrackTrigs {
    pub header: [u8; 4],
    pub unknown_1: [u8; 5],
    pub trig_masks: AudioTrackTrigMasks,
    pub scale_per_track_mode: TrackPerTrackModeScale,
    pub swing_amount: u8,
    pub pattern_settings: TrackPatternSettings,
    pub unknown_2: u8,
    /// Parameter locks of the 64 trigs.
    pub plocks: [AudioTrackParameterLocks; 64],
    pub unknown_3: [u8; 192],
}

/// Trigs of a MIDI track within a pattern.
#[derive(Debug, Clone, Copy, PartialEq, Eq)]
pub struct MidiTrackTrigs {
    pub header: [u8; 4],
    pub unknown_1: [u8; 4],
    pub unknown_2: u8,
    pub trig_masks: MidiTrackTrigMasks,
    pub scale_per_track_mode: TrackPerTrackModeScale,
    pub swing_amount: u8,
    pub pattern_settings: TrackPatternSettings,
    /// Parameter locks of the 64 trigs.
    pub plocks: [MidiTrackParameterLocks; 64],
    pub unknown_3: [u8; 128],
}

/// A pattern of trigs stored in a bank.
#[derive(Debug, Clone, Copy, PartialEq, Eq)]
pub struct Pattern {
    pub header: [u8; 8],
    pub audio_track_trigs: [AudioTrackTrigs; 8],
    pub midi_track_trigs: [MidiTrackTrigs; 8],
    pub scale: PatternScaleSettings,
    pub chain_behaviour: PatternChainBehavior,
    pub unknown: u8,
    /// Part assigned to the pattern (Part 1 is 0).
    pub part_assignment: u8,
    pub tempo_1: u8,
    pub tempo_2: u8,
}

/// A parameter lock after replacing sample slot `old` by `new` for slots of
/// type `sample_type` (recorder buffers are never locked).
pub open spec fn spec_plock_slot_update(
    p: AudioTrackParameterLocks,
    sample_type: ProjectSampleSlotType,
    old: u8,
    new: u8,
) -> AudioTrackParameterLocks {
    match sample_type {
        ProjectSampleSlotType::Static => if p.static_slot_id == old {
            AudioTrackParameterLocks { static_slot_id: new, ..p }
        } else {
            p
        },
        ProjectSampleSlotType::Flex => if p.flex_slot_id == old {
            AudioTrackParameterLocks { flex_slot_id: new, ..p }
        } else {
            p
        },
        ProjectSampleSlotType::RecorderBuffer => p,
    }
}

/// Whether pattern `after` is pattern `before` with every audio-track
/// parameter lock updated by `spec_plock_slot_update` and nothing else changed.
pub open spec fn spec_pattern_slot_update(
    before: Pattern,
    after: Pattern,
    sample_type: ProjectSampleSlotType,
    old: u8,
    new: u8,
) -> bool {
    &&& after.header == before.header
    &&& after.midi_track_trigs == before.midi_track_trigs
    &&& after.scale == before.scale
    &&& after.chain_behaviour == before.chain_behaviour
    &&& after.unknown == before.unknown
    &&& after.part_assignment == before.part_assignment
    &&& after.tempo_1 == before.tempo_1
    &&& after.tempo_2 == before.tempo_2
    &&& forall|t: int| 0 <= t < 8 ==> {
        let a = #[trigger] after.audio_track_trigs@[t];
        let b = before.audio_track_trigs@[t];
        &&& a.header == b.header
        &&& a.unknown_1 == b.unknown_1
        &&& a.trig_masks == b.trig_masks
        &&& a.scale_per_track_mode == b.scale_per_track_mode
        &&& a.swing_amount == b.swing_amount
        &&& a.pattern_settings == b.pattern_settings
        &&& a.unknown_2 == b.unknown_2
        &&& a.unknown_3 == b.unknown_3
        &&& forall|j: int| 0 <= j < 64 ==> #[trigger] a.plocks@[j]
            == spec_plock_slot_update(b.plocks@[j], sample_type, old, new)
    }
}

impl Pattern {
    /// Replaces sample slot `old` by `new` in the sample-slot parameter locks
    /// of slots of type `sample_type` on every audio-track trig.
    pub fn update_plock_sample_slots(
        &mut self,
        sample_type: &ProjectSampleSlotType,
        old_id: &u8,
        new_id: &u8,
    ) -> (r: Result<(), OctatoolErrors>)
        ensures
            r is Ok,
            spec_pattern_slot_update(*old(self), *final(self), *sample_type, *old_id, *new_id),
    {
        let ghost before = *self;
        let mut t: usize = 0;
        while t < 8
            invariant
                t <= 8,
                self.header == before.header,
                self.midi_track_trigs == before.midi_track_trigs,
                self.scale == before.scale,
                self.chain_behaviour == before.chain_behaviour,
                self.unknown == before.unknown,
                self.part_assignment == before.part_assignment,
                self.tempo_1 == before.tempo_1,
                self.tempo_2 == before.tempo_2,
                forall|u: int| t <= u < 8 ==> #[trigger] self.audio_track_trigs@[u] == before.audio_track_trigs@[u],
                forall|u: int| 0 <= u < t ==> {
                    let a = #[trigger] self.audio_track_trigs@[u];
                    let b = before.audio_track_trigs@[u];
                    &&& a.header == b.header
                    &&& a.unknown_1 == b.unknown_1
                    &&& a.trig_masks == b.trig_masks
                    &&& a.scale_per_track_mode == b.scale_per_track_mode
                    &&& a.swing_amount == b.swing_amount
                    &&& a.pattern_settings == b.pattern_settings
                    &&& a.unknown_2 == b.unknown_2
                    &&& a.unknown_3 == b.unknown_3
                    &&& forall|j: int| 0 <= j < 64 ==> #[trigger] a.plocks@[j]
                        == spec_plock_slot_update(b.plocks@[j], *sample_type, *old_id, *new_id)
                },
            decreases 8 - t,
        {
            let mut trigs = self.audio_track_trigs[t];
            let ghost tb = trigs;
            let mut j: usize = 0;
            while j < 64
                invariant
                    j <= 64,
                    trigs.header == tb.header,
                    trigs.unknown_1 == tb.unknown_1,
                    trigs.trig_masks == tb.trig_masks,
                    trigs.scale_per_track_mode == tb.scale_per_track_mode,
                    trigs.swing_amount == tb.swing_amount,
                    trigs.pattern_settings == tb.pattern_settings,
                    trigs.unknown_2 == tb.unknown_2,
                    trigs.unknown_3 == tb.unknown_3,
                    forall|i: int| j <= i < 64 ==> #[trigger] trigs.plocks@[i] == tb.plocks@[i],
                    forall|i: int| 0 <= i < j ==> #[trigger] trigs.plocks@[i]
                        == spec_plock_slot_update(tb.plocks@[i], *sample_type, *old_id, *new_id),
                decreases 64 - j,
            {
                let mut p = trigs.plocks[j];
                match sample_type {
                    ProjectSampleSlotType::Static => {
                        if p.static_slot_id == *old_id {
                            p.static_slot_id = *new_id;
                        }
                    },
                    ProjectSampleSlotType::Flex => {
                        if p.flex_slot_id == *old_id {
                            p.flex_slot_id = *new_id;
                        }
                    },
                    ProjectSampleSlotType::RecorderBuffer => {},
                }
                trigs.plocks[j] = p;
                j = j + 1;
            }
            self.audio_track_trigs[t] = trigs;
            t = t + 1;
        }
        Ok(())
    }

    /// Replaces flex sample slot `old` by `new` in the flex-slot parameter
    /// locks of every audio-track trig.
    pub fn update_flex_sample_plocks(&mut self, old_id: &u8, new_id: &u8) -> (r: Result<(), OctatoolErrors>)
        ensures
            r is Ok,
            spec_pattern_slot_update(*old(self), *final(self), ProjectSampleSlotType::Flex, *old_id, *new_id),
    {
        self.update_plock_sample_slots(&ProjectSampleSlotType::Flex, old_id, new_id)
    }
}

} // verus!

verus! {

/// Header of a pattern block (`PTRN`).
pub const PATTERN_HEADER: [u8; 8] = [0x50, 0x54, 0x52, 0x4e, 0x00, 0x00, 0x00, 0x00];

/// Header of a MIDI track block (`MTRA`).
pub const MIDI_TRACK_HEADER: [u8; 4] = [0x4d, 0x54, 0x52, 0x41];

/// Header of an audio track block.
pub const AUDIO_TRACK_HEADER: [u8; 4] = [54, 0x52, 0x41, 0x43];

/// Parameter locks of a trig without any lock: every value 255.
pub open spec fn spec_unlocked_audio_plock() -> AudioTrackParameterLocks {
    AudioTrackParameterLocks {
        machine: AudioTrackParameterLockPlayback { param1: 255, param2: 255, param3: 255, param4: 255, param5: 255, param6: 255 },
        lfo: LfoParamsValues { spd1: 255, spd2: 255, spd3: 255, dep1: 255, dep2: 255, dep3: 255 },
        amp: AudioTrackAmpParamsValues { atk: 255, hold: 255, rel: 255, vol: 255, bal: 255, unused: 255 },
        fx1: AudioTrackFxParamsValues { param_1: 255, param_2: 255, param_3: 255, param_4: 255, param_5: 255, param_6: 255 },
        fx2: AudioTrackFxParamsValues { param_1: 255, param_2: 255, param_3: 255, param_4: 255, param_5: 255, param_6: 255 },
        static_slot_id: 255,
        flex_slot_id: 255,
    }
}

impl Default for AudioTrackParameterLocks {
    /// No lock on any parameter (trig view defaults are not locks).
    fn default() -> (r: Self)
        ensures
            r == spec_unlocked_audio_plock(),
    {
        AudioTrackParameterLocks {
            machine: AudioTrackParameterLockPlayback { param1: 255, param2: 255, param3: 255, param4: 255, param5: 255, param6: 255 },
            lfo: LfoParamsValues { spd1: 255, spd2: 255, spd3: 255, dep1: 255, dep2: 255, dep3: 255 },
            amp: AudioTrackAmpParamsValues { atk: 255, hold: 255, rel: 255, vol: 255, bal: 255, unused: 255 },
            fx1: AudioTrackFxParamsValues { param_1: 255, param_2: 255, param_3: 255, param_4: 255, param_5: 255, param_6: 255 },
            fx2: AudioTrackFxParamsValues { param_1: 255, param_2: 255, param_3: 255, param_4: 255, param_5: 255, param_6: 255 },
            static_slot_id: 255,
            flex_slot_id: 255,
        }
    }
}

/// Whether a MIDI trig has no lock on any parameter (every value 255).
pub open spec fn is_unlocked_midi_plock(l: MidiTrackParameterLocks) -> bool {
    &&& l.midi == MidiTrackMidiParamsValues { note: 255, vel: 255, len: 255, not2: 255, not3: 255, not4: 255 }
    &&& l.lfo == MidiTrackLfoParamsValues { spd1: 255, spd2: 255, spd3: 255, dep1: 255, dep2: 255, dep3: 255 }
    &&& l.arp == MidiTrackArpParamsValues { tran: 255, leg: 255, mode: 255, spd: 255, rnge: 255, nlen: 255 }
    &&& l.ctrl1 == MidiTrackCc1ParamsValues { pb: 255, at: 255, cc1: 255, cc2: 255, cc3: 255, cc4: 255 }
    &&& l.ctrl2 == MidiTrackCc2ParamsValues { cc5: 255, cc6: 255, cc7: 255, cc8: 255, cc9: 255, cc10: 255 }
    &&& l.unknown@ == seq![255u8, 255u8]
}

impl Default for MidiTrackParameterLocks {
    /// No lock on any parameter.
    fn default() -> (r: Self)
        ensures
            is_unlocked_midi_plock(r),
    {
        let r = MidiTrackParameterLocks {
            midi: MidiTrackMidiParamsValues { note: 255, vel: 255, len: 255, not2: 255, not3: 255, not4: 255 },
            lfo: MidiTrackLfoParamsValues { spd1: 255, spd2: 255, spd3: 255, dep1: 255, dep2: 255, dep3: 255 },
            arp: MidiTrackArpParamsValues { tran: 255, leg: 255, mode: 255, spd: 255, rnge: 255, nlen: 255 },
            ctrl1: MidiTrackCc1ParamsValues { pb: 255, at: 255, cc1: 255, cc2: 255, cc3: 255, cc4: 255 },
            ctrl2: MidiTrackCc2ParamsValues { cc5: 255, cc6: 255, cc7: 255, cc8: 255, cc9: 255, cc10: 255 },
            unknown: [255, 255],
        };
        assert(r.unknown@ =~= seq![255u8, 255u8]);
        r
    }
}

impl Default for TrackPatternSettings {
    /// Start silent off (255), everything else 0.
    fn default() -> (r: Self)
        ensures
            r == (TrackPatternSettings { start_silent: 255, plays_free: 0, trig_mode: 0, trig_quant: 0, oneshot_trk: 0 }),
    {
        TrackPatternSettings { start_silent: 255, plays_free: 0, trig_mode: 0, trig_quant: 0, oneshot_trk: 0 }
    }
}

impl Default for TrackPerTrackModeScale {
    /// Length 16, scale 2 (1x).
    fn default() -> (r: Self)
        ensures
            r == (TrackPerTrackModeScale { per_track_len: 16, per_track_scale: 2 }),
    {
        TrackPerTrackModeScale { per_track_len: 16, per_track_scale: 2 }
    }
}

impl Default for PatternScaleSettings {
    /// Length 16, scale 2 (1x), normal scale mode.
    fn default() -> (r: Self)
        ensures
            r == (PatternScaleSettings {
                master_len_per_track_multiplier: 0,
                master_len_per_track: 16,
                master_scale_per_track: 2,
                master_len: 16,
                master_scale: 2,
                scale_mode: 0,
            }),
    {
        PatternScaleSettings {
            master_len_per_track_multiplier: 0,
            master_len_per_track: 16,
            master_scale_per_track: 2,
            master_len: 16,
            master_scale: 2,
            scale_mode: 0,
        }
    }
}

impl Default for PatternChainBehavior {
    /// Neither the pattern's nor the project's chain setting.
    fn default() -> (r: Self)
        ensures
            r == (PatternChainBehavior { use_pattern_setting: 0, use_project_setting: 0 }),
    {
        PatternChainBehavior { use_pattern_setting: 0, use_project_setting: 0 }
    }
}

/// Whether audio track masks are the defaults: no trigs, swing masks 170.
pub open spec fn is_default_audio_masks(m: AudioTrackTrigMasks) -> bool {
    &&& forall|i: int| 0 <= i < 8 ==> #[trigger] m.trigger@[i] == 0 && m.trigless@[i] == 0 && m.plock@[i] == 0
        && m.oneshot@[i] == 0 && m.swing@[i] == 170 && m.slide@[i] == 0
    &&& forall|i: int| 0 <= i < 32 ==> #[trigger] m.recorder@[i] == 0
}

impl Default for AudioTrackTrigMasks {
    /// No trigs; swing masks 170.
    fn default() -> (r: Self)
        ensures
            is_default_audio_masks(r),
    {
        AudioTrackTrigMasks {
            trigger: [0; 8],
            trigless: [0; 8],
            plock: [0; 8],
            oneshot: [0; 8],
            recorder: [0; 32],
            swing: [170; 8],
            slide: [0; 8],
        }
    }
}

/// Whether MIDI track masks are the defaults: no trigs, swing masks 170.
pub open spec fn is_default_midi_masks(m: MidiTrackTrigMasks) -> bool {
    forall|i: int| 0 <= i < 8 ==> #[trigger] m.trigger@[i] == 0 && m.trigless@[i] == 0 && m.plock@[i] == 0
        && m.swing@[i] == 170 && m.unknown@[i] == 0
}

impl Default for MidiTrackTrigMasks {
    /// No trigs; swing masks 170.
    fn default() -> (r: Self)
        ensures
            is_default_midi_masks(r),
    {
        MidiTrackTrigMasks { trigger: [0; 8], trigless: [0; 8], plock: [0; 8], swing: [170; 8], unknown: [0; 8] }
    }
}

/// Whether an audio track's trigs are the defaults: no trigs, no locks.
pub open spec fn is_default_audio_trigs(t: AudioTrackTrigs) -> bool {
    &&& t.header@ == AUDIO_TRACK_HEADER@
    &&& forall|i: int| 0 <= i < 5 ==> #[trigger] t.unknown_1@[i] == 0
    &&& is_default_audio_masks(t.trig_masks)
    &&& t.scale_per_track_mode == (TrackPerTrackModeScale { per_track_len: 16, per_track_scale: 2 })
    &&& t.swing_amount == 0
    &&& t.pattern_settings == (TrackPatternSettings { start_silent: 255, plays_free: 0, trig_mode: 0, trig_quant: 0, oneshot_trk: 0 })
    &&& t.unknown_2 == 0
    &&& forall|i: int| 0 <= i < 64 ==> #[trigger] t.plocks@[i] == spec_unlocked_audio_plock()
    &&& forall|i: int| 0 <= i < 192 ==> #[trigger] t.unknown_3@[i] == 0
}

impl Default for AudioTrackTrigs {
    /// No trigs and no locks.
    fn default() -> (r: Self)
        ensures
            is_default_audio_trigs(r),
    {
        let l = AudioTrackParameterLocks::default();
        AudioTrackTrigs {
            header: AUDIO_TRACK_HEADER,
            unknown_1: [0; 5],
            trig_masks: AudioTrackTrigMasks::default(),
            scale_per_track_mode: TrackPerTrackModeScale::default(),
            swing_amount: 0,
            pattern_settings: TrackPatternSettings::default(),
            unknown_2: 0,
            plocks: [l; 64],
            unknown_3: [0; 192],
        }
    }
}

/// Whether a MIDI track's trigs are the defaults: no trigs, no locks.
pub open spec fn is_default_midi_trigs(t: MidiTrackTrigs) -> bool {
    &&& t.header@ == MIDI_TRACK_HEADER@
    &&& forall|i: int| 0 <= i < 4 ==> #[trigger] t.unknown_1@[i] == 0
    &&& t.unknown_2 == 0
    &&& is_default_midi_masks(t.trig_masks)
    &&& t.scale_per_track_mode == (TrackPerTrackModeScale { per_track_len: 16, per_track_scale: 2 })
    &&& t.swing_amount == 0
    &&& t.pattern_settings == (TrackPatternSettings { start_silent: 255, plays_free: 0, trig_mode: 0, trig_quant: 0, oneshot_trk: 0 })
    &&& forall|i: int| 0 <= i < 64 ==> is_unlocked_midi_plock(#[trigger] t.plocks@[i])
    &&& forall|i: int| 0 <= i < 128 ==> #[trigger] t.unknown_3@[i] == 0
}

impl Default for MidiTrackTrigs {
    /// No trigs and no locks.
    fn default() -> (r: Self)
        ensures
            is_default_midi_trigs(r),
    {
        let l = MidiTrackParameterLocks::default();
        MidiTrackTrigs {
            header: MIDI_TRACK_HEADER,
            unknown_1: [0; 4],
            unknown_2: 0,
            trig_masks: MidiTrackTrigMasks::default(),
            scale_per_track_mode: TrackPerTrackModeScale::default(),
            swing_amount: 0,
            pattern_settings: TrackPatternSettings::default(),
            plocks: [l; 64],
            unknown_3: [0; 128],
        }
    }
}

/// Whether a pattern is the default pattern: empty tracks, part 1, the
/// default scale, tempo bytes 11 and 64.
pub open spec fn is_default_pattern(p: Pattern) -> bool {
    &&& p.header@ == PATTERN_HEADER@
    &&& forall|i: int| 0 <= i < 8 ==> is_default_audio_trigs(#[trigger] p.audio_track_trigs@[i])
    &&& forall|i: int| 0 <= i < 8 ==> is_default_midi_trigs(#[trigger] p.midi_track_trigs@[i])
    &&& p.scale == (PatternScaleSettings {
        master_len_per_track_multiplier: 0,
        master_len_per_track: 16,
        master_scale_per_track: 2,
        master_len: 16,
        master_scale: 2,
        scale_mode: 0,
    })
    &&& p.chain_behaviour == (PatternChainBehavior { use_pattern_setting: 0, use_project_setting: 0 })
    &&& p.unknown == 0
    &&& p.part_assignment == 0
    &&& p.tempo_1 == 11
    &&& p.tempo_2 == 64
}

impl Default for Pattern {
    /// An empty pattern.
    fn default() -> (r: Self)
        ensures
            is_default_pattern(r),
    {
        let a = AudioTrackTrigs::default();
        let m = MidiTrackTrigs::default();
        Pattern {
            header: PATTERN_HEADER,
            audio_track_trigs: [a; 8],
            midi_track_trigs: [m; 8],
            scale: PatternScaleSettings::default(),
            chain_behaviour: PatternChainBehavior::default(),
            unknown: 0,
            part_assignment: 0,
            tempo_1: 11,
            tempo_2: 64,
        }
    }
}

/// Whether every pattern number in `indexes` (at least one) is between 1
/// and 16.
pub fn pattern_index_is_valid(indexes: &[usize]) -> (r: bool)
    requires
        indexes@.len() > 0,
    ensures
        r == forall|i: int| 0 <= i < indexes@.len() ==> 1 <= #[trigger] indexes@[i] <= 16,
{
    let mut max_elem: usize = indexes[0];
    let mut min_elem: usize = indexes[0];
    let mut i: usize = 1;
    while i < indexes.len()
        invariant
            1 <= i <= indexes@.len(),
            exists|k: int| 0 <= k < i && indexes@[k] == max_elem,
            exists|k: int| 0 <= k < i && indexes@[k] == min_elem,
            forall|k: int| 0 <= k < i ==> min_elem <= #[trigger] indexes@[k] <= max_elem,
        decreases indexes@.len() - i,
    {
        if indexes[i] > max_elem {
            max_elem = indexes[i];
        }
        if indexes[i] < min_elem {
            min_elem = indexes[i];
        }
        i = i + 1;
    }
    max_elem <= 16 && min_elem >= 1
}

} // verus!
