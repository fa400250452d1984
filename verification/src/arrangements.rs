//! Arrangement (`arr??.*`) file data.

use vstd::prelude::*;

verus! {

/// A row of an arrangement.
#[derive(Debug, Clone, PartialEq, Eq)]
pub enum ArrangeRow {
    /// A pattern to play and how.
    PatternRow {
        /// Pattern to play, from 0 (A01) to 255 (P16).
        pattern_id: u8,
        /// Times the row is played.
        repetitions: u8,
        /// Track mutes during the row.
        mute_mask: u8,
        /// First half of the row's tempo setting.
        tempo_1: u8,
        /// Second half of the row's tempo setting.
        tempo_2: u8,
        /// Scene on scene slot A.
        scene_a: u8,
        /// Scene on scene slot B.
        scene_b: u8,
        /// Trig the pattern starts on.
        offset: u8,
        /// Trigs played, plus `offset`.
        length: u8,
        /// Transpose of each MIDI track (1 to 48 up, 255 down to 207 for -1 to -48).
        midi_transpose: [u8; 8],
    },
    /// A loop back, a jump forward or a halt (a loop onto its own row).
    LoopOrJumpOrHaltRow {
        /// Times to loop (0 loops forever).
        loop_count: u8,
        /// Row looped back to, jumped to or halted at.
        row_target: u8,
    },
    /// A row of ASCII text (at most 15 characters).
    ReminderRow(String),
    /// An unused row.
    EmptyRow(),
}

impl Default for ArrangeRow {
    /// An unused row.
    fn default() -> (r: Self)
        ensures
            r == ArrangeRow::EmptyRow(),
    {
        ArrangeRow::EmptyRow()
    }
}

/// Header of arrangement files (`FORM....DPS1ARRA......` in ASCII).
pub const ARRANGEMENT_FILE_HEADER: [u8; 22] = [70, 79, 82, 77, 0, 0, 0, 0, 68, 80, 83, 49, 65, 82, 82, 65, 0, 0, 0, 0, 0, 6];

/// Name of a new arrangement (`OCTATOOLS-ARR  ` in ASCII).
pub const ARRANGEMENT_DEFAULT_NAME: [u8; 15] = [79, 67, 84, 65, 84, 79, 79, 76, 83, 45, 65, 82, 82, 32, 32];

/// One arrangement state of an arrangement file.
#[derive(Debug, Clone, PartialEq, Eq)]
pub struct ArrangementBlock {
    /// Name of the arrangement in ASCII, at most 15 characters.
    pub name: [u8; 15],
    pub unknown_1: [u8; 2],
    /// Number of rows in use.
    pub n_rows: u8,
    /// The rows (256 of them).
    pub rows: Vec<ArrangeRow>,
}

impl Default for ArrangementBlock {
    /// An arrangement named `OCTATOOLS-ARR` with no rows in use: 256 unused
    /// rows.
    fn default() -> (r: Self)
        ensures
            r.name == ARRANGEMENT_DEFAULT_NAME,
            r.unknown_1 == [0u8, 0u8],
            r.n_rows == 0,
            r.rows@.len() == 256,
            forall|i: int| 0 <= i < 256 ==> #[trigger] r.rows@[i] == ArrangeRow::EmptyRow(),
    {
        let mut rows: Vec<ArrangeRow> = Vec::new();
        let mut i: usize = 0;
        while i < 256
            invariant
                i <= 256,
                rows@.len() == i,
                forall|k: int| 0 <= k < i ==> #[trigger] rows@[k] == ArrangeRow::EmptyRow(),
            decreases 256 - i,
        {
            rows.push(ArrangeRow::EmptyRow());
            i = i + 1;
        }
        ArrangementBlock { name: ARRANGEMENT_DEFAULT_NAME, unknown_1: [0, 0], n_rows: 0, rows }
    }
}

/// The data of an arrangement file: its current and its saved arrangement.
#[derive(Debug, Clone, PartialEq, Eq)]
pub struct ArrangementFile {
    pub header: [u8; 22],
    pub unk1: [u8; 2],
    /// The arrangement in use (written by SYNC TO CARD).
    pub arrangement_state_current: ArrangementBlock,
    pub unk2: [u8; 2],
    /// The saved arrangement (written by the arranger's SAVE).
    pub arrangement_state_previous: ArrangementBlock,
    /// Which of the eight arrangements have content.
    pub arrangements_active_flag: [u8; 8],
    pub check_sum: [u8; 2],
}

/// Whether `b` is the default arrangement block.
pub open spec fn is_default_block(b: ArrangementBlock) -> bool {
    &&& b.name == ARRANGEMENT_DEFAULT_NAME
    &&& b.unknown_1 == [0u8, 0u8]
    &&& b.n_rows == 0
    &&& b.rows@.len() == 256
    &&& forall|i: int| 0 <= i < 256 ==> #[trigger] b.rows@[i] == ArrangeRow::EmptyRow()
}

impl Default for ArrangementFile {
    /// A file with the arrangement header, two default arrangement blocks and
    /// every other field zero.
    fn default() -> (r: Self)
        ensures
            r.header == ARRANGEMENT_FILE_HEADER,
            r.unk1 == [0u8, 0u8],
            is_default_block(r.arrangement_state_current),
            r.unk2 == [0u8, 0u8],
            is_default_block(r.arrangement_state_previous),
            r.arrangements_active_flag == [0u8, 0u8, 0u8, 0u8, 0u8, 0u8, 0u8, 0u8],
            r.check_sum == [0u8, 0u8],
    {
        ArrangementFile {
            header: ARRANGEMENT_FILE_HEADER,
            unk1: [0, 0],
            arrangement_state_current: ArrangementBlock::default(),
            unk2: [0, 0],
            arrangement_state_previous: ArrangementBlock::default(),
            arrangements_active_flag: [0, 0, 0, 0, 0, 0, 0, 0],
            check_sum: [0, 0],
        }
    }
}

/// Raw bytes of an arrangement file (11336 bytes).
#[derive(Debug, Clone, Copy, PartialEq, Eq)]
pub struct ArrangementFileRawBytes {
    pub data: [u8; 11336],
}

} // verus!
