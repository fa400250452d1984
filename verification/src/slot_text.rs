//! The text form of project sample slots: the `[SAMPLE]` sections of a
//! project file.

use vstd::prelude::*;
use crate::options::ProjectSampleSlotType;
use crate::slots::ProjectSampleSlot;
use crate::errors::OctatoolErrors;
use crate::keyvalues::{spec_read_value, KeyValues};
use crate::slots::{
    slot_readable, spec_gain_raw, spec_loop_mode, spec_parse_id, spec_slot_from_map, spec_slot_readable, spec_tempo, spec_trig_quantize_mode,
    spec_trim_bars, spec_tstrech_mode, spec_type_text, SlotView,
};
use crate::options::{SampleAttributeLoopMode, SampleAttributeTimestrechMode, SampleAttributeTrigQuantizationMode};
use crate::options::{lemma_loop_mode_value_roundtrip, lemma_timestretch_mode_value_roundtrip, lemma_trig_quantization_mode_value_roundtrip};
use crate::strings::{
    all_digits, ascii_lower, digit_value, digits_value, is_digit, key_is, key_is_exec, lemma_split_cons, lemma_split_first_piece,
    lemma_split_prefix, lemma_split_single, occurs_at, spec_parse_int,
    spec_parse_ranged, spec_split,
    spec_strip_prefix, spec_strip_suffix, split_text, strip_prefix_text, strip_suffix_text,
};

verus! {

/// The decimal digit character of `d` (0 to 9).
pub open spec fn digit_char(d: int) -> char {
    (48 + d) as char
}

/// Decimal text of a natural number (no leading zeros).
pub open spec fn spec_decimal(n: nat) -> Seq<char>
    decreases n,
{
    if n < 10 {
        seq![digit_char(n as int)]
    } else {
        spec_decimal(n / 10) + seq![digit_char((n % 10) as int)]
    }
}

/// Decimal text of an integer, with a leading `-` when it is negative.
pub open spec fn spec_signed_decimal(v: int) -> Seq<char> {
    if v < 0 {
        seq!['-'] + spec_decimal((-v) as nat)
    } else {
        spec_decimal(v as nat)
    }
}

/// Decimal text is read back as the number it was written from.
pub proof fn lemma_decimal_reads_back(n: nat)
    ensures
        spec_decimal(n).len() > 0,
        all_digits(spec_decimal(n)),
        digits_value(spec_decimal(n)) == n,
        spec_decimal(n)[0] != '+' && spec_decimal(n)[0] != '-',
    decreases n,
{
    let d = (n % 10) as int;
    assert((digit_char(d) as int) == 48 + d);
    assert(digit_value(digit_char(d)) == d);
    if n < 10 {
        assert(d == n);
        assert(spec_decimal(n).drop_last() =~= Seq::<char>::empty());
        assert(digits_value(Seq::<char>::empty()) == 0);
        assert(spec_decimal(n).last() == digit_char(d));
        assert(digits_value(spec_decimal(n)) == 10 * digits_value(spec_decimal(n).drop_last()) + digit_value(spec_decimal(n).last()));
    } else {
        lemma_decimal_reads_back(n / 10);
        let p = spec_decimal(n / 10);
        let s = spec_decimal(n);
        assert(s.drop_last() =~= p);
        assert(s.last() == digit_char(d));
        assert(10 * (n / 10) + n % 10 == n);
        assert(digits_value(s) == 10 * digits_value(p) + digit_value(digit_char(d)));
        assert forall|i: int| 0 <= i < s.len() implies is_digit(#[trigger] s[i]) by {
            if i < p.len() {
                assert(s[i] == p[i]);
            }
        }
        assert(s[0] == p[0]);
    }
}

fn digit_str(d: u64) -> (r: &'static str)
    requires
        d < 10,
    ensures
        r@ == seq![digit_char(d as int)],
{
    proof {
        reveal_strlit("0");
        reveal_strlit("1");
        reveal_strlit("2");
        reveal_strlit("3");
        reveal_strlit("4");
        reveal_strlit("5");
        reveal_strlit("6");
        reveal_strlit("7");
        reveal_strlit("8");
        reveal_strlit("9");
    }
    let r = if d == 0 {
        "0"
    } else if d == 1 {
        "1"
    } else if d == 2 {
        "2"
    } else if d == 3 {
        "3"
    } else if d == 4 {
        "4"
    } else if d == 5 {
        "5"
    } else if d == 6 {
        "6"
    } else if d == 7 {
        "7"
    } else if d == 8 {
        "8"
    } else {
        "9"
    };
    assert(r@ =~= seq![digit_char(d as int)]);
    r
}

/// Decimal text of `n`.
pub fn decimal_text(n: u64) -> (r: String)
    ensures
        r@ == spec_decimal(n as nat),
    decreases n,
{
    if n < 10 {
        String::from_str(digit_str(n))
    } else {
        let mut s = decimal_text(n / 10);
        s.append(digit_str(n % 10));
        s
    }
}

/// Decimal text of `v`, with a leading `-` when it is negative.
pub fn signed_decimal_text(v: i64) -> (r: String)
    requires
        v > i64::MIN,
    ensures
        r@ == spec_signed_decimal(v as int),
{
    if v < 0 {
        let mut s = String::from_str("-");
        proof {
            reveal_strlit("-");
        }
        let d = decimal_text((0 - v) as u64);
        s.append(d.as_str());
        s
    } else {
        decimal_text(v as u64)
    }
}

/// Whether a text holds only printable ASCII characters other than `\`,
/// `"` and `'` (the characters that `char::escape_debug` leaves as they are).
pub open spec fn plain_text(s: Seq<char>) -> bool {
    forall|i: int| 0 <= i < s.len() ==> ' ' <= #[trigger] s[i] && s[i] <= '~' && s[i] != '\\' && s[i] != '"'
        && s[i] != '\''
}

/// The debug text of a path (`format!("{:#?}", path)`), quotes included.
pub uninterp spec fn spec_path_debug(path: Seq<char>) -> Seq<char>;

/// Formats `path` as a `std::path::PathBuf` with `{:#?}`. The text is named
/// `spec_path_debug`. The one fact stated of it: the debug form writes each
/// character as `char::escape_debug` does, which leaves printable ASCII other
/// than `\`, `"` and `'` as it is, so such a path comes out unchanged between
/// double quotes. Of any other path nothing is stated but the name; std does
/// not promise the form of debug output beyond this.
#[verifier::external_body]
fn path_debug_text(path: &str) -> (r: String)
    ensures
        r@ == spec_path_debug(path@),
        plain_text(path@) ==> r@ == seq!['"'] + path@ + seq!['"'],
{
    format!("{:#?}", std::path::PathBuf::from(path))
}

/// The text with every `"` removed.
pub open spec fn without_quotes(s: Seq<char>) -> Seq<char>
    decreases s.len(),
{
    if s.len() == 0 {
        s
    } else {
        without_quotes(s.drop_last()) + (if s.last() == '"' { Seq::<char>::empty() } else { seq![s.last()] })
    }
}

proof fn lemma_without_quotes_concat(a: Seq<char>, b: Seq<char>)
    ensures
        without_quotes(a + b) == without_quotes(a) + without_quotes(b),
    decreases b.len(),
{
    if b.len() == 0 {
        assert(a + b =~= a);
        assert(without_quotes(a) + without_quotes(b) =~= without_quotes(a));
    } else {
        lemma_without_quotes_concat(a, b.drop_last());
        assert((a + b).drop_last() =~= a + b.drop_last());
        assert((a + b).last() == b.last());
        assert(without_quotes(a + b) =~= without_quotes(a) + without_quotes(b));
    }
}

proof fn lemma_without_quotes_none(s: Seq<char>)
    requires
        forall|i: int| 0 <= i < s.len() ==> #[trigger] s[i] != '"',
    ensures
        without_quotes(s) == s,
    decreases s.len(),
{
    if s.len() > 0 {
        lemma_without_quotes_none(s.drop_last());
        assert(s.drop_last() + seq![s.last()] =~= s);
    }
}

/// `s` with every `"` removed.
fn remove_quotes(s: &str) -> (r: String)
    ensures
        r@ == without_quotes(s@),
{
    let n = s.unicode_len();
    let mut out = String::new();
    let mut start: usize = 0;
    let mut i: usize = 0;
    while i < n
        invariant
            n == s@.len(),
            start <= i <= n,
            out@ == without_quotes(s@.subrange(0, start as int)),
            forall|k: int| start <= k < i ==> #[trigger] s@[k] != '"',
        decreases n - i,
    {
        if s.get_char(i) == '"' {
            let piece = s.substring_char(start, i);
            proof {
                let a = s@.subrange(0, start as int);
                let b = s@.subrange(start as int, i as int);
                let q = s@.subrange(i as int, i + 1);
                assert forall|k: int| 0 <= k < b.len() implies #[trigger] b[k] != '"' by {
                    assert(b[k] == s@[start + k]);
                }
                lemma_without_quotes_none(b);
                lemma_without_quotes_concat(a, b);
                lemma_without_quotes_concat(a + b, q);
                assert(q =~= seq!['"']);
                assert(q.len() == 1 && q.last() == '"');
                assert(q.drop_last() =~= Seq::<char>::empty());
                assert(without_quotes(q.drop_last()) =~= Seq::<char>::empty());
                assert(without_quotes(q) =~= Seq::<char>::empty());
                assert(a + b + q =~= s@.subrange(0, i + 1));
            }
            out.append(piece);
            i = i + 1;
            start = i;
        } else {
            i = i + 1;
        }
    }
    let piece = s.substring_char(start, n);
    proof {
        let a = s@.subrange(0, start as int);
        let b = s@.subrange(start as int, n as int);
        assert forall|k: int| 0 <= k < b.len() implies #[trigger] b[k] != '"' by {
            assert(b[k] == s@[start + k]);
        }
        lemma_without_quotes_none(b);
        lemma_without_quotes_concat(a, b);
        assert(a + b =~= s@);
    }
    out.append(piece);
    out
}

/// The text of a slot type in a `[SAMPLE]` section (recorder buffers are
/// written as flex slots).
pub open spec fn spec_type_field(t: ProjectSampleSlotType) -> Seq<char> {
    match t {
        ProjectSampleSlotType::Static => "STATIC"@,
        _ => "FLEX"@,
    }
}

/// The `[SAMPLE]` section of a slot. The slot's tempo is not written.
pub open spec fn spec_slot_text(s: ProjectSampleSlot) -> Seq<char> {
    "[SAMPLE]\r\n"@
        + "TYPE="@ + spec_type_field(s.sample_type) + "\r\n"@
        + "SLOT="@ + spec_decimal(s.slot_id as nat) + "\r\n"@
        + "PATH="@ + without_quotes(spec_path_debug(s.path@)) + "\r\n"@
        + "TRIM_BARSx100="@ + spec_decimal(s.trim_bars_x100 as nat) + "\r\n"@
        + "TSMODE="@ + spec_decimal(s.timestrech_mode.spec_value() as nat) + "\r\n"@
        + "LOOPMODE="@ + spec_decimal(s.loop_mode.spec_value() as nat) + "\r\n"@
        + "GAIN="@ + spec_signed_decimal(s.gain + 48) + "\r\n"@
        + "TRIGQUANTIZATION="@ + spec_decimal(s.trig_quantization_mode.spec_value() as nat)
        + "\r\n[/SAMPLE]"@
}

impl ProjectSampleSlot {
    /// The `[SAMPLE]` section of the slot as written in a project file
    /// (type, number, path, trim, time-stretch, loop, gain plus 48, trig
    /// quantization; the tempo is not written).
    pub fn to_string(&self) -> (r: String)
        requires
            self.gain <= 79,
        ensures
            r@ == spec_slot_text(*self),
            plain_text(self.path@) ==> spec_path_debug(self.path@) == seq!['"'] + self.path@ + seq!['"'],
    {
        let mut s = String::from_str("[SAMPLE]\r\n");
        s.append("TYPE=");
        match self.sample_type {
            ProjectSampleSlotType::Static => s.append("STATIC"),
            _ => s.append("FLEX"),
        }
        s.append("\r\n");
        s.append("SLOT=");
        s.append(decimal_text(self.slot_id as u64).as_str());
        s.append("\r\n");
        s.append("PATH=");
        let dbg = path_debug_text(self.path.as_str());
        s.append(remove_quotes(dbg.as_str()).as_str());
        s.append("\r\n");
        s.append("TRIM_BARSx100=");
        s.append(decimal_text(self.trim_bars_x100 as u64).as_str());
        s.append("\r\n");
        s.append("TSMODE=");
        s.append(decimal_text(self.timestrech_mode.value() as u64).as_str());
        s.append("\r\n");
        s.append("LOOPMODE=");
        s.append(decimal_text(self.loop_mode.value() as u64).as_str());
        s.append("\r\n");
        s.append("GAIN=");
        s.append(signed_decimal_text((self.gain + 48) as i64).as_str());
        s.append("\r\n");
        s.append("TRIGQUANTIZATION=");
        s.append(decimal_text(self.trig_quantization_mode.value() as u64).as_str());
        s.append("\r\n[/SAMPLE]");
        s
    }
}

/// The entry name that key `k` stands for (keys are read in lower case);
/// `None` for a key that no slot setting uses.
pub open spec fn known_key(k: Seq<char>) -> Option<Seq<char>> {
    if key_is(k, "slot"@) {
        Some("slot"@)
    } else if key_is(k, "type"@) {
        Some("type"@)
    } else if key_is(k, "path"@) {
        Some("path"@)
    } else if key_is(k, "trim_barsx100"@) {
        Some("trim_barsx100"@)
    } else if key_is(k, "loopmode"@) {
        Some("loopmode"@)
    } else if key_is(k, "tsmode"@) {
        Some("tsmode"@)
    } else if key_is(k, "trigquantization"@) {
        Some("trigquantization"@)
    } else if key_is(k, "gain"@) {
        Some("gain"@)
    } else if key_is(k, "bpm"@) {
        Some("bpm"@)
    } else {
        None
    }
}

fn known_key_exec(k: &str) -> (r: Option<&'static str>)
    ensures
        match r {
            Some(n) => known_key(k@) == Some(n@),
            None => known_key(k@) is None,
        },
{
    if key_is_exec(k, "slot") {
        Some("slot")
    } else if key_is_exec(k, "type") {
        Some("type")
    } else if key_is_exec(k, "path") {
        Some("path")
    } else if key_is_exec(k, "trim_barsx100") {
        Some("trim_barsx100")
    } else if key_is_exec(k, "loopmode") {
        Some("loopmode")
    } else if key_is_exec(k, "tsmode") {
        Some("tsmode")
    } else if key_is_exec(k, "trigquantization") {
        Some("trigquantization")
    } else if key_is_exec(k, "gain") {
        Some("gain")
    } else if key_is_exec(k, "bpm") {
        Some("bpm")
    } else {
        None
    }
}

/// The slot entries of the lines of a `[SAMPLE]` section: each line of the
/// form `KEY=VALUE` (exactly one `=`) whose key names a slot setting sets
/// that setting; later lines win.
pub open spec fn spec_line_entries(lines: Seq<Seq<char>>) -> Map<Seq<char>, Seq<char>>
    decreases lines.len(),
{
    if lines.len() == 0 {
        Map::empty()
    } else {
        let m = spec_line_entries(lines.drop_last());
        let parts = spec_split(lines.last(), "="@);
        if parts.len() == 2 {
            match known_key(parts[0]) {
                Some(n) => m.insert(n, parts[1]),
                None => m,
            }
        } else {
            m
        }
    }
}

/// The entries of one `[SAMPLE]` piece of a project file (the text between
/// two `[/SAMPLE]` markers), when it has the expected framing.
pub open spec fn spec_block_entries(block: Seq<char>) -> Option<Map<Seq<char>, Seq<char>>> {
    match spec_strip_prefix(block, "\r\n\r\n[SAMPLE]\r\n"@) {
        None => None,
        Some(a) => match spec_strip_suffix(a, "\r\n"@) {
            None => None,
            Some(b) => Some(spec_line_entries(spec_split(b, "\r\n"@))),
        },
    }
}

/// The slot a `[SAMPLE]` piece describes.
pub open spec fn spec_block_slot(block: Seq<char>) -> Result<SlotView, OctatoolErrors> {
    match spec_block_entries(block) {
        None => Err(OctatoolErrors::ProjectSampleSlotParsingError),
        Some(m) => if spec_slot_readable(m) {
            spec_slot_from_map(m)
        } else {
            Err(OctatoolErrors::ProjectSampleSlotParsingError)
        },
    }
}

/// The slots of consecutive `[SAMPLE]` pieces, or the first piece's error.
pub open spec fn spec_blocks_slots(blocks: Seq<Seq<char>>) -> Result<Seq<SlotView>, OctatoolErrors>
    decreases blocks.len(),
{
    if blocks.len() == 0 {
        Ok(Seq::empty())
    } else {
        match spec_blocks_slots(blocks.drop_last()) {
            Err(e) => Err(e),
            Ok(prev) => match spec_block_slot(blocks.last()) {
                Err(e) => Err(e),
                Ok(v) => Ok(prev.push(v)),
            },
        }
    }
}

/// The sample slots listed in the text of a project file: the part after the
/// samples header (and before the file's footer), cut at each `[/SAMPLE]`
/// marker, the piece after the last marker dropped.
pub open spec fn spec_project_slots(data: Seq<char>) -> Result<Seq<SlotView>, OctatoolErrors> {
    match spec_strip_suffix(data, "\r\n\r\n############################\r\n\r\n"@) {
        None => Err(OctatoolErrors::ProjectSampleSlotParsingError),
        Some(body) => {
            let parts = spec_split(body, "############################\r\n# Samples\r\n############################"@);
            if parts.len() < 2 {
                Err(OctatoolErrors::ProjectSampleSlotParsingError)
            } else {
                spec_blocks_slots(spec_split(parts[1], "[/SAMPLE]"@).drop_last())
            }
        },
    }
}

fn entries_of_lines(lines: &Vec<String>) -> (r: KeyValues)
    ensures
        r@ == spec_line_entries(lines@.map_values(|l: String| l@)),
{
    let mut m = KeyValues::new();
    let mut i: usize = 0;
    while i < lines.len()
        invariant
            i <= lines@.len(),
            m@ == spec_line_entries(lines@.subrange(0, i as int).map_values(|l: String| l@)),
        decreases lines@.len() - i,
    {
        let ghost prefix = lines@.subrange(0, i as int).map_values(|l: String| l@);
        let ghost next = lines@.subrange(0, i + 1).map_values(|l: String| l@);
        assert(next.drop_last() =~= prefix);
        assert(next.last() == lines@[i as int]@);
        proof {
            reveal_strlit("=");
        }
        let parts = split_text(lines[i].as_str(), "=");
        if parts.len() == 2 {
            match known_key_exec(parts[0].as_str()) {
                Some(n) => {
                    m.insert(String::from_str(n), parts[1].clone());
                },
                None => {},
            }
        }
        i = i + 1;
    }
    assert(lines@.subrange(0, i as int) =~= lines@);
    m
}

/// The slot a `[SAMPLE]` piece of a project file describes.
pub fn slot_from_block(block: &str) -> (r: Result<ProjectSampleSlot, OctatoolErrors>)
    ensures
        match r {
            Ok(s) => spec_block_slot(block@) == Ok::<SlotView, OctatoolErrors>(s@),
            Err(e) => spec_block_slot(block@) == Err::<SlotView, OctatoolErrors>(e),
        },
{
    let a = match strip_prefix_text(block, "\r\n\r\n[SAMPLE]\r\n") {
        Some(a) => a,
        None => {
            return Err(OctatoolErrors::ProjectSampleSlotParsingError);
        },
    };
    let b = match strip_suffix_text(a.as_str(), "\r\n") {
        Some(b) => b,
        None => {
            return Err(OctatoolErrors::ProjectSampleSlotParsingError);
        },
    };
    proof {
        reveal_strlit("\r\n");
    }
    let lines = split_text(b.as_str(), "\r\n");
    assert(lines@.map_values(|l: String| l@) =~= spec_split(b@, "\r\n"@));
    let m = entries_of_lines(&lines);
    if !slot_readable(&m) {
        return Err(OctatoolErrors::ProjectSampleSlotParsingError);
    }
    ProjectSampleSlot::from_hashmap(&m)
}

impl ProjectSampleSlot {
    /// The sample slots listed in the text of a project file.
    pub fn from_string(data: &str) -> (r: Result<Vec<ProjectSampleSlot>, OctatoolErrors>)
        ensures
            match r {
                Ok(v) => spec_project_slots(data@) matches Ok(vs) && vs.len() == v@.len()
                    && forall|i: int| 0 <= i < v@.len() ==> (#[trigger] v@[i])@ == vs[i],
                Err(e) => spec_project_slots(data@) == Err::<Seq<SlotView>, OctatoolErrors>(e),
            },
    {
        let body = match strip_suffix_text(data, "\r\n\r\n############################\r\n\r\n") {
            Some(b) => b,
            None => {
                return Err(OctatoolErrors::ProjectSampleSlotParsingError);
            },
        };
        proof {
            reveal_strlit("############################\r\n# Samples\r\n############################");
            reveal_strlit("[/SAMPLE]");
        }
        let parts = split_text(body.as_str(), "############################\r\n# Samples\r\n############################");
        if parts.len() < 2 {
            return Err(OctatoolErrors::ProjectSampleSlotParsingError);
        }
        let pieces = split_text(parts[1].as_str(), "[/SAMPLE]");
        let ghost all = spec_split(parts@[1]@, "[/SAMPLE]"@);
        let count: usize = if pieces.len() == 0 {
            0
        } else {
            pieces.len() - 1
        };
        let ghost blocks = if all.len() == 0 {
            all
        } else {
            all.drop_last()
        };
        assert(blocks == all.drop_last() || all.len() == 0);
        let mut out: Vec<ProjectSampleSlot> = Vec::new();
        let mut i: usize = 0;
        while i < count
            invariant
                pieces@.len() == all.len(),
                all.len() > 0 ==> blocks == all.drop_last(),
                spec_strip_suffix(data@, "\r\n\r\n############################\r\n\r\n"@) == Some(body@),
                spec_split(body@, "############################\r\n# Samples\r\n############################"@).len() >= 2,
                all == spec_split(spec_split(body@, "############################\r\n# Samples\r\n############################"@)[1], "[/SAMPLE]"@),
                count == blocks.len(),
                blocks.len() <= all.len(),
                forall|k: int| 0 <= k < blocks.len() ==> #[trigger] blocks[k] == all[k],
                forall|k: int| 0 <= k < pieces@.len() ==> #[trigger] pieces@[k]@ == all[k],
                i <= count,
                spec_blocks_slots(blocks.subrange(0, i as int)) matches Ok(vs) && vs.len() == out@.len()
                    && forall|q: int| 0 <= q < out@.len() ==> (#[trigger] out@[q])@ == vs[q],
            decreases count - i,
        {
            let ghost pre = blocks.subrange(0, i as int);
            let ghost nxt = blocks.subrange(0, i + 1);
            assert(nxt.drop_last() =~= pre);
            assert(nxt.last() == pieces@[i as int]@);
            match slot_from_block(pieces[i].as_str()) {
                Ok(s) => {
                    let ghost vs = spec_blocks_slots(pre)->Ok_0;
                    out.push(s);
                    assert forall|q: int| 0 <= q < out@.len() implies (#[trigger] out@[q])@ == vs.push(s@)[q] by {
                        if q < vs.len() {
                            assert(out@[q] == out@.drop_last()[q]);
                        }
                    }
                },
                Err(e) => {
                    proof {
                        assert(spec_block_slot(nxt.last()) == Err::<SlotView, OctatoolErrors>(e));
                        assert(spec_blocks_slots(nxt) == Err::<Seq<SlotView>, OctatoolErrors>(e));
                        lemma_blocks_slots_prefix_err(blocks, i as int + 1);
                        assert(blocks == all.drop_last());
                    }
                    return Err(e);
                },
            }
            i = i + 1;
        }
        proof {
            if all.len() == 0 {
                assert(all.drop_last() =~= all);
            }
            assert(blocks.subrange(0, count as int) =~= all.drop_last());
        }
        Ok(out)
    }
}

/// The `[SAMPLE]` sections of the slots, each after a blank line.
pub open spec fn spec_sections(slots: Seq<ProjectSampleSlot>) -> Seq<char>
    decreases slots.len(),
{
    if slots.len() == 0 {
        Seq::empty()
    } else {
        spec_sections(slots.drop_last()) + "\r\n\r\n"@ + spec_slot_text(slots.last())
    }
}

/// The text of a project file with its sample slots replaced by `slots`:
/// the text up to the samples header, the header, the slots' sections and
/// the file's footer; `None` when the text has no footer or no samples
/// header.
pub open spec fn spec_project_text_with_slots(data: Seq<char>, slots: Seq<ProjectSampleSlot>) -> Option<Seq<char>> {
    match spec_strip_suffix(data, "\r\n\r\n############################\r\n\r\n"@) {
        None => None,
        Some(body) => {
            let parts = spec_split(body, "############################\r\n# Samples\r\n############################"@);
            if parts.len() < 2 {
                None
            } else {
                Some(parts[0] + "############################\r\n# Samples\r\n############################"@
                    + spec_sections(slots) + "\r\n\r\n############################\r\n\r\n"@)
            }
        },
    }
}

/// The text of a project file with its sample slots replaced by `slots`.
pub fn project_text_with_slots(data: &str, slots: &[ProjectSampleSlot]) -> (r: Result<String, OctatoolErrors>)
    requires
        forall|i: int| 0 <= i < slots@.len() ==> (#[trigger] slots@[i]).gain <= 79,
    ensures
        match r {
            Ok(t) => spec_project_text_with_slots(data@, slots@) == Some(t@),
            Err(e) => e == OctatoolErrors::ProjectSampleSlotParsingError && spec_project_text_with_slots(data@, slots@) is None,
        },
{
    let body = match strip_suffix_text(data, "\r\n\r\n############################\r\n\r\n") {
        Some(b) => b,
        None => {
            return Err(OctatoolErrors::ProjectSampleSlotParsingError);
        },
    };
    proof {
        reveal_strlit("############################\r\n# Samples\r\n############################");
    }
    let parts = split_text(body.as_str(), "############################\r\n# Samples\r\n############################");
    if parts.len() < 2 {
        return Err(OctatoolErrors::ProjectSampleSlotParsingError);
    }
    let mut out = parts[0].clone();
    out.append("############################\r\n# Samples\r\n############################");
    let ghost start = out@;
    let mut i: usize = 0;
    while i < slots.len()
        invariant
            i <= slots@.len(),
            forall|k: int| 0 <= k < slots@.len() ==> (#[trigger] slots@[k]).gain <= 79,
            out@ == start + spec_sections(slots@.subrange(0, i as int)),
        decreases slots@.len() - i,
    {
        assert(slots@.subrange(0, i + 1).drop_last() =~= slots@.subrange(0, i as int));
        assert(slots@.subrange(0, i + 1).last() == slots@[i as int]);
        let ghost before = out@;
        out.append("\r\n\r\n");
        let t = slots[i].to_string();
        out.append(t.as_str());
        assert(out@ =~= start + spec_sections(slots@.subrange(0, i + 1)));
        i = i + 1;
    }
    assert(slots@.subrange(0, i as int) =~= slots@);
    out.append("\r\n\r\n############################\r\n\r\n");
    Ok(out)
}

proof fn lemma_blocks_slots_prefix_err(blocks: Seq<Seq<char>>, n: int)
    requires
        0 < n <= blocks.len(),
        spec_blocks_slots(blocks.subrange(0, n)) is Err,
    ensures
        spec_blocks_slots(blocks) == spec_blocks_slots(blocks.subrange(0, n)),
    decreases blocks.len() - n,
{
    if n < blocks.len() {
        let next = blocks.subrange(0, n + 1);
        assert(next.drop_last() =~= blocks.subrange(0, n));
        lemma_blocks_slots_prefix_err(blocks, n + 1);
    } else {
        assert(blocks.subrange(0, n) =~= blocks);
    }
}

/// The path field of a plain path is the path itself.
proof fn lemma_path_field(path: Seq<char>)
    requires
        plain_text(path),
        spec_path_debug(path) == seq!['"'] + path + seq!['"'],
    ensures
        without_quotes(spec_path_debug(path)) == path,
{
    let qt = seq!['"'];
    assert forall|k: int| 0 <= k < path.len() implies #[trigger] path[k] != '"' by {}
    lemma_without_quotes_none(path);
    lemma_without_quotes_concat(qt, path);
    lemma_without_quotes_concat(qt + path, qt);
    assert(qt.drop_last() =~= Seq::<char>::empty());
    assert(qt.len() == 1 && qt.last() == '"');
    assert(without_quotes(Seq::<char>::empty()) =~= Seq::<char>::empty());
    assert(without_quotes(qt) =~= Seq::<char>::empty());
    assert(without_quotes(qt) + without_quotes(path) + without_quotes(qt) =~= path);
}

/// The entries a slot's section holds, keyed by their lower-case names.
pub open spec fn spec_slot_entries(s: ProjectSampleSlot) -> Map<Seq<char>, Seq<char>> {
    Map::<Seq<char>, Seq<char>>::empty()
        .insert("type"@, spec_type_field(s.sample_type))
        .insert("slot"@, spec_decimal(s.slot_id as nat))
        .insert("path"@, without_quotes(spec_path_debug(s.path@)))
        .insert("trim_barsx100"@, spec_decimal(s.trim_bars_x100 as nat))
        .insert("tsmode"@, spec_decimal(s.timestrech_mode.spec_value() as nat))
        .insert("loopmode"@, spec_decimal(s.loop_mode.spec_value() as nat))
        .insert("gain"@, spec_signed_decimal(s.gain + 48))
        .insert("trigquantization"@, spec_decimal(s.trig_quantization_mode.spec_value() as nat))
}

/// The slots whose section text reads back as the slot: a path of plain
/// characters (see `plain_text`) without `=`, the tempo 120 (the text does
/// not hold the tempo, which reads as 120), a gain up to 79 (so that gain
/// plus 48 is an `i8`), and a number from 129 on exactly for recorder
/// buffers.
pub open spec fn text_roundtrips(s: ProjectSampleSlot) -> bool {
    &&& plain_text(s.path@)
    &&& forall|i: int| 0 <= i < s.path@.len() ==> #[trigger] s.path@[i] != '='
    &&& s.bpm == 120
    &&& s.gain <= 79
    &&& (s.sample_type == ProjectSampleSlotType::RecorderBuffer <==> s.slot_id >= 129)
}

proof fn lemma_read_decimal(m: Map<Seq<char>, Seq<char>>, key: Seq<char>, d: Option<Seq<char>>, n: nat, signed: bool, lo: int, hi: int)
    requires
        m.contains_key(key),
        m[key] == spec_decimal(n),
        lo <= n <= hi,
    ensures
        spec_read_value(m, key, d, signed, lo, hi) == Ok::<int, OctatoolErrors>(n as int),
{
    lemma_decimal_reads_back(n);
}

proof fn lemma_read_signed_decimal(m: Map<Seq<char>, Seq<char>>, key: Seq<char>, d: Option<Seq<char>>, v: int, lo: int, hi: int)
    requires
        m.contains_key(key),
        m[key] == spec_signed_decimal(v),
        lo <= v <= hi,
    ensures
        spec_read_value(m, key, d, true, lo, hi) == Ok::<int, OctatoolErrors>(v),
{
    if v < 0 {
        let t = spec_signed_decimal(v);
        lemma_decimal_reads_back((-v) as nat);
        assert(t[0] == '-');
        assert(t.drop_first() =~= spec_decimal((-v) as nat));
        assert(spec_parse_int(t, true) == Some(-((-v) as nat) as int));
    } else {
        lemma_decimal_reads_back(v as nat);
    }
}

/// The entries of a slot's section describe the slot (for slots whose text
/// reads back, see `text_roundtrips`).
proof fn lemma_slot_entries_read_back(s: ProjectSampleSlot)
    requires
        text_roundtrips(s),
        spec_path_debug(s.path@) == seq!['"'] + s.path@ + seq!['"'],
    ensures
        spec_slot_readable(spec_slot_entries(s)),
        spec_slot_from_map(spec_slot_entries(s)) == Ok::<SlotView, OctatoolErrors>(s@),
{
    let m = spec_slot_entries(s);
    reveal_strlit("type");
    reveal_strlit("slot");
    reveal_strlit("path");
    reveal_strlit("trim_barsx100");
    reveal_strlit("tsmode");
    reveal_strlit("loopmode");
    reveal_strlit("gain");
    reveal_strlit("trigquantization");
    reveal_strlit("bpm");
    reveal_strlit("2880");
    reveal_strlit("STATIC");
    reveal_strlit("FLEX");
    reveal_strlit("RECORDER");
    assert("type"@.len() == 4 && "type"@[0] == 't');
    assert("slot"@.len() == 4 && "slot"@[0] == 's');
    assert("path"@.len() == 4 && "path"@[0] == 'p');
    assert("gain"@.len() == 4 && "gain"@[0] == 'g');
    assert("bpm"@.len() == 3);
    assert("tsmode"@.len() == 6);
    assert("loopmode"@.len() == 8);
    assert("trim_barsx100"@.len() == 13);
    assert("trigquantization"@.len() == 16);
    assert(m.contains_key("slot"@) && m["slot"@] == spec_decimal(s.slot_id as nat));
    assert(m.contains_key("type"@) && m["type"@] == spec_type_field(s.sample_type));
    assert(m.contains_key("path"@) && m["path"@] == without_quotes(spec_path_debug(s.path@)));
    assert(m.contains_key("trim_barsx100"@));
    assert(m.contains_key("tsmode"@));
    assert(m.contains_key("loopmode"@));
    assert(m.contains_key("gain"@));
    assert(m.contains_key("trigquantization"@));
    assert(!m.contains_key("bpm"@));
    lemma_read_decimal(m, "slot"@, None, s.slot_id as nat, false, 0, 255);
    lemma_read_decimal(m, "trim_barsx100"@, Some("0"@), s.trim_bars_x100 as nat, false, 0, 65535);
    lemma_read_decimal(m, "tsmode"@, Some("0"@), s.timestrech_mode.spec_value() as nat, false, 0, 0xffff_ffff);
    lemma_read_decimal(m, "loopmode"@, Some("0"@), s.loop_mode.spec_value() as nat, false, 0, 0xffff_ffff);
    lemma_read_decimal(m, "trigquantization"@, Some("255"@), s.trig_quantization_mode.spec_value() as nat, true, -32768, 32767);
    lemma_read_signed_decimal(m, "gain"@, Some("48"@), s.gain + 48, -128, 127);
    assert(spec_read_value(m, "bpm"@, Some("2880"@), false, 0, 65535) == Ok::<int, OctatoolErrors>(2880)) by {
        let t = "2880"@;
        assert(t.len() == 4 && t[0] == '2' && t[1] == '8' && t[2] == '8' && t[3] == '0');
        assert(t.drop_last().drop_last().drop_last().drop_last() =~= Seq::<char>::empty());
        reveal_with_fuel(digits_value, 5);
        assert(digits_value(t) == 2880);
    }
    assert(spec_tempo(m) == 120);
    lemma_loop_mode_value_roundtrip(s.loop_mode, 0);
    lemma_timestretch_mode_value_roundtrip(s.timestrech_mode, 0);
    lemma_trig_quantization_mode_value_roundtrip(s.trig_quantization_mode, 0);
    // the path: the debug text of a plain path is the path in quotes
    lemma_path_field(s.path@);
    assert(m["path"@] =~= s.path@);
    assert(spec_parse_id(m) == Ok::<u8, OctatoolErrors>(s.slot_id));
    assert("STATIC"@.len() == 6 && "FLEX"@.len() == 4 && "RECORDER"@.len() == 8);
    assert(ProjectSampleSlotType::spec_from_value(spec_type_text(m, s.slot_id)) == Ok::<ProjectSampleSlotType, OctatoolErrors>(s.sample_type));
    assert(spec_loop_mode(m) == Ok::<SampleAttributeLoopMode, OctatoolErrors>(s.loop_mode));
    assert(spec_tstrech_mode(m) == Ok::<SampleAttributeTimestrechMode, OctatoolErrors>(s.timestrech_mode));
    assert(spec_trig_quantize_mode(m) == Ok::<SampleAttributeTrigQuantizationMode, OctatoolErrors>(s.trig_quantization_mode));
    assert(spec_trim_bars(m) == s.trim_bars_x100);
    assert(spec_gain_raw(m) == s.gain + 48);
}


/// The lines of a slot's section, from its type to its trig quantization.
pub open spec fn spec_slot_lines(s: ProjectSampleSlot) -> Seq<Seq<char>> {
    seq![
        "TYPE="@ + spec_type_field(s.sample_type),
        "SLOT="@ + spec_decimal(s.slot_id as nat),
        "PATH="@ + without_quotes(spec_path_debug(s.path@)),
        "TRIM_BARSx100="@ + spec_decimal(s.trim_bars_x100 as nat),
        "TSMODE="@ + spec_decimal(s.timestrech_mode.spec_value() as nat),
        "LOOPMODE="@ + spec_decimal(s.loop_mode.spec_value() as nat),
        "GAIN="@ + spec_signed_decimal(s.gain + 48),
        "TRIGQUANTIZATION="@ + spec_decimal(s.trig_quantization_mode.spec_value() as nat),
    ]
}

/// Lines joined by `\r\n`.
pub open spec fn join_crlf(lines: Seq<Seq<char>>) -> Seq<char>
    decreases lines.len(),
{
    if lines.len() == 0 {
        Seq::empty()
    } else if lines.len() == 1 {
        lines[0]
    } else {
        lines[0] + "\r\n"@ + join_crlf(lines.drop_first())
    }
}

proof fn lemma_split_join(lines: Seq<Seq<char>>)
    requires
        lines.len() > 0,
        forall|i: int, k: int| 0 <= i < lines.len() && 0 <= k < lines[i].len() ==> #[trigger] lines[i][k] != '\r',
    ensures
        spec_split(join_crlf(lines), "\r\n"@) == lines,
    decreases lines.len(),
{
    reveal_strlit("\r\n");
    let sep = "\r\n"@;
    assert(sep.len() == 2 && sep[0] == '\r');
    let a = lines[0];
    assert forall|k: int| 0 <= k < a.len() implies #[trigger] a[k] != sep[0] by {
        assert(lines[0][k] != '\r');
    }
    if lines.len() == 1 {
        lemma_split_single(a, sep);
        assert(seq![a] =~= lines);
    } else {
        let rest = lines.drop_first();
        assert forall|i: int, k: int| 0 <= i < rest.len() && 0 <= k < rest[i].len() implies #[trigger] rest[i][k] != '\r' by {
            assert(rest[i] == lines[i + 1]);
        }
        lemma_split_join(rest);
        lemma_split_cons(a, sep, join_crlf(rest));
        assert(seq![a] + rest =~= lines);
    }
}

proof fn lemma_entry_line(key: Seq<char>, val: Seq<char>)
    requires
        forall|k: int| 0 <= k < key.len() ==> #[trigger] key[k] != '=',
        forall|k: int| 0 <= k < val.len() ==> #[trigger] val[k] != '=',
    ensures
        spec_split(key + "="@ + val, "="@) == seq![key, val],
{
    reveal_strlit("=");
    let sep = "="@;
    assert(sep.len() == 1 && sep[0] == '=');
    lemma_split_cons(key, sep, val);
    lemma_split_single(val, sep);
    assert(seq![key] + seq![val] =~= seq![key, val]);
}

/// A number's decimal text holds only digits.
proof fn lemma_decimal_chars(n: nat)
    ensures
        forall|k: int| 0 <= k < spec_decimal(n).len() ==> is_digit(#[trigger] spec_decimal(n)[k]),
{
    lemma_decimal_reads_back(n);
}

proof fn lemma_signed_decimal_chars(v: int)
    ensures
        forall|k: int| 0 <= k < spec_signed_decimal(v).len() ==>
            is_digit(#[trigger] spec_signed_decimal(v)[k]) || spec_signed_decimal(v)[k] == '-',
{
    if v < 0 {
        let d = spec_decimal((-v) as nat);
        lemma_decimal_chars((-v) as nat);
        assert forall|k: int| 0 <= k < spec_signed_decimal(v).len() implies
            is_digit(#[trigger] spec_signed_decimal(v)[k]) || spec_signed_decimal(v)[k] == '-' by {
            if k > 0 {
                assert(spec_signed_decimal(v)[k] == d[k - 1]);
            }
        }
    } else {
        lemma_decimal_chars(v as nat);
    }
}


/// The keys of a slot's lines name the slot settings.
proof fn lemma_known_slot_keys()
    ensures
        known_key("TYPE"@) == Some("type"@),
        known_key("SLOT"@) == Some("slot"@),
        known_key("PATH"@) == Some("path"@),
        known_key("TRIM_BARSx100"@) == Some("trim_barsx100"@),
        known_key("TSMODE"@) == Some("tsmode"@),
        known_key("LOOPMODE"@) == Some("loopmode"@),
        known_key("GAIN"@) == Some("gain"@),
        known_key("TRIGQUANTIZATION"@) == Some("trigquantization"@),
{
    reveal_strlit("TYPE");
    reveal_strlit("SLOT");
    reveal_strlit("PATH");
    reveal_strlit("TRIM_BARSx100");
    reveal_strlit("TSMODE");
    reveal_strlit("LOOPMODE");
    reveal_strlit("GAIN");
    reveal_strlit("TRIGQUANTIZATION");
    reveal_strlit("type");
    reveal_strlit("slot");
    reveal_strlit("path");
    reveal_strlit("trim_barsx100");
    reveal_strlit("tsmode");
    reveal_strlit("loopmode");
    reveal_strlit("gain");
    reveal_strlit("trigquantization");
    reveal_strlit("bpm");
    assert(ascii_lower('T') == 't' && ascii_lower('Y') == 'y' && ascii_lower('P') == 'p' && ascii_lower('E') == 'e');
    assert(ascii_lower('S') == 's' && ascii_lower('L') == 'l' && ascii_lower('O') == 'o' && ascii_lower('A') == 'a');
    assert(ascii_lower('H') == 'h' && ascii_lower('R') == 'r' && ascii_lower('I') == 'i' && ascii_lower('M') == 'm');
    assert(ascii_lower('B') == 'b' && ascii_lower('D') == 'd' && ascii_lower('G') == 'g' && ascii_lower('N') == 'n');
    assert(ascii_lower('Q') == 'q' && ascii_lower('U') == 'u' && ascii_lower('Z') == 'z' && ascii_lower('_') == '_');
    assert(ascii_lower('x') == 'x' && ascii_lower('1') == '1' && ascii_lower('0') == '0');
    assert(key_is("TYPE"@, "type"@));
    assert(!key_is("TYPE"@, "slot"@)) by {
        assert(ascii_lower("TYPE"@[0]) != "slot"@[0]);
    }
    assert(key_is("SLOT"@, "slot"@));
    assert(!key_is("PATH"@, "slot"@)) by {
        assert(ascii_lower("PATH"@[0]) != "slot"@[0]);
    }
    assert(!key_is("PATH"@, "type"@)) by {
        assert(ascii_lower("PATH"@[0]) != "type"@[0]);
    }
    assert(key_is("PATH"@, "path"@));
    assert(key_is("TRIM_BARSx100"@, "trim_barsx100"@));
    assert(key_is("TSMODE"@, "tsmode"@));
    assert(key_is("LOOPMODE"@, "loopmode"@));
    assert(!key_is("GAIN"@, "slot"@)) by {
        assert(ascii_lower("GAIN"@[0]) != "slot"@[0]);
    }
    assert(!key_is("GAIN"@, "type"@)) by {
        assert(ascii_lower("GAIN"@[0]) != "type"@[0]);
    }
    assert(!key_is("GAIN"@, "path"@)) by {
        assert(ascii_lower("GAIN"@[0]) != "path"@[0]);
    }
    assert(key_is("GAIN"@, "gain"@));
    assert(key_is("TRIGQUANTIZATION"@, "trigquantization"@));
}


proof fn lemma_line_entries_step(lines: Seq<Seq<char>>, k: int, key: Seq<char>, val: Seq<char>, name: Seq<char>)
    requires
        0 <= k < lines.len(),
        lines[k] == key + "="@ + val,
        forall|i: int| 0 <= i < key.len() ==> #[trigger] key[i] != '=',
        forall|i: int| 0 <= i < val.len() ==> #[trigger] val[i] != '=',
        known_key(key) == Some(name),
    ensures
        spec_line_entries(lines.subrange(0, k + 1)) == spec_line_entries(lines.subrange(0, k)).insert(name, val),
{
    let p = lines.subrange(0, k + 1);
    assert(p.drop_last() =~= lines.subrange(0, k));
    lemma_entry_line(key, val);
}

/// The lines of a slot's section hold its entries, and no line break.
proof fn lemma_slot_lines_entries(s: ProjectSampleSlot)
    requires
        text_roundtrips(s),
        spec_path_debug(s.path@) == seq!['"'] + s.path@ + seq!['"'],
    ensures
        spec_line_entries(spec_slot_lines(s)) == spec_slot_entries(s),
        forall|i: int, k: int| 0 <= i < spec_slot_lines(s).len() && 0 <= k < spec_slot_lines(s)[i].len()
            ==> #[trigger] spec_slot_lines(s)[i][k] != '\r',
{
    let lines = spec_slot_lines(s);
    reveal_strlit("TYPE=");
    reveal_strlit("SLOT=");
    reveal_strlit("PATH=");
    reveal_strlit("TRIM_BARSx100=");
    reveal_strlit("TSMODE=");
    reveal_strlit("LOOPMODE=");
    reveal_strlit("GAIN=");
    reveal_strlit("TRIGQUANTIZATION=");
    reveal_strlit("TYPE");
    reveal_strlit("SLOT");
    reveal_strlit("PATH");
    reveal_strlit("TRIM_BARSx100");
    reveal_strlit("TSMODE");
    reveal_strlit("LOOPMODE");
    reveal_strlit("GAIN");
    reveal_strlit("TRIGQUANTIZATION");
    reveal_strlit("=");
    reveal_strlit("STATIC");
    reveal_strlit("FLEX");
    lemma_known_slot_keys();
    lemma_path_field(s.path@);
    let tf = spec_type_field(s.sample_type);
    let v1 = spec_decimal(s.slot_id as nat);
    let v3 = spec_decimal(s.trim_bars_x100 as nat);
    let v4 = spec_decimal(s.timestrech_mode.spec_value() as nat);
    let v5 = spec_decimal(s.loop_mode.spec_value() as nat);
    let v6 = spec_signed_decimal(s.gain + 48);
    let v7 = spec_decimal(s.trig_quantization_mode.spec_value() as nat);
    lemma_decimal_chars(s.slot_id as nat);
    lemma_decimal_chars(s.trim_bars_x100 as nat);
    lemma_decimal_chars(s.timestrech_mode.spec_value() as nat);
    lemma_decimal_chars(s.loop_mode.spec_value() as nat);
    lemma_signed_decimal_chars(s.gain + 48);
    lemma_decimal_chars(s.trig_quantization_mode.spec_value() as nat);
    assert(forall|i: int| 0 <= i < tf.len() ==> #[trigger] tf[i] != '=' && tf[i] != '\r');
    assert(lines[0] =~= "TYPE"@ + "="@ + tf);
    assert(lines[1] =~= "SLOT"@ + "="@ + v1);
    assert(lines[2] =~= "PATH"@ + "="@ + s.path@);
    assert(lines[3] =~= "TRIM_BARSx100"@ + "="@ + v3);
    assert(lines[4] =~= "TSMODE"@ + "="@ + v4);
    assert(lines[5] =~= "LOOPMODE"@ + "="@ + v5);
    assert(lines[6] =~= "GAIN"@ + "="@ + v6);
    assert(lines[7] =~= "TRIGQUANTIZATION"@ + "="@ + v7);
    lemma_line_entries_step(lines, 0, "TYPE"@, tf, "type"@);
    lemma_line_entries_step(lines, 1, "SLOT"@, v1, "slot"@);
    lemma_line_entries_step(lines, 2, "PATH"@, s.path@, "path"@);
    lemma_line_entries_step(lines, 3, "TRIM_BARSx100"@, v3, "trim_barsx100"@);
    lemma_line_entries_step(lines, 4, "TSMODE"@, v4, "tsmode"@);
    lemma_line_entries_step(lines, 5, "LOOPMODE"@, v5, "loopmode"@);
    lemma_line_entries_step(lines, 6, "GAIN"@, v6, "gain"@);
    lemma_line_entries_step(lines, 7, "TRIGQUANTIZATION"@, v7, "trigquantization"@);
    assert(lines.subrange(0, 0) =~= Seq::<Seq<char>>::empty());
    assert(lines.subrange(0, 8) =~= lines);
    assert forall|i: int, k: int| 0 <= i < lines.len() && 0 <= k < lines[i].len() implies #[trigger] lines[i][k] != '\r' by {
        if i == 2 {
            assert(lines[2][k] == ' ' || lines[2][k] >= ' ');
        }
    }
}


proof fn lemma_join_snoc(lines: Seq<Seq<char>>)
    requires
        lines.len() >= 2,
    ensures
        join_crlf(lines) == join_crlf(lines.drop_last()) + "\r\n"@ + lines.last(),
    decreases lines.len(),
{
    let c = "\r\n"@;
    let rest = lines.drop_first();
    if lines.len() == 2 {
        assert(rest =~= seq![lines[1]]);
        assert(lines.drop_last() =~= seq![lines[0]]);
        assert(join_crlf(rest) == lines[1]);
        assert(join_crlf(lines.drop_last()) == lines[0]);
        assert(join_crlf(lines) == lines[0] + c + join_crlf(rest));
    } else {
        lemma_join_snoc(rest);
        assert(lines.drop_last().drop_first() =~= rest.drop_last());
        assert(rest.last() == lines.last());
        let a = lines[0];
        let m = join_crlf(rest.drop_last());
        let d = lines.drop_last();
        assert(d[0] == a);
        assert(join_crlf(d) == d[0] + c + join_crlf(d.drop_first()));
        assert(join_crlf(lines) == a + c + join_crlf(rest));
        assert(a + c + (m + c + lines.last()) =~= (a + c + m) + c + lines.last());
    }
}

proof fn lemma_join_prefix_step(h: Seq<char>, lines: Seq<Seq<char>>, k: int)
    requires
        1 <= k < lines.len(),
    ensures
        h + join_crlf(lines.subrange(0, k + 1)) == h + join_crlf(lines.subrange(0, k)) + "\r\n"@ + lines[k],
{
    let p = lines.subrange(0, k + 1);
    lemma_join_snoc(p);
    assert(p.drop_last() =~= lines.subrange(0, k));
    let c = "\r\n"@;
    let m = join_crlf(lines.subrange(0, k));
    assert(h + (m + c + lines[k]) =~= h + m + c + lines[k]);
}

/// A slot's section is its lines between `[SAMPLE]` and `[/SAMPLE]`.
proof fn lemma_slot_text_join(s: ProjectSampleSlot)
    ensures
        spec_slot_text(s) == "[SAMPLE]\r\n"@ + join_crlf(spec_slot_lines(s)) + "\r\n[/SAMPLE]"@,
{
    let l = spec_slot_lines(s);
    let c = "\r\n"@;
    let h = "[SAMPLE]\r\n"@;
    let tf = spec_type_field(s.sample_type);
    let v1 = spec_decimal(s.slot_id as nat);
    let v2 = without_quotes(spec_path_debug(s.path@));
    let v3 = spec_decimal(s.trim_bars_x100 as nat);
    let v4 = spec_decimal(s.timestrech_mode.spec_value() as nat);
    let v5 = spec_decimal(s.loop_mode.spec_value() as nat);
    let v6 = spec_signed_decimal(s.gain + 48);
    let v7 = spec_decimal(s.trig_quantization_mode.spec_value() as nat);
    let f1 = h + "TYPE="@ + tf;
    let f2 = f1 + c + "SLOT="@ + v1;
    let f3 = f2 + c + "PATH="@ + v2;
    let f4 = f3 + c + "TRIM_BARSx100="@ + v3;
    let f5 = f4 + c + "TSMODE="@ + v4;
    let f6 = f5 + c + "LOOPMODE="@ + v5;
    let f7 = f6 + c + "GAIN="@ + v6;
    let f8 = f7 + c + "TRIGQUANTIZATION="@ + v7;
    assert(l.subrange(0, 1) =~= seq![l[0]]);
    assert(h + join_crlf(l.subrange(0, 1)) =~= f1);
    lemma_join_prefix_step(h, l, 1);
    assert(h + join_crlf(l.subrange(0, 2)) =~= f2);
    lemma_join_prefix_step(h, l, 2);
    assert(h + join_crlf(l.subrange(0, 3)) =~= f3);
    lemma_join_prefix_step(h, l, 3);
    assert(h + join_crlf(l.subrange(0, 4)) =~= f4);
    lemma_join_prefix_step(h, l, 4);
    assert(h + join_crlf(l.subrange(0, 5)) =~= f5);
    lemma_join_prefix_step(h, l, 5);
    assert(h + join_crlf(l.subrange(0, 6)) =~= f6);
    lemma_join_prefix_step(h, l, 6);
    assert(h + join_crlf(l.subrange(0, 7)) =~= f7);
    lemma_join_prefix_step(h, l, 7);
    assert(h + join_crlf(l.subrange(0, 8)) =~= f8);
    assert(l.subrange(0, 8) =~= l);
    reveal_strlit("\r\n[/SAMPLE]");
    reveal_strlit("\r\n");
    reveal_strlit("[/SAMPLE]");
    assert("\r\n[/SAMPLE]"@ =~= c + "[/SAMPLE]"@);
    assert(spec_slot_text(s) =~= f8 + "\r\n[/SAMPLE]"@);
}

/// The framing of a section around its joined lines `j`: the piece before
/// `[/SAMPLE]`, after a blank line, has the entries of `j`'s lines.
proof fn lemma_section_frame(j: Seq<char>)
    ensures
        spec_strip_suffix("[SAMPLE]\r\n"@ + j + "\r\n[/SAMPLE]"@, "[/SAMPLE]"@) == Some("[SAMPLE]\r\n"@ + j + "\r\n"@),
        spec_block_entries("\r\n\r\n"@ + ("[SAMPLE]\r\n"@ + j + "\r\n"@)) == Some(spec_line_entries(spec_split(j, "\r\n"@))),
{
    reveal_strlit("[/SAMPLE]");
    reveal_strlit("\r\n[/SAMPLE]");
    reveal_strlit("[SAMPLE]\r\n");
    reveal_strlit("\r\n\r\n");
    reveal_strlit("\r\n\r\n[SAMPLE]\r\n");
    reveal_strlit("\r\n");
    let c = "\r\n"@;
    let t = "[SAMPLE]\r\n"@ + j + "\r\n[/SAMPLE]"@;
    let b = "[SAMPLE]\r\n"@ + j + c;
    assert(t =~= b + "[/SAMPLE]"@);
    assert(t.subrange(t.len() - 9, t.len() as int) =~= "[/SAMPLE]"@);
    assert(t.subrange(0, t.len() - 9) =~= b);
    let block = "\r\n\r\n"@ + b;
    let p = "\r\n\r\n[SAMPLE]\r\n"@;
    assert(block =~= p + (j + c));
    assert(block.subrange(0, p.len() as int) =~= p);
    assert(block.subrange(p.len() as int, block.len() as int) =~= j + c);
    let a = j + c;
    assert(a.subrange(a.len() - 2, a.len() as int) =~= c);
    assert(a.subrange(0, a.len() - 2) =~= j);
}

/// A slot's section, read back as a piece of a project file (the text
/// before its `[/SAMPLE]` marker, after the blank line that precedes it),
/// gives the slot back: for slots whose text reads back (see
/// `text_roundtrips`) and whose path's debug text is the path in quotes
/// (what `to_string` reports of a plain path).
pub proof fn lemma_slot_text_reads_back(s: ProjectSampleSlot)
    requires
        text_roundtrips(s),
        spec_path_debug(s.path@) == seq!['"'] + s.path@ + seq!['"'],
    ensures
        spec_strip_suffix(spec_slot_text(s), "[/SAMPLE]"@) matches Some(b)
            && spec_block_slot("\r\n\r\n"@ + b) == Ok::<SlotView, OctatoolErrors>(s@),
{
    let lines = spec_slot_lines(s);
    let j = join_crlf(lines);
    lemma_slot_text_join(s);
    lemma_slot_lines_entries(s);
    lemma_split_join(lines);
    lemma_slot_entries_read_back(s);
    lemma_section_frame(j);
}


/// A slot's section, read line by line, gives the slot back through the
/// key/value entries that `ProjectSampleSlot::from_hashmap` reads: the text
/// between `[SAMPLE]` and `[/SAMPLE]` splits at its line breaks into the
/// slot's lines; each line, split at its `=` into a key (read in lower case)
/// and a value, gives the slot's entries; and those entries are readable and
/// describe the slot. For slots whose text reads back (see
/// `text_roundtrips`) and whose path's debug text is the path in quotes.
pub proof fn lemma_slot_text_entries_read_back(s: ProjectSampleSlot)
    requires
        text_roundtrips(s),
        spec_path_debug(s.path@) == seq!['"'] + s.path@ + seq!['"'],
    ensures
        spec_slot_text(s) == "[SAMPLE]\r\n"@ + join_crlf(spec_slot_lines(s)) + "\r\n[/SAMPLE]"@,
        spec_split(join_crlf(spec_slot_lines(s)), "\r\n"@) == spec_slot_lines(s),
        spec_line_entries(spec_slot_lines(s)) == spec_slot_entries(s),
        spec_slot_readable(spec_slot_entries(s)),
        spec_slot_from_map(spec_slot_entries(s)) == Ok::<SlotView, OctatoolErrors>(s@),
{
    lemma_slot_text_join(s);
    lemma_slot_lines_entries(s);
    lemma_split_join(spec_slot_lines(s));
    lemma_slot_entries_read_back(s);
}

/// Whether a slot's section reads back as the slot from a whole project
/// file: its text reads back (see `text_roundtrips`), its path's debug text
/// is the path in quotes (what `to_string` reports of a plain path), and its
/// path holds no `[` and no `#` (which could begin a marker of the file).
pub open spec fn section_reads_back(s: ProjectSampleSlot) -> bool {
    &&& text_roundtrips(s)
    &&& spec_path_debug(s.path@) == seq!['"'] + s.path@ + seq!['"']
    &&& forall|k: int| 0 <= k < s.path@.len() ==> #[trigger] s.path@[k] != '[' && s.path@[k] != '#'
}

/// The piece of a project file that a slot's section leaves between the
/// previous `[/SAMPLE]` marker and its own.
pub open spec fn spec_block_of(s: ProjectSampleSlot) -> Seq<char> {
    "\r\n\r\n[SAMPLE]\r\n"@ + join_crlf(spec_slot_lines(s)) + "\r\n"@
}

proof fn lemma_slot_lines_chars(s: ProjectSampleSlot)
    requires
        section_reads_back(s),
    ensures
        forall|i: int, k: int| 0 <= i < spec_slot_lines(s).len() && 0 <= k < spec_slot_lines(s)[i].len()
            ==> #[trigger] spec_slot_lines(s)[i][k] != '[' && spec_slot_lines(s)[i][k] != '#'
                && spec_slot_lines(s)[i][k] != '\r' && spec_slot_lines(s)[i][k] != '\n',
{
    let lines = spec_slot_lines(s);
    reveal_strlit("TYPE=");
    reveal_strlit("SLOT=");
    reveal_strlit("PATH=");
    reveal_strlit("TRIM_BARSx100=");
    reveal_strlit("TSMODE=");
    reveal_strlit("LOOPMODE=");
    reveal_strlit("GAIN=");
    reveal_strlit("TRIGQUANTIZATION=");
    reveal_strlit("STATIC");
    reveal_strlit("FLEX");
    lemma_path_field(s.path@);
    let tf = spec_type_field(s.sample_type);
    lemma_decimal_chars(s.slot_id as nat);
    lemma_decimal_chars(s.trim_bars_x100 as nat);
    lemma_decimal_chars(s.timestrech_mode.spec_value() as nat);
    lemma_decimal_chars(s.loop_mode.spec_value() as nat);
    lemma_signed_decimal_chars(s.gain + 48);
    lemma_decimal_chars(s.trig_quantization_mode.spec_value() as nat);
    assert(forall|i: int| 0 <= i < tf.len() ==> #[trigger] tf[i] != '[' && tf[i] != '#' && tf[i] != '\r' && tf[i] != '\n');
    assert forall|i: int, k: int| 0 <= i < lines.len() && 0 <= k < lines[i].len() implies
        #[trigger] lines[i][k] != '[' && lines[i][k] != '#' && lines[i][k] != '\r' && lines[i][k] != '\n' by {
        if i == 2 {
            if k >= 5 {
                assert(lines[2][k] == s.path@[k - 5]);
            }
        }
    }
}

proof fn lemma_join_chars(lines: Seq<Seq<char>>, c: char)
    requires
        c != '\r',
        c != '\n',
        forall|i: int, k: int| 0 <= i < lines.len() && 0 <= k < lines[i].len() ==> #[trigger] lines[i][k] != c,
    ensures
        forall|k: int| 0 <= k < join_crlf(lines).len() ==> #[trigger] join_crlf(lines)[k] != c,
    decreases lines.len(),
{
    reveal_strlit("\r\n");
    if lines.len() == 1 {
        assert forall|k: int| 0 <= k < join_crlf(lines).len() implies #[trigger] join_crlf(lines)[k] != c by {
            assert(join_crlf(lines)[k] == lines[0][k]);
        }
    } else if lines.len() > 1 {
        let rest = lines.drop_first();
        assert forall|i: int, k: int| 0 <= i < rest.len() && 0 <= k < rest[i].len() implies #[trigger] rest[i][k] != c by {
            assert(rest[i] == lines[i + 1]);
        }
        lemma_join_chars(rest, c);
        let j = join_crlf(lines);
        let a = lines[0];
        let cr = "\r\n"@;
        assert(j == a + cr + join_crlf(rest));
        assert forall|k: int| 0 <= k < j.len() implies #[trigger] j[k] != c by {
            if k < a.len() {
                assert(j[k] == lines[0][k]);
            } else if k < a.len() + 2 {
                assert(j[k] == cr[k - a.len()]);
            } else {
                assert(j[k] == join_crlf(rest)[k - a.len() - 2]);
            }
        }
    }
}

/// The piece of a slot's section holds no `#`, and `[/SAMPLE]` does not begin
/// in it.
proof fn lemma_block_of_chars(s: ProjectSampleSlot)
    requires
        section_reads_back(s),
    ensures
        forall|k: int| 0 <= k < spec_block_of(s).len() ==> #[trigger] spec_block_of(s)[k] != '#',
        forall|p: int| 0 <= p < spec_block_of(s).len() ==> !occurs_at(spec_block_of(s) + "[/SAMPLE]"@, "[/SAMPLE]"@, p),
{
    let lines = spec_slot_lines(s);
    lemma_slot_lines_chars(s);
    lemma_join_chars(lines, '[');
    lemma_join_chars(lines, '#');
    reveal_strlit("\r\n\r\n[SAMPLE]\r\n");
    reveal_strlit("\r\n");
    reveal_strlit("[/SAMPLE]");
    let pre = "\r\n\r\n[SAMPLE]\r\n"@;
    let j = join_crlf(lines);
    let b = spec_block_of(s);
    let m = "[/SAMPLE]"@;
    let x = b + m;
    assert(pre.len() == 14);
    assert forall|k: int| 0 <= k < b.len() implies #[trigger] b[k] != '#' && (k != 4 ==> b[k] != '[') by {
        if k < 14 {
            assert(b[k] == pre[k]);
        } else if k < 14 + j.len() {
            assert(b[k] == j[k - 14]);
        } else {
            assert(b[k] == "\r\n"@[k - 14 - j.len()]);
        }
    }
    assert(b[5] == 'S');
    assert forall|p: int| 0 <= p < b.len() implies !occurs_at(x, m, p) by {
        if occurs_at(x, m, p) {
            assert(x.subrange(p, p + 9)[0] == x[p]);
            assert(x[p] == b[p]);
            assert(x.subrange(p, p + 9)[1] == x[p + 1]);
            assert(x[5] == b[5]);
        }
    }
}


proof fn lemma_sections_front(slots: Seq<ProjectSampleSlot>)
    requires
        slots.len() >= 1,
    ensures
        spec_sections(slots) == "\r\n\r\n"@ + spec_slot_text(slots[0]) + spec_sections(slots.drop_first()),
    decreases slots.len(),
{
    let c = "\r\n\r\n"@;
    if slots.len() == 1 {
        assert(slots.drop_last() =~= Seq::<ProjectSampleSlot>::empty());
        assert(slots.drop_first() =~= Seq::<ProjectSampleSlot>::empty());
        assert(spec_sections(slots) =~= c + spec_slot_text(slots[0]) + spec_sections(slots.drop_first()));
    } else {
        let d = slots.drop_last();
        lemma_sections_front(d);
        assert(d[0] == slots[0]);
        assert(slots.drop_first().drop_last() =~= d.drop_first());
        assert(slots.drop_first().last() == slots.last());
        let t0 = spec_slot_text(slots[0]);
        let m = spec_sections(d.drop_first());
        let tl = spec_slot_text(slots.last());
        assert(spec_sections(slots) == spec_sections(d) + c + tl);
        assert(spec_sections(slots.drop_first()) == m + c + tl);
        assert((c + t0 + m) + c + tl =~= c + t0 + (m + c + tl));
    }
}

/// The blocks that the sections of `slots` leave between `[/SAMPLE]` markers.
pub open spec fn spec_blocks_of(slots: Seq<ProjectSampleSlot>) -> Seq<Seq<char>> {
    Seq::new(slots.len(), |i: int| spec_block_of(slots[i]))
}

proof fn lemma_section_is_block(s: ProjectSampleSlot)
    ensures
        "\r\n\r\n"@ + spec_slot_text(s) == spec_block_of(s) + "[/SAMPLE]"@,
{
    lemma_slot_text_join(s);
    reveal_strlit("\r\n\r\n");
    reveal_strlit("[SAMPLE]\r\n");
    reveal_strlit("\r\n\r\n[SAMPLE]\r\n");
    reveal_strlit("\r\n[/SAMPLE]");
    reveal_strlit("\r\n");
    reveal_strlit("[/SAMPLE]");
    let j = join_crlf(spec_slot_lines(s));
    assert("\r\n\r\n"@ + ("[SAMPLE]\r\n"@ + j + "\r\n[/SAMPLE]"@) =~= ("\r\n\r\n[SAMPLE]\r\n"@ + j + "\r\n"@) + "[/SAMPLE]"@);
}

proof fn lemma_sections_split(slots: Seq<ProjectSampleSlot>)
    requires
        forall|i: int| 0 <= i < slots.len() ==> section_reads_back(#[trigger] slots[i]),
    ensures
        spec_split(spec_sections(slots), "[/SAMPLE]"@) == spec_blocks_of(slots) + seq![Seq::<char>::empty()],
        forall|k: int| 0 <= k < spec_sections(slots).len() ==> #[trigger] spec_sections(slots)[k] != '#',
    decreases slots.len(),
{
    reveal_strlit("[/SAMPLE]");
    let m = "[/SAMPLE]"@;
    assert(m.len() == 9);
    if slots.len() == 0 {
        let e = Seq::<char>::empty();
        assert(spec_sections(slots) == e);
        assert(e.subrange(0, 0) =~= e);
        assert(spec_split(e, m) == seq![e]);
        assert(spec_blocks_of(slots) + seq![e] =~= seq![e]);
    } else {
        let rest = slots.drop_first();
        assert forall|i: int| 0 <= i < rest.len() implies section_reads_back(#[trigger] rest[i]) by {
            assert(rest[i] == slots[i + 1]);
        }
        lemma_sections_split(rest);
        lemma_sections_front(slots);
        lemma_section_is_block(slots[0]);
        lemma_block_of_chars(slots[0]);
        let b0 = spec_block_of(slots[0]);
        let sr = spec_sections(rest);
        assert(spec_sections(slots) =~= b0 + m + sr);
        lemma_split_prefix(b0, m, sr);
        assert(seq![b0] + (spec_blocks_of(rest) + seq![Seq::<char>::empty()]) =~= spec_blocks_of(slots) + seq![Seq::<char>::empty()]);
        let x = spec_sections(slots);
        assert forall|k: int| 0 <= k < x.len() implies #[trigger] x[k] != '#' by {
            if k < b0.len() {
                assert(x[k] == b0[k]);
            } else if k < b0.len() + 9 {
                assert(x[k] == m[k - b0.len()]);
            } else {
                assert(x[k] == sr[k - b0.len() - 9]);
            }
        }
    }
}

proof fn lemma_blocks_slots_of(slots: Seq<ProjectSampleSlot>)
    requires
        forall|i: int| 0 <= i < slots.len() ==> section_reads_back(#[trigger] slots[i]),
    ensures
        spec_blocks_slots(spec_blocks_of(slots)) == Ok::<Seq<SlotView>, OctatoolErrors>(slots.map_values(|s: ProjectSampleSlot| s@)),
    decreases slots.len(),
{
    if slots.len() == 0 {
        assert(slots.map_values(|s: ProjectSampleSlot| s@) =~= Seq::<SlotView>::empty());
    } else {
        let d = slots.drop_last();
        assert forall|i: int| 0 <= i < d.len() implies section_reads_back(#[trigger] d[i]) by {
            assert(d[i] == slots[i]);
        }
        lemma_blocks_slots_of(d);
        assert(spec_blocks_of(slots).drop_last() =~= spec_blocks_of(d));
        let s = slots.last();
        assert(section_reads_back(slots[slots.len() - 1]));
        lemma_slot_text_reads_back(s);
        lemma_section_is_block(s);
        reveal_strlit("[/SAMPLE]");
        let t = spec_slot_text(s);
        let b = spec_strip_suffix(t, "[/SAMPLE]"@)->0;
        assert(t =~= b + "[/SAMPLE]"@);
        assert("\r\n\r\n"@ + t =~= ("\r\n\r\n"@ + b) + "[/SAMPLE]"@);
        assert(("\r\n\r\n"@ + b) =~= spec_block_of(s)) by {
            let u = "\r\n\r\n"@ + t;
            assert(u.subrange(0, u.len() - 9) =~= "\r\n\r\n"@ + b);
            assert(u.subrange(0, u.len() - 9) =~= spec_block_of(s));
        }
        assert(spec_blocks_of(slots).last() == spec_block_of(s));
        assert(slots.map_values(|s: ProjectSampleSlot| s@) =~= d.map_values(|s: ProjectSampleSlot| s@).push(s@));
    }
}

/// A project file's text with its slots replaced reads back as those slots
/// (for slots whose sections read back, see `section_reads_back`).
pub proof fn lemma_project_text_reads_back(data: Seq<char>, slots: Seq<ProjectSampleSlot>)
    requires
        spec_project_text_with_slots(data, slots) is Some,
        forall|i: int| 0 <= i < slots.len() ==> section_reads_back(#[trigger] slots[i]),
    ensures
        spec_project_slots(spec_project_text_with_slots(data, slots)->0)
            == Ok::<Seq<SlotView>, OctatoolErrors>(slots.map_values(|s: ProjectSampleSlot| s@)),
{
    reveal_strlit("\r\n\r\n############################\r\n\r\n");
    reveal_strlit("############################\r\n# Samples\r\n############################");
    let f = "\r\n\r\n############################\r\n\r\n"@;
    let h = "############################\r\n# Samples\r\n############################"@;
    assert(h[0] == '#');
    let body = spec_strip_suffix(data, f)->0;
    let parts = spec_split(body, h);
    let p0 = parts[0];
    lemma_split_first_piece(body, h);
    let sec = spec_sections(slots);
    lemma_sections_split(slots);
    let t = p0 + h + sec + f;
    assert(spec_project_text_with_slots(data, slots) == Some(t));
    assert(t.subrange(t.len() - f.len(), t.len() as int) =~= f);
    assert(t.subrange(0, t.len() - f.len()) =~= p0 + h + sec);
    assert(spec_strip_suffix(t, f) == Some(p0 + h + sec));
    lemma_split_prefix(p0, h, sec);
    lemma_split_single(sec, h);
    assert(spec_split(p0 + h + sec, h) =~= seq![p0, sec]);
    let pieces = spec_split(sec, "[/SAMPLE]"@);
    assert(pieces.drop_last() =~= spec_blocks_of(slots));
    lemma_blocks_slots_of(slots);
}

} // verus!
