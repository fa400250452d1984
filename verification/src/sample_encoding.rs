//! The byte layout of sample attributes (`.ot`) files: 832 bytes, the
//! standard header followed by every number in big-endian byte order, the
//! slices, and a checksum.
//!
//! | bytes     | content                                   |
//! |-----------|-------------------------------------------|
//! | 0..23     | header                                    |
//! | 23..43    | tempo, trim length, loop length, stretch, loop mode (4 bytes each) |
//! | 43..45    | gain                                      |
//! | 45        | trig quantization                         |
//! | 46..58    | trim start, trim end, loop start          |
//! | 58..826   | 64 slices: trim start, trim end, loop start |
//! | 826..830  | number of slices used                     |
//! | 830..832  | checksum                                  |

use vstd::prelude::*;
use vstd::arithmetic::div_mod::lemma_fundamental_div_mod_converse;
use crate::samples::{calculate_checksum_sample_attr_bytes, spec_checksum, SampleAttributeErrors, SampleAttributes, Slice, FULL_HEADER};

verus! {

/// Byte `j` (0 is the most significant) of a `u32` in big-endian order.
pub open spec fn be32_byte(x: u32, j: int) -> u8 {
    if j == 0 {
        (x >> 24u32) as u8
    } else if j == 1 {
        ((x >> 16u32) & 0xff) as u8
    } else if j == 2 {
        ((x >> 8u32) & 0xff) as u8
    } else {
        (x & 0xff) as u8
    }
}

/// Byte `j` (0 is the most significant) of a `u16` in big-endian order.
pub open spec fn be16_byte(x: u16, j: int) -> u8 {
    if j == 0 {
        (x >> 8u16) as u8
    } else {
        (x & 0xff) as u8
    }
}

/// The `u32` stored big-endian in the four bytes of `b` from `o`.
pub open spec fn read_be32(b: Seq<u8>, o: int) -> u32 {
    ((b[o] as u32) << 24u32) | ((b[o + 1] as u32) << 16u32) | ((b[o + 2] as u32) << 8u32) | (b[o + 3] as u32)
}

/// The `u16` stored big-endian in the two bytes of `b` from `o`.
pub open spec fn read_be16(b: Seq<u8>, o: int) -> u16 {
    ((b[o] as u16) << 8u16) | (b[o + 1] as u16)
}

/// Byte `j` (0 to 11) of a slice: its trim start, trim end and loop start,
/// each big-endian.
pub open spec fn slice_byte(s: Slice, j: int) -> u8 {
    if j < 4 {
        be32_byte(s.trim_start, j)
    } else if j < 8 {
        be32_byte(s.trim_end, j - 4)
    } else {
        be32_byte(s.loop_start, j - 8)
    }
}

/// Byte `i` (0 to 831) of the file of attributes `a` with checksum `chk`.
pub open spec fn attr_byte(a: SampleAttributes, chk: u16, i: int) -> u8 {
    if i < 23 {
        FULL_HEADER@[i]
    } else if i < 27 {
        be32_byte(a.tempo, i - 23)
    } else if i < 31 {
        be32_byte(a.trim_len, i - 27)
    } else if i < 35 {
        be32_byte(a.loop_len, i - 31)
    } else if i < 39 {
        be32_byte(a.stretch, i - 35)
    } else if i < 43 {
        be32_byte(a.loop_mode, i - 39)
    } else if i < 45 {
        be16_byte(a.gain, i - 43)
    } else if i < 46 {
        a.quantization
    } else if i < 50 {
        be32_byte(a.trim_start, i - 46)
    } else if i < 54 {
        be32_byte(a.trim_end, i - 50)
    } else if i < 58 {
        be32_byte(a.loop_start, i - 54)
    } else if i < 826 {
        slice_byte(a.slices@[(i - 58) / 12], (i - 58) % 12)
    } else if i < 830 {
        be32_byte(a.slices_len, i - 826)
    } else {
        be16_byte(chk, i - 830)
    }
}

/// The 832 bytes of the file of attributes `a` with checksum `chk`.
pub open spec fn attr_bytes(a: SampleAttributes, chk: u16) -> Seq<u8> {
    Seq::new(832, |i: int| attr_byte(a, chk, i))
}

/// The checksum an encoded file carries: the attributes' own checksum when
/// it is set (not 0), else the checksum of the encoded bytes.
pub open spec fn encoded_checksum(a: SampleAttributes) -> u16 {
    if a.checksum == 0 {
        spec_checksum(attr_bytes(a, 0))
    } else {
        a.checksum
    }
}

/// Whether `d` holds the attributes read from the bytes `b` (the header is
/// always the standard header).
pub open spec fn decoded_from(b: Seq<u8>, d: SampleAttributes) -> bool {
    &&& d.header@ == FULL_HEADER@
    &&& d.tempo == read_be32(b, 23)
    &&& d.trim_len == read_be32(b, 27)
    &&& d.loop_len == read_be32(b, 31)
    &&& d.stretch == read_be32(b, 35)
    &&& d.loop_mode == read_be32(b, 39)
    &&& d.gain == read_be16(b, 43)
    &&& d.quantization == b[45]
    &&& d.trim_start == read_be32(b, 46)
    &&& d.trim_end == read_be32(b, 50)
    &&& d.loop_start == read_be32(b, 54)
    &&& forall|k: int| 0 <= k < 64 ==> #[trigger] d.slices@[k] == (Slice {
        trim_start: read_be32(b, 58 + 12 * k),
        trim_end: read_be32(b, 62 + 12 * k),
        loop_start: read_be32(b, 66 + 12 * k),
    })
    &&& d.slices_len == read_be32(b, 826)
    &&& d.checksum == read_be16(b, 830)
}

proof fn lemma_be32(x: u32)
    ensures
        ((be32_byte(x, 0) as u32) << 24u32) | ((be32_byte(x, 1) as u32) << 16u32)
            | ((be32_byte(x, 2) as u32) << 8u32) | (be32_byte(x, 3) as u32) == x,
{
    assert((((x >> 24u32) as u8 as u32) << 24u32) | ((((x >> 16u32) & 0xff) as u8 as u32) << 16u32)
        | ((((x >> 8u32) & 0xff) as u8 as u32) << 8u32) | ((x & 0xff) as u8 as u32) == x) by (bit_vector);
}

proof fn lemma_be16(x: u16)
    ensures
        ((be16_byte(x, 0) as u16) << 8u16) | (be16_byte(x, 1) as u16) == x,
{
    assert((((x >> 8u16) as u8 as u16) << 8u16) | ((x & 0xff) as u8 as u16) == x) by (bit_vector);
}

proof fn lemma_slice_position(k: int, j: int)
    requires
        0 <= k < 64,
        0 <= j < 12,
    ensures
        (58 + 12 * k + j - 58) / 12 == k,
        (58 + 12 * k + j - 58) % 12 == j,
        58 <= 58 + 12 * k + j < 826,
{
    lemma_fundamental_div_mod_converse(12 * k + j, 12, k, j);
}

/// Reading the bytes of encoded attributes gives back the attributes, with
/// the checksum the file carries (for attributes with the standard header).
pub proof fn lemma_decode_encoded(a: SampleAttributes, chk: u16, d: SampleAttributes)
    requires
        a.header@ == FULL_HEADER@,
        decoded_from(attr_bytes(a, chk), d),
    ensures
        d == (SampleAttributes { checksum: chk, ..a }),
{
    let b = attr_bytes(a, chk);
    lemma_be32(a.tempo);
    lemma_be32(a.trim_len);
    lemma_be32(a.loop_len);
    lemma_be32(a.stretch);
    lemma_be32(a.loop_mode);
    lemma_be16(a.gain);
    lemma_be32(a.trim_start);
    lemma_be32(a.trim_end);
    lemma_be32(a.loop_start);
    lemma_be32(a.slices_len);
    lemma_be16(chk);
    assert(d.tempo == a.tempo);
    assert(d.trim_len == a.trim_len);
    assert(d.loop_len == a.loop_len);
    assert(d.stretch == a.stretch);
    assert(d.loop_mode == a.loop_mode);
    assert(d.gain == a.gain);
    assert(d.trim_start == a.trim_start);
    assert(d.trim_end == a.trim_end);
    assert(d.loop_start == a.loop_start);
    assert(d.slices_len == a.slices_len);
    assert(d.checksum == chk);
    assert forall|k: int| 0 <= k < 64 implies #[trigger] d.slices@[k] == a.slices@[k] by {
        let s = a.slices@[k];
        lemma_be32(s.trim_start);
        lemma_be32(s.trim_end);
        lemma_be32(s.loop_start);
        assert forall|j: int| 0 <= j < 12 implies #[trigger] b[58 + 12 * k + j] == slice_byte(s, j) by {
            lemma_slice_position(k, j);
        }
        assert(b[58 + 12 * k + 0] == slice_byte(s, 0));
        assert(b[58 + 12 * k + 1] == slice_byte(s, 1));
        assert(b[58 + 12 * k + 2] == slice_byte(s, 2));
        assert(b[58 + 12 * k + 3] == slice_byte(s, 3));
        assert(b[58 + 12 * k + 4] == slice_byte(s, 4));
        assert(b[58 + 12 * k + 5] == slice_byte(s, 5));
        assert(b[58 + 12 * k + 6] == slice_byte(s, 6));
        assert(b[58 + 12 * k + 7] == slice_byte(s, 7));
        assert(b[58 + 12 * k + 8] == slice_byte(s, 8));
        assert(b[58 + 12 * k + 9] == slice_byte(s, 9));
        assert(b[58 + 12 * k + 10] == slice_byte(s, 10));
        assert(b[58 + 12 * k + 11] == slice_byte(s, 11));
    }
    assert(d.slices =~= a.slices);
    assert(d.header =~= a.header);
}

fn push_be32(out: &mut Vec<u8>, x: u32, Ghost(a): Ghost<SampleAttributes>)
    requires
        forall|i: int| 0 <= i < old(out)@.len() ==> #[trigger] old(out)@[i] == attr_byte(a, 0, i),
        forall|j: int| 0 <= j < 4 ==> #[trigger] attr_byte(a, 0, old(out)@.len() + j) == be32_byte(x, j),
    ensures
        final(out)@.len() == old(out)@.len() + 4,
        forall|i: int| 0 <= i < final(out)@.len() ==> #[trigger] final(out)@[i] == attr_byte(a, 0, i),
{
    let ghost n = out@.len();
    out.push((x >> 24u32) as u8);
    out.push(((x >> 16u32) & 0xff) as u8);
    out.push(((x >> 8u32) & 0xff) as u8);
    out.push((x & 0xff) as u8);
    assert forall|i: int| 0 <= i < out@.len() implies #[trigger] out@[i] == attr_byte(a, 0, i) by {
        if i >= n {
            assert(attr_byte(a, 0, n + (i - n)) == be32_byte(x, i - n));
        }
    }
}

fn push_byte(out: &mut Vec<u8>, x: u8, Ghost(a): Ghost<SampleAttributes>)
    requires
        forall|i: int| 0 <= i < old(out)@.len() ==> #[trigger] old(out)@[i] == attr_byte(a, 0, i),
        attr_byte(a, 0, old(out)@.len() as int) == x,
    ensures
        final(out)@.len() == old(out)@.len() + 1,
        forall|i: int| 0 <= i < final(out)@.len() ==> #[trigger] final(out)@[i] == attr_byte(a, 0, i),
{
    out.push(x);
}

impl SampleAttributes {
    /// The 832 bytes of the attributes file: the standard header, every
    /// number big-endian, and the checksum (computed from the other bytes
    /// when the attributes carry none, i.e. 0).
    pub fn encode(&self) -> (r: Vec<u8>)
        ensures
            r@ == attr_bytes(*self, encoded_checksum(*self)),
    {
        let ghost a = *self;
        let mut out: Vec<u8> = Vec::new();
        let mut i: usize = 0;
        while i < 23
            invariant
                i <= 23,
                out@.len() == i,
                forall|k: int| 0 <= k < out@.len() ==> #[trigger] out@[k] == attr_byte(a, 0, k),
            decreases 23 - i,
        {
            out.push(FULL_HEADER[i]);
            i = i + 1;
        }
        push_be32(&mut out, self.tempo, Ghost(a));
        push_be32(&mut out, self.trim_len, Ghost(a));
        push_be32(&mut out, self.loop_len, Ghost(a));
        push_be32(&mut out, self.stretch, Ghost(a));
        push_be32(&mut out, self.loop_mode, Ghost(a));
        push_byte(&mut out, (self.gain >> 8u16) as u8, Ghost(a));
        push_byte(&mut out, (self.gain & 0xff) as u8, Ghost(a));
        push_byte(&mut out, self.quantization, Ghost(a));
        push_be32(&mut out, self.trim_start, Ghost(a));
        push_be32(&mut out, self.trim_end, Ghost(a));
        push_be32(&mut out, self.loop_start, Ghost(a));
        let mut k: usize = 0;
        while k < 64
            invariant
                a == *self,
                k <= 64,
                out@.len() == 58 + 12 * k,
                forall|q: int| 0 <= q < out@.len() ==> #[trigger] out@[q] == attr_byte(a, 0, q),
            decreases 64 - k,
        {
            let s = self.slices[k];
            assert forall|j: int| 0 <= j < 12 implies #[trigger] attr_byte(a, 0, 58 + 12 * k + j) == slice_byte(s, j) by {
                lemma_slice_position(k as int, j);
            }
            assert forall|j: int| 0 <= j < 4 implies #[trigger] attr_byte(a, 0, out@.len() + j) == be32_byte(s.trim_start, j) by {
                assert(attr_byte(a, 0, 58 + 12 * k + j) == slice_byte(s, j));
            }
            push_be32(&mut out, s.trim_start, Ghost(a));
            assert forall|j: int| 0 <= j < 4 implies #[trigger] attr_byte(a, 0, out@.len() + j) == be32_byte(s.trim_end, j) by {
                assert(attr_byte(a, 0, 58 + 12 * k + (j + 4)) == slice_byte(s, j + 4));
            }
            push_be32(&mut out, s.trim_end, Ghost(a));
            assert forall|j: int| 0 <= j < 4 implies #[trigger] attr_byte(a, 0, out@.len() + j) == be32_byte(s.loop_start, j) by {
                assert(attr_byte(a, 0, 58 + 12 * k + (j + 8)) == slice_byte(s, j + 8));
            }
            push_be32(&mut out, s.loop_start, Ghost(a));
            k = k + 1;
        }
        push_be32(&mut out, self.slices_len, Ghost(a));
        assert((0u16 >> 8u16) as u8 == 0u8 && (0u16 & 0xff) as u8 == 0u8) by (bit_vector);
        push_byte(&mut out, 0, Ghost(a));
        push_byte(&mut out, 0, Ghost(a));
        assert(out@ =~= attr_bytes(a, 0));
        let chk: u16 = if self.checksum == 0 {
            match calculate_checksum_sample_attr_bytes(out.as_slice()) {
                Ok(c) => c,
                Err(_) => 0,
            }
        } else {
            self.checksum
        };
        assert(chk == encoded_checksum(a));
        out.set(830, (chk >> 8u16) as u8);
        out.set(831, (chk & 0xff) as u8);
        assert(out@ =~= attr_bytes(a, chk));
        out
    }

    /// The attributes stored in the first 832 bytes of `bytes` (every number
    /// big-endian; the header is taken to be the standard one); an error
    /// when there are fewer bytes.
    pub fn decode(bytes: &[u8]) -> (r: Result<SampleAttributes, SampleAttributeErrors>)
        ensures
            match r {
                Ok(d) => bytes@.len() >= 832 && decoded_from(bytes@, d),
                Err(e) => e == SampleAttributeErrors::InvalidLength && bytes@.len() < 832,
            },
    {
        if bytes.len() < 832 {
            return Err(SampleAttributeErrors::InvalidLength);
        }
        let mut slices: [Slice; 64] = [Slice { trim_start: 0, trim_end: 0, loop_start: 0 }; 64];
        let mut k: usize = 0;
        while k < 64
            invariant
                bytes@.len() >= 832,
                k <= 64,
                forall|q: int| 0 <= q < k ==> #[trigger] slices@[q] == (Slice {
                    trim_start: read_be32(bytes@, 58 + 12 * q),
                    trim_end: read_be32(bytes@, 62 + 12 * q),
                    loop_start: read_be32(bytes@, 66 + 12 * q),
                }),
            decreases 64 - k,
        {
            let o = 58 + 12 * k;
            slices[k] = Slice {
                trim_start: get_be32(bytes, o),
                trim_end: get_be32(bytes, o + 4),
                loop_start: get_be32(bytes, o + 8),
            };
            k = k + 1;
        }
        Ok(SampleAttributes {
            header: FULL_HEADER,
            tempo: get_be32(bytes, 23),
            trim_len: get_be32(bytes, 27),
            loop_len: get_be32(bytes, 31),
            stretch: get_be32(bytes, 35),
            loop_mode: get_be32(bytes, 39),
            gain: ((bytes[43] as u16) << 8u16) | (bytes[44] as u16),
            quantization: bytes[45],
            trim_start: get_be32(bytes, 46),
            trim_end: get_be32(bytes, 50),
            loop_start: get_be32(bytes, 54),
            slices,
            slices_len: get_be32(bytes, 826),
            checksum: ((bytes[830] as u16) << 8u16) | (bytes[831] as u16),
        })
    }
}

fn get_be32(bytes: &[u8], o: usize) -> (r: u32)
    requires
        o + 4 <= bytes@.len(),
    ensures
        r == read_be32(bytes@, o as int),
{
    ((bytes[o] as u32) << 24u32) | ((bytes[o + 1] as u32) << 16u32) | ((bytes[o + 2] as u32) << 8u32) | (bytes[o + 3] as u32)
}

/// Encoding attributes and reading the bytes back gives the attributes,
/// carrying the checksum the file got (for attributes with the standard
/// header).
pub proof fn lemma_encode_then_decode(a: SampleAttributes, d: SampleAttributes)
    requires
        a.header@ == FULL_HEADER@,
        decoded_from(attr_bytes(a, encoded_checksum(a)), d),
    ensures
        d == (SampleAttributes { checksum: encoded_checksum(a), ..a }),
        a.checksum != 0 ==> d == a,
{
    lemma_decode_encoded(a, encoded_checksum(a), d);
}

/// A file encoded from attributes without a checksum carries the checksum of
/// its own bytes.
pub proof fn lemma_encoded_checksum_matches(a: SampleAttributes)
    requires
        a.checksum == 0,
    ensures
        read_be16(attr_bytes(a, encoded_checksum(a)), 830) == spec_checksum(attr_bytes(a, encoded_checksum(a))),
{
    let c = encoded_checksum(a);
    assert(attr_bytes(a, c).subrange(16, 830) =~= attr_bytes(a, 0).subrange(16, 830));
    lemma_be16(c);
}

proof fn lemma_read_be32_bytes(b0: u8, b1: u8, b2: u8, b3: u8)
    ensures
        ({
            let x = ((b0 as u32) << 24u32) | ((b1 as u32) << 16u32) | ((b2 as u32) << 8u32) | (b3 as u32);
            &&& be32_byte(x, 0) == b0
            &&& be32_byte(x, 1) == b1
            &&& be32_byte(x, 2) == b2
            &&& be32_byte(x, 3) == b3
        }),
{
    let x = ((b0 as u32) << 24u32) | ((b1 as u32) << 16u32) | ((b2 as u32) << 8u32) | (b3 as u32);
    assert(((((b0 as u32) << 24u32) | ((b1 as u32) << 16u32) | ((b2 as u32) << 8u32) | (b3 as u32)) >> 24u32) as u8 == b0) by (bit_vector);
    assert((((((b0 as u32) << 24u32) | ((b1 as u32) << 16u32) | ((b2 as u32) << 8u32) | (b3 as u32)) >> 16u32) & 0xff) as u8 == b1) by (bit_vector);
    assert((((((b0 as u32) << 24u32) | ((b1 as u32) << 16u32) | ((b2 as u32) << 8u32) | (b3 as u32)) >> 8u32) & 0xff) as u8 == b2) by (bit_vector);
    assert(((((b0 as u32) << 24u32) | ((b1 as u32) << 16u32) | ((b2 as u32) << 8u32) | (b3 as u32)) & 0xff) as u8 == b3) by (bit_vector);
}

proof fn lemma_read_be16_bytes(b0: u8, b1: u8)
    ensures
        be16_byte(((b0 as u16) << 8u16) | (b1 as u16), 0) == b0,
        be16_byte(((b0 as u16) << 8u16) | (b1 as u16), 1) == b1,
{
    assert(((((b0 as u16) << 8u16) | (b1 as u16)) >> 8u16) as u8 == b0) by (bit_vector);
    assert(((((b0 as u16) << 8u16) | (b1 as u16)) & 0xff) as u8 == b1) by (bit_vector);
}

proof fn lemma_field32(b: Seq<u8>, o: int)
    requires
        0 <= o,
        o + 4 <= b.len(),
    ensures
        forall|j: int| 0 <= j < 4 ==> #[trigger] be32_byte(read_be32(b, o), j) == b[o + j],
{
    lemma_read_be32_bytes(b[o], b[o + 1], b[o + 2], b[o + 3]);
}

/// Writing back attributes read from a file gives the file's bytes, for a
/// file of 832 bytes that starts with the standard header.
pub proof fn lemma_decode_then_encode(b: Seq<u8>, d: SampleAttributes)
    requires
        b.len() == 832,
        b.subrange(0, 23) == FULL_HEADER@,
        decoded_from(b, d),
    ensures
        attr_bytes(d, d.checksum) == b,
{
    lemma_field32(b, 23);
    lemma_field32(b, 27);
    lemma_field32(b, 31);
    lemma_field32(b, 35);
    lemma_field32(b, 39);
    lemma_read_be16_bytes(b[43], b[44]);
    lemma_field32(b, 46);
    lemma_field32(b, 50);
    lemma_field32(b, 54);
    lemma_field32(b, 826);
    lemma_read_be16_bytes(b[830], b[831]);
    assert forall|i: int| 0 <= i < 832 implies #[trigger] attr_byte(d, d.checksum, i) == b[i] by {
        if i < 23 {
            assert(b.subrange(0, 23)[i] == b[i]);
        } else if 58 <= i < 826 {
            let k = (i - 58) / 12;
            let j = (i - 58) % 12;
            lemma_fundamental_div_mod_converse(i - 58, 12, k, j);
            assert(0 <= k < 64 && 0 <= j < 12) by {
                vstd::arithmetic::div_mod::lemma_fundamental_div_mod(i - 58, 12);
            }
            assert(i == 58 + 12 * k + j);
            lemma_field32(b, 58 + 12 * k);
            lemma_field32(b, 62 + 12 * k);
            lemma_field32(b, 66 + 12 * k);
            let s = d.slices@[k];
            if j < 4 {
                assert(be32_byte(s.trim_start, j) == b[58 + 12 * k + j]);
            } else if j < 8 {
                assert(be32_byte(s.trim_end, j - 4) == b[62 + 12 * k + (j - 4)]);
            } else {
                assert(be32_byte(s.loop_start, j - 8) == b[66 + 12 * k + (j - 8)]);
            }
        } else if i < 27 {
            assert(be32_byte(d.tempo, i - 23) == b[23 + (i - 23)]);
        } else if i < 31 {
            assert(be32_byte(d.trim_len, i - 27) == b[27 + (i - 27)]);
        } else if i < 35 {
            assert(be32_byte(d.loop_len, i - 31) == b[31 + (i - 31)]);
        } else if i < 39 {
            assert(be32_byte(d.stretch, i - 35) == b[35 + (i - 35)]);
        } else if i < 43 {
            assert(be32_byte(d.loop_mode, i - 39) == b[39 + (i - 39)]);
        } else if i < 46 {
        } else if i < 50 {
            assert(be32_byte(d.trim_start, i - 46) == b[46 + (i - 46)]);
        } else if i < 54 {
            assert(be32_byte(d.trim_end, i - 50) == b[50 + (i - 50)]);
        } else if i < 58 {
            assert(be32_byte(d.loop_start, i - 54) == b[54 + (i - 54)]);
        } else if i < 830 {
            assert(be32_byte(d.slices_len, i - 826) == b[826 + (i - 826)]);
        }
    }
    assert(attr_bytes(d, d.checksum) =~= b);
}

/// The number held in the `n` bytes of `b` from `o`, most significant byte
/// first: each byte weighs 256 times the byte after it.
pub open spec fn big_endian(b: Seq<u8>, o: int, n: nat) -> int
    decreases n,
{
    if n == 0 {
        0
    } else {
        big_endian(b, o, (n - 1) as nat) * 256 + b[o + n - 1]
    }
}

proof fn lemma_big_endian4(b: Seq<u8>, o: int)
    ensures
        big_endian(b, o, 4) == b[o] * 16777216 + b[o + 1] * 65536 + b[o + 2] * 256 + b[o + 3],
        big_endian(b, o, 2) == b[o] * 256 + b[o + 1],
{
    reveal_with_fuel(big_endian, 5);
}

proof fn lemma_be32_weights(x: u32)
    ensures
        be32_byte(x, 0) * 16777216 + be32_byte(x, 1) * 65536 + be32_byte(x, 2) * 256 + be32_byte(x, 3) == x,
{
    assert((((x >> 24u32) as u8) as u64) * 16777216u64 + ((((x >> 16u32) & 0xff) as u8) as u64) * 65536u64
        + ((((x >> 8u32) & 0xff) as u8) as u64) * 256u64 + (((x & 0xff) as u8) as u64) == x as u64) by (bit_vector);
}

proof fn lemma_be16_weights(x: u16)
    ensures
        be16_byte(x, 0) * 256 + be16_byte(x, 1) == x,
{
    assert((((x >> 8u16) as u8) as u32) * 256u32 + (((x & 0xff) as u8) as u32) == x as u32) by (bit_vector);
}

proof fn lemma_read_be32_weights(b: Seq<u8>, o: int)
    requires
        0 <= o,
        o + 4 <= b.len(),
    ensures
        read_be32(b, o) == big_endian(b, o, 4),
{
    let (b0, b1, b2, b3) = (b[o], b[o + 1], b[o + 2], b[o + 3]);
    assert((((b0 as u32) << 24u32) | ((b1 as u32) << 16u32) | ((b2 as u32) << 8u32) | (b3 as u32)) as u64
        == (b0 as u64) * 16777216u64 + (b1 as u64) * 65536u64 + (b2 as u64) * 256u64 + (b3 as u64)) by (bit_vector);
    lemma_big_endian4(b, o);
}

proof fn lemma_read_be16_weights(b: Seq<u8>, o: int)
    requires
        0 <= o,
        o + 2 <= b.len(),
    ensures
        read_be16(b, o) == big_endian(b, o, 2),
{
    let (b0, b1) = (b[o], b[o + 1]);
    assert((((b0 as u16) << 8u16) | (b1 as u16)) as u32 == (b0 as u32) * 256u32 + (b1 as u32)) by (bit_vector);
    lemma_big_endian4(b, o);
}

proof fn lemma_field32_value(b: Seq<u8>, o: int, x: u32)
    requires
        0 <= o,
        o + 4 <= b.len(),
        forall|j: int| 0 <= j < 4 ==> b[o + j] == #[trigger] be32_byte(x, j),
    ensures
        big_endian(b, o, 4) == x,
{
    assert(b[o] == be32_byte(x, 0));
    assert(b[o + 1] == be32_byte(x, 1));
    assert(b[o + 2] == be32_byte(x, 2));
    assert(b[o + 3] == be32_byte(x, 3));
    lemma_big_endian4(b, o);
    lemma_be32_weights(x);
}

/// The layout of an encoded attributes file: the standard header in bytes 0
/// to 22, then, most significant byte first, the tempo at byte 23, the trim
/// length at 27, the loop length at 31, the time-stretch at 35, the loop mode
/// at 39, the gain (2 bytes) at 43, the trig quantization at 45, the trim
/// start at 46, the trim end at 50, the loop start at 54, slice `k` at
/// `58 + 12 * k` (trim start, trim end, loop start), the number of slices at
/// 826 and the checksum (2 bytes) at 830.
pub proof fn lemma_encoded_layout(a: SampleAttributes, chk: u16)
    ensures
        attr_bytes(a, chk).len() == 832,
        attr_bytes(a, chk).subrange(0, 23) == FULL_HEADER@,
        big_endian(attr_bytes(a, chk), 23, 4) == a.tempo,
        big_endian(attr_bytes(a, chk), 27, 4) == a.trim_len,
        big_endian(attr_bytes(a, chk), 31, 4) == a.loop_len,
        big_endian(attr_bytes(a, chk), 35, 4) == a.stretch,
        big_endian(attr_bytes(a, chk), 39, 4) == a.loop_mode,
        big_endian(attr_bytes(a, chk), 43, 2) == a.gain,
        attr_bytes(a, chk)[45] == a.quantization,
        big_endian(attr_bytes(a, chk), 46, 4) == a.trim_start,
        big_endian(attr_bytes(a, chk), 50, 4) == a.trim_end,
        big_endian(attr_bytes(a, chk), 54, 4) == a.loop_start,
        forall|k: int| 0 <= k < 64 ==> {
            &&& big_endian(attr_bytes(a, chk), 58 + 12 * k, 4) == (#[trigger] a.slices@[k]).trim_start
            &&& big_endian(attr_bytes(a, chk), 62 + 12 * k, 4) == a.slices@[k].trim_end
            &&& big_endian(attr_bytes(a, chk), 66 + 12 * k, 4) == a.slices@[k].loop_start
        },
        big_endian(attr_bytes(a, chk), 826, 4) == a.slices_len,
        big_endian(attr_bytes(a, chk), 830, 2) == chk,
{
    let b = attr_bytes(a, chk);
    assert(b.subrange(0, 23) =~= FULL_HEADER@);
    lemma_field32_value(b, 23, a.tempo);
    lemma_field32_value(b, 27, a.trim_len);
    lemma_field32_value(b, 31, a.loop_len);
    lemma_field32_value(b, 35, a.stretch);
    lemma_field32_value(b, 39, a.loop_mode);
    lemma_field32_value(b, 46, a.trim_start);
    lemma_field32_value(b, 50, a.trim_end);
    lemma_field32_value(b, 54, a.loop_start);
    lemma_field32_value(b, 826, a.slices_len);
    lemma_big_endian4(b, 43);
    lemma_be16_weights(a.gain);
    lemma_big_endian4(b, 830);
    lemma_be16_weights(chk);
    assert forall|k: int| 0 <= k < 64 implies {
        &&& big_endian(b, 58 + 12 * k, 4) == (#[trigger] a.slices@[k]).trim_start
        &&& big_endian(b, 62 + 12 * k, 4) == a.slices@[k].trim_end
        &&& big_endian(b, 66 + 12 * k, 4) == a.slices@[k].loop_start
    } by {
        assert forall|j: int| 0 <= j < 12 implies b[58 + 12 * k + j] == #[trigger] slice_byte(a.slices@[k], j) by {
            lemma_slice_position(k, j);
        }
        assert forall|j: int| 0 <= j < 4 implies b[58 + 12 * k + j] == #[trigger] be32_byte(a.slices@[k].trim_start, j) by {
            assert(b[58 + 12 * k + j] == slice_byte(a.slices@[k], j));
        }
        assert forall|j: int| 0 <= j < 4 implies b[62 + 12 * k + j] == #[trigger] be32_byte(a.slices@[k].trim_end, j) by {
            assert(b[58 + 12 * k + (j + 4)] == slice_byte(a.slices@[k], j + 4));
        }
        assert forall|j: int| 0 <= j < 4 implies b[66 + 12 * k + j] == #[trigger] be32_byte(a.slices@[k].loop_start, j) by {
            assert(b[58 + 12 * k + (j + 8)] == slice_byte(a.slices@[k], j + 8));
        }
        lemma_field32_value(b, 58 + 12 * k, a.slices@[k].trim_start);
        lemma_field32_value(b, 62 + 12 * k, a.slices@[k].trim_end);
        lemma_field32_value(b, 66 + 12 * k, a.slices@[k].loop_start);
    }
}

/// Attributes read from a file take each number from its place in the
/// layout (see `lemma_encoded_layout`), most significant byte first: the
/// tempo from byte 23, the trim length from 27, the loop length from 31, the
/// time-stretch from 35, the loop mode from 39, the gain from 43, the trig
/// quantization from 45, the trim start, trim end and loop start from 46, 50
/// and 54, slice `k` from `58 + 12 * k`, the number of slices from 826 and
/// the checksum from 830.
pub proof fn lemma_decoded_layout(b: Seq<u8>, d: SampleAttributes)
    requires
        b.len() >= 832,
        decoded_from(b, d),
    ensures
        d.header@ == FULL_HEADER@,
        d.tempo == big_endian(b, 23, 4),
        d.trim_len == big_endian(b, 27, 4),
        d.loop_len == big_endian(b, 31, 4),
        d.stretch == big_endian(b, 35, 4),
        d.loop_mode == big_endian(b, 39, 4),
        d.gain == big_endian(b, 43, 2),
        d.quantization == b[45],
        d.trim_start == big_endian(b, 46, 4),
        d.trim_end == big_endian(b, 50, 4),
        d.loop_start == big_endian(b, 54, 4),
        forall|k: int| 0 <= k < 64 ==> {
            &&& (#[trigger] d.slices@[k]).trim_start == big_endian(b, 58 + 12 * k, 4)
            &&& d.slices@[k].trim_end == big_endian(b, 62 + 12 * k, 4)
            &&& d.slices@[k].loop_start == big_endian(b, 66 + 12 * k, 4)
        },
        d.slices_len == big_endian(b, 826, 4),
        d.checksum == big_endian(b, 830, 2),
{
    lemma_read_be32_weights(b, 23);
    lemma_read_be32_weights(b, 27);
    lemma_read_be32_weights(b, 31);
    lemma_read_be32_weights(b, 35);
    lemma_read_be32_weights(b, 39);
    lemma_read_be16_weights(b, 43);
    lemma_read_be32_weights(b, 46);
    lemma_read_be32_weights(b, 50);
    lemma_read_be32_weights(b, 54);
    lemma_read_be32_weights(b, 826);
    lemma_read_be16_weights(b, 830);
    assert forall|k: int| 0 <= k < 64 implies {
        &&& (#[trigger] d.slices@[k]).trim_start == big_endian(b, 58 + 12 * k, 4)
        &&& d.slices@[k].trim_end == big_endian(b, 62 + 12 * k, 4)
        &&& d.slices@[k].loop_start == big_endian(b, 66 + 12 * k, 4)
    } by {
        lemma_read_be32_weights(b, 58 + 12 * k);
        lemma_read_be32_weights(b, 62 + 12 * k);
        lemma_read_be32_weights(b, 66 + 12 * k);
    }
}

} // verus!
