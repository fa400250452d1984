//! Sample chains: audio files laid end to end in batches of at most 64, and
//! the cutting of a chain back into its slices.

use vstd::prelude::*;
use crate::errors::OctatoolErrors;
use crate::options::{SampleAttributeLoopMode, SampleAttributeTimestrechMode, SampleAttributeTrigQuantizationMode};
use crate::samples::{
    create_slices_from_wavfiles, lemma_prefix_sum_monotone, prefix_sum, spec_chain_slice, spec_new_attributes,
    spec_zero_slice, SampleAttributeErrors, SampleAttributes, SampleLoopConfig, SampleTrimConfig, Slices,
};

verus! {

/// Most files in one sample chain (one per slice of an attributes file).
pub const CHAIN_FILES_MAX: usize = 64;

/// The sequences of `s` laid end to end, in order.
pub open spec fn spec_flatten(s: Seq<Seq<i32>>) -> Seq<i32>
    decreases s.len(),
{
    if s.len() == 0 {
        Seq::empty()
    } else {
        spec_flatten(s.drop_last()) + s.last()
    }
}

/// One past the last file of batch `j` of `n` files.
pub open spec fn spec_batch_end(n: int, j: int) -> int {
    if 64 * j + 64 < n { 64 * j + 64 } else { n }
}

/// The sample views of the files `from` to `to` (exclusive).
pub open spec fn spec_file_samples(samples: Seq<Vec<i32>>, from: int, to: int) -> Seq<Seq<i32>> {
    samples.subrange(from, to).map_values(|v: Vec<i32>| v@)
}

/// Whether `b` is batch `j` of the files with samples `samples` and lengths
/// `lens`: the samples of its files end to end, and their lengths.
pub open spec fn spec_chain_batch(samples: Seq<Vec<i32>>, lens: Seq<u32>, j: int, b: (Vec<i32>, Vec<u32>)) -> bool {
    let end = spec_batch_end(lens.len() as int, j);
    &&& b.1@ == lens.subrange(64 * j, end)
    &&& b.0@ == spec_flatten(spec_file_samples(samples, 64 * j, end))
}

proof fn lemma_file_samples_step(samples: Seq<Vec<i32>>, from: int, to: int)
    requires
        0 <= from <= to < samples.len(),
    ensures
        spec_file_samples(samples, from, to + 1) == spec_file_samples(samples, from, to).push(samples[to]@),
        spec_flatten(spec_file_samples(samples, from, to + 1)) == spec_flatten(spec_file_samples(samples, from, to)) + samples[to]@,
{
    assert(spec_file_samples(samples, from, to + 1) =~= spec_file_samples(samples, from, to).push(samples[to]@));
    assert(spec_file_samples(samples, from, to + 1).drop_last() =~= spec_file_samples(samples, from, to));
}

/// Batches audio files into sample chains of at most 64 files each, in
/// order: each batch holds the files' samples end to end and the files'
/// lengths. `samples` holds each file's samples, `lens` its length.
pub fn chain_wavfiles_64_batch(samples: &[Vec<i32>], lens: &[u32]) -> (r: Vec<(Vec<i32>, Vec<u32>)>)
    requires
        samples@.len() == lens@.len(),
    ensures
        r@.len() == (lens@.len() + 63) / 64,
        forall|j: int| 0 <= j < r@.len() ==> spec_chain_batch(samples@, lens@, j, #[trigger] r@[j]),
{
    let n = lens.len();
    let mut out: Vec<(Vec<i32>, Vec<u32>)> = Vec::new();
    let mut start: usize = 0;
    while start < n
        invariant
            n == lens@.len() == samples@.len(),
            start <= n,
            out@.len() == 0 ==> start == 0,
            start < n ==> start == 64 * out@.len(),
            start == n ==> (out@.len() == 0 || 64 * (out@.len() - 1) < n <= 64 * out@.len()),
            out@.len() > 0 && start < n ==> 64 * (out@.len() - 1) < n,
            forall|j: int| 0 <= j < out@.len() ==> spec_chain_batch(samples@, lens@, j, #[trigger] out@[j]),
        decreases n - start,
    {
        let end: usize = if n - start > CHAIN_FILES_MAX { start + CHAIN_FILES_MAX } else { n };
        let ghost j = out@.len() as int;
        assert(end == spec_batch_end(n as int, j));
        let mut chain: Vec<i32> = Vec::new();
        let mut batch_lens: Vec<u32> = Vec::new();
        let mut k: usize = start;
        while k < end
            invariant
                n == lens@.len() == samples@.len(),
                start <= k <= end <= n,
                batch_lens@ == lens@.subrange(start as int, k as int),
                chain@ == spec_flatten(spec_file_samples(samples@, start as int, k as int)),
            decreases end - k,
        {
            proof {
                lemma_file_samples_step(samples@, start as int, k as int);
            }
            batch_lens.push(lens[k]);
            assert(batch_lens@ =~= lens@.subrange(start as int, k + 1));
            let file = &samples[k];
            let ghost base = chain@;
            let mut m: usize = 0;
            while m < file.len()
                invariant
                    m <= file@.len(),
                    chain@ == base + file@.subrange(0, m as int),
                decreases file@.len() - m,
            {
                chain.push(file[m]);
                assert(chain@ =~= base + file@.subrange(0, m + 1));
                m = m + 1;
            }
            assert(file@.subrange(0, m as int) =~= file@);
            k = k + 1;
        }
        assert(spec_chain_batch(samples@, lens@, j, (chain, batch_lens)));
        out.push((chain, batch_lens));
        start = end;
    }
    assert(out@.len() == (n + 63) / 64) by (nonlinear_arith)
        requires
            out@.len() == 0 ==> n == 0,
            out@.len() > 0 ==> 64 * (out@.len() - 1) < n <= 64 * out@.len(),
    ;
    out
}

/// Whether slice `i` of `attrs` lies within `len` samples.
pub open spec fn spec_slice_fits(attrs: SampleAttributes, len: nat, i: int) -> bool {
    attrs.slices@[i].trim_start <= attrs.slices@[i].trim_end <= len
}

/// Cuts a sample chain's samples into its slices: the samples from each
/// slice's trim start to its trim end, for the `slices_len` slices of the
/// attributes. Fails with `Unknown` when the attributes claim more than 64
/// slices, or a slice lies outside the samples.
pub fn samplechain_slice_samples(samples: &[i32], attrs: &SampleAttributes) -> (r: Result<Vec<Vec<i32>>, OctatoolErrors>)
    ensures
        r is Ok <==> (attrs.slices_len <= 64 && forall|i: int| 0 <= i < attrs.slices_len
            ==> #[trigger] spec_slice_fits(*attrs, samples@.len(), i)),
        match r {
            Ok(v) => v@.len() == attrs.slices_len && forall|i: int| 0 <= i < v@.len() ==> (#[trigger] v@[i])@
                == samples@.subrange(attrs.slices@[i].trim_start as int, attrs.slices@[i].trim_end as int),
            Err(e) => e == OctatoolErrors::Unknown,
        },
{
    if attrs.slices_len > 64 {
        return Err(OctatoolErrors::Unknown);
    }
    let count = attrs.slices_len as usize;
    let mut out: Vec<Vec<i32>> = Vec::new();
    let mut i: usize = 0;
    while i < count
        invariant
            count == attrs.slices_len <= 64,
            i <= count,
            out@.len() == i,
            forall|k: int| 0 <= k < i ==> #[trigger] spec_slice_fits(*attrs, samples@.len(), k),
            forall|k: int| 0 <= k < i ==> (#[trigger] out@[k])@
                == samples@.subrange(attrs.slices@[k].trim_start as int, attrs.slices@[k].trim_end as int),
        decreases count - i,
    {
        let slice = attrs.slices[i];
        let start = slice.trim_start as usize;
        let end = slice.trim_end as usize;
        if start > end || end > samples.len() {
            assert(!spec_slice_fits(*attrs, samples@.len(), i as int));
            return Err(OctatoolErrors::Unknown);
        }
        let mut part: Vec<i32> = Vec::new();
        let mut m: usize = start;
        while m < end
            invariant
                start <= m <= end <= samples@.len(),
                part@ == samples@.subrange(start as int, m as int),
            decreases end - m,
        {
            part.push(samples[m]);
            assert(part@ =~= samples@.subrange(start as int, m + 1));
            m = m + 1;
        }
        out.push(part);
        i = i + 1;
    }
    Ok(out)
}

/// Whether `sl` holds the slices of a chain of files with lengths `lens`,
/// laid end to end from sample 0, the unused positions all-zero.
pub open spec fn spec_chain_slices(lens: Seq<u32>, sl: Slices) -> bool {
    &&& sl.count == lens.len()
    &&& forall|i: int| 0 <= i < lens.len() ==> #[trigger] sl.slices@[i] == spec_chain_slice(lens[i], prefix_sum(lens, i))
    &&& forall|i: int| lens.len() <= i < 64 ==> #[trigger] sl.slices@[i] == spec_zero_slice()
}

/// The attributes of one sample chain of files with lengths `lens` (at most
/// 64): stored tempo `tempo` and gain `gain`, default time-stretch, trig
/// quantization and loop mode, trimmed over the whole chain, `bars` (bars
/// times 100) as trim and loop length, one slice per file.
pub fn create_samplechain_attributes(tempo: u32, gain: u16, lens: &[u32], bars: u32) -> (r: Result<SampleAttributes, SampleAttributeErrors>)
    requires
        lens@.len() <= 64,
        prefix_sum(lens@, lens@.len() as int) <= u32::MAX,
    ensures
        exists|sl: Slices| #[trigger] spec_chain_slices(lens@, sl) && r == spec_new_attributes(
            tempo,
            SampleAttributeTimestrechMode::Off,
            SampleAttributeTrigQuantizationMode::Direct,
            gain,
            SampleTrimConfig { start: 0, end: prefix_sum(lens@, lens@.len() as int) as u32, length: bars },
            SampleLoopConfig { start: 0, length: bars, mode: SampleAttributeLoopMode::Off },
            sl,
        ),
{
    let mut total: u32 = 0;
    let mut i: usize = 0;
    while i < lens.len()
        invariant
            i <= lens@.len(),
            total == prefix_sum(lens@, i as int),
            prefix_sum(lens@, lens@.len() as int) <= u32::MAX,
        decreases lens@.len() - i,
    {
        proof {
            lemma_prefix_sum_monotone(lens@, i + 1, lens@.len() as int);
        }
        total = total + lens[i];
        i = i + 1;
    }
    let slices = match create_slices_from_wavfiles(lens, 0) {
        Ok(x) => x,
        Err(e) => {
            return Err(e);
        },
    };
    let trim_config = SampleTrimConfig { start: 0, end: total, length: bars };
    let loop_config = SampleLoopConfig { start: 0, length: bars, mode: SampleAttributeLoopMode::default() };
    let r = SampleAttributes::new(
        &tempo,
        &SampleAttributeTimestrechMode::default(),
        &SampleAttributeTrigQuantizationMode::default(),
        &gain,
        &trim_config,
        &loop_config,
        &slices,
    );
    assert(spec_chain_slices(lens@, slices));
    r
}

} // verus!
