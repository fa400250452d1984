use octatools::options::{SampleAttributeLoopMode, SampleAttributeTimestrechMode, SampleAttributeTrigQuantizationMode};
use octatools::sample_chains::{chain_wavfiles_64_batch, create_samplechain_attributes, samplechain_slice_samples};
use octatools::samples::{create_slices_from_wavfiles, SampleAttributes, SampleLoopConfig, SampleTrimConfig};

fn files(n: usize) -> (Vec<Vec<i32>>, Vec<u32>) {
    let samples: Vec<Vec<i32>> = (0..n).map(|i| vec![i as i32; i % 3 + 1]).collect();
    let lens: Vec<u32> = samples.iter().map(|s| s.len() as u32).collect();
    (samples, lens)
}

#[test]
fn hundred_files_make_two_chains() {
    let (samples, lens) = files(100);
    let batches = chain_wavfiles_64_batch(&samples, &lens);
    assert_eq!(batches.len(), 2);
    assert_eq!(batches[0].1, lens[0..64].to_vec());
    assert_eq!(batches[1].1, lens[64..100].to_vec());
    let first: Vec<i32> = samples[0..64].iter().flatten().copied().collect();
    assert_eq!(batches[0].0, first);
    let second: Vec<i32> = samples[64..100].iter().flatten().copied().collect();
    assert_eq!(batches[1].0, second);
}

#[test]
fn chain_counts_follow_the_file_count() {
    for (n, expected) in [(0usize, 0usize), (1, 1), (63, 1), (64, 1), (65, 2), (128, 2), (129, 3)] {
        let (samples, lens) = files(n);
        assert_eq!(chain_wavfiles_64_batch(&samples, &lens).len(), expected);
    }
}

fn attrs_with_slices(lens: &[u32]) -> SampleAttributes {
    let total: u32 = lens.iter().sum();
    let slices = create_slices_from_wavfiles(lens, 0).unwrap();
    SampleAttributes::new(
        &2880,
        &SampleAttributeTimestrechMode::default(),
        &SampleAttributeTrigQuantizationMode::default(),
        &48,
        &SampleTrimConfig { start: 0, end: total, length: 0 },
        &SampleLoopConfig { start: 0, length: 0, mode: SampleAttributeLoopMode::default() },
        &slices,
    )
    .unwrap()
}

#[test]
fn chain_is_cut_back_into_its_files() {
    let (samples, lens) = files(5);
    let chain = chain_wavfiles_64_batch(&samples, &lens);
    let attrs = attrs_with_slices(&chain[0].1);
    let parts = samplechain_slice_samples(&chain[0].0, &attrs).unwrap();
    assert_eq!(parts, samples);
}

#[test]
fn slices_beyond_the_samples_are_refused() {
    let attrs = attrs_with_slices(&[2, 3]);
    assert!(samplechain_slice_samples(&[1, 2, 3, 4], &attrs).is_err());
    assert_eq!(samplechain_slice_samples(&[1, 2, 3, 4, 5], &attrs).unwrap(), vec![vec![1, 2], vec![3, 4, 5]]);
}

#[test]
fn chain_attributes_slice_each_file() {
    let a = create_samplechain_attributes(2880, 48, &[10, 20, 5], 400).unwrap();
    assert_eq!(a.slices_len, 3);
    assert_eq!(a.trim_end, 35);
    assert_eq!(a.trim_len, 400);
    assert_eq!(a.loop_len, 400);
    assert_eq!(a.slices[1].trim_start, 10);
    assert_eq!(a.slices[1].trim_end, 30);
    assert_eq!(a.slices[2].trim_end, 35);
    assert_eq!(a.slices[3].trim_end, 0);
    assert_eq!(a.tempo, 2880);
    assert_eq!(a.gain, 48);
    let bad_gain = create_samplechain_attributes(2880, 97, &[10], 400);
    assert!(bad_gain.is_err());
}
