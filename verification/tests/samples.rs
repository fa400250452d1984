use octatools::options::{SampleAttributeLoopMode, SampleAttributeTimestrechMode, SampleAttributeTrigQuantizationMode};
use octatools::samples::{
    calculate_checksum_sample_attr_bytes, create_default_ot_file_for_wav_file, create_default_ot_files_for_wav_files,
    create_equally_sliced_sample, create_slice_from_wavfile, create_slices_from_wavfiles, swap_u16, swap_u32,
    CliSampleErrors, SampleAttributeErrors, SampleAttributes, SampleLoopConfig, SampleTrimConfig, Slice, Slices, SwapBytes,
    FULL_HEADER,
};
use std::array::from_fn;

fn create_mock_configs_blank() -> (SampleTrimConfig, SampleLoopConfig, Slices) {
    let trim_config = SampleTrimConfig { start: 0, end: 0, length: 0 };
    let loop_config = SampleLoopConfig { start: 0, length: 0, mode: SampleAttributeLoopMode::Normal };
    let default_slice = Slice { trim_start: 0, trim_end: 0, loop_start: 0xFFFFFFFF };
    let slices: [Slice; 64] = [default_slice; 64];
    let slice_conf = Slices { slices, count: 0 };
    (trim_config, loop_config, slice_conf)
}

/// Stored tempo of a BPM value (BPM times 24).
fn bin_tempo(bpm: u32) -> u32 {
    bpm * 24
}

/// Stored gain of a whole dB value (`2 * (dB + 24)`).
fn bin_gain(db: i32) -> u16 {
    (2 * (db + 24)) as u16
}

#[test]
fn ok_no_overflow_all_255() {
    let bytes: [u8; 832] = from_fn(|_| 255);
    assert_eq!(calculate_checksum_sample_attr_bytes(&bytes).unwrap(), 10962, "overflows should wrap");
}

#[test]
fn ok_no_overflow() {
    let bytes: [u8; 832] = from_fn(|_| 78);
    assert_eq!(
        calculate_checksum_sample_attr_bytes(&bytes).unwrap(),
        63492,
        "random value that shouldn't overflow at all"
    );
}

#[test]
fn ok_64_slice_len() {
    let bytes: [u8; 832] = from_fn(|_| 64);
    assert_eq!(calculate_checksum_sample_attr_bytes(&bytes).unwrap(), 52096,);
}

#[test]
fn ok_one_bytes() {
    let bytes: [u8; 832] = from_fn(|_| 1);
    assert_eq!(calculate_checksum_sample_attr_bytes(&bytes).unwrap(), 814, "low values definitely don't overflow");
}

#[test]
fn ok_zeroed() {
    let bytes: [u8; 832] = from_fn(|_| 0);
    assert_eq!(calculate_checksum_sample_attr_bytes(&bytes).unwrap(), 0, "unknown if this is correct behaviour");
}

#[test]
fn err_oob_tempo() {
    let (trim_conf, loop_conf, slices) = create_mock_configs_blank();
    let composed_chain = SampleAttributes::new(
        &bin_tempo(10000),
        &SampleAttributeTimestrechMode::Off,
        &SampleAttributeTrigQuantizationMode::PatternLength,
        &bin_gain(0),
        &trim_conf,
        &loop_conf,
        &slices,
    );
    assert!(composed_chain.is_err());
}

#[test]
fn err_invalid_gain() {
    let (trim_conf, loop_conf, slices) = create_mock_configs_blank();
    let composed_chain = SampleAttributes::new(
        &bin_tempo(125),
        &SampleAttributeTimestrechMode::Off,
        &SampleAttributeTrigQuantizationMode::PatternLength,
        &bin_gain(300),
        &trim_conf,
        &loop_conf,
        &slices,
    );
    assert!(composed_chain.is_err());
}

#[test]
fn test_oob_tempo() {
    let (trim_conf, loop_conf, slices) = create_mock_configs_blank();
    let composed_chain = SampleAttributes::new(
        &bin_tempo(10000),
        &SampleAttributeTimestrechMode::Off,
        &SampleAttributeTrigQuantizationMode::PatternLength,
        &bin_gain(0),
        &trim_conf,
        &loop_conf,
        &slices,
    );
    assert!(composed_chain.is_err());
}

#[test]
fn test_invalid_gain() {
    let (trim_conf, loop_conf, slices) = create_mock_configs_blank();
    let composed_chain = SampleAttributes::new(
        &bin_tempo(125),
        &SampleAttributeTimestrechMode::Off,
        &SampleAttributeTrigQuantizationMode::PatternLength,
        &bin_gain(300),
        &trim_conf,
        &loop_conf,
        &slices,
    );
    assert!(composed_chain.is_err());
}

#[test]
fn new_attributes_errors_name_the_setting() {
    let (trim_conf, loop_conf, slices) = create_mock_configs_blank();
    let tempo_err = SampleAttributes::new(
        &719,
        &SampleAttributeTimestrechMode::Off,
        &SampleAttributeTrigQuantizationMode::Direct,
        &48,
        &trim_conf,
        &loop_conf,
        &slices,
    );
    assert_eq!(tempo_err, Err(SampleAttributeErrors::TempoOutOfBounds));
    let gain_err = SampleAttributes::new(
        &7201,
        &SampleAttributeTimestrechMode::Off,
        &SampleAttributeTrigQuantizationMode::Direct,
        &97,
        &trim_conf,
        &loop_conf,
        &slices,
    );
    assert_eq!(gain_err, Err(SampleAttributeErrors::GainOutOfBounds));
}

#[test]
fn new_attributes_bounds_are_accepted() {
    let (trim_conf, loop_conf, slices) = create_mock_configs_blank();
    for (tempo, gain) in [(720u32, 0u16), (7200, 96)] {
        let a = SampleAttributes::new(
            &tempo,
            &SampleAttributeTimestrechMode::Beat,
            &SampleAttributeTrigQuantizationMode::OneStep,
            &gain,
            &trim_conf,
            &loop_conf,
            &slices,
        )
        .unwrap();
        assert_eq!(a.tempo, tempo);
        assert_eq!(a.gain, gain);
        assert_eq!(a.stretch, 3);
        assert_eq!(a.quantization, 1);
        assert_eq!(a.loop_mode, 1);
        assert_eq!(a.checksum, 0);
        assert_eq!(a.header, FULL_HEADER);
    }
}

#[test]
fn checksum_skips_header_and_checksum_bytes() {
    let mut bytes = [0u8; 20];
    for b in bytes.iter_mut().take(16) {
        *b = 200;
    }
    bytes[16] = 3;
    bytes[17] = 4;
    bytes[18] = 255;
    bytes[19] = 255;
    assert_eq!(calculate_checksum_sample_attr_bytes(&bytes).unwrap(), 7);
}

#[test]
fn byte_swaps() {
    assert_eq!(swap_u32(0x1234_5678), 0x7856_3412);
    assert_eq!(swap_u16(0x1234), 0x3412);
    assert_eq!(swap_u32(swap_u32(0xdead_beef)), 0xdead_beef);
}

#[test]
fn swapping_attributes_twice_gives_them_back() {
    let (trim_conf, loop_conf, mut slices) = create_mock_configs_blank();
    slices.slices[3] = Slice { trim_start: 10, trim_end: 20, loop_start: 30 };
    slices.count = 4;
    let a = SampleAttributes::new(
        &2880,
        &SampleAttributeTimestrechMode::Normal,
        &SampleAttributeTrigQuantizationMode::Direct,
        &48,
        &trim_conf,
        &loop_conf,
        &slices,
    )
    .unwrap();
    let b = a.swap_bytes().unwrap();
    assert_eq!(b.tempo, 2880u32.swap_bytes());
    assert_eq!(b.slices[3].trim_end, 20u32.swap_bytes());
    let c = b.swap_bytes().unwrap();
    assert_eq!(c, a);
}

#[test]
fn slices_of_a_chain() {
    let s = create_slice_from_wavfile(100, 50).unwrap();
    assert_eq!(s, Slice { trim_start: 50, trim_end: 150, loop_start: 0xFFFF_FFFF });
    let slices = create_slices_from_wavfiles(&[10, 20, 30], 5).unwrap();
    assert_eq!(slices.count, 3);
    assert_eq!(slices.slices[0], Slice { trim_start: 5, trim_end: 15, loop_start: 0xFFFF_FFFF });
    assert_eq!(slices.slices[1], Slice { trim_start: 15, trim_end: 35, loop_start: 0xFFFF_FFFF });
    assert_eq!(slices.slices[2], Slice { trim_start: 35, trim_end: 65, loop_start: 0xFFFF_FFFF });
    assert_eq!(slices.slices[3], Slice { trim_start: 0, trim_end: 0, loop_start: 0 });
}

#[test]
fn default_attributes_file() {
    let a = create_default_ot_file_for_wav_file(44100).unwrap();
    assert_eq!(a.tempo, 2880);
    assert_eq!(a.gain, 48);
    assert_eq!(a.trim_end, 44100);
    assert_eq!(a.trim_len, 44100);
    assert_eq!(a.loop_len, 44100);
    assert_eq!(a.slices_len, 0);
    let all = create_default_ot_files_for_wav_files(&[1, 2]).unwrap();
    assert_eq!(all.len(), 2);
    assert_eq!(all[1].trim_end, 2);
}

#[test]
fn equal_slices() {
    let a = create_equally_sliced_sample(300, 3, 75).unwrap();
    assert_eq!(a.slices_len, 3);
    assert_eq!(a.slices[0], Slice { trim_start: 0, trim_end: 100, loop_start: 0xFFFF_FFFF });
    assert_eq!(a.slices[2], Slice { trim_start: 200, trim_end: 300, loop_start: 0xFFFF_FFFF });
    assert_eq!(a.slices[3], Slice { trim_start: 0, trim_end: 0, loop_start: 0 });
    assert_eq!(a.trim_len, 75);
    assert_eq!(a.trim_end, 300);
    let odd = create_equally_sliced_sample(130, 4, 75).unwrap();
    assert_eq!(odd.slices[3], Slice { trim_start: 96, trim_end: 128, loop_start: 0xFFFF_FFFF });
}

#[test]
fn equal_slices_refuse_bad_requests() {
    assert_eq!(create_equally_sliced_sample(44100, 65, 100).unwrap_err(), CliSampleErrors::TooManySlices);
    assert_eq!(create_equally_sliced_sample(100, 65, 100).unwrap_err(), CliSampleErrors::TooManySlices);
    assert_eq!(create_equally_sliced_sample(127, 2, 100).unwrap_err(), CliSampleErrors::AudioTooShort);
    assert!(create_equally_sliced_sample(128, 64, 100).is_ok());
    assert_eq!(
        CliSampleErrors::AudioTooShort.description(),
        "audio file too short, must have minimum 128 discrete samples"
    );
}
