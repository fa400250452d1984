use octatools::options::{SampleAttributeLoopMode, SampleAttributeTimestrechMode, SampleAttributeTrigQuantizationMode};
use octatools::samples::{
    calculate_checksum_sample_attr_bytes, create_default_ot_file_for_wav_file, SampleAttributeErrors, SampleAttributes,
    SampleLoopConfig, SampleTrimConfig, Slice, Slices, FULL_HEADER,
};

fn sample() -> SampleAttributes {
    let mut slices = Slices { slices: [Slice { trim_start: 0, trim_end: 0, loop_start: 0 }; 64], count: 2 };
    slices.slices[0] = Slice { trim_start: 0, trim_end: 1000, loop_start: 0xFFFF_FFFF };
    slices.slices[1] = Slice { trim_start: 1000, trim_end: 70000, loop_start: 0xFFFF_FFFF };
    SampleAttributes::new(
        &2880,
        &SampleAttributeTimestrechMode::Normal,
        &SampleAttributeTrigQuantizationMode::Direct,
        &48,
        &SampleTrimConfig { start: 0, end: 70000, length: 400 },
        &SampleLoopConfig { start: 0, length: 400, mode: SampleAttributeLoopMode::Off },
        &slices,
    )
    .unwrap()
}

#[test]
fn encoded_layout() {
    let a = sample();
    let bytes = a.encode();
    assert_eq!(bytes.len(), 832);
    assert_eq!(&bytes[0..23], &FULL_HEADER[..]);
    assert_eq!(&bytes[23..27], &[0, 0, 0x0b, 0x40]);
    assert_eq!(&bytes[43..45], &[0, 48]);
    assert_eq!(bytes[45], 255);
    assert_eq!(&bytes[58..70], &[0, 0, 0, 0, 0, 0, 0x03, 0xe8, 0xff, 0xff, 0xff, 0xff]);
    assert_eq!(&bytes[826..830], &[0, 0, 0, 2]);
    let chk = calculate_checksum_sample_attr_bytes(&bytes).unwrap();
    assert_eq!(&bytes[830..832], &chk.to_be_bytes());
}

#[test]
fn decode_of_encode() {
    let a = sample();
    let bytes = a.encode();
    let d = SampleAttributes::decode(&bytes).unwrap();
    let chk = calculate_checksum_sample_attr_bytes(&bytes).unwrap();
    assert_eq!(d.checksum, chk);
    let mut expected = a;
    expected.checksum = chk;
    assert_eq!(d, expected);
    // a set checksum is kept
    assert_eq!(SampleAttributes::decode(&d.encode()).unwrap(), d);
}

#[test]
fn decode_needs_a_whole_file() {
    assert_eq!(SampleAttributes::decode(&[0u8; 831]), Err(SampleAttributeErrors::InvalidLength));
    assert!(SampleAttributes::decode(&[0u8; 840]).is_ok());
}

#[test]
fn default_file_roundtrip() {
    let a = create_default_ot_file_for_wav_file(12345).unwrap();
    let d = SampleAttributes::decode(&a.encode()).unwrap();
    assert_eq!(d.trim_end, 12345);
    assert_eq!(d.tempo, 2880);
    assert_ne!(d.checksum, 0);
}
