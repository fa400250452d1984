use octatools::errors::OctatoolErrors;
use octatools::options::{
    ProjectSampleSlotType, SampleAttributeLoopMode, SampleAttributeTimestrechMode, SampleAttributeTrigQuantizationMode,
};
use octatools::slot_text::{decimal_text, project_text_with_slots, signed_decimal_text, slot_from_block};
use octatools::slots::ProjectSampleSlot;
use octatools::strings::split_text;
use octatools::keyvalues::KeyValues;

fn static_slot() -> ProjectSampleSlot {
    ProjectSampleSlot::new(
        ProjectSampleSlotType::Static,
        1,
        "../AUDIO/first-0.wav".to_string(),
        Some(0),
        Some(SampleAttributeTimestrechMode::Normal),
        Some(SampleAttributeLoopMode::Off),
        Some(SampleAttributeTrigQuantizationMode::Direct),
        Some(0),
        Some(120),
    )
    .unwrap()
}

const STATIC_SECTION: &str = "[SAMPLE]\r\nTYPE=STATIC\r\nSLOT=1\r\nPATH=../AUDIO/first-0.wav\r\nTRIM_BARSx100=0\r\nTSMODE=2\r\nLOOPMODE=0\r\nGAIN=48\r\nTRIGQUANTIZATION=255\r\n[/SAMPLE]";

const SAMPLES_HEADER: &str = "############################\r\n# Samples\r\n############################";
const FILE_FOOTER: &str = "\r\n\r\n############################\r\n\r\n";

#[test]
fn decimal_text_of_numbers() {
    assert_eq!(decimal_text(0), "0".to_string());
    assert_eq!(decimal_text(7), "7".to_string());
    assert_eq!(decimal_text(1234), "1234".to_string());
    assert_eq!(signed_decimal_text(-12), "-12".to_string());
    assert_eq!(signed_decimal_text(48), "48".to_string());
}

#[test]
fn split_text_pieces() {
    assert_eq!(split_text("a=b", "="), vec!["a".to_string(), "b".to_string()]);
    assert_eq!(split_text("a==b", "="), vec!["a".to_string(), "".to_string(), "b".to_string()]);
    assert_eq!(split_text("", "="), vec!["".to_string()]);
    assert_eq!(split_text("x\r\ny", "\r\n"), vec!["x".to_string(), "y".to_string()]);
}

#[test]
fn slot_section_text() {
    assert_eq!(static_slot().to_string(), STATIC_SECTION.to_string());
}

#[test]
fn recorder_slot_section_is_written_as_flex() {
    let s = ProjectSampleSlot::new(
        ProjectSampleSlotType::RecorderBuffer,
        129,
        "".to_string(),
        Some(0),
        Some(SampleAttributeTimestrechMode::Off),
        Some(SampleAttributeLoopMode::Normal),
        Some(SampleAttributeTrigQuantizationMode::OneStep),
        Some(-60),
        Some(120),
    )
    .unwrap();
    assert_eq!(
        s.to_string(),
        "[SAMPLE]\r\nTYPE=FLEX\r\nSLOT=129\r\nPATH=\r\nTRIM_BARSx100=0\r\nTSMODE=0\r\nLOOPMODE=1\r\nGAIN=-12\r\nTRIGQUANTIZATION=1\r\n[/SAMPLE]"
            .to_string()
    );
}

#[test]
fn slot_section_reads_back() {
    let s = static_slot();
    let text = s.to_string();
    let block = format!("\r\n\r\n{}", text.strip_suffix("[/SAMPLE]").unwrap());
    assert_eq!(slot_from_block(&block).unwrap(), s);
}

#[test]
fn block_without_framing_is_refused() {
    assert!(matches!(slot_from_block("[SAMPLE]\r\nSLOT=1\r\n"), Err(OctatoolErrors::ProjectSampleSlotParsingError)));
}

#[test]
fn block_with_lower_case_keys_and_tempo() {
    let block = "\r\n\r\n[SAMPLE]\r\ntype=FLEX\r\nslot=3\r\npath=x.wav\r\nbpm=2400\r\ngain=50\r\n";
    let s = slot_from_block(block).unwrap();
    assert_eq!(s.sample_type, ProjectSampleSlotType::Flex);
    assert_eq!(s.slot_id, 3);
    assert_eq!(s.path, "x.wav".to_string());
    assert_eq!(s.bpm, 100);
    assert_eq!(s.gain, 2);
    assert_eq!(s.trig_quantization_mode, SampleAttributeTrigQuantizationMode::Direct);
}

#[test]
fn project_text_lists_its_slots() {
    let second = ProjectSampleSlot::new(
        ProjectSampleSlotType::Flex,
        2,
        "b.wav".to_string(),
        Some(100),
        Some(SampleAttributeTimestrechMode::Beat),
        Some(SampleAttributeLoopMode::PingPong),
        Some(SampleAttributeTrigQuantizationMode::PatternLength),
        Some(1),
        Some(120),
    )
    .unwrap();
    let data = format!(
        "[HEADER]\r\n{}\r\n\r\n{}\r\n\r\n{}{}",
        SAMPLES_HEADER,
        static_slot().to_string(),
        second.to_string(),
        FILE_FOOTER
    );
    let slots = ProjectSampleSlot::from_string(&data).unwrap();
    assert_eq!(slots, vec![static_slot(), second]);
}

#[test]
fn project_text_without_footer_is_refused() {
    let data = format!("{}\r\n\r\n{}", SAMPLES_HEADER, STATIC_SECTION);
    assert!(matches!(ProjectSampleSlot::from_string(&data), Err(OctatoolErrors::ProjectSampleSlotParsingError)));
}

#[test]
fn project_text_with_a_bad_slot_number_is_refused() {
    let data = format!(
        "{}\r\n\r\n[SAMPLE]\r\nTYPE=STATIC\r\nSLOT=AAA\r\nPATH=a.wav\r\n[/SAMPLE]{}",
        SAMPLES_HEADER, FILE_FOOTER
    );
    assert!(matches!(ProjectSampleSlot::from_string(&data), Err(OctatoolErrors::ProjectSampleSlotParsingError)));
}

#[test]
fn project_text_slots_are_replaced() {
    let data = format!("[HEADER]\r\n{}\r\n\r\n{}{}", SAMPLES_HEADER, STATIC_SECTION, FILE_FOOTER);
    let second = ProjectSampleSlot::new(
        ProjectSampleSlotType::Flex,
        4,
        "d.wav".to_string(),
        Some(0),
        Some(SampleAttributeTimestrechMode::Off),
        Some(SampleAttributeLoopMode::Off),
        Some(SampleAttributeTrigQuantizationMode::Direct),
        Some(0),
        Some(120),
    )
    .unwrap();
    let text = project_text_with_slots(&data, &[static_slot(), second.clone()]).unwrap();
    assert_eq!(
        text,
        format!("[HEADER]\r\n{}\r\n\r\n{}\r\n\r\n{}{}", SAMPLES_HEADER, STATIC_SECTION, second.to_string(), FILE_FOOTER)
    );
    assert_eq!(ProjectSampleSlot::from_string(&text).unwrap(), vec![static_slot(), second]);
    let empty = project_text_with_slots(&data, &[]).unwrap();
    assert_eq!(empty, format!("[HEADER]\r\n{}{}", SAMPLES_HEADER, FILE_FOOTER));
    assert!(matches!(project_text_with_slots("no footer", &[]), Err(OctatoolErrors::ProjectSampleSlotParsingError)));
}

#[test]
fn slot_section_path_is_written_as_debug_text() {
    let s = ProjectSampleSlot::new(
        ProjectSampleSlotType::Static,
        2,
        "dir\\a \"b\".wav".to_string(),
        Some(0),
        Some(SampleAttributeTimestrechMode::Off),
        Some(SampleAttributeLoopMode::Off),
        Some(SampleAttributeTrigQuantizationMode::Direct),
        Some(0),
        Some(120),
    )
    .unwrap();
    let text = s.to_string();
    assert!(text.contains("\r\nPATH=dir\\\\a \\b\\.wav\r\n"));
}

#[test]
fn slot_text_entries_read_back_through_from_hashmap() {
    let mut s = static_slot();
    s.bpm = 120;
    let text = s.to_string();
    let mut entries = KeyValues::new();
    for line in text.split("\r\n") {
        if let Some((k, v)) = line.split_once('=') {
            entries.insert(k.to_lowercase(), v.to_string());
        }
    }
    assert_eq!(ProjectSampleSlot::from_hashmap(&entries), Ok(s));
}
