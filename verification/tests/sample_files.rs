use octatools::errors::OctatoolErrors;
use octatools::paths::resolve_otfile_fpath_from_audio_fpath;
use octatools::sample_files::{
    get_md5_hash_from_bytes, get_stem_from_pathbuf, SampleFilePair, SamplesDirAudioFile, SamplesDirIndexFull,
    ScannedAudioFile,
};
use std::path::Path;

fn pair_from_disk(audio: &str) -> Result<SampleFilePair, OctatoolErrors> {
    let ot = resolve_otfile_fpath_from_audio_fpath(audio);
    SampleFilePair::from_audio_pathbuf(audio, Path::new(&ot).exists())
}

fn stem_from_disk(path: &str) -> Result<String, OctatoolErrors> {
    let p = Path::new(path);
    get_stem_from_pathbuf(path, p.exists(), p.is_dir())
}

#[test]
fn utils_test_read_audio_file_only_ok() {
    let fp = "../data/tests/misc/test.wav";
    let r = pair_from_disk(fp);
    assert!(r.is_ok())
}

#[test]
fn utils_test_read_file_pair_ok() {
    let fp = "../data/tests/misc/pair.wav";
    let r = pair_from_disk(fp);
    assert!(r.is_ok())
}

#[test]
fn fail_when_noexist() {
    assert!(stem_from_disk("sfklsdfjsdkfdjsdslfdljfdlkj").is_err())
}

#[test]
fn fail_when_file_is_dir() {
    assert!(stem_from_disk("./src/").is_err())
}

#[test]
fn file_pair_fields() {
    let p = SampleFilePair::from_audio_pathbuf("some/dir/kick.wav", true).unwrap();
    assert_eq!(p.name, "kick");
    assert_eq!(p.audio_filepath, "some/dir/kick.wav");
    assert_eq!(p.attributes_filepath, Some("some/dir/kick.ot".to_string()));
    let q = SampleFilePair::from_audio_pathbuf("some/dir/kick.wav", false).unwrap();
    assert_eq!(q.attributes_filepath, None);
    let r = SampleFilePair::from_pathbufs("snare.aif", &Some("x.ot".to_string())).unwrap();
    assert_eq!(r.name, "snare");
    assert_eq!(r.attributes_filepath, Some("x.ot".to_string()));
    assert_eq!(SampleFilePair::from_pathbufs("", &None), Err(OctatoolErrors::InvalidFilenameOrExtension));
}

#[test]
fn stem_errors() {
    assert_eq!(get_stem_from_pathbuf("a.wav", false, false), Err(OctatoolErrors::PathDoesNotExist));
    assert_eq!(get_stem_from_pathbuf("dir", true, true), Err(OctatoolErrors::PathIsNotAFile));
    assert_eq!(get_stem_from_pathbuf("dir/a.wav", true, false), Ok("a".to_string()));
}

#[test]
fn md5_digest_in_base64() {
    assert_eq!(get_md5_hash_from_bytes(b""), "1B2M2Y8AsgTpgAmY7PhCfg==");
    assert_eq!(get_md5_hash_from_bytes(b"abc"), "kAFQmDzST7DWlj99KOF/cg==");
}

#[test]
fn directory_index() {
    let files = vec![
        ScannedAudioFile {
            path: "samples/a.wav".to_string(),
            canonical_path: "/abs/samples/a.wav".to_string(),
            contents: b"abc".to_vec(),
        },
        ScannedAudioFile {
            path: "samples/b.wav".to_string(),
            canonical_path: "/abs/samples/b.wav".to_string(),
            contents: Vec::new(),
        },
    ];
    let index = SamplesDirIndexFull::new("/abs/samples", &files).unwrap();
    assert_eq!(index.dirpath, "/abs/samples");
    assert_eq!(
        index.samples[0],
        SamplesDirAudioFile {
            md5: "kAFQmDzST7DWlj99KOF/cg==".to_string(),
            path: "/abs/samples/a.wav".to_string(),
            name: "a".to_string(),
        }
    );
    assert_eq!(index.samples[1].name, "b");
}
