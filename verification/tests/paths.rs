use octatools::errors::OctatoolErrors;
use octatools::paths::{resolve_fname_and_fext_from_path, resolve_otfile_fpath_from_audio_fpath};
use std::path::PathBuf;

fn resolve(path: &PathBuf) -> Result<String, OctatoolErrors> {
    resolve_fname_and_fext_from_path(path.to_str().unwrap())
}

#[test]
fn success_unhidden_rel_path_with_parent_dirs() {
    let path = PathBuf::from(".").join("some").join("path").join("file.ext");
    let r = resolve(&path);
    assert!(r.is_ok());
    assert_eq!(r.unwrap(), "file.ext".to_string());
}

#[test]
fn success_unhidden_rel_path_with_parent_dirs_no_period_prefix() {
    let path = PathBuf::from("some/path/to/a/file.ext");
    let r = resolve(&path);
    assert!(r.is_ok());
    assert_eq!(r.unwrap(), "file.ext".to_string());
}

#[test]
fn success_unhidden_fname_fext_only() {
    let path = PathBuf::from("file.ext");
    let r = resolve(&path);
    assert!(r.is_ok());
    assert_eq!(r.unwrap(), "file.ext".to_string());
}

#[test]
fn success_unhidden_abs_path_with_parent_dirs() {
    let path = PathBuf::from("/some/path/to/a/file.ext");
    let r = resolve(&path);
    assert!(r.is_ok());
    assert_eq!(r.unwrap(), "file.ext".to_string());
}

#[test]
fn success_hidden_rel_path_with_parent_dirs() {
    let path = PathBuf::from("./some/path/to/a/.file.ext");
    let r = resolve(&path);
    assert!(r.is_ok());
    assert_eq!(r.unwrap(), ".file.ext".to_string());
}

#[test]
fn success_hidden_rel_path_with_parent_dirs_no_period_prefix() {
    let path = PathBuf::from("some/path/to/a/.file.ext");
    let r = resolve(&path);
    assert!(r.is_ok());
    assert_eq!(r.unwrap(), ".file.ext".to_string());
}

#[test]
fn success_hidden_fname_fext_only() {
    let path = PathBuf::from(".file.ext");
    let r = resolve(&path);
    assert!(r.is_ok());
    assert_eq!(r.unwrap(), ".file.ext".to_string());
}

#[test]
fn fail_no_extension() {
    let path = PathBuf::from("some/path/to/file");
    let r = resolve(&path);
    assert!(r.is_err());
    assert!(matches!(r.unwrap_err(), OctatoolErrors::InvalidFilenameOrExtension));
}

#[test]
fn fail_no_fname() {
    let path = PathBuf::from(".ext");
    let r = resolve(&path);
    assert!(r.is_err());
    assert!(matches!(r.unwrap_err(), OctatoolErrors::InvalidFilenameOrExtension));
}

#[test]
fn ot_file_path_replaces_the_extension() {
    assert_eq!(resolve_otfile_fpath_from_audio_fpath("some/dir/sample.wav"), "some/dir/sample.ot".to_string());
    assert_eq!(resolve_otfile_fpath_from_audio_fpath("sample"), "sample.ot".to_string());
}
