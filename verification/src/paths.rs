//! File path handling for sample files (file names, extensions, joins).

use vstd::prelude::*;
use crate::errors::OctatoolErrors;

verus! {

/// The stem of the final component of a path, as `std::path::Path::file_stem`
/// reads it (`None` when the path has no file name).
pub uninterp spec fn spec_file_stem(path: Seq<char>) -> Option<Seq<char>>;

/// The extension of the final component of a path, as
/// `std::path::Path::extension` reads it.
pub uninterp spec fn spec_extension(path: Seq<char>) -> Option<Seq<char>>;

/// The path `base` joined with `rest`, as `std::path::Path::join` builds it.
pub uninterp spec fn spec_path_join(base: Seq<char>, rest: Seq<char>) -> Seq<char>;

/// The path with its extension replaced by `ext`, as
/// `std::path::PathBuf::set_extension` makes it.
pub uninterp spec fn spec_with_extension(path: Seq<char>, ext: Seq<char>) -> Seq<char>;

/// The parent of a path, as `std::path::Path::parent` gives it (`None` for a
/// root or an empty path).
pub uninterp spec fn spec_path_parent(path: Seq<char>) -> Option<Seq<char>>;

/// The final component of a path, as `std::path::Path::file_name` gives it
/// (`None` when the path ends in `..`).
pub uninterp spec fn spec_file_name(path: Seq<char>) -> Option<Seq<char>>;

/// Calls `std::path::Path::parent` on `path`. The result is named
/// `spec_path_parent`; nothing else is claimed of it.
#[verifier::external_body]
pub(crate) fn path_parent(path: &str) -> (r: Option<String>)
    ensures
        match r {
            Some(s) => spec_path_parent(path@) == Some(s@),
            None => spec_path_parent(path@) is None,
        },
{
    match std::path::Path::new(path).parent() {
        Some(p) => Some(p.to_string_lossy().to_string()),
        None => None,
    }
}

/// Calls `std::path::Path::file_name` on `path`. The result is named
/// `spec_file_name`; nothing else is claimed of it.
#[verifier::external_body]
pub(crate) fn path_file_name(path: &str) -> (r: Option<String>)
    ensures
        match r {
            Some(s) => spec_file_name(path@) == Some(s@),
            None => spec_file_name(path@) is None,
        },
{
    match std::path::Path::new(path).file_name() {
        Some(s) => Some(s.to_string_lossy().to_string()),
        None => None,
    }
}

/// Calls `std::path::Path::file_stem` on `path`. The result is named
/// `spec_file_stem`; nothing else is claimed of it.
#[verifier::external_body]
pub(crate) fn path_file_stem(path: &str) -> (r: Option<String>)
    ensures
        match r {
            Some(s) => spec_file_stem(path@) == Some(s@),
            None => spec_file_stem(path@) is None,
        },
{
    match std::path::Path::new(path).file_stem() {
        Some(s) => Some(s.to_string_lossy().to_string()),
        None => None,
    }
}

/// Calls `std::path::Path::extension` on `path`. The result is named
/// `spec_extension`; its documentation states that a path with an extension
/// has a file name, hence a stem, which the second clause claims.
#[verifier::external_body]
pub(crate) fn path_extension(path: &str) -> (r: Option<String>)
    ensures
        match r {
            Some(s) => spec_extension(path@) == Some(s@),
            None => spec_extension(path@) is None,
        },
        r is Some ==> spec_file_stem(path@) is Some,
{
    match std::path::Path::new(path).extension() {
        Some(s) => Some(s.to_string_lossy().to_string()),
        None => None,
    }
}

/// Calls `std::path::Path::join`. The result is named `spec_path_join`.
#[verifier::external_body]
pub(crate) fn path_join(base: &str, rest: &str) -> (r: String)
    ensures
        r@ == spec_path_join(base@, rest@),
{
    std::path::Path::new(base).join(rest).to_string_lossy().to_string()
}

/// Calls `std::path::PathBuf::set_extension`. The result is named
/// `spec_with_extension`. The call panics when the extension holds a path
/// separator, so the extension may hold neither `/` nor `\`.
#[verifier::external_body]
pub(crate) fn path_with_extension(path: &str, ext: &str) -> (r: String)
    requires
        forall|i: int| 0 <= i < ext@.len() ==> ext@[i] != '/' && ext@[i] != '\\',
    ensures
        r@ == spec_with_extension(path@, ext@),
{
    let mut p = std::path::PathBuf::from(path);
    p.set_extension(ext);
    p.to_string_lossy().to_string()
}

/// The file name and extension of a path as one text (`"file.ext"`); `None`
/// when the path has no extension.
pub open spec fn spec_fname_and_fext(path: Seq<char>) -> Option<Seq<char>> {
    match spec_extension(path) {
        Some(ext) => match spec_file_stem(path) {
            Some(stem) => Some(stem + seq!['.'] + ext),
            None => None,
        },
        None => None,
    }
}

/// The file name and extension of a path as one text, e.g.
/// `some/path/to/file.ext` gives `file.ext`; an error when the path has no
/// extension.
pub fn resolve_fname_and_fext_from_path(path: &str) -> (r: Result<String, OctatoolErrors>)
    ensures
        match r {
            Ok(s) => spec_fname_and_fext(path@) == Some(s@),
            Err(e) => e == OctatoolErrors::InvalidFilenameOrExtension && spec_fname_and_fext(path@) is None,
        },
{
    let ext = match path_extension(path) {
        Some(e) => e,
        None => {
            return Err(OctatoolErrors::InvalidFilenameOrExtension);
        },
    };
    let stem = match path_file_stem(path) {
        Some(s) => s,
        None => {
            assert(false);
            return Err(OctatoolErrors::InvalidFilenameOrExtension);
        },
    };
    let mut out = stem;
    out.append(".");
    out.append(ext.as_str());
    proof {
        reveal_strlit(".");
    }
    Ok(out)
}

/// The path of a sample's attributes (`.ot`) file next to its audio file:
/// the audio path with its extension replaced by `ot`.
pub fn resolve_otfile_fpath_from_audio_fpath(path: &str) -> (r: String)
    ensures
        r@ == spec_with_extension(path@, "ot"@),
{
    proof {
        reveal_strlit("ot");
    }
    path_with_extension(path, "ot")
}

} // verus!
