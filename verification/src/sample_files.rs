//! Sample files on disk: audio / attributes file pairs, and indexes of sample
//! directories with the MD5 digest of each audio file.

use vstd::prelude::*;
use crate::errors::OctatoolErrors;
use crate::paths::{path_file_stem, resolve_otfile_fpath_from_audio_fpath, spec_file_stem, spec_with_extension};
use base64ct::{Base64, Encoding};

verus! {

/// An audio file and, when there is one, the attributes (`.ot`) file that
/// goes with it.
#[derive(Debug, Clone, PartialEq, Eq)]
pub struct SampleFilePair {
    /// Name of the sample: the audio file's stem.
    pub name: String,
    /// Path of the audio file.
    pub audio_filepath: String,
    /// Path of the attributes file, if any.
    pub attributes_filepath: Option<String>,
}

impl SampleFilePair {
    /// The pair of an audio file and an optional attributes file; an error
    /// when the audio path has no file stem.
    pub fn from_pathbufs(audio_fp: &str, ot_fp: &Option<String>) -> (r: Result<Self, OctatoolErrors>)
        ensures
            match r {
                Ok(p) => spec_file_stem(audio_fp@) == Some(p.name@) && p.audio_filepath@ == audio_fp@
                    && p.attributes_filepath == *ot_fp,
                Err(e) => e == OctatoolErrors::InvalidFilenameOrExtension && spec_file_stem(audio_fp@) is None,
            },
    {
        let name = match path_file_stem(audio_fp) {
            Some(s) => s,
            None => {
                return Err(OctatoolErrors::InvalidFilenameOrExtension);
            },
        };
        let attributes_filepath = match ot_fp {
            Some(p) => Some(p.clone()),
            None => None,
        };
        Ok(SampleFilePair { name, audio_filepath: String::from_str(audio_fp), attributes_filepath })
    }
}

impl SampleFilePair {
    /// The pair for an audio file: its attributes file is the audio path
    /// with the extension `ot`, taken only when `ot_file_exists` (whether
    /// that file exists on disk) holds; an error when the audio path has no
    /// file stem.
    pub fn from_audio_pathbuf(audio_fp: &str, ot_file_exists: bool) -> (r: Result<Self, OctatoolErrors>)
        ensures
            match r {
                Ok(p) => spec_file_stem(audio_fp@) == Some(p.name@) && p.audio_filepath@ == audio_fp@
                    && match p.attributes_filepath {
                        Some(a) => ot_file_exists && a@ == spec_with_extension(audio_fp@, "ot"@),
                        None => !ot_file_exists,
                    },
                Err(e) => e == OctatoolErrors::InvalidFilenameOrExtension && spec_file_stem(audio_fp@) is None,
            },
    {
        let ot_file_path = resolve_otfile_fpath_from_audio_fpath(audio_fp);
        let attributes_filepath = if ot_file_exists {
            Some(ot_file_path)
        } else {
            None
        };
        let name = match path_file_stem(audio_fp) {
            Some(s) => s,
            None => {
                return Err(OctatoolErrors::InvalidFilenameOrExtension);
            },
        };
        Ok(SampleFilePair { name, audio_filepath: String::from_str(audio_fp), attributes_filepath })
    }
}

/// The file stem of a path that must name an existing file: an error when
/// the path does not exist (`exists`), names a directory (`is_dir`) or has no
/// file stem.
pub fn get_stem_from_pathbuf(path: &str, exists: bool, is_dir: bool) -> (r: Result<String, OctatoolErrors>)
    ensures
        !exists ==> r == Err::<String, OctatoolErrors>(OctatoolErrors::PathDoesNotExist),
        exists && is_dir ==> r == Err::<String, OctatoolErrors>(OctatoolErrors::PathIsNotAFile),
        exists && !is_dir ==> match r {
            Ok(s) => spec_file_stem(path@) == Some(s@),
            Err(e) => e == OctatoolErrors::InvalidFilenameOrExtension && spec_file_stem(path@) is None,
        },
{
    if !exists {
        return Err(OctatoolErrors::PathDoesNotExist);
    }
    if is_dir {
        return Err(OctatoolErrors::PathIsNotAFile);
    }
    match path_file_stem(path) {
        Some(s) => Ok(s),
        None => Err(OctatoolErrors::InvalidFilenameOrExtension),
    }
}

/// The MD5 digest of a byte string, as `md5::compute` gives it.
pub uninterp spec fn spec_md5(data: Seq<u8>) -> Seq<u8>;

/// The character of a 6-bit value in the standard Base64 alphabet
/// (`A`-`Z`, `a`-`z`, `0`-`9`, `+`, `/`).
pub open spec fn base64_char(v: int) -> char {
    if v < 26 {
        (65 + v) as char
    } else if v < 52 {
        (97 + v - 26) as char
    } else if v < 62 {
        (48 + v - 52) as char
    } else if v == 62 {
        '+'
    } else {
        '/'
    }
}

/// The padded standard Base64 text of a byte string: each group of three
/// bytes gives four characters of six bits each, and a last group of one or
/// two bytes is filled with zero bits and padded with `=` to four characters.
pub open spec fn spec_base64(data: Seq<u8>) -> Seq<char>
    decreases data.len(),
{
    if data.len() == 0 {
        Seq::empty()
    } else if data.len() == 1 {
        let a = data[0] as int;
        seq![base64_char(a / 4), base64_char((a % 4) * 16), '=', '=']
    } else if data.len() == 2 {
        let a = data[0] as int;
        let b = data[1] as int;
        seq![base64_char(a / 4), base64_char((a % 4) * 16 + b / 16), base64_char((b % 16) * 4), '=']
    } else {
        let a = data[0] as int;
        let b = data[1] as int;
        let c = data[2] as int;
        seq![base64_char(a / 4), base64_char((a % 4) * 16 + b / 16), base64_char((b % 16) * 4 + c / 64), base64_char(c % 64)]
            + spec_base64(data.subrange(3, data.len() as int))
    }
}

/// Calls `md5::compute` on `data`. The digest is named `spec_md5`; it has 16
/// bytes (the crate's `Digest` holds a `[u8; 16]`).
#[verifier::external_body]
fn md5_digest(data: &[u8]) -> (r: [u8; 16])
    ensures
        r@ == spec_md5(data@),
{
    md5::compute(data).0
}

/// A Base64 text has four characters for every started group of three
/// bytes.
pub proof fn lemma_base64_len(data: Seq<u8>)
    ensures
        spec_base64(data).len() == 4 * ((data.len() + 2) / 3),
    decreases data.len(),
{
    if data.len() >= 3 {
        lemma_base64_len(data.subrange(3, data.len() as int));
    }
}

/// Calls `base64ct::Base64::encode` on `data` with a 32-byte output buffer,
/// which holds the encoding of up to 24 bytes. The contract claims that the
/// text is the padded standard Base64 encoding (`spec_base64`), as the
/// crate documents for `Base64`.
#[verifier::external_body]
fn base64_encode(data: &[u8]) -> (r: String)
    requires
        data@.len() <= 24,
    ensures
        r@ == spec_base64(data@),
{
    let mut buf = [0u8; 32];
    match Base64::encode(data, &mut buf) {
        Ok(s) => s.to_string(),
        Err(_) => String::new(),
    }
}

/// The MD5 digest of a file's contents, written as Base64 (24 characters).
pub fn get_md5_hash_from_bytes(contents: &[u8]) -> (r: String)
    ensures
        r@ == spec_base64(spec_md5(contents@)),
        r@.len() == 24,
{
    let digest = md5_digest(contents);
    proof {
        lemma_base64_len(digest@);
    }
    base64_encode(digest.as_slice())
}

/// An audio file found in a sample directory, as read from disk: the path it
/// was found at, its canonical path and its contents.
#[derive(Debug, Clone, PartialEq, Eq)]
pub struct ScannedAudioFile {
    pub path: String,
    pub canonical_path: String,
    pub contents: Vec<u8>,
}

/// One audio file of a sample directory index.
#[derive(Debug, Clone, PartialEq, Eq)]
pub struct SamplesDirAudioFile {
    /// Base64 MD5 digest of the file's contents.
    pub md5: String,
    /// Canonical path of the file.
    pub path: String,
    /// File stem.
    pub name: String,
}

/// Whether `a` is the index entry of the scanned file `f`.
pub open spec fn spec_audio_entry(f: ScannedAudioFile, a: SamplesDirAudioFile) -> bool {
    &&& a.md5@ == spec_base64(spec_md5(f.contents@))
    &&& a.path@ == f.canonical_path@
    &&& spec_file_stem(f.path@) == Some(a.name@)
}

impl SamplesDirAudioFile {
    /// The index entry of a scanned audio file; an error when its path has no
    /// file stem.
    pub fn new(f: &ScannedAudioFile) -> (r: Result<Self, OctatoolErrors>)
        ensures
            match r {
                Ok(a) => spec_audio_entry(*f, a),
                Err(e) => e == OctatoolErrors::InvalidFilenameOrExtension && spec_file_stem(f.path@) is None,
            },
    {
        let md5 = get_md5_hash_from_bytes(f.contents.as_slice());
        let name = match get_stem_from_pathbuf(f.path.as_str(), true, false) {
            Ok(n) => n,
            Err(e) => {
                return Err(e);
            },
        };
        Ok(SamplesDirAudioFile { md5, path: f.canonical_path.clone(), name })
    }
}

/// Full index of a sample directory: every audio file with its digest.
#[derive(Debug, Clone, PartialEq, Eq)]
pub struct SamplesDirIndexFull {
    pub dirpath: String,
    pub samples: Vec<SamplesDirAudioFile>,
}

impl SamplesDirIndexFull {
    /// The index of the directory `dirpath` (canonical) from its scanned audio
    /// files, in scan order; an error for the first file without a stem.
    pub fn new(dirpath: &str, files: &[ScannedAudioFile]) -> (r: Result<Self, OctatoolErrors>)
        ensures
            match r {
                Ok(x) => x.dirpath@ == dirpath@ && x.samples@.len() == files@.len()
                    && forall|i: int| 0 <= i < files@.len() ==> spec_audio_entry(files@[i], #[trigger] x.samples@[i]),
                Err(e) => e == OctatoolErrors::InvalidFilenameOrExtension
                    && exists|i: int| 0 <= i < files@.len() && spec_file_stem((#[trigger] files@[i]).path@) is None,
            },
    {
        let mut samples: Vec<SamplesDirAudioFile> = Vec::new();
        let mut i: usize = 0;
        while i < files.len()
            invariant
                i <= files@.len(),
                samples@.len() == i,
                forall|k: int| 0 <= k < i ==> spec_audio_entry(files@[k], #[trigger] samples@[k]),
            decreases files@.len() - i,
        {
            let a = match SamplesDirAudioFile::new(&files[i]) {
                Ok(a) => a,
                Err(e) => {
                    return Err(e);
                },
            };
            samples.push(a);
            i = i + 1;
        }
        Ok(SamplesDirIndexFull { dirpath: String::from_str(dirpath), samples })
    }
}

/// Simple index of a sample directory: the paths of its audio files.
#[derive(Debug, Clone, PartialEq, Eq)]
pub struct SamplesDirIndexSimple {
    pub dirpath: String,
    pub samples: Vec<String>,
}

} // verus!
