//! Inspection of the raw bytes of binary data files.

use vstd::prelude::*;

verus! {

/// Errors of the binary data file commands.
#[derive(Debug, Clone, Copy, PartialEq, Eq, Structural)]
pub enum CliBinFilesError {
    /// Default sample attributes files need an audio file; another command
    /// creates them.
    CreateDefaultSampleAttrUseOtherCommand,
}

impl CliBinFilesError {
    /// The message text of the error.
    pub open spec fn spec_description(self) -> Seq<char> {
        match self {
            CliBinFilesError::CreateDefaultSampleAttrUseOtherCommand => "`create-default` not implemented for sample attributes files (requires a wav file)"@,
        }
    }

    /// Human readable message for the error.
    pub fn description(&self) -> (r: String)
        ensures
            r@ == self.spec_description(),
    {
        match self {
            CliBinFilesError::CreateDefaultSampleAttrUseOtherCommand => String::from_str(
                "`create-default` not implemented for sample attributes files (requires a wav file)",
            ),
        }
    }
}

/// The bytes of `data` from `start_idx` (0 when not given), `len` of them
/// (up to the end of the data when not given).
pub fn get_bytes_slice(data: Vec<u8>, start_idx: &Option<usize>, len: &Option<usize>) -> (r: Vec<u8>)
    requires
        match *start_idx {
            Some(s) => s <= data@.len(),
            None => true,
        },
        match *len {
            Some(l) => (match *start_idx { Some(s) => s as int, None => 0 }) + l <= data@.len(),
            None => true,
        },
    ensures
        ({
            let s: int = match *start_idx { Some(s) => s as int, None => 0 };
            let e: int = match *len { Some(l) => s + l, None => data@.len() as int };
            r@ == data@.subrange(s, e)
        }),
{
    let start: usize = match start_idx {
        Some(s) => *s,
        None => 0,
    };
    assert(start as int == match *start_idx { Some(s) => s as int, None => 0 });
    let dl: usize = data.len();
    let end: usize = match len {
        None => dl,
        Some(l) => {
            let n: usize = *l;
            assert(start as int + n <= data@.len());
            start + n
        },
    };
    let mut out: Vec<u8> = Vec::new();
    let mut i: usize = start;
    while i < end
        invariant
            start <= i <= end <= data@.len(),
            out@ == data@.subrange(start as int, i as int),
        decreases end - i,
    {
        out.push(data[i]);
        assert(data@.subrange(start as int, i + 1) =~= data@.subrange(start as int, i as int).push(data@[i as int]));
        i = i + 1;
    }
    out
}

} // verus!
