//! Errors reported by the library.

use vstd::prelude::*;

verus! {

/// Errors of the Octatrack tools.
#[derive(Debug, Clone, Copy, PartialEq, Eq, Structural)]
pub enum OctatoolErrors {
    PathDoesNotExist,
    PathIsNotADirectory,
    PathIsNotAFile,
    PathIsNotASet,
    CliInvalidPartIndices,
    CliMissingPartIndices,
    CliInvalidPatternIndices,
    CliMissingPatternIndices,
    /// A bank number outside 1 to 16.
    CliInvalidBankIndex,
    CliNoFreeSampleSlots,
    InvalidFilenameOrExtension,
    /// A stored option value names no variant of the option.
    NoMatchingOptionEnumValue,
    /// A sample slot entry in a project file could not be read.
    ProjectSampleSlotParsingError,
    /// A key/value entry that must be present is missing.
    MissingKeyValue,
    /// A key/value entry holds text that is not a valid value.
    InvalidKeyValue,
    Unknown,
}

impl OctatoolErrors {
    /// The message text of the error.
    pub open spec fn spec_description(self) -> Seq<char> {
        match self {
            OctatoolErrors::PathDoesNotExist => "path does not exist"@,
            OctatoolErrors::PathIsNotADirectory => "path is not a directory"@,
            OctatoolErrors::PathIsNotAFile => "path is not a file"@,
            OctatoolErrors::PathIsNotASet => "path is not an Octatrack set directory (no 'AUDIO' subdirectory found)"@,
            OctatoolErrors::CliMissingPartIndices => "Missing part number(s) - part number(s) between 1-4 must be be provided"@,
            OctatoolErrors::CliInvalidPartIndices => "Invalid part number(s) - only part numbers between 1-4 can be provided"@,
            OctatoolErrors::CliMissingPatternIndices => "Missing pattern number(s) - pattern number(s) between 1-16 must be be provided"@,
            OctatoolErrors::CliInvalidPatternIndices => "Invalid pattern number(s) - only numbers between 1-16 can be provided"@,
            OctatoolErrors::CliInvalidBankIndex => "Invalid bank number(s) - only bank numbers between 1-16 can be provided"@,
            OctatoolErrors::CliNoFreeSampleSlots => "no free sample slots left in the destination project"@,
            OctatoolErrors::InvalidFilenameOrExtension => "invalid file name or file extension"@,
            OctatoolErrors::NoMatchingOptionEnumValue => "no option matches the stored value"@,
            OctatoolErrors::ProjectSampleSlotParsingError => "could not read a project sample slot"@,
            OctatoolErrors::MissingKeyValue => "missing key/value entry"@,
            OctatoolErrors::InvalidKeyValue => "invalid key/value entry"@,
            OctatoolErrors::Unknown => "unknown error (please investigate/report)"@,
        }
    }

    /// Human readable message for the error.
    pub fn description(&self) -> (r: String)
        ensures
            r@ == self.spec_description(),
    {
        match self {
            OctatoolErrors::PathDoesNotExist => String::from_str("path does not exist"),
            OctatoolErrors::PathIsNotADirectory => String::from_str("path is not a directory"),
            OctatoolErrors::PathIsNotAFile => String::from_str("path is not a file"),
            OctatoolErrors::PathIsNotASet => String::from_str(
                "path is not an Octatrack set directory (no 'AUDIO' subdirectory found)",
            ),
            OctatoolErrors::CliMissingPartIndices => String::from_str(
                "Missing part number(s) - part number(s) between 1-4 must be be provided",
            ),
            OctatoolErrors::CliInvalidPartIndices => String::from_str(
                "Invalid part number(s) - only part numbers between 1-4 can be provided",
            ),
            OctatoolErrors::CliMissingPatternIndices => String::from_str(
                "Missing pattern number(s) - pattern number(s) between 1-16 must be be provided",
            ),
            OctatoolErrors::CliInvalidPatternIndices => String::from_str(
                "Invalid pattern number(s) - only numbers between 1-16 can be provided",
            ),
            OctatoolErrors::CliInvalidBankIndex => String::from_str(
                "Invalid bank number(s) - only bank numbers between 1-16 can be provided",
            ),
            OctatoolErrors::CliNoFreeSampleSlots => String::from_str(
                "no free sample slots left in the destination project",
            ),
            OctatoolErrors::InvalidFilenameOrExtension => String::from_str(
                "invalid file name or file extension",
            ),
            OctatoolErrors::NoMatchingOptionEnumValue => String::from_str(
                "no option matches the stored value",
            ),
            OctatoolErrors::ProjectSampleSlotParsingError => String::from_str(
                "could not read a project sample slot",
            ),
            OctatoolErrors::MissingKeyValue => String::from_str("missing key/value entry"),
            OctatoolErrors::InvalidKeyValue => String::from_str("invalid key/value entry"),
            OctatoolErrors::Unknown => String::from_str("unknown error (please investigate/report)"),
        }
    }
}

} // verus!
