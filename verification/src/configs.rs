//! Batch configurations (bank copies, sample chain creation and
//! deconstruction) as read from YAML files.

use vstd::prelude::*;

verus! {

/// A project and one of its bank files.
#[derive(Debug, Clone, PartialEq, Eq)]
pub struct YamlCopyDetails {
    pub project: String,
    pub bank: String,
}

/// One bank copy: from a source bank to a destination bank.
#[derive(Debug, Clone, PartialEq, Eq)]
pub struct YamlCopyBankDetails {
    pub src: YamlCopyDetails,
    pub dest: YamlCopyDetails,
}

/// A batch of bank copies, done in order.
#[derive(Debug, Clone, PartialEq, Eq)]
pub struct YamlCopyBankConfig {
    pub bank_copies: Vec<YamlCopyBankDetails>,
}

/// Settings shared by every sample chain of a batch.
#[derive(Debug, Clone, PartialEq, Eq)]
pub struct YamlChainCreateGlobalSettings {
    pub normalize: bool,
    /// Directory the chain files are written to.
    pub out_dir_path: String,
}

/// Settings shared by every chain deconstruction of a batch.
#[derive(Debug, Clone, PartialEq, Eq)]
pub struct YamlChainDeconstructConfigGlobalSettings {
    /// Directory the slice files are written to.
    pub out_dir_path: String,
}

/// A sliced sample chain: its audio file and its attributes file.
#[derive(Debug, Clone, PartialEq, Eq)]
pub struct YamlChainDeconstructFilePairs {
    pub sample: String,
    pub otfile: String,
}

/// A batch of sample chain deconstructions.
#[derive(Debug, Clone, PartialEq, Eq)]
pub struct YamlChainDeconstruct {
    pub global_settings: YamlChainDeconstructConfigGlobalSettings,
    pub chains: Vec<YamlChainDeconstructFilePairs>,
}

} // verus!
