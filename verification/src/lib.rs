//! Verified core of the Octatrack data-file tools: sample-slot option values,
//! project sample-slot parsing, trig bitmasks, checksums and the sample-slot
//! reassignment rules used when copying banks between projects.

pub mod arrangements;
pub mod bank_copy;
pub mod bank_transfer;
pub mod bin_files;
pub mod banks;
pub mod configs;
pub mod errors;
pub mod keyvalues;
pub mod options;
pub mod paths;
pub mod project_pool;
pub mod sample_encoding;
pub mod sample_files;
pub mod sample_chains;
pub mod samples;
pub mod settings;
pub mod patterns;
pub mod slot_listing;
pub mod slot_ops;
pub mod slot_text;
pub mod slots;
pub mod strings;
