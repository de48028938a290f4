//! Organize files according to ordered declarative rules.
//!
//! The pipeline has two phases.  *Plan* takes a batch of file-identity
//! snapshots (path, modification time, content-sniffed mimetype), matches
//! each against a rule set — first matching filter of the first matching
//! rule wins — and emits a manifest document recording the intended action
//! for every matched file.  *Do* loads a manifest, re-verifies each entry
//! against a fresh snapshot, and releases an entry's action only on an
//! exact identity match; anything that changed since planning is skipped,
//! never touched.
//!
//! Modules, leaf first: [`text`] (digits and substring search), [`error`],
//! [`file`] (snapshots), [`filter`] / [`rule`] / [`config`] (the matching
//! engine), [`scan`] and [`codec`] (the manifest text format, with a proved
//! serialize/deserialize round trip), [`manifest`] (the document model),
//! [`plan`] and [`execute`] (the two phases).  Filesystem probing and the
//! apply step themselves are left to the surrounding binary; the library
//! decides, and proves, what happens with their results.

use vstd::prelude::*;

pub mod codec;
pub mod error;
pub mod example;
pub mod execute;
pub mod file;
pub mod filter;
pub mod manifest;
pub mod plan;
pub mod rule;
pub mod scan;
pub mod config;
pub mod text;

verus! {

/// The manifest format version this library reads and writes.
pub open spec fn spec_format_version() -> Seq<char> {
    "1.0"@
}

pub fn format_version() -> (v: &'static str)
    ensures
        v@ == spec_format_version(),
{
    "1.0"
}

} // verus!
