//! File system paths, which the library carries and never looks into.

use std::path::PathBuf;
use vstd::prelude::*;

verus! {

/// `std::path::PathBuf`, a value that the library hands on unread.
#[verifier::external_type_specification]
#[verifier::external_body]
pub struct ExPathBuf(PathBuf);

/// `PathBuf::clone`: the copy is the same path.
pub assume_specification[ <PathBuf as Clone>::clone ](path: &PathBuf) -> (copy: PathBuf)
    ensures
        copy == *path,
;

/// The bundle that is selected when the program starts: none.
pub fn initial_path() -> (path: Option<PathBuf>)
    ensures
        path is None,
{
    None
}

/// What one export is asked to do. It is made once for each export and not
/// changed afterwards.
#[derive(Debug, Clone, PartialEq, Eq)]
pub struct ExtractionRequest {
    /// The bundle to read.
    pub bundle_path: PathBuf,
    /// The directory to write to.
    pub output_dir: PathBuf,
    /// Whether companion resources are left out.
    pub skip_resources: bool,
}

/// What an export was started from: the bundle that was selected and the
/// filter that was set when the export was asked for.
#[derive(Debug, Clone, PartialEq, Eq)]
pub struct ExportSource {
    /// The selected bundle, if there was one.
    pub bundle_path: Option<PathBuf>,
    /// Whether companion resources are left out.
    pub skip_resources: bool,
}

} // verus!
