//! Filesystem-oriented SMB semantics: what queries say of files and directories, without the wire
//! details.

pub mod query;

use vstd::prelude::*;

verus! {

/// High-level file kind exposed by the filesystem layer.
#[derive(Clone, Copy, Debug, PartialEq, Eq, Structural)]
pub enum FileKind {
    File,
    Directory,
    Other,
}

} // verus!
