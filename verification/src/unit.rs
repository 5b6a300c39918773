//! The per-call resource resolver handed to the engine.
//!
//! One unit serves exactly one synthetic document: its own identity resolves
//! to the prefix-augmented text, every other identity — file or source, real
//! or virtual — is refused as access-denied, and the current date is
//! deliberately never available.  These refusals are fixed policy, not
//! omissions: this is a single-document, offline, non-dated compilation
//! environment.

use vstd::prelude::*;

verus! {

/// Why a resource query was refused.
#[derive(Clone, Copy, PartialEq, Eq, Structural)]
pub enum FileFailure {
    /// The unit has no access to the requested resource.
    AccessDenied,
}

/// The per-call compilation unit: the one synthetic document identity this
/// unit can ever serve, and the final (prefix-augmented) text it serves for
/// it.  Identities are the plain keys the host assigns to the engine's file
/// handles; exactly one of them is `root`.
pub struct CompilationUnit {
    /// The identity of the one document this unit can resolve.
    pub root: u64,
    /// The text served for `root`.
    pub text: String,
}

impl CompilationUnit {
    /// Binds one document identity to one piece of final text.
    pub fn new(root: u64, text: String) -> (r: CompilationUnit)
        ensures
            r.root == root,
            r.text@ == text@,
    {
        CompilationUnit { root, text }
    }

    /// Source resolution: the one synthetic document resolves to the final
    /// text; every other identity is refused as access-denied.
    pub fn resolve_source(&self, id: u64) -> (r: Result<String, FileFailure>)
        ensures
            id == self.root ==> (r matches Ok(s) && s@ == self.text@),
            id != self.root ==> (r matches Err(e) && e == FileFailure::AccessDenied),
    {
        if id == self.root {
            Ok(self.text.clone())
        } else {
            Err(FileFailure::AccessDenied)
        }
    }

    /// Raw file access: refused for every identity — beyond its one document
    /// the unit has no access to any file, real or virtual.
    pub fn resolve_file(&self, _id: u64) -> (r: Result<Vec<u8>, FileFailure>)
        ensures
            r matches Err(e) && e == FileFailure::AccessDenied,
    {
        Err(FileFailure::AccessDenied)
    }

    /// The current date, as a day number: deliberately absent whatever
    /// offset is asked for — date-stamping is out of scope for this
    /// compilation environment.
    pub fn resolve_today(&self, _offset: Option<i64>) -> (r: Option<i64>)
        ensures
            r is None,
    {
        None
    }
}

} // verus!
