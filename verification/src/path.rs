//! File paths as the decisions see them: how a path is written, and what it
//! is compared by.

use vstd::prelude::*;

use crate::text::same;

verus! {

/// A path. `key` writes its components in one normal form, so that two paths
/// are the same where their keys are.
#[derive(Debug)]
pub struct FilePath {
    pub text: String,
    pub key: String,
}

impl Clone for FilePath {
    fn clone(&self) -> (r: Self)
        ensures
            r == *self,
    {
        FilePath { text: self.text.clone(), key: self.key.clone() }
    }
}

impl FilePath {
    pub fn same(&self, other: &FilePath) -> (b: bool)
        ensures
            b == (self.key@ == other.key@),
    {
        same(self.key.as_str(), other.key.as_str())
    }
}

pub fn clone_path_opt(p: &Option<FilePath>) -> (r: Option<FilePath>)
    ensures
        r == *p,
{
    match p {
        Some(p) => Some(p.clone()),
        None => None,
    }
}

} // verus!
