//! The path value that may be handed to the file system.

use vstd::prelude::*;
use crate::model::PathModel;
use crate::open::{ConcretePathOpen, OpenMode};
use crate::path::PurePath;

verus! {

/// A path with the same lexical value as a `PurePath`, meant for file-system use.
pub struct ConcretePath {
    path: PurePath,
}

impl View for ConcretePath {
    type V = PathModel;

    closed spec fn view(&self) -> PathModel {
        self.path@
    }
}

impl ConcretePath {
    pub fn new(path: PurePath) -> (r: ConcretePath)
        ensures
            r@ == path@,
    {
        ConcretePath { path }
    }

    /// The path text `s` as a concrete path.
    pub fn parse(s: &str) -> (r: ConcretePath)
        ensures
            r@ == crate::model::parse_model(s@),
    {
        ConcretePath { path: PurePath::parse(s) }
    }

    /// The lexical value, for every decomposition and composition.
    pub fn as_pure(&self) -> (r: &PurePath)
        ensures
            r@ == self@,
    {
        &self.path
    }

    /// A deferred open of this path for reading, with the default buffer.
    pub fn open(&self) -> (r: ConcretePathOpen)
        ensures
            r.path@ == self@,
            r.mode == OpenMode::Read,
            r.buffering == -1,
    {
        ConcretePathOpen::new(self.path.clone())
    }
}

} // verus!
