//! Cursor position in the document tree, kept as a path of child indices.
//! The empty path is the root.

use vstd::prelude::*;
use crate::paths::path_to_vec;

verus! {

/// The current position in the tree as a path of indices.
#[derive(Debug, PartialEq, Eq)]
pub struct Cursor {
    path: Vec<usize>,
}

impl View for Cursor {
    type V = Seq<usize>;

    closed spec fn view(&self) -> Seq<usize> {
        self.path@
    }
}

impl Cursor {
    /// A cursor at the root (empty path).
    pub fn new() -> (r: Self)
        ensures
            r@ == Seq::<usize>::empty(),
    {
        Cursor { path: Vec::new() }
    }

    /// The current path.
    pub fn path(&self) -> (r: &[usize])
        ensures
            r@ == self@,
    {
        self.path.as_slice()
    }

    /// Descends into the child at `index`.
    pub fn push(&mut self, index: usize)
        ensures
            final(self)@ == old(self)@.push(index),
    {
        self.path.push(index);
    }

    /// Moves to the parent, returning the index that was left; none at the root.
    pub fn pop(&mut self) -> (r: Option<usize>)
        ensures
            old(self)@.len() == 0 ==> r is None && final(self)@ == old(self)@,
            old(self)@.len() > 0 ==> r == Some(old(self)@.last()) && final(self)@ == old(self)@.drop_last(),
    {
        self.path.pop()
    }

    /// Replaces the whole path.
    pub fn set_path(&mut self, path: Vec<usize>)
        ensures
            final(self)@ == path@,
    {
        self.path = path;
    }

    /// A copy of this cursor.
    pub fn duplicate(&self) -> (r: Self)
        ensures
            r@ == self@,
    {
        Cursor { path: path_to_vec(self.path.as_slice()) }
    }
}

impl Default for Cursor {
    fn default() -> (r: Self)
        ensures
            r@ == Seq::<usize>::empty(),
    {
        Cursor::new()
    }
}

impl Clone for Cursor {
    fn clone(&self) -> (r: Self)
        ensures
            r@ == self@,
    {
        self.duplicate()
    }
}

} // verus!
