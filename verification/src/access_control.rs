//! Who may see a target, and how far a dependency reaches.

use vstd::prelude::*;

verus! {

/// Who may depend on a target.
#[derive(Debug, Hash)]
pub enum Visibility {
    /// Only the named ones.
    Restricted(Vec<String>),
    /// Nobody outside its own project.
    Private,
    /// Everybody.
    Public,
}

/// How far a dependency is handed on to those that depend on the target.
#[derive(Debug, Clone, Copy, Hash, PartialEq, Eq, Structural)]
pub enum TransitiveLevel {
    Interface,
    Public,
    Private,
}

} // verus!
