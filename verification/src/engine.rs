//! What a script engine is run for.

use vstd::prelude::*;

verus! {

/// The kind of script that an engine runs.
#[derive(Debug, Clone, Copy, PartialEq, Eq, Structural)]
pub enum EngineMode {
    /// Project files, which declare targets.
    Project,
    /// Rule files, which say how targets are built.
    Rule,
}

} // verus!
