//! Equality and the default value of paths.

use super::NeutralPath;
use vstd::prelude::*;
use vstd::std_specs::cmp::PartialEqSpecImpl;

verus! {

impl PartialEq for NeutralPath {
    /// Two paths are equal when their texts are.
    fn eq(&self, other: &NeutralPath) -> (r: bool) {
        self.0 == other.0
    }
}

impl PartialEqSpecImpl for NeutralPath {
    open spec fn obeys_eq_spec() -> bool {
        true
    }

    open spec fn eq_spec(&self, other: &NeutralPath) -> bool {
        self@ == other@
    }
}

impl Eq for NeutralPath {

}

impl Default for NeutralPath {
    /// The path of no components, `.`.
    fn default() -> (r: NeutralPath)
        ensures
            r@ == seq!['.'],
            r.wf(),
    {
        NeutralPath::current_dir()
    }
}

} // verus!
