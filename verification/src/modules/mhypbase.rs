//! The module that disables the protection library's routine.

use vstd::prelude::*;
use crate::modules::{ModuleKind, ModuleType};

verus! {

/// Marker for the protection library module.
pub struct Mhypbase;

impl ModuleKind for Mhypbase {
    open spec fn kind() -> ModuleType {
        ModuleType::Mhypbase
    }

    fn module_type() -> (t: ModuleType) {
        ModuleType::Mhypbase
    }
}

/// What the replaced routine returns: zero, whatever it was called with
/// (it reads none of its arguments).
pub fn hkaddr() -> (r: usize)
    ensures
        r == 0,
{
    0
}

} // verus!
