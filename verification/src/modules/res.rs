//! The module that reports the resource paths the client loads.

use vstd::prelude::*;
use crate::modules::{ModuleKind, ModuleType};

verus! {

/// Marker for the resource path module.
pub struct RES;

impl ModuleKind for RES {
    open spec fn kind() -> ModuleType {
        ModuleType::RES
    }

    fn module_type() -> (t: ModuleType) {
        ModuleType::RES
    }
}

} // verus!
