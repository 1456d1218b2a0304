//! The module that answers the SDK utility routine with its second argument.

use vstd::prelude::*;
use crate::modules::{ModuleKind, ModuleType, Registers};

verus! {

/// Marker for the SDK utility module.
pub struct SdkUtil;

impl ModuleKind for SdkUtil {
    open spec fn kind() -> ModuleType {
        ModuleType::SdkUtil
    }

    fn module_type() -> (t: ModuleType) {
        ModuleType::SdkUtil
    }
}

/// What the replaced routine returns: its second argument (`rdx`),
/// unchanged.
pub fn hkaddr(reg: &Registers) -> (r: usize)
    ensures
        r == reg.rdx as usize,
{
    reg.rdx as usize
}

} // verus!
