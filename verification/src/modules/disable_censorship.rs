//! The module that makes the dithering routines return at once.

use vstd::prelude::*;
use crate::modules::{ModuleKind, ModuleType};

verus! {

/// Marker for the module that disables the dithering routines.
pub struct DisableCensorship;

impl ModuleKind for DisableCensorship {
    open spec fn kind() -> ModuleType {
        ModuleType::DisableCensorship
    }

    fn module_type() -> (t: ModuleType) {
        ModuleType::DisableCensorship
    }
}

/// The byte written over the first instruction of a patched routine: `ret`.
pub const RET_OPCODE: u8 = 0xC3;

/// How many bytes of a patched routine are overwritten.
pub const PATCH_LEN: usize = 1;

} // verus!
