//! The module that turns the client's RSA encryption into the identity.

use vstd::prelude::*;
use crate::modules::{ModuleKind, ModuleType, Registers};

verus! {

/// Marker for the RSA encryption module.
pub struct RSAEncrypt;

impl ModuleKind for RSAEncrypt {
    open spec fn kind() -> ModuleType {
        ModuleType::RSAEncrypt
    }

    fn module_type() -> (t: ModuleType) {
        ModuleType::RSAEncrypt
    }
}

/// What the replaced encryption routine returns: the content it was given
/// (`rdx`), unencrypted.
pub fn hkaddr(reg: &Registers) -> (r: usize)
    ensures
        r == reg.rdx as usize,
{
    reg.rdx as usize
}

} // verus!
