//! Host back-end selectors: which network driver applies changes, what kind
//! of interface a virtual router runs on, and the add/remove operations.

use vstd::prelude::*;

verus! {

/// Network drivers that can apply host-side changes.
#[allow(non_camel_case_types)]
#[derive(Debug, Clone, Copy, PartialEq, Eq, Structural)]
pub enum NetDrivers {
    ioctl,
    libnl,
}

/// Kind of interface the virtual router operates on.
#[allow(non_camel_case_types)]
#[derive(Debug, Clone, Copy, PartialEq, Eq, Structural)]
pub enum IfTypes {
    ether,
    macvlan,
}

/// Promiscuous-flag operations.
#[derive(Debug, Clone, Copy, PartialEq, Eq, Structural)]
pub enum PflagOp {
    Enable,
    Disable,
}

/// Add or remove an address or route.
#[derive(Debug, Clone, Copy, PartialEq, Eq, Structural)]
pub enum Operation {
    Add,
    Rem,
}

} // verus!
