//! Routing protocols data: the set of static routes that the first virtual
//! router to become Master installs, and the last to leave withdraws.

use vstd::prelude::*;

verus! {

/// All configured protocol data; only static routes exist today.
#[derive(Debug)]
pub struct Protocols {
    pub static_routes: Option<Vec<Static>>,
}

impl Protocols {
    /// Bundle the optional static route list.
    pub fn _new(static_routes: Option<Vec<Static>>) -> (r: Protocols)
        ensures
            r.static_routes == static_routes,
    {
        Protocols { static_routes }
    }
}

/// One static route: destination, mask, next hop, metric and MTU.
#[derive(Debug, Clone, Copy)]
pub struct Static {
    pub route: [u8; 4],
    pub mask: [u8; 4],
    pub nh: [u8; 4],
    pub metric: i16,
    pub mtu: u64,
}

impl Static {
    /// Bundle the parts of a static route.
    pub fn new(route: [u8; 4], mask: [u8; 4], nh: [u8; 4], metric: i16, mtu: u64) -> (r: Static)
        ensures
            r.route == route,
            r.mask == mask,
            r.nh == nh,
            r.metric == metric,
            r.mtu == mtu,
    {
        Static { route, mask, nh, metric, mtu }
    }

    /// Destination network.
    pub fn route(&self) -> (r: [u8; 4])
        ensures
            r == self.route,
    {
        self.route
    }

    /// Destination mask.
    pub fn mask(&self) -> (r: [u8; 4])
        ensures
            r == self.mask,
    {
        self.mask
    }

    /// Next hop.
    pub fn nh(&self) -> (r: [u8; 4])
        ensures
            r == self.nh,
    {
        self.nh
    }

    /// Route metric.
    pub fn metric(&self) -> (r: i16)
        ensures
            r == self.metric,
    {
        self.metric
    }

    /// Route MTU; zero means unset.
    pub fn mtu(&self) -> (r: u64)
        ensures
            r == self.mtu,
    {
        self.mtu
    }
}

} // verus!
