//! The kernel socket filter that keeps only VRRPv2 advertisements of one
//! group: classic BPF instructions checking the ethertype, the IP protocol,
//! the VRRP version/type byte, and the VRID.

use vstd::prelude::*;

verus! {

/// One classic BPF instruction.
#[derive(Debug, Clone, Copy)]
pub struct SockFilter {
    pub code: u16,
    pub jt: u8,
    pub jf: u8,
    pub k: u32,
}

impl SockFilter {
    /// The filter program for VRRPv2 advertisements of one group: load the
    /// ethertype and require IPv4, load the IP protocol and require 112,
    /// load the VRRP version/type byte and require 0x21, load the VRID and
    /// require the group id; accept the whole packet, else drop.
    pub fn new_vrrpv2_gid(gid: u8) -> (r: [SockFilter; 10])
        ensures
            r@.len() == 10,
            r@[0] == (SockFilter { code: 0x28, jt: 0, jf: 0, k: 0x0000000c }),
            r@[1] == (SockFilter { code: 0x15, jt: 0, jf: 7, k: 0x00000800 }),
            r@[2] == (SockFilter { code: 0x30, jt: 0, jf: 0, k: 0x00000017 }),
            r@[3] == (SockFilter { code: 0x15, jt: 0, jf: 5, k: 0x00000070 }),
            r@[4] == (SockFilter { code: 0x30, jt: 0, jf: 0, k: 0x00000022 }),
            r@[5] == (SockFilter { code: 0x15, jt: 0, jf: 3, k: 0x00000021 }),
            r@[6] == (SockFilter { code: 0x30, jt: 0, jf: 0, k: 0x00000023 }),
            r@[7] == (SockFilter { code: 0x15, jt: 0, jf: 1, k: gid as u32 }),
            r@[8] == (SockFilter { code: 0x06, jt: 0, jf: 0, k: 0xffffffff }),
            r@[9] == (SockFilter { code: 0x06, jt: 0, jf: 0, k: 0 }),
    {
        [
            SockFilter { code: 0x28, jt: 0x0, jf: 0x0, k: 0x0000000c },
            SockFilter { code: 0x15, jt: 0x0, jf: 0x7, k: 0x00000800 },
            SockFilter { code: 0x30, jt: 0x0, jf: 0x0, k: 0x00000017 },
            SockFilter { code: 0x15, jt: 0x0, jf: 0x5, k: 0x00000070 },
            SockFilter { code: 0x30, jt: 0x0, jf: 0x0, k: 0x00000022 },
            SockFilter { code: 0x15, jt: 0x0, jf: 0x3, k: 0x00000021 },
            SockFilter { code: 0x30, jt: 0x0, jf: 0x0, k: 0x00000023 },
            SockFilter { code: 0x15, jt: 0x0, jf: 0x1, k: gid as u32 },
            SockFilter { code: 0x06, jt: 0x0, jf: 0x0, k: 0xffffffff },
            SockFilter { code: 0x06, jt: 0x0, jf: 0x0, k: 0 },
        ]
    }
}

} // verus!
