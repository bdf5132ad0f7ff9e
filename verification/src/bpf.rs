//! Berkeley Packet Filter capture headers and their word alignment, for the
//! BPF-device receive path.

use vstd::prelude::*;

verus! {

/// A BPF capture timestamp.
#[allow(non_camel_case_types)]
#[derive(Debug, Clone, Copy)]
pub struct bpf_ts {
    pub bt_sec: i64,
    pub bt_frac: u64,
}

/// The extended BPF capture header that precedes each captured frame.
#[allow(non_camel_case_types)]
#[derive(Debug, Clone, Copy)]
pub struct bpf_xhdr {
    pub bh_tstamp: bpf_ts,
    pub bh_caplen: u32,
    pub bh_datalen: u32,
    pub bh_hdrlen: u16,
}

/// Round a buffer offset up to the BPF word alignment (8 bytes).
pub fn bpf_wordalign(s: isize) -> (r: isize)
    requires
        0 <= s,
        s + 7 <= isize::MAX,
    ensures
        r == ((s + 7) / 8) * 8,
        s <= r < s + 8,
        r % 8 == 0,
{
    ((s + 7) / 8) * 8
}

} // verus!
