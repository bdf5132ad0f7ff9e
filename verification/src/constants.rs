//! Protocol and program constants: Ethernet, ARP, IPv4 and VRRPv2 field
//! values, debug levels, and default file paths.

use vstd::prelude::*;

verus! {

// Debug levels
pub const DEBUG_LEVEL_INFO: u8 = 0;
pub const DEBUG_LEVEL_LOW: u8 = 1;
pub const DEBUG_LEVEL_MEDIUM: u8 = 2;
pub const DEBUG_LEVEL_HIGH: u8 = 3;
pub const DEBUG_LEVEL_EXTENSIVE: u8 = 5;

// Ethernet
pub const ETHER_P_IP: u16 = 0x0800;
pub const ETHER_P_ARP: u16 = 0x0806;
/// Offset of the variable-length IP address list inside a VRRPv2 frame.
pub const ETHER_VRRP_IPADDR_POS: usize = 42;
pub const ETHER_FRAME_SIZE: usize = 14;

// ARP
pub const ARP_HW_TYPE: u16 = 1;
pub const ARP_OP_REQUEST: u16 = 1;

// IPv4
pub const IP_FRAME_OFFSET: usize = 14;
pub const IP_V4_VERSION: u8 = 0x45;
pub const IP_UPPER_PROTO_VRRP: u8 = 112;
pub const IP_TTL_VRRP_MINTTL: u8 = 255;
pub const IP_DSCP_CS6: u8 = 0xc0;

// VRRPv2
pub const VRRP_V2_FRAME_OFFSET: usize = 34;
pub const VRRP_V2_CHECKSUM_POS: usize = 6;
pub const VRRP_V2_VER_TYPE_AUTHMSG: u8 = 0x21;
pub const VRRP_V2_ADVERT_VERSION_TYPE: u8 = 0x21;
pub const VRRP_V2_DEFAULT_PRIORITY: u8 = 100;

// Authentication types
pub const AUTH_TYPE_SIMPLE: u8 = 1;
pub const AUTH_TYPE_P0: u8 = 250;
pub const AUTH_TYPE_P1: u8 = 251;

/// Destination MAC of every VRRPv2 advertisement (the 224.0.0.18 group).
pub fn ether_vrrp_v2_dst_mac() -> (r: [u8; 6])
    ensures
        r@ == seq![0x01u8, 0x00u8, 0x5eu8, 0x00u8, 0x00u8, 0x12u8],
{
    let r = [0x01u8, 0x00, 0x5e, 0x00, 0x00, 0x12];
    proof {
        assert(r@ =~= seq![0x01u8, 0x00u8, 0x5eu8, 0x00u8, 0x00u8, 0x12u8]);
    }
    r
}

/// Source MAC template of a VRRPv2 advertisement; the last byte takes the VRID.
pub fn ether_vrrp_v2_src_mac() -> (r: [u8; 6])
    ensures
        r@ == seq![0x00u8, 0x00u8, 0x5eu8, 0x00u8, 0x01u8, 0x00u8],
{
    let r = [0x00u8, 0x00, 0x5e, 0x00, 0x01, 0x00];
    proof {
        assert(r@ =~= seq![0x00u8, 0x00u8, 0x5eu8, 0x00u8, 0x01u8, 0x00u8]);
    }
    r
}

/// Broadcast MAC used as the ARP destination.
pub fn ether_arp_dst_mac() -> (r: [u8; 6])
    ensures
        r@ == seq![0xffu8, 0xffu8, 0xffu8, 0xffu8, 0xffu8, 0xffu8],
{
    let r = [0xffu8, 0xff, 0xff, 0xff, 0xff, 0xff];
    proof {
        assert(r@ =~= seq![0xffu8, 0xffu8, 0xffu8, 0xffu8, 0xffu8, 0xffu8]);
    }
    r
}

/// The VRRPv2 multicast group, 224.0.0.18.
pub fn vrrp_v2_ip_mcast_dst() -> (r: [u8; 4])
    ensures
        r@ == seq![224u8, 0u8, 0u8, 18u8],
{
    let r = [224u8, 0, 0, 18];
    proof {
        assert(r@ =~= seq![224u8, 0u8, 0u8, 18u8]);
    }
    r
}

/// Default configuration file path.
pub fn default_config_path() -> (r: &'static str)
    ensures
        r@ == "/etc/rvrrpd/rvrrpd.conf"@,
{
    "/etc/rvrrpd/rvrrpd.conf"
}

} // verus!
