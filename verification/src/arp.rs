//! Gratuitous ARP: the frame a new Master broadcasts to claim the VIP for
//! the virtual MAC.

use crate::vrouter::VirtualRouter;
use vstd::prelude::*;

verus! {

broadcast use vstd::array::group_array_axioms;

/// An Ethernet ARP frame in decoded form; multi-byte values in native order.
#[derive(Debug, Clone, Copy)]
pub struct ARPframe {
    pub dst_mac: [u8; 6],
    pub src_mac: [u8; 6],
    pub ethertype: u16,
    pub hardware_type: u16,
    pub protocol_type: u16,
    pub hw_addr_len: u8,
    pub proto_addr_len: u8,
    pub opcode: u16,
    pub sender_hw_addr: [u8; 6],
    pub sender_proto_addr: [u8; 4],
    pub target_hw_addr: [u8; 6],
    pub target_proto_addr: [u8; 4],
}

impl ARPframe {
    /// The gratuitous ARP request a new Master broadcasts: an Ethernet
    /// broadcast from the virtual MAC, sender and target protocol address
    /// both the VIP, sender hardware address the virtual MAC, target
    /// hardware address all-ones.
    pub fn gratuitous(vr: &VirtualRouter) -> (r: ARPframe)
        ensures
            r.dst_mac@ =~= seq![0xffu8, 0xffu8, 0xffu8, 0xffu8, 0xffu8, 0xffu8],
            r.src_mac == vr.parameters.vmac,
            r.ethertype == 0x0806,
            r.hardware_type == 1,
            r.protocol_type == 0x0800,
            r.hw_addr_len == 6,
            r.proto_addr_len == 4,
            r.opcode == 1,
            r.sender_hw_addr == vr.parameters.vmac,
            r.sender_proto_addr == vr.parameters.vip,
            r.target_hw_addr@ =~= seq![0xffu8, 0xffu8, 0xffu8, 0xffu8, 0xffu8, 0xffu8],
            r.target_proto_addr == vr.parameters.vip,
    {
        ARPframe {
            dst_mac: crate::constants::ether_arp_dst_mac(),
            src_mac: vr.parameters.vmac,
            ethertype: crate::constants::ETHER_P_ARP,
            hardware_type: crate::constants::ARP_HW_TYPE,
            protocol_type: crate::constants::ETHER_P_IP,
            hw_addr_len: 6,
            proto_addr_len: 4,
            opcode: crate::constants::ARP_OP_REQUEST,
            sender_hw_addr: vr.parameters.vmac,
            sender_proto_addr: vr.parameters.vip,
            target_hw_addr: crate::constants::ether_arp_dst_mac(),
            target_proto_addr: vr.parameters.vip,
        }
    }
}

/// The 42 wire bytes of an ARP frame: Ethernet header, then the ARP payload,
/// multi-byte fields big-endian.
pub open spec fn spec_arp_bytes(f: ARPframe) -> Seq<u8> {
    f.dst_mac@ + f.src_mac@ + seq![
        (f.ethertype as int / 256) as u8,
        (f.ethertype as int % 256) as u8,
        (f.hardware_type as int / 256) as u8,
        (f.hardware_type as int % 256) as u8,
        (f.protocol_type as int / 256) as u8,
        (f.protocol_type as int % 256) as u8,
        f.hw_addr_len,
        f.proto_addr_len,
        (f.opcode as int / 256) as u8,
        (f.opcode as int % 256) as u8,
    ] + f.sender_hw_addr@ + f.sender_proto_addr@ + f.target_hw_addr@ + f.target_proto_addr@
}

/// Serialize an ARP frame to its 42 wire bytes.
pub fn arp_frame_bytes(f: &ARPframe) -> (r: Vec<u8>)
    ensures
        r@ == spec_arp_bytes(*f),
        r@.len() == 42,
{
    let mut r: Vec<u8> = Vec::new();
    let mut i: usize = 0;
    while i < 6
        invariant
            0 <= i <= 6,
            r@ =~= f.dst_mac@.take(i as int),
        decreases 6 - i,
    {
        r.push(f.dst_mac[i]);
        proof {
            assert(f.dst_mac@.take(i + 1) =~= f.dst_mac@.take(i as int).push(f.dst_mac@[i as int]));
        }
        i = i + 1;
    }
    proof {
        assert(f.dst_mac@.take(6) =~= f.dst_mac@);
    }
    let mut i: usize = 0;
    while i < 6
        invariant
            0 <= i <= 6,
            r@ =~= f.dst_mac@ + f.src_mac@.take(i as int),
        decreases 6 - i,
    {
        r.push(f.src_mac[i]);
        proof {
            assert(f.src_mac@.take(i + 1) =~= f.src_mac@.take(i as int).push(f.src_mac@[i as int]));
        }
        i = i + 1;
    }
    proof {
        assert(f.src_mac@.take(6) =~= f.src_mac@);
    }
    r.push((f.ethertype / 256) as u8);
    r.push((f.ethertype % 256) as u8);
    r.push((f.hardware_type / 256) as u8);
    r.push((f.hardware_type % 256) as u8);
    r.push((f.protocol_type / 256) as u8);
    r.push((f.protocol_type % 256) as u8);
    r.push(f.hw_addr_len);
    r.push(f.proto_addr_len);
    r.push((f.opcode / 256) as u8);
    r.push((f.opcode % 256) as u8);
    let mut i: usize = 0;
    while i < 6
        invariant
            0 <= i <= 6,
            r@.len() == 22 + i,
            r@ =~= spec_arp_bytes(*f).take(22 + i as int),
        decreases 6 - i,
    {
        r.push(f.sender_hw_addr[i]);
        proof {
            assert(spec_arp_bytes(*f).take(22 + (i + 1)) =~= spec_arp_bytes(*f).take(
                22 + i as int,
            ).push(spec_arp_bytes(*f)[22 + i as int]));
        }
        i = i + 1;
    }
    let mut i: usize = 0;
    while i < 4
        invariant
            0 <= i <= 4,
            r@.len() == 28 + i,
            r@ =~= spec_arp_bytes(*f).take(28 + i as int),
        decreases 4 - i,
    {
        r.push(f.sender_proto_addr[i]);
        proof {
            assert(spec_arp_bytes(*f).take(28 + (i + 1)) =~= spec_arp_bytes(*f).take(
                28 + i as int,
            ).push(spec_arp_bytes(*f)[28 + i as int]));
        }
        i = i + 1;
    }
    let mut i: usize = 0;
    while i < 6
        invariant
            0 <= i <= 6,
            r@.len() == 32 + i,
            r@ =~= spec_arp_bytes(*f).take(32 + i as int),
        decreases 6 - i,
    {
        r.push(f.target_hw_addr[i]);
        proof {
            assert(spec_arp_bytes(*f).take(32 + (i + 1)) =~= spec_arp_bytes(*f).take(
                32 + i as int,
            ).push(spec_arp_bytes(*f)[32 + i as int]));
        }
        i = i + 1;
    }
    let mut i: usize = 0;
    while i < 4
        invariant
            0 <= i <= 4,
            r@.len() == 38 + i,
            r@ =~= spec_arp_bytes(*f).take(38 + i as int),
        decreases 4 - i,
    {
        r.push(f.target_proto_addr[i]);
        proof {
            assert(spec_arp_bytes(*f).take(38 + (i + 1)) =~= spec_arp_bytes(*f).take(
                38 + i as int,
            ).push(spec_arp_bytes(*f)[38 + i as int]));
        }
        i = i + 1;
    }
    proof {
        assert(spec_arp_bytes(*f).len() == 42);
        assert(spec_arp_bytes(*f).take(42) =~= spec_arp_bytes(*f));
    }
    r
}

} // verus!
