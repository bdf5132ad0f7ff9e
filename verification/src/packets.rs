//! The fixed-size portion of a VRRPv2 advertisement in decoded form, field
//! by field, and its construction from a virtual router's parameters.

use crate::vrouter::VirtualRouter;
use vstd::prelude::*;

verus! {

broadcast use vstd::array::group_array_axioms;

/// The fixed-size headers of a VRRPv2 advertisement: Ethernet, IPv4, and
/// the 8-byte VRRP header. Multi-byte values are held in native order; the
/// codec writes them to the wire big-endian.
#[derive(Debug, Clone, Copy)]
pub struct VRRPpkt {
    pub dst_mac: [u8; 6],
    pub src_mac: [u8; 6],
    pub ethertype: u16,
    pub ipver: u8,
    pub ipdscp: u8,
    pub iplength: u16,
    pub ipident: u16,
    pub ipflags: u16,
    pub ipttl: u8,
    pub ipproto: u8,
    pub ipchecksum: u16,
    pub ipsrc: [u8; 4],
    pub ipdst: [u8; 4],
    pub version: u8,
    pub vrid: u8,
    pub prio: u8,
    pub addrcount: u8,
    pub authtype: u8,
    pub adverint: u8,
    pub checksum: u16,
}

impl VRRPpkt {
    pub fn _dst_mac(&self) -> (r: &[u8; 6])
        ensures
            r == self.dst_mac,
    {
        &self.dst_mac
    }

    pub fn _src_mac(&self) -> (r: &[u8; 6])
        ensures
            r == self.src_mac,
    {
        &self.src_mac
    }

    pub fn _ethertype(&self) -> (r: &u16)
        ensures
            r == self.ethertype,
    {
        &self.ethertype
    }

    pub fn ipsrc(&self) -> (r: &[u8; 4])
        ensures
            r == self.ipsrc,
    {
        &self.ipsrc
    }

    pub fn ipdst(&self) -> (r: &[u8; 4])
        ensures
            r == self.ipdst,
    {
        &self.ipdst
    }

    pub fn ipttl(&self) -> (r: &u8)
        ensures
            r == self.ipttl,
    {
        &self.ipttl
    }

    pub fn ipproto(&self) -> (r: &u8)
        ensures
            r == self.ipproto,
    {
        &self.ipproto
    }

    pub fn version(&self) -> (r: &u8)
        ensures
            r == self.version,
    {
        &self.version
    }

    pub fn vrid(&self) -> (r: &u8)
        ensures
            r == self.vrid,
    {
        &self.vrid
    }

    pub fn prio(&self) -> (r: &u8)
        ensures
            r == self.prio,
    {
        &self.prio
    }

    pub fn addrcount(&self) -> (r: &u8)
        ensures
            r == self.addrcount,
    {
        &self.addrcount
    }

    /// The declared address count, accepted only when it is consistent with
    /// the frame size: a frame carries 14 + 20 + 8 bytes of headers, 4 bytes
    /// per address, and the 8-byte trailer. Zero otherwise.
    pub fn s_addrcount(&self, framesize: usize) -> (r: u8)
        ensures
            r == if framesize == 50 + 4 * (self.addrcount as int) {
                self.addrcount
            } else {
                0u8
            },
    {
        if framesize == 50 + 4 * (self.addrcount as usize) {
            self.addrcount
        } else {
            0
        }
    }

    pub fn authtype(&self) -> (r: &u8)
        ensures
            r == self.authtype,
    {
        &self.authtype
    }

    pub fn adverint(&self) -> (r: &u8)
        ensures
            r == self.adverint,
    {
        &self.adverint
    }

    pub fn checksum(&self) -> (r: &u16)
        ensures
            r == self.checksum,
    {
        &self.checksum
    }

    /// The advertisement headers a router sends: fixed protocol values, the
    /// router's addresses and parameters, and zero checksums (the codec
    /// fills them).
    pub fn gen_advert(vr: &VirtualRouter) -> (r: VRRPpkt)
        requires
            vr.wf(),
            !vr.parameters.rfc3768 ==> vr.parameters.ipaddrs@.len() < 255,
        ensures
            r.dst_mac@ =~= seq![0x01u8, 0x00u8, 0x5eu8, 0x00u8, 0x00u8, 0x12u8],
            r.src_mac == vr.parameters.vmac,
            r.ethertype == 0x0800,
            r.ipver == 0x45,
            r.ipdscp == 0xc0,
            r.iplength as int == 36 + 4 * (if vr.parameters.rfc3768 {
                1int
            } else {
                vr.parameters.ipaddrs@.len() as int + 1
            }),
            r.ipident == 0,
            r.ipflags == 0,
            r.ipttl == 255,
            r.ipproto == 112,
            r.ipchecksum == 0,
            r.ipsrc == vr.parameters.ipaddrs@[0],
            r.ipdst@ =~= seq![224u8, 0u8, 0u8, 18u8],
            r.version == 0x21,
            r.vrid == vr.parameters.vrid,
            r.prio == vr.parameters.prio,
            r.addrcount as int == if vr.parameters.rfc3768 {
                1int
            } else {
                vr.parameters.ipaddrs@.len() as int + 1
            },
            r.authtype == vr.parameters.auth_type,
            r.adverint == vr.parameters.adverint,
            r.checksum == 0,
    {
        let addrcount = vr.parameters.addrcount();
        VRRPpkt {
            dst_mac: crate::constants::ether_vrrp_v2_dst_mac(),
            src_mac: vr.parameters.vmac,
            ethertype: crate::constants::ETHER_P_IP,
            ipver: crate::constants::IP_V4_VERSION,
            ipdscp: crate::constants::IP_DSCP_CS6,
            iplength: 36 + 4 * (addrcount as u16),
            ipident: 0,
            ipflags: 0,
            ipttl: crate::constants::IP_TTL_VRRP_MINTTL,
            ipproto: crate::constants::IP_UPPER_PROTO_VRRP,
            ipchecksum: 0,
            ipsrc: vr.parameters.primary_ip(),
            ipdst: crate::constants::vrrp_v2_ip_mcast_dst(),
            version: crate::constants::VRRP_V2_ADVERT_VERSION_TYPE,
            vrid: vr.parameters.vrid,
            prio: vr.parameters.prio,
            addrcount,
            authtype: vr.parameters.auth_type,
            adverint: vr.parameters.adverint,
            checksum: 0,
        }
    }
}

} // verus!
