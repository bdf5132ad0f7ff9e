//! The virtual router: its static parameters, discovered host facts, and
//! mutable protocol state, with the constructor that derives the timer
//! intervals of RFC 3768 section 6.1.

use crate::drivers::{IfTypes, NetDrivers};
use crate::fsm::{self, States, VrState};
use crate::protocols::Protocols;
use vstd::prelude::*;

verus! {

broadcast use vstd::array::group_array_axioms;

/// Why a virtual router could not be built.
#[derive(Debug, Clone, Copy, PartialEq, Eq, Structural)]
pub enum VrError {
    /// No IPv4 address/mask pair is available on the interface.
    NoIpAddress,
}

/// Static parameters and discovered host facts of one virtual router.
pub struct Parameters {
    /// Virtual router identifier, 1..=255.
    pub vrid: u8,
    /// Name of the interface the router runs on (the effective interface;
    /// swapped with `vif_name` while a MAC-VLAN child is in use).
    pub interface: String,
    /// Interface index of `interface`.
    pub ifindex: i32,
    /// Priority, 1..=254 configured; 255 once the router owns the VIP, 0
    /// while resigning.
    pub prio: u8,
    /// The virtual IPv4 address served.
    pub vip: [u8; 4],
    /// Local IPv4 addresses on the interface; index 0 is the primary.
    pub ipaddrs: Vec<[u8; 4]>,
    /// Netmasks of `ipaddrs`, index-aligned.
    pub ipmasks: Vec<[u8; 4]>,
    /// Advertisement interval in seconds.
    pub adverint: u8,
    /// Skew time in 1/256 s units: exactly `256 - prio`.
    pub skew_time: u32,
    /// Master-down interval in 1/256 s units: `3 * 256 * adverint + skew_time`.
    pub master_down: u32,
    /// Whether a higher-priority backup preempts a lower-priority master.
    pub preempt_mode: bool,
    /// RFC 2338 compatibility: advertise only the VIP.
    pub rfc3768: bool,
    /// Authentication type carried on the wire.
    pub auth_type: u8,
    /// Authentication data bytes carried in the parameter block; the
    /// per-frame trailer is computed by the codec.
    pub auth_data: [u8; 8],
    /// Authentication secret bytes, when one is configured.
    pub auth_secret: Option<Vec<u8>>,
    /// Static routes to install on first Master entry.
    pub protocols: Protocols,
    /// The interface MAC saved at startup, restored on Master exit.
    pub ifmac: [u8; 6],
    /// Driver used for host-side changes.
    pub netdrv: NetDrivers,
    /// Kind of interface.
    pub iftype: IfTypes,
    /// MAC-VLAN child name (holds the physical name while the child is in
    /// use).
    pub vif_name: String,
    /// Interface index of the MAC-VLAN child, once created.
    pub vif_idx: i32,
    /// Raw socket descriptor the caller opened for this router.
    pub fd: i32,
    /// Whether a kernel socket filter is requested.
    pub socket_filter: bool,
    /// The virtual MAC `00:00:5E:00:01:VRID`.
    pub vmac: [u8; 6],
}

impl Parameters {
    /// Bundle the parameters; the virtual MAC is derived from the VRID.
    #[allow(clippy::too_many_arguments)]
    pub fn new(
        vrid: u8,
        interface: String,
        ifindex: i32,
        prio: u8,
        vip: [u8; 4],
        ipaddrs: Vec<[u8; 4]>,
        ipmasks: Vec<[u8; 4]>,
        adverint: u8,
        skew_time: u32,
        master_down: u32,
        preempt_mode: bool,
        rfc3768: bool,
        auth_type: u8,
        auth_data: [u8; 8],
        auth_secret: Option<Vec<u8>>,
        protocols: Protocols,
        netdrv: NetDrivers,
        iftype: IfTypes,
        vif_name: String,
        vif_idx: i32,
        fd: i32,
        socket_filter: bool,
    ) -> (r: Parameters)
        ensures
            r.vrid == vrid,
            r.interface == interface,
            r.ifindex == ifindex,
            r.prio == prio,
            r.vip == vip,
            r.ipaddrs == ipaddrs,
            r.ipmasks == ipmasks,
            r.adverint == adverint,
            r.skew_time == skew_time,
            r.master_down == master_down,
            r.preempt_mode == preempt_mode,
            r.rfc3768 == rfc3768,
            r.auth_type == auth_type,
            r.auth_data == auth_data,
            r.auth_secret == auth_secret,
            r.protocols == protocols,
            r.ifmac@ =~= seq![0u8, 0u8, 0u8, 0u8, 0u8, 0u8],
            r.netdrv == netdrv,
            r.iftype == iftype,
            r.vif_name == vif_name,
            r.vif_idx == vif_idx,
            r.fd == fd,
            r.socket_filter == socket_filter,
            r.vmac@ =~= seq![0x00u8, 0x00u8, 0x5eu8, 0x00u8, 0x01u8, vrid],
    {
        let mut vmac = crate::constants::ether_vrrp_v2_src_mac();
        vmac[5] = vrid;
        proof {
            assert(vmac@ =~= seq![0x00u8, 0x00u8, 0x5eu8, 0x00u8, 0x01u8, vrid]);
        }
        let ifmac = [0u8, 0, 0, 0, 0, 0];
        proof {
            assert(ifmac@ =~= seq![0u8, 0u8, 0u8, 0u8, 0u8, 0u8]);
        }
        Parameters {
            vrid,
            interface,
            ifindex,
            prio,
            vip,
            ipaddrs,
            ipmasks,
            adverint,
            skew_time,
            master_down,
            preempt_mode,
            rfc3768,
            auth_type,
            auth_data,
            auth_secret,
            protocols,
            ifmac,
            netdrv,
            iftype,
            vif_name,
            vif_idx,
            fd,
            socket_filter,
            vmac,
        }
    }

    pub fn vrid(&self) -> (r: u8)
        ensures
            r == self.vrid,
    {
        self.vrid
    }

    pub fn interface(&self) -> (r: String)
        ensures
            r@ == self.interface@,
    {
        self.interface.clone()
    }

    pub fn set_interface(&mut self, intf: String)
        ensures
            *final(self) == (Parameters { interface: intf, ..*old(self) }),
    {
        self.interface = intf;
    }

    pub fn ifindex(&self) -> (r: i32)
        ensures
            r == self.ifindex,
    {
        self.ifindex
    }

    pub fn prio(&self) -> (r: u8)
        ensures
            r == self.prio,
    {
        self.prio
    }

    pub fn set_prio(&mut self, prio: u8)
        ensures
            *final(self) == (Parameters { prio, ..*old(self) }),
    {
        self.prio = prio;
    }

    pub fn vip(&self) -> (r: [u8; 4])
        ensures
            r == self.vip,
    {
        self.vip
    }

    pub fn ipaddrs(&self) -> (r: &Vec<[u8; 4]>)
        ensures
            r == self.ipaddrs,
    {
        &self.ipaddrs
    }

    pub fn ipmasks(&self) -> (r: &Vec<[u8; 4]>)
        ensures
            r == self.ipmasks,
    {
        &self.ipmasks
    }

    pub fn adverint(&self) -> (r: u8)
        ensures
            r == self.adverint,
    {
        self.adverint
    }

    /// Skew time in 1/256 s units.
    pub fn skewtime(&self) -> (r: u32)
        ensures
            r == self.skew_time,
    {
        self.skew_time
    }

    /// Master-down interval in 1/256 s units.
    pub fn master_down(&self) -> (r: u32)
        ensures
            r == self.master_down,
    {
        self.master_down
    }

    pub fn preempt(&self) -> (r: bool)
        ensures
            r == self.preempt_mode,
    {
        self.preempt_mode
    }

    pub fn rfc3768(&self) -> (r: bool)
        ensures
            r == self.rfc3768,
    {
        self.rfc3768
    }

    pub fn authtype(&self) -> (r: u8)
        ensures
            r == self.auth_type,
    {
        self.auth_type
    }

    pub fn authsecret(&self) -> (r: &Option<Vec<u8>>)
        ensures
            r == self.auth_secret,
    {
        &self.auth_secret
    }

    /// Number of addresses carried in an advertisement: exactly the VIP in
    /// RFC 2338 compatibility mode, else the VIP followed by the local
    /// addresses.
    pub fn addrcount(&self) -> (r: u8)
        requires
            !self.rfc3768 ==> self.ipaddrs@.len() < 255,
        ensures
            r as int == if self.rfc3768 {
                1int
            } else {
                self.ipaddrs@.len() as int + 1
            },
    {
        if self.rfc3768 {
            1
        } else {
            (self.ipaddrs.len() as u8) + 1
        }
    }

    /// The primary local address, `ipaddrs[0]`.
    pub fn primary_ip(&self) -> (r: [u8; 4])
        requires
            self.ipaddrs@.len() >= 1,
        ensures
            r == self.ipaddrs@[0],
    {
        self.ipaddrs[0]
    }

    pub fn protocols(&self) -> (r: &Protocols)
        ensures
            r == self.protocols,
    {
        &self.protocols
    }

    pub fn ifmac(&self) -> (r: [u8; 6])
        ensures
            r == self.ifmac,
    {
        self.ifmac
    }

    pub fn set_ifmac(&mut self, mac: [u8; 6])
        ensures
            *final(self) == (Parameters { ifmac: mac, ..*old(self) }),
    {
        self.ifmac = mac;
    }

    pub fn netdrv(&self) -> (r: &NetDrivers)
        ensures
            r == self.netdrv,
    {
        &self.netdrv
    }

    pub fn iftype(&self) -> (r: &IfTypes)
        ensures
            r == self.iftype,
    {
        &self.iftype
    }

    pub fn vifname(&self) -> (r: String)
        ensures
            r@ == self.vif_name@,
    {
        self.vif_name.clone()
    }

    pub fn set_vifname(&mut self, vif: String)
        ensures
            *final(self) == (Parameters { vif_name: vif, ..*old(self) }),
    {
        self.vif_name = vif;
    }

    pub fn vifidx(&self) -> (r: i32)
        ensures
            r == self.vif_idx,
    {
        self.vif_idx
    }

    pub fn set_vifidx(&mut self, idx: i32)
        ensures
            *final(self) == (Parameters { vif_idx: idx, ..*old(self) }),
    {
        self.vif_idx = idx;
    }

    pub fn fd(&self) -> (r: i32)
        ensures
            r == self.fd,
    {
        self.fd
    }

    pub fn set_fd(&mut self, fd: i32)
        ensures
            *final(self) == (Parameters { fd, ..*old(self) }),
    {
        self.fd = fd;
    }

    pub fn socket_filter(&self) -> (r: bool)
        ensures
            r == self.socket_filter,
    {
        self.socket_filter
    }

    /// The VIP in dotted-quad form, for status reporting.
    pub fn attr_vip(&self) -> (r: Vec<u8>)
        ensures
            r@ == crate::textutil::spec_dotted(self.vip),
    {
        crate::textutil::ipv4_to_dotted(&self.vip)
    }
}

/// The address list this router advertises: the VIP alone under RFC 2338
/// compatibility, else the VIP followed by the local addresses.
pub open spec fn spec_advert_addrs(vr: VrState) -> Seq<Seq<u8>> {
    if vr.rfc3768 {
        seq![vr.vip@]
    } else {
        seq![vr.vip@] + vr.ipaddrs.map_values(|a: [u8; 4]| a@)
    }
}

/// The message a keyed trailer covers: the VRRP region with a zero checksum
/// field and no trailer.
pub open spec fn spec_trailer_msg(vr: VrState) -> Seq<u8> {
    seq![
        0x21u8,
        vr.vrid,
        vr.prio,
        spec_advert_addrs(vr).len() as u8,
        vr.auth_type,
        vr.adverint,
        0u8,
        0u8,
    ] + crate::codec::spec_flat_addrs(spec_advert_addrs(vr))
}

/// The advertisement this router sends, as a frame model: sourced from the
/// primary address, to the VRRP multicast group, with the trailer of the
/// configured authentication type.
pub open spec fn spec_advert_model(vr: VrState) -> crate::codec::FrameModel {
    crate::codec::FrameModel {
        ipsrc: vr.ipaddrs[0]@,
        ipdst: seq![224u8, 0u8, 0u8, 18u8],
        vrid: vr.vrid,
        prio: vr.prio,
        authtype: vr.auth_type,
        adverint: vr.adverint,
        addrs: spec_advert_addrs(vr),
        authdata: crate::auth::spec_auth_trailer(
            vr.auth_type,
            vr.auth_secret,
            if vr.auth_type == crate::constants::AUTH_TYPE_P0 || vr.auth_type
                == crate::constants::AUTH_TYPE_P1 {
                Some(spec_trailer_msg(vr))
            } else {
                None
            },
        ),
    }
}

/// One virtual router: parameters, protocol state, timers and flags.
pub struct VirtualRouter {
    pub parameters: Parameters,
    pub states: States,
    pub timers: fsm::Timers,
    pub flags: fsm::Flags,
}

impl View for VirtualRouter {
    type V = VrState;

    open spec fn view(&self) -> VrState {
        VrState {
            state: self.states,
            vrid: self.parameters.vrid,
            ifindex: self.parameters.ifindex,
            prio: self.parameters.prio,
            vip: self.parameters.vip,
            ipaddrs: self.parameters.ipaddrs@,
            ipmasks: self.parameters.ipmasks@,
            adverint: self.parameters.adverint,
            skew_time: self.parameters.skew_time,
            master_down_interval: self.parameters.master_down,
            preempt: self.parameters.preempt_mode,
            rfc3768: self.parameters.rfc3768,
            auth_type: self.parameters.auth_type,
            auth_secret: crate::auth::spec_opt_bytes(self.parameters.auth_secret),
            iftype: self.parameters.iftype,
            interface: self.parameters.interface@,
            vif_name: self.parameters.vif_name@,
            vif_idx: self.parameters.vif_idx,
            if_mac: self.parameters.ifmac,
            vmac: self.parameters.vmac,
            advert_timer: self.timers.advert,
            master_down_timer: self.timers.master_down,
            down: self.flags.down,
            rtset: self.flags.rtset,
        }
    }
}

impl VirtualRouter {
    /// A well-formed router knows at least one local address and its mask.
    pub open spec fn wf(&self) -> bool {
        self@.wf()
    }

    /// Build a virtual router in the Init state. The caller supplies the
    /// host facts it discovered (interface index, local addresses and masks,
    /// interface MAC). Fails exactly when no address/mask pair is available.
    /// The derived timers follow RFC 3768 section 6.1, in 1/256 s units:
    /// skew time `256 - prio`, master-down interval `3 * 256 * adverint`
    /// plus the skew time.
    #[allow(clippy::too_many_arguments)]
    pub fn new(
        vrid: u8,
        ifname: String,
        ifindex: i32,
        prio: u8,
        vip: [u8; 4],
        ipaddrs: Vec<[u8; 4]>,
        ipmasks: Vec<[u8; 4]>,
        ifmac: [u8; 6],
        advertint: u8,
        preempt: bool,
        rfc3768: bool,
        auth_type: u8,
        auth_secret: Option<Vec<u8>>,
        protocols: Protocols,
        netdrv: NetDrivers,
        iftype: IfTypes,
        vif_name: String,
        fd: i32,
        socket_filter: bool,
    ) -> (r: Result<VirtualRouter, VrError>)
        ensures
            r is Err <==> (ipaddrs@.len() == 0 || ipmasks@.len() == 0),
            r matches Err(e) ==> e == VrError::NoIpAddress,
            r matches Ok(vr) ==> {
                &&& vr.wf()
                &&& vr.states == States::Init
                &&& vr.parameters.vrid == vrid
                &&& vr.parameters.interface@ == ifname@
                &&& vr.parameters.ifindex == ifindex
                &&& vr.parameters.prio == prio
                &&& vr.parameters.vip == vip
                &&& vr.parameters.ipaddrs == ipaddrs
                &&& vr.parameters.ipmasks == ipmasks
                &&& vr.parameters.ifmac == ifmac
                &&& vr.parameters.adverint == advertint
                &&& vr.parameters.skew_time == 256 - prio
                &&& vr.parameters.master_down == 768 * (advertint as int) + 256 - prio
                &&& vr.parameters.preempt_mode == preempt
                &&& vr.parameters.rfc3768 == rfc3768
                &&& vr.parameters.auth_type == auth_type
                &&& vr.parameters.auth_secret == auth_secret
                &&& vr.parameters.protocols == protocols
                &&& vr.parameters.netdrv == netdrv
                &&& vr.parameters.iftype == iftype
                &&& vr.parameters.vif_name@ == vif_name@
                &&& vr.parameters.vif_idx == 0
                &&& vr.parameters.fd == fd
                &&& vr.parameters.socket_filter == socket_filter
                &&& vr.parameters.vmac@ =~= seq![0x00u8, 0x00u8, 0x5eu8, 0x00u8, 0x01u8, vrid]
                &&& vr.timers.master_down == 1280
                &&& vr.timers.advert == 1
                &&& vr.flags.down == 0
                &&& vr.flags.rtset == false
            },
    {
        if ipaddrs.len() == 0 || ipmasks.len() == 0 {
            return Err(VrError::NoIpAddress);
        }
        // RFC 3768 6.1, in 1/256 s units.
        let skew_time: u32 = 256 - (prio as u32);
        let master_down: u32 = 768 * (advertint as u32) + skew_time;
        let mut params = Parameters::new(
            vrid,
            ifname,
            ifindex,
            prio,
            vip,
            ipaddrs,
            ipmasks,
            advertint,
            skew_time,
            master_down,
            preempt,
            rfc3768,
            auth_type,
            [0u8, 0, 0, 0, 0, 0, 0, 0],
            auth_secret,
            protocols,
            netdrv,
            iftype,
            vif_name,
            0,
            fd,
            socket_filter,
        );
        params.ifmac = ifmac;
        Ok(
            VirtualRouter {
                states: States::Init,
                parameters: params,
                timers: fsm::Timers::new(1280, 1),
                flags: fsm::Flags::new(0x0),
            },
        )
    }

    /// Whether this router owns the given address: it appears in `ipaddrs`.
    pub fn is_owner_vip(&self, vip: &[u8; 4]) -> (r: bool)
        ensures
            r == exists|i: int| 0 <= i < self.parameters.ipaddrs@.len()
                && self.parameters.ipaddrs@[i] == *vip,
    {
        let n = self.parameters.ipaddrs.len();
        let mut i: usize = 0;
        while i < n
            invariant
                n == self.parameters.ipaddrs@.len(),
                0 <= i <= n,
                forall|j: int| 0 <= j < i ==> self.parameters.ipaddrs@[j] != *vip,
            decreases n - i,
        {
            let a = &self.parameters.ipaddrs[i];
            if a[0] == vip[0] && a[1] == vip[1] && a[2] == vip[2] && a[3] == vip[3] {
                proof {
                    assert(self.parameters.ipaddrs@[i as int] =~= *vip);
                }
                return true;
            }
            proof {
                assert(self.parameters.ipaddrs@[i as int] != *vip);
            }
            i = i + 1;
        }
        false
    }

    /// Build the advertisement frame this router sends: the address list per
    /// the compatibility flag, the authentication trailer per the configured
    /// type, and both checksums written.
    pub fn advert_frame(&self) -> (r: Vec<u8>)
        requires
            self.wf(),
            !self.parameters.rfc3768 ==> self.parameters.ipaddrs@.len() < 255,
        ensures
            r@ == crate::codec::spec_encode(spec_advert_model(self@)),
    {
        let ghost model = spec_advert_model(self@);
        // The advertised address list.
        let mut addrs: Vec<[u8; 4]> = Vec::new();
        addrs.push(self.parameters.vip);
        if !self.parameters.rfc3768 {
            let k = self.parameters.ipaddrs.len();
            let mut i: usize = 0;
            while i < k
                invariant
                    k == self.parameters.ipaddrs@.len() < 255,
                    0 <= i <= k,
                    addrs@.len() == 1 + i,
                    addrs@ =~= seq![self.parameters.vip] + self.parameters.ipaddrs@.take(i as int),
                decreases k - i,
            {
                let a = self.parameters.ipaddrs[i];
                addrs.push(a);
                proof {
                    assert(self.parameters.ipaddrs@.take(i + 1)
                        =~= self.parameters.ipaddrs@.take(i as int).push(
                        self.parameters.ipaddrs@[i as int],
                    ));
                }
                i = i + 1;
            }
            proof {
                assert(self.parameters.ipaddrs@.take(k as int) =~= self.parameters.ipaddrs@);
            }
        }
        proof {
            assert(addrs@.map_values(|a: [u8; 4]| a@) =~= spec_advert_addrs(self@));
        }
        let n = addrs.len();
        // The message the keyed trailer covers: fixed header with a zero
        // checksum, then the address list, no trailer.
        let mut msg: Vec<u8> = Vec::new();
        msg.push(0x21);
        msg.push(self.parameters.vrid);
        msg.push(self.parameters.prio);
        msg.push(n as u8);
        msg.push(self.parameters.auth_type);
        msg.push(self.parameters.adverint);
        msg.push(0);
        msg.push(0);
        let flat = crate::codec::flat_addr_bytes(&addrs);
        let fl = flat.len();
        let mut j: usize = 0;
        while j < fl
            invariant
                fl == flat@.len(),
                0 <= j <= fl,
                msg@ =~= spec_trailer_msg(self@).take(8 + j as int),
                spec_trailer_msg(self@).len() == 8 + fl,
                forall|t: int| 0 <= t < fl ==> spec_trailer_msg(self@)[8 + t] == flat@[t],
            decreases fl - j,
        {
            msg.push(flat[j]);
            proof {
                assert(spec_trailer_msg(self@).take(8 + (j + 1)) =~= spec_trailer_msg(
                    self@,
                ).take(8 + j as int).push(spec_trailer_msg(self@)[8 + j as int]));
            }
            j = j + 1;
        }
        proof {
            assert(spec_trailer_msg(self@).take(8 + fl as int) =~= spec_trailer_msg(self@));
            assert(msg@ =~= spec_trailer_msg(self@));
        }
        // The authentication trailer.
        let at = self.parameters.auth_type;
        let tv = if at == crate::constants::AUTH_TYPE_P0 || at == crate::constants::AUTH_TYPE_P1 {
            crate::auth::gen_auth_data(at, &self.parameters.auth_secret, Some(msg.as_slice()))
        } else {
            crate::auth::gen_auth_data(at, &self.parameters.auth_secret, None)
        };
        let authdata = [tv[0], tv[1], tv[2], tv[3], tv[4], tv[5], tv[6], tv[7]];
        proof {
            assert(authdata@ =~= model.authdata);
        }
        let fr = crate::codec::VrrpFrame {
            ipsrc: self.parameters.ipaddrs[0],
            ipdst: crate::constants::vrrp_v2_ip_mcast_dst(),
            vrid: self.parameters.vrid,
            prio: self.parameters.prio,
            authtype: at,
            adverint: self.parameters.adverint,
            addrs,
            authdata,
        };
        proof {
            assert(fr@ == model);
            assert(fr.wf());
        }
        crate::codec::encode_advert(&fr)
    }

    /// Current state.
    pub fn get_states(&self) -> (r: &States)
        ensures
            r == self.states,
    {
        &self.states
    }

    /// Set the state.
    pub fn set_states(&mut self, s: States)
        ensures
            final(self).states == s,
            final(self).parameters == old(self).parameters,
            final(self).timers == old(self).timers,
            final(self).flags == old(self).flags,
    {
        self.states = s;
    }
}

} // verus!
