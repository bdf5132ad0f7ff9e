//! Client API data: the query and response shapes exchanged with the
//! status/auth front end, and the functions that answer each read-only
//! query from the configuration and the live router set.

use crate::config::{CConfig, Protocols, VRConfig};
use crate::fsm::{spec_state_name, VrState};
use crate::session::SessionToken;
use crate::textutil::{ipv4_to_dotted, spec_dotted};
use crate::vrouter::VirtualRouter;
use vstd::prelude::*;

verus! {

/// One query/response cell addressed to a router's state machine.
#[allow(non_snake_case)]
pub struct FSMQueryResult {
    /// Query/response flag.
    pub QRflag: bool,
    /// Recipient group.
    pub group: u8,
    /// Recipient interface.
    pub interface: String,
    pub query: FSMQuery,
    pub response: FSMResponse,
}

/// What can be asked of a router's state machine.
pub enum FSMQuery {
    GlobalAttr,
    States,
    Group,
    Priority,
    Interface,
    NoQuery,
}

/// What a router's state machine answers.
pub enum FSMResponse {
    States(u8, String),
    Group(u8, String),
    Priority(u8, String),
    Interface(u8, String),
    Empty,
}

/// Queries the API front end sends down.
pub enum ClientAPIQuery {
    AuthRequest(String, String),
    CfgGlobalAll(SessionToken),
    CfgVrrpAll(SessionToken),
    CfgProtoAll(SessionToken),
    RunGlobalAll(SessionToken),
    RunVRRPAll(SessionToken),
    RunVRRPGrp(SessionToken, u8),
    RunVRRPGrpIntf(SessionToken, u8, String),
    RunProtoAll(SessionToken),
    RunProtoStatic(SessionToken),
}

/// Answers sent back up to the API front end.
pub enum ClientAPIResponse {
    Unauthorized,
    AuthResponse(Option<SessionToken>),
    CfgGlobalAll(CConfig),
    CfgVrrpAll(Vec<VRConfig>),
    CfgProtoAll(Protocols),
    RunGlobalAll(ResponseGlobalAttr),
    RunVRRPAll(Vec<ResponseVRRPAttr>),
    RunVRRPGrp(Option<Vec<ResponseVRRPAttr>>),
    RunVRRPGrpIntf(Option<ResponseVRRPAttr>),
    RunProtoAll(Option<ResponseProtoAttr>),
    RunProtoStatic(Option<Vec<ResponseProtoStaticAttr>>),
}

/// The effective global settings.
pub struct ResponseGlobalAttr {
    pub debug: u8,
    pub timestamp: u8,
    pub timezone: u8,
    pub pid: String,
    pub working_dir: String,
    pub main_log: String,
    pub error_log: String,
}

/// One virtual router's live attributes.
pub struct ResponseVRRPAttr {
    /// The VIP in dotted-quad form.
    pub virtual_ip: Vec<u8>,
    pub group: u8,
    pub interface: String,
    pub priority: u8,
    pub preempt: bool,
    pub state: String,
}

/// The running protocols.
pub struct ResponseProtoAttr {
    pub static_routes: Option<Vec<ResponseProtoStaticAttr>>,
}

/// One static route, rendered.
pub struct ResponseProtoStaticAttr {
    pub destination: Vec<u8>,
    pub mask: Vec<u8>,
    pub next_hop: Vec<u8>,
    pub metric: i16,
    pub mtu: u64,
}

/// The whole configured global section.
pub fn capi_req_cfg_global_all(cfg: &CConfig) -> (r: &CConfig)
    ensures
        r == cfg,
{
    cfg
}

/// The configured virtual routers; asking without any configured is a
/// caller error.
pub fn capi_req_cfg_vrrp_all(cfg: &CConfig) -> (r: &Vec<VRConfig>)
    requires
        cfg.vrouter is Some,
    ensures
        cfg.vrouter matches Some(v) ==> r == v,
{
    match &cfg.vrouter {
        Some(v) => v,
        None => unreached(),
    }
}

/// The configured protocols; asking without any configured is a caller
/// error.
pub fn capi_req_cfg_proto_all(cfg: &CConfig) -> (r: &Protocols)
    requires
        cfg.protocols is Some,
    ensures
        cfg.protocols matches Some(p) ==> r == p,
{
    match &cfg.protocols {
        Some(p) => p,
        None => unreached(),
    }
}

/// The effective global settings, read through the configuration getters.
pub fn capi_req_run_global_all(cfg: &CConfig) -> (r: ResponseGlobalAttr)
    ensures
        r.debug == match cfg.debug {
            Some(v) => v,
            None => 0u8,
        },
        r.timestamp == match cfg.time_format {
            Some(s) => if s@ == "short"@ {
                1u8
            } else if s@ == "rfc2822"@ {
                2u8
            } else {
                0u8
            },
            None => 0u8,
        },
        r.timezone == match cfg.time_zone {
            Some(s) => if s@ == "utc"@ {
                1u8
            } else {
                0u8
            },
            None => 0u8,
        },
        match cfg.pid {
            Some(ref v) => r.pid@ == v@,
            None => r.pid@ == "/var/run/rvrrpd.pid"@,
        },
        match cfg.working_dir {
            Some(ref v) => r.working_dir@ == v@,
            None => r.working_dir@ == "/tmp"@,
        },
        match cfg.main_log {
            Some(ref v) => r.main_log@ == v@,
            None => r.main_log@ == "/var/log/rvrrpd.log"@,
        },
        match cfg.error_log {
            Some(ref v) => r.error_log@ == v@,
            None => r.error_log@ == "/var/log/rvrrpd-error.log"@,
        },
{
    ResponseGlobalAttr {
        debug: cfg.debug(),
        timestamp: cfg.time_format(),
        timezone: cfg.time_zone(),
        pid: cfg.pid(),
        working_dir: cfg.working_dir(),
        main_log: cfg.main_log(),
        error_log: cfg.error_log(),
    }
}

/// The attributes shown for one router match its state.
pub open spec fn spec_vrrp_attr_ok(a: ResponseVRRPAttr, v: VrState) -> bool {
    &&& a.virtual_ip@ == spec_dotted(v.vip)
    &&& a.group == v.vrid
    &&& a.interface@ == v.interface
    &&& a.priority == v.prio
    &&& a.preempt == v.preempt
    &&& a.state@ == spec_state_name(v.state)
}

/// Build the attributes of one router.
fn vrrp_attr(vr: &VirtualRouter) -> (r: ResponseVRRPAttr)
    ensures
        spec_vrrp_attr_ok(r, vr@),
{
    ResponseVRRPAttr {
        virtual_ip: ipv4_to_dotted(&vr.parameters.vip),
        group: vr.parameters.vrid,
        interface: vr.parameters.interface.clone(),
        priority: vr.parameters.prio,
        preempt: vr.parameters.preempt_mode,
        state: vr.states.states(),
    }
}

/// The live attributes of every router, in order.
pub fn capi_req_run_vrrp_all(vrs: &Vec<VirtualRouter>) -> (r: Vec<ResponseVRRPAttr>)
    ensures
        r@.len() == vrs@.len(),
        forall|i: int| 0 <= i < r@.len() ==> spec_vrrp_attr_ok(#[trigger] r@[i], vrs@[i]@),
{
    let n = vrs.len();
    let mut out: Vec<ResponseVRRPAttr> = Vec::new();
    let mut i: usize = 0;
    while i < n
        invariant
            n == vrs@.len(),
            0 <= i <= n,
            out@.len() == i,
            forall|j: int| 0 <= j < i ==> spec_vrrp_attr_ok(#[trigger] out@[j], vrs@[j]@),
        decreases n - i,
    {
        let a = vrrp_attr(&vrs[i]);
        out.push(a);
        i = i + 1;
    }
    out
}

/// The live attributes of the routers in one group, in order.
#[verifier::loop_isolation(false)]
pub fn capi_req_run_vrrp_grp(vrs: &Vec<VirtualRouter>, gid: u8) -> (r: Option<
    Vec<ResponseVRRPAttr>,
>)
    ensures
        r matches Some(out) ==> {
            let picked = vrs@.map_values(|v: VirtualRouter| v@).filter(
                |v: VrState| v.vrid == gid,
            );
            &&& out@.len() == picked.len()
            &&& forall|i: int|
                0 <= i < out@.len() ==> spec_vrrp_attr_ok(#[trigger] out@[i], picked[i])
        },
        r is Some,
{
    let ghost views = vrs@.map_values(|v: VirtualRouter| v@);
    let ghost pred = |v: VrState| v.vrid == gid;
    proof {
        reveal(Seq::filter);
    }
    let n = vrs.len();
    let mut out: Vec<ResponseVRRPAttr> = Vec::new();
    let mut i: usize = 0;
    while i < n
        invariant
            0 <= i <= n,
            out@.len() == views.take(i as int).filter(pred).len(),
            forall|j: int|
                0 <= j < out@.len() ==> spec_vrrp_attr_ok(
                    #[trigger] out@[j],
                    views.take(i as int).filter(pred)[j],
                ),
        decreases n - i,
    {
        proof {
            assert(views.take(i + 1).drop_last() =~= views.take(i as int));
            assert(views.take(i + 1).last() == views[i as int]);
        }
        let v = &vrs[i];
        if v.parameters.vrid == gid {
            let a = vrrp_attr(v);
            out.push(a);
        }
        i = i + 1;
    }
    proof {
        assert(views.take(n as int) =~= views);
    }
    Some(out)
}

/// The first router in this group on this interface, if any.
pub open spec fn spec_find_grp_intf(vrs: Seq<VrState>, gid: u8, intf: Seq<char>) -> Option<int>
    decreases vrs.len(),
{
    if vrs.len() == 0 {
        None
    } else if vrs[0].vrid == gid && vrs[0].interface == intf {
        Some(0)
    } else {
        match spec_find_grp_intf(vrs.skip(1), gid, intf) {
            Some(i) => Some(i + 1),
            None => None,
        }
    }
}

proof fn lemma_find_grp_intf_characterization(vrs: Seq<VrState>, gid: u8, intf: Seq<char>)
    ensures
        match spec_find_grp_intf(vrs, gid, intf) {
            Some(i) => 0 <= i < vrs.len() && vrs[i].vrid == gid && vrs[i].interface == intf
                && forall|j: int|
                0 <= j < i ==> !(vrs[j].vrid == gid && (#[trigger] vrs[j]).interface == intf),
            None => forall|j: int|
                0 <= j < vrs.len() ==> !(vrs[j].vrid == gid && (#[trigger] vrs[j]).interface
                    == intf),
        },
    decreases vrs.len(),
{
    if vrs.len() > 0 {
        lemma_find_grp_intf_characterization(vrs.skip(1), gid, intf);
        if !(vrs[0].vrid == gid && vrs[0].interface == intf) {
            match spec_find_grp_intf(vrs.skip(1), gid, intf) {
                Some(i) => {
                    assert(vrs.skip(1)[i] == vrs[i + 1]);
                    assert forall|j: int|
                        0 <= j < i + 1 implies !(vrs[j].vrid == gid && (
                    #[trigger] vrs[j]).interface == intf) by {
                        if j > 0 {
                            assert(vrs.skip(1)[j - 1] == vrs[j]);
                        }
                    }
                },
                None => {
                    assert forall|j: int|
                        0 <= j < vrs.len() implies !(vrs[j].vrid == gid && (
                    #[trigger] vrs[j]).interface == intf) by {
                        if j > 0 {
                            assert(vrs.skip(1)[j - 1] == vrs[j]);
                        }
                    }
                },
            }
        }
    }
}

/// The live attributes of the router in this group on this interface.
#[verifier::loop_isolation(false)]
pub fn capi_req_run_vrrp_grp_intf(vrs: &Vec<VirtualRouter>, gid: u8, intf: &String) -> (r: Option<
    ResponseVRRPAttr,
>)
    ensures
        ({
            let views = vrs@.map_values(|v: VirtualRouter| v@);
            match r {
                Some(a) => spec_find_grp_intf(views, gid, intf@) matches Some(i)
                    && spec_vrrp_attr_ok(a, views[i]),
                None => spec_find_grp_intf(views, gid, intf@) is None,
            }
        }),
{
    let ghost views = vrs@.map_values(|v: VirtualRouter| v@);
    proof {
        lemma_find_grp_intf_characterization(views, gid, intf@);
    }
    let n = vrs.len();
    let mut i: usize = 0;
    while i < n
        invariant
            0 <= i <= n,
            forall|j: int|
                0 <= j < i ==> !(views[j].vrid == gid && (#[trigger] views[j]).interface == intf@),
        decreases n - i,
    {
        let v = &vrs[i];
        if v.parameters.vrid == gid && v.parameters.interface == *intf {
            proof {
                assert(views[i as int].vrid == gid && views[i as int].interface == intf@);
                assert(spec_find_grp_intf(views, gid, intf@) matches Some(k) && k == i as int)
                    by {
                    match spec_find_grp_intf(views, gid, intf@) {
                        Some(k) => {
                            if k < i as int {
                            } else if k > i as int {
                                assert(!(views[i as int].vrid == gid && views[i as int].interface
                                    == intf@));
                            }
                        },
                        None => {
                            assert(!(views[i as int].vrid == gid && views[i as int].interface
                                == intf@));
                        },
                    }
                }
            }
            return Some(vrrp_attr(v));
        }
        i = i + 1;
    }
    None
}

/// One rendered route matches its configured route.
pub open spec fn spec_proto_static_attr_ok(
    a: ResponseProtoStaticAttr,
    st: crate::protocols::Static,
) -> bool {
    &&& a.destination@ == spec_dotted(st.route)
    &&& a.mask@ == spec_dotted(st.mask)
    &&& a.next_hop@ == spec_dotted(st.nh)
    &&& a.metric == st.metric
    &&& a.mtu == st.mtu
}

/// The static routes of the shared protocols table, rendered; read from the
/// first router, which shares the table with all others.
pub fn capi_req_run_proto_static(vrs: &Vec<VirtualRouter>) -> (r: Option<
    Vec<ResponseProtoStaticAttr>,
>)
    requires
        vrs@.len() >= 1,
    ensures
        match (r, &vrs@[0].parameters.protocols.static_routes) {
            (Some(out), Some(list)) => out@.len() == list@.len() && forall|i: int|
                0 <= i < out@.len() ==> spec_proto_static_attr_ok(#[trigger] out@[i], list@[i]),
            (None, None) => true,
            _ => false,
        },
{
    let vr = &vrs[0];
    match &vr.parameters.protocols.static_routes {
        Some(list) => {
            let n = list.len();
            let mut out: Vec<ResponseProtoStaticAttr> = Vec::new();
            let mut i: usize = 0;
            while i < n
                invariant
                    n == list@.len(),
                    0 <= i <= n,
                    out@.len() == i,
                    forall|j: int|
                        0 <= j < i ==> spec_proto_static_attr_ok(#[trigger] out@[j], list@[j]),
                decreases n - i,
            {
                let st = &list[i];
                let a = ResponseProtoStaticAttr {
                    destination: ipv4_to_dotted(&st.route),
                    mask: ipv4_to_dotted(&st.mask),
                    next_hop: ipv4_to_dotted(&st.nh),
                    metric: st.metric,
                    mtu: st.mtu,
                };
                out.push(a);
                i = i + 1;
            }
            Some(out)
        },
        None => None,
    }
}

/// All running protocol attributes.
pub fn capi_req_run_proto_all(vrs: &Vec<VirtualRouter>) -> (r: Option<ResponseProtoAttr>)
    requires
        vrs@.len() >= 1,
    ensures
        match (r, &vrs@[0].parameters.protocols.static_routes) {
            (Some(attr), Some(list)) => attr.static_routes matches Some(out) && out@.len()
                == list@.len() && forall|i: int|
                0 <= i < out@.len() ==> spec_proto_static_attr_ok(#[trigger] out@[i], list@[i]),
            (None, None) => true,
            _ => false,
        },
{
    match capi_req_run_proto_static(vrs) {
        Some(v) => Some(ResponseProtoAttr { static_routes: Some(v) }),
        None => None,
    }
}

} // verus!
