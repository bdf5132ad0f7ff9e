//! The per-virtual-router finite-state machine (RFC 3768 section 6): states,
//! events, flags and timers, the transition function, and the host-side
//! actions each transition asks for.
//!
//! `handle_event` is the single decision point: it consumes one event,
//! updates the virtual router, and returns the ordered list of host actions
//! the caller must perform (MAC changes, address changes, route changes,
//! frame emissions). The caller owns sockets and threads; nothing here
//! blocks.

use crate::drivers::IfTypes;
use crate::vrouter::VirtualRouter;
use vstd::prelude::*;

verus! {

broadcast use vstd::array::group_array_axioms;

/// Protocol states.
#[derive(Debug, Clone, Copy, PartialEq, Eq, Structural)]
pub enum States {
    Down,
    Init,
    Backup,
    Master,
}

/// The display name of a state.
pub open spec fn spec_state_name(s: States) -> Seq<char> {
    match s {
        States::Down => "Down"@,
        States::Init => "Init"@,
        States::Backup => "Backup"@,
        States::Master => "Master"@,
    }
}

impl States {
    /// The display name of this state.
    pub fn states(&self) -> (r: String)
        ensures
            r@ == spec_state_name(*self),
    {
        match self {
            States::Down => "Down".to_owned(),
            States::Init => "Init".to_owned(),
            States::Backup => "Backup".to_owned(),
            States::Master => "Master".to_owned(),
        }
    }
}

/// Countdown timers of one virtual router. `master_down` counts in units of
/// 1/256 s (so the skew time `(256 - priority)/256` s is exact); zero means
/// cancelled. `advert` counts whole seconds; zero means cancelled.
#[derive(Debug, Clone, Copy)]
pub struct Timers {
    pub master_down: u32,
    pub advert: u8,
}

impl Timers {
    /// Bundle the two timer values.
    pub fn new(master_down: u32, advert: u8) -> (r: Timers)
        ensures
            r.master_down == master_down,
            r.advert == advert,
    {
        Timers { master_down, advert }
    }

    /// Remaining master-down time in 1/256 s units; zero when cancelled.
    pub fn master_down(&self) -> (r: u32)
        ensures
            r == self.master_down,
    {
        self.master_down
    }

    /// Advertisement interval countdown in seconds; zero when cancelled.
    pub fn advert(&self) -> (r: u8)
        ensures
            r == self.advert,
    {
        self.advert
    }
}

/// Flags shared with the timer task: `down` is set when a master-down tick
/// passed without an advertisement, `rtset` when this router installed the
/// static routes.
#[derive(Debug, Clone, Copy)]
pub struct Flags {
    pub down: u8,
    pub rtset: bool,
}

impl Flags {
    /// Start with the given down flag; no routes installed yet.
    pub fn new(down: u8) -> (r: Flags)
        ensures
            r.down == down,
            r.rtset == false,
    {
        Flags { down, rtset: false }
    }

    /// Current down flag.
    pub fn get_down_flag(&self) -> (r: u8)
        ensures
            r == self.down,
    {
        self.down
    }

    /// Mark that a master-down tick saw no advertisement.
    pub fn set_down_flag(&mut self)
        ensures
            final(self).down == 1,
            final(self).rtset == old(self).rtset,
    {
        self.down = 0x1;
    }

    /// Mark that an advertisement was seen.
    pub fn clear_down_flag(&mut self)
        ensures
            final(self).down == 0,
            final(self).rtset == old(self).rtset,
    {
        self.down = 0x0;
    }

    /// Whether this router currently holds the static routes installed.
    pub fn rtset(&self) -> (r: bool)
        ensures
            r == self.rtset,
    {
        self.rtset
    }

    /// Record that the static routes were installed.
    pub fn set_rtset(&mut self)
        ensures
            final(self).rtset == true,
            final(self).down == old(self).down,
    {
        self.rtset = true;
    }

    /// Record that the static routes were withdrawn.
    pub fn clear_rtset(&mut self)
        ensures
            final(self).rtset == false,
            final(self).down == old(self).down,
    {
        self.rtset = false;
    }
}

/// Events a virtual router consumes.
#[derive(Debug, Clone, Copy)]
pub enum Event {
    Startup,
    Shutdown,
    Terminate,
    MasterDown,
    MasterDownExpiry,
    /// A validated advertisement: source IPv4 address and carried priority.
    Advert([u8; 4], u8),
    GenAdvert,
}

/// Host-side actions a transition asks the caller to perform, in order.
#[derive(Debug, Clone, Copy)]
pub enum Action {
    /// Overwrite the interface MAC with this address.
    SetMac([u8; 6]),
    /// Restore the saved interface MAC.
    RestoreMac([u8; 6]),
    /// Create a MAC-VLAN child named by the router's `vif_name`, with this MAC.
    CreateMacvlan([u8; 6]),
    /// Delete the MAC-VLAN child with this saved ifindex.
    DeleteMacvlan(i32),
    /// Add the VIP with this mask to the effective interface.
    AddVip([u8; 4], [u8; 4]),
    /// Remove the VIP with this mask from the effective interface.
    RemoveVip([u8; 4], [u8; 4]),
    /// Install all configured static routes.
    InstallRoutes,
    /// Withdraw all configured static routes.
    RemoveRoutes,
    /// Send one advertisement carrying this priority.
    SendAdvert(u8),
    /// Broadcast a gratuitous ARP for this VIP with this MAC.
    BroadcastArp([u8; 4], [u8; 6]),
}

/// The mathematical state of a virtual router: configuration, discovered
/// host facts, and the mutable protocol state.
pub ghost struct VrState {
    pub state: States,
    pub vrid: u8,
    pub ifindex: i32,
    pub prio: u8,
    pub vip: [u8; 4],
    pub ipaddrs: Seq<[u8; 4]>,
    pub ipmasks: Seq<[u8; 4]>,
    pub adverint: u8,
    pub skew_time: u32,
    pub master_down_interval: u32,
    pub preempt: bool,
    pub rfc3768: bool,
    pub auth_type: u8,
    pub auth_secret: Option<Seq<u8>>,
    pub iftype: IfTypes,
    pub interface: Seq<char>,
    pub vif_name: Seq<char>,
    pub vif_idx: i32,
    pub if_mac: [u8; 6],
    pub vmac: [u8; 6],
    pub advert_timer: u8,
    pub master_down_timer: u32,
    pub down: u8,
    pub rtset: bool,
}

impl VrState {
    /// A well-formed router knows at least one local address and its mask.
    pub open spec fn wf(self) -> bool {
        self.ipaddrs.len() >= 1 && self.ipmasks.len() >= 1
    }
}

/// Whether the router owns the VIP: the VIP is one of its local addresses.
pub open spec fn spec_owns_vip(vr: VrState) -> bool {
    exists|i: int| 0 <= i < vr.ipaddrs.len() && vr.ipaddrs[i] == vr.vip
}

/// Strict lexicographic (byte-wise, most significant first) order on IPv4
/// addresses.
pub open spec fn spec_ip_greater(a: [u8; 4], b: [u8; 4]) -> bool {
    if a[0] != b[0] {
        a[0] > b[0]
    } else if a[1] != b[1] {
        a[1] > b[1]
    } else if a[2] != b[2] {
        a[2] > b[2]
    } else {
        a[3] > b[3]
    }
}

/// Entering Master: new state and the flag bookkeeping.
pub open spec fn spec_master_entry_state(vr: VrState) -> VrState {
    if vr.iftype == IfTypes::macvlan {
        VrState {
            state: States::Master,
            interface: vr.vif_name,
            vif_name: vr.interface,
            rtset: true,
            advert_timer: vr.adverint,
            ..vr
        }
    } else {
        VrState { state: States::Master, rtset: true, advert_timer: vr.adverint, ..vr }
    }
}

/// Entering Master: the ordered host actions. The MAC-VLAN flavour creates a
/// child carrying the virtual MAC; the plain flavour overwrites the
/// interface MAC. Then the VIP is added with the primary mask, the static
/// routes are installed if this router does not already hold them, one
/// advertisement goes out, and a gratuitous ARP follows.
pub open spec fn spec_master_entry_actions(vr: VrState) -> Seq<Action> {
    let head = if vr.iftype == IfTypes::macvlan {
        seq![Action::CreateMacvlan(vr.vmac)]
    } else {
        seq![Action::SetMac(vr.vmac)]
    };
    let routes = if vr.rtset {
        Seq::<Action>::empty()
    } else {
        seq![Action::InstallRoutes]
    };
    head + seq![Action::AddVip(vr.vip, vr.ipmasks[0])] + routes + seq![
        Action::SendAdvert(vr.prio),
        Action::BroadcastArp(vr.vip, vr.vmac),
    ]
}

/// Leaving Master: new state and the flag bookkeeping; the interface names
/// swap back on the MAC-VLAN flavour.
pub open spec fn spec_master_exit_state(vr: VrState) -> VrState {
    if vr.iftype == IfTypes::macvlan {
        VrState { interface: vr.vif_name, vif_name: vr.interface, rtset: false, ..vr }
    } else {
        VrState { rtset: false, ..vr }
    }
}

/// Leaving Master: the ordered host actions. Deleting the MAC-VLAN child
/// takes the VIP with it; the plain flavour restores the saved MAC and
/// removes the VIP. Routes are withdrawn when this router had installed
/// them.
pub open spec fn spec_master_exit_actions(vr: VrState) -> Seq<Action> {
    let head = if vr.iftype == IfTypes::macvlan {
        seq![Action::DeleteMacvlan(vr.vif_idx)]
    } else {
        seq![Action::RestoreMac(vr.if_mac), Action::RemoveVip(vr.vip, vr.ipmasks[0])]
    };
    let routes = if vr.rtset {
        seq![Action::RemoveRoutes]
    } else {
        Seq::<Action>::empty()
    };
    head + routes
}

/// The transition function: one event against one router state gives the
/// next state and the ordered host actions (RFC 3768 section 6.4).
pub open spec fn spec_step(vr: VrState, ev: Event) -> (VrState, Seq<Action>) {
    match vr.state {
        States::Down => (vr, Seq::<Action>::empty()),
        States::Init => match ev {
            Event::Startup => {
                if spec_owns_vip(vr) || vr.prio == 255 {
                    let forced = VrState { prio: 255u8, ..vr };
                    (spec_master_entry_state(forced), spec_master_entry_actions(forced))
                } else {
                    (
                        VrState {
                            state: States::Backup,
                            master_down_timer: vr.master_down_interval,
                            ..vr
                        },
                        Seq::<Action>::empty(),
                    )
                }
            },
            Event::Shutdown => (VrState { state: States::Down, ..vr }, Seq::<Action>::empty()),
            _ => (vr, Seq::<Action>::empty()),
        },
        States::Backup => match ev {
            Event::Advert(_src, prio) => {
                if prio == 0 {
                    (VrState { master_down_timer: vr.skew_time, ..vr }, Seq::<Action>::empty())
                } else if !vr.preempt || prio >= vr.prio {
                    (
                        VrState { master_down_timer: vr.master_down_interval, down: 0u8, ..vr },
                        Seq::<Action>::empty(),
                    )
                } else {
                    (vr, Seq::<Action>::empty())
                }
            },
            Event::MasterDownExpiry => (VrState { down: 1u8, ..vr }, Seq::<Action>::empty()),
            Event::MasterDown => (spec_master_entry_state(vr), spec_master_entry_actions(vr)),
            Event::Shutdown => (
                VrState { state: States::Down, master_down_timer: 0u32, ..vr },
                Seq::<Action>::empty(),
            ),
            _ => (vr, Seq::<Action>::empty()),
        },
        States::Master => match ev {
            Event::GenAdvert => (
                VrState { advert_timer: vr.adverint, ..vr },
                seq![Action::SendAdvert(vr.prio)],
            ),
            Event::Advert(src, prio) => {
                if prio == 0 {
                    (
                        VrState { advert_timer: vr.adverint, ..vr },
                        seq![Action::SendAdvert(vr.prio)],
                    )
                } else if prio > vr.prio || (prio == vr.prio && spec_ip_greater(
                    src,
                    vr.ipaddrs[0],
                )) {
                    let exited = spec_master_exit_state(vr);
                    (
                        VrState {
                            state: States::Backup,
                            advert_timer: 0u8,
                            master_down_timer: vr.master_down_interval,
                            down: 0u8,
                            ..exited
                        },
                        spec_master_exit_actions(vr),
                    )
                } else {
                    (vr, Seq::<Action>::empty())
                }
            },
            Event::Shutdown => {
                let resigned = VrState { prio: 0u8, advert_timer: 0u8, ..vr };
                let exited = spec_master_exit_state(resigned);
                (
                    VrState { state: States::Down, ..exited },
                    seq![Action::SendAdvert(0u8)] + spec_master_exit_actions(resigned),
                )
            },
            _ => (vr, Seq::<Action>::empty()),
        },
    }
}

/// Lexicographic byte-wise comparison of two IPv4 addresses: true when
/// `primary` is strictly greater than `local`.
pub fn is_primary_higher(primary: &[u8; 4], local: &[u8; 4]) -> (r: bool)
    ensures
        r == spec_ip_greater(*primary, *local),
{
    if primary[0] != local[0] {
        primary[0] > local[0]
    } else if primary[1] != local[1] {
        primary[1] > local[1]
    } else if primary[2] != local[2] {
        primary[2] > local[2]
    } else {
        primary[3] > local[3]
    }
}

/// Perform the Master-entry bookkeeping on the router and append the entry
/// actions.
fn master_entry(vr: &mut VirtualRouter, actions: &mut Vec<Action>)
    requires
        old(vr).wf(),
    ensures
        final(vr).wf(),
        final(vr)@ == spec_master_entry_state(old(vr)@),
        final(actions)@ == old(actions)@ + spec_master_entry_actions(old(vr)@),
{
    let ghost pre = vr@;
    let vmac = vr.parameters.vmac;
    let macvlan = match vr.parameters.iftype {
        IfTypes::macvlan => true,
        _ => false,
    };
    if macvlan {
        actions.push(Action::CreateMacvlan(vmac));
        let phys = vr.parameters.interface.clone();
        let vif = vr.parameters.vif_name.clone();
        vr.parameters.interface = vif;
        vr.parameters.vif_name = phys;
    } else {
        actions.push(Action::SetMac(vmac));
    }
    actions.push(Action::AddVip(vr.parameters.vip, vr.parameters.ipmasks[0]));
    if !vr.flags.rtset {
        actions.push(Action::InstallRoutes);
        vr.flags.rtset = true;
    }
    actions.push(Action::SendAdvert(vr.parameters.prio));
    actions.push(Action::BroadcastArp(vr.parameters.vip, vmac));
    vr.timers.advert = vr.parameters.adverint;
    vr.states = States::Master;
    proof {
        assert(final(vr)@ =~= spec_master_entry_state(pre));
        assert(actions@ =~= old(actions)@ + spec_master_entry_actions(pre));
    }
}

/// Perform the Master-exit bookkeeping on the router and append the exit
/// actions.
fn master_exit(vr: &mut VirtualRouter, actions: &mut Vec<Action>)
    requires
        old(vr).wf(),
    ensures
        final(vr).wf(),
        final(vr)@ == spec_master_exit_state(old(vr)@),
        final(actions)@ == old(actions)@ + spec_master_exit_actions(old(vr)@),
{
    let ghost pre = vr@;
    let macvlan = match vr.parameters.iftype {
        IfTypes::macvlan => true,
        _ => false,
    };
    if macvlan {
        actions.push(Action::DeleteMacvlan(vr.parameters.vif_idx));
        let vif = vr.parameters.interface.clone();
        let phys = vr.parameters.vif_name.clone();
        vr.parameters.interface = phys;
        vr.parameters.vif_name = vif;
    } else {
        actions.push(Action::RestoreMac(vr.parameters.ifmac));
        actions.push(Action::RemoveVip(vr.parameters.vip, vr.parameters.ipmasks[0]));
    }
    if vr.flags.rtset {
        actions.push(Action::RemoveRoutes);
        vr.flags.rtset = false;
    }
    proof {
        assert(final(vr)@ =~= spec_master_exit_state(pre));
        assert(actions@ =~= old(actions)@ + spec_master_exit_actions(pre));
    }
}

/// Consume one event: update the virtual router per the transition function
/// and return the ordered host actions to perform.
pub fn handle_event(vr: &mut VirtualRouter, event: Event) -> (actions: Vec<Action>)
    requires
        old(vr).wf(),
    ensures
        final(vr).wf(),
        final(vr)@ == spec_step(old(vr)@, event).0,
        actions@ == spec_step(old(vr)@, event).1,
{
    let ghost pre = vr@;
    let mut actions: Vec<Action> = Vec::new();
    match vr.states {
        States::Down => {},
        States::Init => match event {
            Event::Startup => {
                let vip = vr.parameters.vip;
                let owner = vr.is_owner_vip(&vip);
                if owner || vr.parameters.prio == 255 {
                    vr.parameters.prio = 255;
                    proof {
                        assert(vr@ =~= (VrState { prio: 255u8, ..pre }));
                    }
                    master_entry(vr, &mut actions);
                } else {
                    vr.timers.master_down = vr.parameters.master_down;
                    vr.states = States::Backup;
                    proof {
                        assert(vr@ =~= spec_step(pre, event).0);
                    }
                }
            },
            Event::Shutdown => {
                vr.states = States::Down;
                proof {
                    assert(vr@ =~= spec_step(pre, event).0);
                }
            },
            _ => {},
        },
        States::Backup => match event {
            Event::Advert(_src, prio) => {
                if prio == 0 {
                    vr.timers.master_down = vr.parameters.skew_time;
                    proof {
                        assert(vr@ =~= spec_step(pre, event).0);
                    }
                } else if !vr.parameters.preempt_mode || prio >= vr.parameters.prio {
                    vr.timers.master_down = vr.parameters.master_down;
                    vr.flags.down = 0;
                    proof {
                        assert(vr@ =~= spec_step(pre, event).0);
                    }
                }
            },
            Event::MasterDownExpiry => {
                vr.flags.down = 1;
                proof {
                    assert(vr@ =~= spec_step(pre, event).0);
                }
            },
            Event::MasterDown => {
                master_entry(vr, &mut actions);
            },
            Event::Shutdown => {
                vr.timers.master_down = 0;
                vr.states = States::Down;
                proof {
                    assert(vr@ =~= spec_step(pre, event).0);
                }
            },
            _ => {},
        },
        States::Master => match event {
            Event::GenAdvert => {
                actions.push(Action::SendAdvert(vr.parameters.prio));
                vr.timers.advert = vr.parameters.adverint;
                proof {
                    assert(vr@ =~= spec_step(pre, event).0);
                    assert(actions@ =~= spec_step(pre, event).1);
                }
            },
            Event::Advert(src, prio) => {
                if prio == 0 {
                    actions.push(Action::SendAdvert(vr.parameters.prio));
                    vr.timers.advert = vr.parameters.adverint;
                    proof {
                        assert(vr@ =~= spec_step(pre, event).0);
                        assert(actions@ =~= spec_step(pre, event).1);
                    }
                } else {
                    let demote = prio > vr.parameters.prio || (prio == vr.parameters.prio
                        && is_primary_higher(&src, &vr.parameters.ipaddrs[0]));
                    if demote {
                        master_exit(vr, &mut actions);
                        vr.states = States::Backup;
                        vr.timers.advert = 0;
                        vr.timers.master_down = vr.parameters.master_down;
                        vr.flags.down = 0;
                        proof {
                            assert(vr@ =~= spec_step(pre, event).0);
                        }
                    }
                }
            },
            Event::Shutdown => {
                vr.timers.advert = 0;
                vr.parameters.prio = 0;
                actions.push(Action::SendAdvert(0));
                proof {
                    assert(vr@ =~= (VrState { prio: 0u8, advert_timer: 0u8, ..pre }));
                }
                master_exit(vr, &mut actions);
                vr.states = States::Down;
                proof {
                    assert(vr@ =~= spec_step(pre, event).0);
                    assert(actions@ =~= spec_step(pre, event).1);
                }
            },
            _ => {},
        },
    }
    actions
}

/// Observable host state the actions act upon: the interface MAC, whether
/// the VIP is installed, whether a MAC-VLAN child exists, and whether the
/// static routes are installed.
pub ghost struct AdapterModel {
    pub if_mac: [u8; 6],
    pub vip_present: bool,
    pub macvlan_present: bool,
    pub routes_present: bool,
}

/// Effect of one action on the host. Deleting the MAC-VLAN child takes its
/// addresses, the VIP among them, away with it. Frame emissions change no
/// host state.
pub open spec fn apply_action(a: AdapterModel, act: Action) -> AdapterModel {
    match act {
        Action::SetMac(m) => AdapterModel { if_mac: m, ..a },
        Action::RestoreMac(m) => AdapterModel { if_mac: m, ..a },
        Action::CreateMacvlan(_m) => AdapterModel { macvlan_present: true, ..a },
        Action::DeleteMacvlan(_i) => AdapterModel {
            macvlan_present: false,
            vip_present: false,
            ..a
        },
        Action::AddVip(_ip, _mask) => AdapterModel { vip_present: true, ..a },
        Action::RemoveVip(_ip, _mask) => AdapterModel { vip_present: false, ..a },
        Action::InstallRoutes => AdapterModel { routes_present: true, ..a },
        Action::RemoveRoutes => AdapterModel { routes_present: false, ..a },
        Action::SendAdvert(_p) => a,
        Action::BroadcastArp(_ip, _m) => a,
    }
}

/// Effect of a list of actions, applied in order.
pub open spec fn apply_actions(a: AdapterModel, acts: Seq<Action>) -> AdapterModel
    decreases acts.len(),
{
    if acts.len() == 0 {
        a
    } else {
        apply_actions(apply_action(a, acts[0]), acts.skip(1))
    }
}

proof fn lemma_apply_actions_append(a: AdapterModel, s1: Seq<Action>, s2: Seq<Action>)
    ensures
        apply_actions(a, s1 + s2) == apply_actions(apply_actions(a, s1), s2),
    decreases s1.len(),
{
    if s1.len() == 0 {
        assert(s1 + s2 =~= s2);
    } else {
        assert((s1 + s2).skip(1) =~= s1.skip(1) + s2);
        lemma_apply_actions_append(apply_action(a, s1[0]), s1.skip(1), s2);
    }
}

proof fn lemma_apply_one(a: AdapterModel, act: Action)
    ensures
        apply_actions(a, seq![act]) == apply_action(a, act),
{
    let s = seq![act];
    assert(s.len() == 1 && s[0] == act);
    assert(s.skip(1) =~= Seq::<Action>::empty());
    assert(apply_actions(apply_action(a, act), Seq::<Action>::empty()) == apply_action(a, act));
}

proof fn lemma_apply_two(a: AdapterModel, x: Action, y: Action)
    ensures
        apply_actions(a, seq![x, y]) == apply_action(apply_action(a, x), y),
{
    assert(seq![x, y].skip(1) =~= seq![y]);
    lemma_apply_one(apply_action(a, x), y);
}

/// What the host looks like after the Master-entry actions.
proof fn lemma_entry_effect(a: AdapterModel, vr: VrState)
    requires
        vr.wf(),
    ensures
        apply_actions(a, spec_master_entry_actions(vr)) == (AdapterModel {
            if_mac: if vr.iftype == IfTypes::macvlan {
                a.if_mac
            } else {
                vr.vmac
            },
            vip_present: true,
            macvlan_present: if vr.iftype == IfTypes::macvlan {
                true
            } else {
                a.macvlan_present
            },
            routes_present: if vr.rtset {
                a.routes_present
            } else {
                true
            },
        }),
{
    let head = if vr.iftype == IfTypes::macvlan {
        seq![Action::CreateMacvlan(vr.vmac)]
    } else {
        seq![Action::SetMac(vr.vmac)]
    };
    let routes = if vr.rtset {
        Seq::<Action>::empty()
    } else {
        seq![Action::InstallRoutes]
    };
    let mid = seq![Action::AddVip(vr.vip, vr.ipmasks[0])];
    let tail = seq![Action::SendAdvert(vr.prio), Action::BroadcastArp(vr.vip, vr.vmac)];
    assert(spec_master_entry_actions(vr) == head + mid + routes + tail);
    lemma_apply_actions_append(a, head + mid + routes, tail);
    lemma_apply_actions_append(a, head + mid, routes);
    lemma_apply_actions_append(a, head, mid);
    let a1 = apply_actions(a, head);
    if vr.iftype == IfTypes::macvlan {
        lemma_apply_one(a, Action::CreateMacvlan(vr.vmac));
        assert(a1 == (AdapterModel { macvlan_present: true, ..a }));
    } else {
        lemma_apply_one(a, Action::SetMac(vr.vmac));
        assert(a1 == (AdapterModel { if_mac: vr.vmac, ..a }));
    }
    lemma_apply_one(a1, Action::AddVip(vr.vip, vr.ipmasks[0]));
    let a2 = apply_actions(a1, mid);
    assert(a2 == (AdapterModel { vip_present: true, ..a1 }));
    let a3 = apply_actions(a2, routes);
    if !vr.rtset {
        lemma_apply_one(a2, Action::InstallRoutes);
        assert(a3 == (AdapterModel { routes_present: true, ..a2 }));
    } else {
        assert(apply_actions(a2, Seq::<Action>::empty()) == a2);
        assert(a3 == a2);
    }
    lemma_apply_two(a3, Action::SendAdvert(vr.prio), Action::BroadcastArp(vr.vip, vr.vmac));
    assert(apply_actions(a3, tail) == a3);
    assert(apply_actions(a, spec_master_entry_actions(vr)) == a3);
}

/// What the host looks like after the Master-exit actions.
proof fn lemma_exit_effect(a: AdapterModel, vr: VrState)
    requires
        vr.wf(),
    ensures
        apply_actions(a, spec_master_exit_actions(vr)) == (AdapterModel {
            if_mac: if vr.iftype == IfTypes::macvlan {
                a.if_mac
            } else {
                vr.if_mac
            },
            vip_present: false,
            macvlan_present: if vr.iftype == IfTypes::macvlan {
                false
            } else {
                a.macvlan_present
            },
            routes_present: if vr.rtset {
                false
            } else {
                a.routes_present
            },
        }),
{
    let head = if vr.iftype == IfTypes::macvlan {
        seq![Action::DeleteMacvlan(vr.vif_idx)]
    } else {
        seq![Action::RestoreMac(vr.if_mac), Action::RemoveVip(vr.vip, vr.ipmasks[0])]
    };
    let routes = if vr.rtset {
        seq![Action::RemoveRoutes]
    } else {
        Seq::<Action>::empty()
    };
    lemma_apply_actions_append(a, head, routes);
    let a1 = apply_actions(a, head);
    if vr.iftype == IfTypes::macvlan {
        lemma_apply_one(a, head[0]);
        assert(head =~= seq![head[0]]);
    } else {
        lemma_apply_two(a, head[0], head[1]);
        assert(head =~= seq![head[0], head[1]]);
    }
    if vr.rtset {
        lemma_apply_one(a1, Action::RemoveRoutes);
        assert(routes =~= seq![Action::RemoveRoutes]);
    }
}

/// Law: a virtual router with priority below 255 that does not own the VIP
/// moves from Init to Backup on Startup, arms the master-down timer with the
/// full master-down interval, and touches nothing on the host.
pub proof fn lemma_startup_to_backup(vr: VrState)
    requires
        vr.wf(),
        vr.state == States::Init,
        vr.prio < 255,
        !spec_owns_vip(vr),
    ensures
        spec_step(vr, Event::Startup).0.state == States::Backup,
        spec_step(vr, Event::Startup).0.master_down_timer == vr.master_down_interval,
        spec_step(vr, Event::Startup).1 =~= Seq::<Action>::empty(),
{
}

/// Law: a Master that receives a priority-zero advertisement stays Master,
/// and its very first resulting side effect is one advertisement send.
pub proof fn lemma_master_zero_priority_advert(vr: VrState, src: [u8; 4])
    requires
        vr.wf(),
        vr.state == States::Master,
    ensures
        spec_step(vr, Event::Advert(src, 0)).0.state == States::Master,
        spec_step(vr, Event::Advert(src, 0)).1 =~= seq![Action::SendAdvert(vr.prio)],
        spec_step(vr, Event::Advert(src, 0)).0.advert_timer == vr.adverint,
{
}

/// Law: driving a fresh router through Startup and then Shutdown leaves the
/// observable host state exactly as it was: the saved MAC is back, the VIP
/// is gone, no MAC-VLAN child remains, and the routes this router installed
/// are withdrawn.
pub proof fn lemma_startup_shutdown_restores_adapter(vr: VrState, a0: AdapterModel)
    requires
        vr.wf(),
        vr.state == States::Init,
        vr.rtset == false,
        a0.if_mac == vr.if_mac,
        !a0.vip_present,
        !a0.macvlan_present,
        !a0.routes_present,
    ensures
        ({
            let s1 = spec_step(vr, Event::Startup);
            let s2 = spec_step(s1.0, Event::Shutdown);
            &&& s2.0.state == States::Down
            &&& apply_actions(apply_actions(a0, s1.1), s2.1) == a0
        }),
{
    let s1 = spec_step(vr, Event::Startup);
    let s2 = spec_step(s1.0, Event::Shutdown);
    if spec_owns_vip(vr) || vr.prio == 255 {
        let forced = VrState { prio: 255u8, ..vr };
        let v1 = spec_master_entry_state(forced);
        assert(s1.0 == v1);
        lemma_entry_effect(a0, forced);
        let a1 = apply_actions(a0, s1.1);
        // v1 is Master; Shutdown resigns, sends one advertisement, and
        // undoes the entry.
        let resigned = VrState { prio: 0u8, advert_timer: 0u8, ..v1 };
        assert(s2.1 == seq![Action::SendAdvert(0u8)] + spec_master_exit_actions(resigned));
        lemma_apply_actions_append(a1, seq![Action::SendAdvert(0u8)], spec_master_exit_actions(resigned));
        lemma_apply_one(a1, Action::SendAdvert(0u8));
        lemma_exit_effect(a1, resigned);
        assert(apply_actions(a1, s2.1) =~= a0);
    } else {
        // Backup path: no host actions either way.
        assert(s1.1 =~= Seq::<Action>::empty());
        assert(s2.1 =~= Seq::<Action>::empty());
    }
}

} // verus!
