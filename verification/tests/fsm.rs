//! State machine scenarios: startup as owner and as backup, election,
//! preemption, resignation, tie-break, and shutdown rollback.

use rvrrpd::drivers::{IfTypes, NetDrivers};
use rvrrpd::fsm::{handle_event, is_primary_higher, Action, Event, States};
use rvrrpd::protocols::Protocols;
use rvrrpd::timers::{is_advert_disabled, is_master_down_disabled, master_down_tick};
use rvrrpd::vrouter::{VirtualRouter, VrError};

fn make_vr(
    vrid: u8,
    prio: u8,
    vip: [u8; 4],
    ipaddrs: Vec<[u8; 4]>,
    preempt: bool,
    auth_type: u8,
    auth_secret: Option<Vec<u8>>,
) -> VirtualRouter {
    let masks = vec![[255, 255, 255, 0]; ipaddrs.len()];
    VirtualRouter::new(
        vrid,
        "eth0".to_string(),
        3,
        prio,
        vip,
        ipaddrs,
        masks,
        [0xaa, 0xbb, 0xcc, 0xdd, 0xee, 0xff],
        1,
        preempt,
        true,
        auth_type,
        auth_secret,
        Protocols { static_routes: None },
        NetDrivers::libnl,
        IfTypes::ether,
        "standby0".to_string(),
        -1,
        false,
    )
    .expect("the router constructs")
}

#[test]
fn construction_needs_an_address() {
    let r = VirtualRouter::new(
        1,
        "eth0".to_string(),
        3,
        100,
        [10, 0, 0, 1],
        vec![],
        vec![],
        [0; 6],
        1,
        false,
        true,
        0,
        None,
        Protocols { static_routes: None },
        NetDrivers::libnl,
        IfTypes::ether,
        "standby0".to_string(),
        -1,
        false,
    );
    assert!(matches!(r, Err(VrError::NoIpAddress)));
}

#[test]
fn derived_timers() {
    let vr = make_vr(5, 100, [192, 168, 1, 254], vec![[192, 168, 1, 2]], false, 0, None);
    // Skew time (256 - 100)/256 s and master-down interval 3 + skew, in
    // 1/256 s units.
    assert_eq!(vr.parameters.skewtime(), 156);
    assert_eq!(vr.parameters.master_down(), 3 * 256 + 156);
}

#[test]
fn vip_owner_startup() {
    // VIP owner: priority forced to 255, straight to Master, with the MAC
    // takeover, the VIP add, one advertisement and a gratuitous ARP.
    let mut vr = make_vr(10, 100, [10, 0, 0, 1], vec![[10, 0, 0, 1]], false, 0, None);
    let actions = handle_event(&mut vr, Event::Startup);
    assert!(matches!(vr.get_states(), States::Master));
    assert_eq!(vr.parameters.prio(), 255);
    assert!(matches!(actions[0], Action::SetMac([0x00, 0x00, 0x5e, 0x00, 0x01, 0x0a])));
    assert!(matches!(actions[1], Action::AddVip([10, 0, 0, 1], [255, 255, 255, 0])));
    assert!(matches!(actions[2], Action::InstallRoutes));
    assert!(matches!(actions[3], Action::SendAdvert(255)));
    assert!(matches!(actions[4], Action::BroadcastArp([10, 0, 0, 1], _)));
    assert_eq!(vr.timers.advert(), 1);

    // The frame it sends.
    let b = vr.advert_frame();
    assert_eq!(&b[6..12], &[0x00, 0x00, 0x5e, 0x00, 0x01, 0x0a]);
    assert_eq!(&b[26..30], &[10, 0, 0, 1]);
    assert_eq!(&b[30..34], &[224, 0, 0, 18]);
    assert_eq!(b[35], 10);
    assert_eq!(b[36], 255);
    assert_eq!(b[39], 1);
}

#[test]
fn backup_election() {
    // A non-owner goes Backup; with no advertisements, the second
    // master-down tick elects it Master.
    let mut vr = make_vr(5, 100, [192, 168, 1, 254], vec![[192, 168, 1, 2]], false, 0, None);
    let actions = handle_event(&mut vr, Event::Startup);
    assert!(matches!(vr.get_states(), States::Backup));
    assert!(actions.is_empty());
    assert_eq!(vr.timers.master_down(), 924);
    assert!(is_master_down_disabled(&vr));

    // A fresh router starts with the down flag clear: the first tick only
    // sets it, the second elects.
    assert_eq!(vr.flags.get_down_flag(), 0);
    let e1 = master_down_tick(&vr.flags);
    assert!(matches!(e1, Event::MasterDownExpiry));
    let a1 = handle_event(&mut vr, e1);
    assert!(a1.is_empty());
    assert!(matches!(vr.get_states(), States::Backup));
    assert_eq!(vr.flags.get_down_flag(), 1);

    let e2 = master_down_tick(&vr.flags);
    assert!(matches!(e2, Event::MasterDown));
    let a2 = handle_event(&mut vr, e2);
    assert!(matches!(vr.get_states(), States::Master));
    assert!(a2.iter().any(|a| matches!(a, Action::SendAdvert(100))));
    assert!(a2.iter().any(|a| matches!(a, Action::AddVip(_, _))));
}

#[test]
fn preemption_refused() {
    // preempt off: a lower-priority master's advertisement still resets the
    // timer and clears the flag.
    let mut vr = make_vr(7, 150, [192, 168, 1, 254], vec![[192, 168, 1, 2]], false, 0, None);
    handle_event(&mut vr, Event::Startup);
    assert!(matches!(vr.get_states(), States::Backup));
    vr.timers.master_down = 1;
    vr.flags.set_down_flag();
    let actions = handle_event(&mut vr, Event::Advert([192, 168, 1, 3], 120));
    assert!(actions.is_empty());
    assert!(matches!(vr.get_states(), States::Backup));
    assert_eq!(vr.timers.master_down(), vr.parameters.master_down());
    assert_eq!(vr.flags.get_down_flag(), 0);
}

#[test]
fn preemption_ignores_lower_priority() {
    // preempt on: a lower-priority advertisement is ignored.
    let mut vr = make_vr(7, 150, [192, 168, 1, 254], vec![[192, 168, 1, 2]], true, 0, None);
    handle_event(&mut vr, Event::Startup);
    vr.timers.master_down = 17;
    let actions = handle_event(&mut vr, Event::Advert([192, 168, 1, 3], 120));
    assert!(actions.is_empty());
    assert_eq!(vr.timers.master_down(), 17);
}

#[test]
fn zero_priority_advert_accelerates_election() {
    let mut vr = make_vr(7, 150, [192, 168, 1, 254], vec![[192, 168, 1, 2]], false, 0, None);
    handle_event(&mut vr, Event::Startup);
    let actions = handle_event(&mut vr, Event::Advert([192, 168, 1, 3], 0));
    assert!(actions.is_empty());
    assert_eq!(vr.timers.master_down(), vr.parameters.skewtime());
}

#[test]
fn priority_zero_resignation() {
    // A Master that sees a priority-zero advertisement answers with exactly
    // one immediate advertisement and stays Master.
    let mut vr = make_vr(10, 100, [10, 0, 0, 1], vec![[10, 0, 0, 1]], false, 0, None);
    handle_event(&mut vr, Event::Startup);
    assert!(matches!(vr.get_states(), States::Master));
    let actions = handle_event(&mut vr, Event::Advert([10, 0, 0, 9], 0));
    assert_eq!(actions.len(), 1);
    assert!(matches!(actions[0], Action::SendAdvert(255)));
    assert!(matches!(vr.get_states(), States::Master));
}

#[test]
fn tie_break_on_primary_ip() {
    // Equal priority: the byte-wise greater source address wins.
    assert!(is_primary_higher(&[10, 0, 0, 6], &[10, 0, 0, 5]));
    assert!(!is_primary_higher(&[10, 0, 0, 5], &[10, 0, 0, 6]));
    assert!(!is_primary_higher(&[10, 0, 0, 5], &[10, 0, 0, 5]));
    assert!(!is_primary_higher(&[1, 0, 0, 200], &[2, 0, 0, 1]));

    let mut vr = make_vr(9, 100, [10, 0, 0, 99], vec![[10, 0, 0, 5]], false, 0, None);
    handle_event(&mut vr, Event::Startup);
    assert!(matches!(vr.get_states(), States::Backup));
    handle_event(&mut vr, Event::MasterDown);
    assert!(matches!(vr.get_states(), States::Master));
    let actions = handle_event(&mut vr, Event::Advert([10, 0, 0, 6], 100));
    assert!(matches!(vr.get_states(), States::Backup));
    assert!(actions.iter().any(|a| matches!(a, Action::RestoreMac(_))));
    assert!(actions.iter().any(|a| matches!(a, Action::RemoveVip(_, _))));
    assert_eq!(vr.timers.advert(), 0);
    assert!(!is_advert_disabled(&vr));
}

#[test]
fn startup_shutdown_rolls_back() {
    // After Startup and Shutdown the exit actions mirror the entry actions.
    let mut vr = make_vr(10, 100, [10, 0, 0, 1], vec![[10, 0, 0, 1]], false, 0, None);
    handle_event(&mut vr, Event::Startup);
    let actions = handle_event(&mut vr, Event::Shutdown);
    assert!(matches!(vr.get_states(), States::Down));
    assert_eq!(vr.parameters.prio(), 0);
    assert!(matches!(actions[0], Action::SendAdvert(0)));
    assert!(matches!(actions[1], Action::RestoreMac([0xaa, 0xbb, 0xcc, 0xdd, 0xee, 0xff])));
    assert!(matches!(actions[2], Action::RemoveVip([10, 0, 0, 1], _)));
    assert!(matches!(actions[3], Action::RemoveRoutes));
    assert_eq!(actions.len(), 4);
    // Down is terminal: further events do nothing.
    let more = handle_event(&mut vr, Event::Startup);
    assert!(more.is_empty());
    assert!(matches!(vr.get_states(), States::Down));
}

#[test]
fn backup_shutdown_cancels_timer() {
    let mut vr = make_vr(5, 100, [192, 168, 1, 254], vec![[192, 168, 1, 2]], false, 0, None);
    handle_event(&mut vr, Event::Startup);
    let actions = handle_event(&mut vr, Event::Shutdown);
    assert!(actions.is_empty());
    assert!(matches!(vr.get_states(), States::Down));
    assert_eq!(vr.timers.master_down(), 0);
    assert!(!is_master_down_disabled(&vr));
}

#[test]
fn macvlan_entry_and_exit_swap_interfaces() {
    let masks = vec![[255, 255, 255, 0]];
    let mut vr = VirtualRouter::new(
        3,
        "eth1".to_string(),
        4,
        100,
        [10, 1, 0, 1],
        vec![[10, 1, 0, 1]],
        masks,
        [2, 2, 2, 2, 2, 2],
        1,
        false,
        true,
        0,
        None,
        Protocols { static_routes: None },
        NetDrivers::libnl,
        IfTypes::macvlan,
        "standby3".to_string(),
        -1,
        false,
    )
    .expect("the router constructs");
    let actions = handle_event(&mut vr, Event::Startup);
    assert!(matches!(actions[0], Action::CreateMacvlan(_)));
    assert_eq!(vr.parameters.interface(), "standby3");
    assert_eq!(vr.parameters.vifname(), "eth1");
    let actions = handle_event(&mut vr, Event::Shutdown);
    assert!(actions.iter().any(|a| matches!(a, Action::DeleteMacvlan(_))));
    assert_eq!(vr.parameters.interface(), "eth1");
    assert_eq!(vr.parameters.vifname(), "standby3");
}

#[test]
fn gen_advert_header_fields() {
    let vr = make_vr(10, 100, [10, 0, 0, 1], vec![[10, 0, 0, 1]], false, 0, None);
    let pkt = rvrrpd::packets::VRRPpkt::gen_advert(&vr);
    assert_eq!(pkt._dst_mac(), &[0x01, 0x00, 0x5e, 0x00, 0x00, 0x12]);
    assert_eq!(pkt._src_mac(), &[0x00, 0x00, 0x5e, 0x00, 0x01, 0x0a]);
    assert_eq!(*pkt._ethertype(), 0x0800);
    assert_eq!(*pkt.ipttl(), 255);
    assert_eq!(*pkt.ipproto(), 112);
    assert_eq!(pkt.ipsrc(), &[10, 0, 0, 1]);
    assert_eq!(pkt.ipdst(), &[224, 0, 0, 18]);
    assert_eq!(*pkt.version(), 0x21);
    assert_eq!(*pkt.vrid(), 10);
    assert_eq!(*pkt.prio(), 100);
    assert_eq!(*pkt.addrcount(), 1);
    assert_eq!(*pkt.checksum(), 0);
    // The size-checked count getter.
    assert_eq!(pkt.s_addrcount(54), 1);
    assert_eq!(pkt.s_addrcount(60), 0);
}

#[test]
fn compatibility_mode_advertises_exactly_the_vip() {
    // Under RFC 2338 compatibility the count is 1 whatever the number of
    // local addresses, and the frame carries the VIP alone.
    let vr = make_vr(9, 100, [10, 0, 0, 99], vec![[10, 0, 0, 5], [10, 0, 0, 6]], false, 0, None);
    assert_eq!(vr.parameters.addrcount(), 1);
    let pkt = rvrrpd::packets::VRRPpkt::gen_advert(&vr);
    assert_eq!(*pkt.addrcount(), 1);
    assert_eq!(pkt.iplength, 40);
    let b = vr.advert_frame();
    assert_eq!(b.len(), 54);
    assert_eq!(b[37], 1);
    assert_eq!(&b[42..46], &[10, 0, 0, 99]);
}

#[test]
fn fresh_router_has_the_down_flag_clear() {
    let vr = make_vr(9, 100, [10, 0, 0, 99], vec![[10, 0, 0, 5]], false, 0, None);
    assert_eq!(vr.flags.get_down_flag(), 0);
    assert!(matches!(master_down_tick(&vr.flags), Event::MasterDownExpiry));
}

#[test]
fn gratuitous_arp_frame() {
    let vr = make_vr(10, 100, [10, 0, 0, 1], vec![[10, 0, 0, 1]], false, 0, None);
    let f = rvrrpd::arp::ARPframe::gratuitous(&vr);
    assert_eq!(f.sender_proto_addr, [10, 0, 0, 1]);
    assert_eq!(f.target_proto_addr, [10, 0, 0, 1]);
    assert_eq!(f.sender_hw_addr, [0x00, 0x00, 0x5e, 0x00, 0x01, 0x0a]);
    assert_eq!(f.target_hw_addr, [0xff; 6]);
    let b = rvrrpd::arp::arp_frame_bytes(&f);
    assert_eq!(b.len(), 42);
    assert_eq!(&b[0..6], &[0xff; 6]);
    assert_eq!(&b[12..14], &[0x08, 0x06]);
    assert_eq!(&b[14..22], &[0x00, 0x01, 0x08, 0x00, 6, 4, 0x00, 0x01]);
    assert_eq!(&b[22..28], &[0x00, 0x00, 0x5e, 0x00, 0x01, 0x0a]);
    assert_eq!(&b[28..32], &[10, 0, 0, 1]);
    assert_eq!(&b[38..42], &[10, 0, 0, 1]);
}

#[test]
fn socket_filter_carries_the_group() {
    let f = rvrrpd::netfilter::SockFilter::new_vrrpv2_gid(42);
    assert_eq!(f.len(), 10);
    assert_eq!(f[7].k, 42);
    assert_eq!(f[0].code, 0x28);
    assert_eq!(f[9].k, 0);
}

#[test]
fn bpf_wordalign_rounds_up() {
    assert_eq!(rvrrpd::bpf::bpf_wordalign(0), 0);
    assert_eq!(rvrrpd::bpf::bpf_wordalign(1), 8);
    assert_eq!(rvrrpd::bpf::bpf_wordalign(8), 8);
    assert_eq!(rvrrpd::bpf::bpf_wordalign(9), 16);
}
