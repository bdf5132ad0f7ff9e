//! Receive-path validation against a configured router set, including the
//! authentication reject.

use rvrrpd::codec::{encode_advert, VrrpFrame};
use rvrrpd::dispatch::{find_vrouter, verify_vrrp_pkt};
use rvrrpd::drivers::{IfTypes, NetDrivers};
use rvrrpd::fsm::States;
use rvrrpd::protocols::Protocols;
use rvrrpd::vrouter::VirtualRouter;

fn make_vr(vrid: u8, ifindex: i32, auth_type: u8, auth_secret: Option<Vec<u8>>) -> VirtualRouter {
    VirtualRouter::new(
        vrid,
        "eth0".to_string(),
        ifindex,
        100,
        [10, 0, 0, 99],
        vec![[10, 0, 0, 5]],
        vec![[255, 255, 255, 0]],
        [1, 2, 3, 4, 5, 6],
        1,
        false,
        true,
        auth_type,
        auth_secret,
        Protocols { static_routes: None },
        NetDrivers::libnl,
        IfTypes::ether,
        "standby0".to_string(),
        -1,
        false,
    )
    .expect("the router constructs")
}

/// A peer's valid advertisement, built through a second router holding the
/// same configuration.
fn peer_frame(vrid: u8, auth_type: u8, auth_secret: Option<Vec<u8>>) -> Vec<u8> {
    let peer = VirtualRouter::new(
        vrid,
        "eth0".to_string(),
        7,
        110,
        [10, 0, 0, 99],
        vec![[10, 0, 0, 6]],
        vec![[255, 255, 255, 0]],
        [9, 9, 9, 9, 9, 9],
        1,
        false,
        true,
        auth_type,
        auth_secret,
        Protocols { static_routes: None },
        NetDrivers::libnl,
        IfTypes::ether,
        "standby0".to_string(),
        -1,
        false,
    )
    .expect("the peer constructs");
    peer.advert_frame()
}

#[test]
fn find_vrouter_matches_interface_and_vrid() {
    let vrs = vec![make_vr(1, 3, 0, None), make_vr(2, 3, 0, None), make_vr(2, 4, 0, None)];
    assert_eq!(find_vrouter(&vrs, 3, 2), Some(1));
    assert_eq!(find_vrouter(&vrs, 4, 2), Some(2));
    assert_eq!(find_vrouter(&vrs, 5, 2), None);
    assert_eq!(find_vrouter(&vrs, 3, 9), None);
}

#[test]
fn valid_advert_is_accepted() {
    let vrs = vec![make_vr(9, 3, 0, None)];
    let frame = peer_frame(9, 0, None);
    let r = verify_vrrp_pkt(3, &frame, &vrs);
    assert_eq!(r, Some((3, 9, [10, 0, 0, 6], 110)));
}

#[test]
fn advert_for_unknown_router_is_dropped() {
    let vrs = vec![make_vr(9, 3, 0, None)];
    let frame = peer_frame(8, 0, None);
    assert_eq!(verify_vrrp_pkt(3, &frame, &vrs), None);
    // Same VRID, wrong arrival interface.
    let frame = peer_frame(9, 0, None);
    assert_eq!(verify_vrrp_pkt(4, &frame, &vrs), None);
}

#[test]
fn advert_to_own_address_is_dropped() {
    let vrs = vec![make_vr(9, 3, 0, None)];
    // A frame addressed to one of the router's own addresses.
    let f = VrrpFrame {
        ipsrc: [10, 0, 0, 6],
        ipdst: [10, 0, 0, 5],
        vrid: 9,
        prio: 110,
        authtype: 0,
        adverint: 1,
        addrs: vec![[10, 0, 0, 99]],
        authdata: [0; 8],
    };
    let frame = encode_advert(&f);
    assert_eq!(verify_vrrp_pkt(3, &frame, &vrs), None);
}

#[test]
fn auth_type_mismatch_is_dropped() {
    let vrs = vec![make_vr(9, 3, 250, Some(b"topsecret".to_vec()))];
    let frame = peer_frame(9, 0, None);
    assert_eq!(verify_vrrp_pkt(3, &frame, &vrs), None);
}

#[test]
fn authentication_reject() {
    // Configured truncated-HMAC authentication; an inbound packet with
    // otherwise valid fields but an all-zero trailer is dropped and the
    // router state is untouched.
    let mut vrs = vec![make_vr(9, 3, 250, Some(b"topsecret".to_vec()))];
    let f = VrrpFrame {
        ipsrc: [10, 0, 0, 6],
        ipdst: [224, 0, 0, 18],
        vrid: 9,
        prio: 110,
        authtype: 250,
        adverint: 1,
        addrs: vec![[10, 0, 0, 99]],
        authdata: [0; 8],
    };
    let frame = encode_advert(&f);
    assert_eq!(verify_vrrp_pkt(3, &frame, &vrs), None);
    assert!(matches!(vrs[0].get_states(), States::Init));

    // The genuine trailer passes.
    let good = peer_frame(9, 250, Some(b"topsecret".to_vec()));
    let r = verify_vrrp_pkt(3, &good, &vrs);
    assert_eq!(r, Some((3, 9, [10, 0, 0, 6], 110)));
    // A wrong secret on the sender side fails.
    let bad = peer_frame(9, 250, Some(b"othersecret".to_vec()));
    assert_eq!(verify_vrrp_pkt(3, &bad, &vrs), None);
    let _ = &mut vrs;
}

#[test]
fn simple_authentication_checks_the_trailer() {
    let vrs = vec![make_vr(9, 3, 1, Some(b"plainpw".to_vec()))];
    let good = peer_frame(9, 1, Some(b"plainpw".to_vec()));
    assert!(verify_vrrp_pkt(3, &good, &vrs).is_some());
    let bad = peer_frame(9, 1, Some(b"otherpw".to_vec()));
    assert!(verify_vrrp_pkt(3, &bad, &vrs).is_none());
}

#[test]
fn advert_interval_mismatch_is_dropped() {
    let vrs = vec![make_vr(9, 3, 0, None)];
    let f = VrrpFrame {
        ipsrc: [10, 0, 0, 6],
        ipdst: [224, 0, 0, 18],
        vrid: 9,
        prio: 110,
        authtype: 0,
        adverint: 5,
        addrs: vec![[10, 0, 0, 99]],
        authdata: [0; 8],
    };
    let frame = encode_advert(&f);
    assert_eq!(verify_vrrp_pkt(3, &frame, &vrs), None);
}
