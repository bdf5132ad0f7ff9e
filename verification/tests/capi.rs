//! Client API answers built from the configuration and the live routers.

use rvrrpd::capi::{
    capi_req_cfg_global_all, capi_req_run_global_all, capi_req_run_proto_static,
    capi_req_run_vrrp_all, capi_req_run_vrrp_grp, capi_req_run_vrrp_grp_intf,
};
use rvrrpd::config::CConfig;
use rvrrpd::drivers::{IfTypes, NetDrivers};
use rvrrpd::protocols::{Protocols, Static};
use rvrrpd::vrouter::VirtualRouter;

fn make_vr(vrid: u8, iface: &str, routes: Option<Vec<Static>>) -> VirtualRouter {
    VirtualRouter::new(
        vrid,
        iface.to_string(),
        3,
        100,
        [10, 0, 0, 99],
        vec![[10, 0, 0, 5]],
        vec![[255, 255, 255, 0]],
        [1, 2, 3, 4, 5, 6],
        1,
        false,
        true,
        0,
        None,
        Protocols { static_routes: routes },
        NetDrivers::libnl,
        IfTypes::ether,
        "standby0".to_string(),
        -1,
        false,
    )
    .expect("the router constructs")
}

#[test]
fn global_attributes_follow_the_config() {
    let cfg = CConfig {
        debug: Some(2),
        time_zone: Some("utc".to_string()),
        time_format: Some("rfc2822".to_string()),
        pid: None,
        working_dir: Some("/var/lib/x".to_string()),
        main_log: None,
        error_log: None,
        vrouter: None,
        protocols: None,
        client_api: Some("http".to_string()),
        api: None,
    };
    let g = capi_req_run_global_all(&cfg);
    assert_eq!(g.debug, 2);
    assert_eq!(g.timezone, 1);
    assert_eq!(g.timestamp, 2);
    assert_eq!(g.pid, "/var/run/rvrrpd.pid");
    assert_eq!(g.working_dir, "/var/lib/x");
    assert_eq!(g.main_log, "/var/log/rvrrpd.log");
    assert!(cfg.client_api());
    assert_eq!(capi_req_cfg_global_all(&cfg).debug, Some(2));
}

#[test]
fn vrrp_attributes_list_every_router() {
    let vrs = vec![make_vr(1, "eth0", None), make_vr(2, "eth1", None)];
    let attrs = capi_req_run_vrrp_all(&vrs);
    assert_eq!(attrs.len(), 2);
    assert_eq!(attrs[0].group, 1);
    assert_eq!(attrs[0].virtual_ip, b"10.0.0.99".to_vec());
    assert_eq!(attrs[0].interface, "eth0");
    assert_eq!(attrs[0].priority, 100);
    assert!(!attrs[0].preempt);
    assert_eq!(attrs[0].state, "Init");
    assert_eq!(attrs[1].group, 2);
}

#[test]
fn vrrp_group_filter() {
    let vrs = vec![make_vr(1, "eth0", None), make_vr(2, "eth1", None), make_vr(1, "eth2", None)];
    let picked = capi_req_run_vrrp_grp(&vrs, 1).unwrap();
    assert_eq!(picked.len(), 2);
    assert_eq!(picked[0].interface, "eth0");
    assert_eq!(picked[1].interface, "eth2");
    let none = capi_req_run_vrrp_grp(&vrs, 9).unwrap();
    assert!(none.is_empty());
}

#[test]
fn vrrp_group_interface_lookup() {
    let vrs = vec![make_vr(1, "eth0", None), make_vr(1, "eth2", None)];
    let a = capi_req_run_vrrp_grp_intf(&vrs, 1, &"eth2".to_string()).unwrap();
    assert_eq!(a.interface, "eth2");
    assert!(capi_req_run_vrrp_grp_intf(&vrs, 1, &"eth9".to_string()).is_none());
    assert!(capi_req_run_vrrp_grp_intf(&vrs, 3, &"eth0".to_string()).is_none());
}

#[test]
fn static_routes_render_dotted() {
    let routes = vec![Static::new([10, 0, 0, 0], [255, 0, 0, 0], [192, 168, 1, 1], 20, 1500)];
    let vrs = vec![make_vr(1, "eth0", Some(routes))];
    let out = capi_req_run_proto_static(&vrs).unwrap();
    assert_eq!(out.len(), 1);
    assert_eq!(out[0].destination, b"10.0.0.0".to_vec());
    assert_eq!(out[0].mask, b"255.0.0.0".to_vec());
    assert_eq!(out[0].next_hop, b"192.168.1.1".to_vec());
    assert_eq!(out[0].metric, 20);
    assert_eq!(out[0].mtu, 1500);
    let bare = vec![make_vr(1, "eth0", None)];
    assert!(capi_req_run_proto_static(&bare).is_none());
}
