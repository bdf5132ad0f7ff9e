//! Configuration getters: defaults, codes, parsed addresses and derived
//! names.

use rvrrpd::config::{CfgType, Static, Timers, VRConfig};
use rvrrpd::drivers::{IfTypes, NetDrivers};
use rvrrpd::Config;

fn base_vr() -> VRConfig {
    VRConfig {
        group: 5,
        interface: "eth0".to_string(),
        vip: None,
        priority: None,
        preemption: None,
        auth_type: None,
        auth_secret: None,
        timers: None,
        rfc3768: None,
        netdrv: None,
        iftype: None,
        vifname: None,
        socket_filter: None,
    }
}

#[test]
fn vrconfig_defaults() {
    let vr = base_vr();
    assert_eq!(vr.group(), 5);
    assert_eq!(vr.priority(), 100);
    assert!(!vr.preemption());
    assert_eq!(vr.auth_type(), 0);
    assert!(vr.rfc3768());
    assert_eq!(vr.timer_advert(), 1);
    assert!(matches!(vr.netdrv(), NetDrivers::libnl));
    assert!(matches!(vr.iftype(), IfTypes::ether));
    assert!(vr.socket_filter());
    assert_eq!(vr.vifname(), b"standby5".to_vec());
    assert_eq!(vr.vip(), None);
}

#[test]
fn vrconfig_parses_and_maps() {
    let mut vr = base_vr();
    vr.vip = Some("192.168.100.1".to_string());
    vr.priority = Some(254);
    vr.auth_type = Some("p0-t8-sha256".to_string());
    vr.auth_secret = Some("topsecret".to_string());
    vr.netdrv = Some("ioctl".to_string());
    vr.iftype = Some("macvlan".to_string());
    vr.vifname = Some("vrrp0".to_string());
    vr.timers = Some(Timers { advert: 5 });
    vr.rfc3768 = Some(false);
    assert_eq!(vr.vip(), Some([192, 168, 100, 1]));
    assert_eq!(vr.priority(), 254);
    assert_eq!(vr.auth_type(), 250);
    assert_eq!(vr.auth_secret(), Some(b"topsecret".to_vec()));
    // A keyed type forces compatibility mode even when configured off.
    assert!(vr.rfc3768());
    // A MAC-VLAN interface forces the netlink driver.
    assert!(matches!(vr.netdrv(), NetDrivers::libnl));
    assert!(matches!(vr.iftype(), IfTypes::macvlan));
    assert_eq!(vr.vifname(), b"vrrp0".to_vec());
    assert_eq!(vr.timer_advert(), 5);
}

#[test]
fn simple_secret_keeps_eight_bytes() {
    let mut vr = base_vr();
    vr.auth_type = Some("rfc2338-simple".to_string());
    vr.auth_secret = Some("longpassword".to_string());
    assert_eq!(vr.auth_secret(), Some(b"longpass".to_vec()));
    assert_eq!(vr.auth_type(), 1);
    vr.auth_secret = Some("shrt".to_string());
    assert_eq!(vr.auth_secret(), Some(b"shrt".to_vec()));
    vr.auth_type = Some("p1-b8-shake256".to_string());
    assert_eq!(vr.auth_type(), 251);
}

#[test]
fn bad_vip_is_rejected() {
    let mut vr = base_vr();
    vr.vip = Some("300.1.2.3".to_string());
    assert_eq!(vr.vip(), None);
    vr.vip = Some("10.0.0".to_string());
    assert_eq!(vr.vip(), None);
}

#[test]
fn static_route_parsing() {
    let st = Static {
        route: "10.0.0.0".to_string(),
        mask: "255.255.255.0".to_string(),
        nh: "192.168.1.1".to_string(),
        metric: Some(20),
        mtu: Some(1500),
    };
    assert_eq!(st.route(), Some([10, 0, 0, 0]));
    assert_eq!(st.mask(), Some([255, 255, 255, 0]));
    assert_eq!(st.nh(), Some([192, 168, 1, 1]));
    assert_eq!(st.metric(), 20);
    assert_eq!(st.mtu(), 1500);
    let st = Static {
        route: "not-an-ip".to_string(),
        mask: "255.0.0.0".to_string(),
        nh: "10.0.0.1".to_string(),
        metric: None,
        mtu: None,
    };
    assert_eq!(st.route(), None);
    assert_eq!(st.metric(), 0);
    assert_eq!(st.mtu(), 0);
}

#[test]
fn library_config_getters() {
    let cfg = Config::new(
        Some("eth0".to_string()),
        1,
        None,
        Some(3),
        Some("json".to_string()),
    );
    assert_eq!(cfg.iface(), "eth0");
    assert_eq!(*cfg.mode(), 1);
    assert_eq!(cfg.conf(), "/etc/rvrrpd/rvrrpd.conf");
    assert_eq!(cfg.debug(), Some(3));
    assert!(matches!(cfg.cfg_format(), CfgType::Json));
    let cfg = Config::new(None, 0, Some("/tmp/x.conf".to_string()), None, None);
    assert_eq!(cfg.iface(), "");
    assert_eq!(cfg.conf(), "/tmp/x.conf");
    assert!(matches!(cfg.cfg_format(), CfgType::Toml));
}
