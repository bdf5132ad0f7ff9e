//! Configuration data as the file reader hands it over, and the getters
//! that turn the plain fields into protocol values: parsed addresses, coded
//! authentication types, derived defaults.

use crate::drivers::{IfTypes, NetDrivers};
use crate::textutil::{parse_ipv4, spec_dotted, u64_to_dec};
use vstd::prelude::*;
use vstd::utf8::encode_utf8;

verus! {

/// Configuration file format.
#[derive(Debug, Clone, Copy, PartialEq, Eq, Structural)]
pub enum CfgType {
    Toml,
    Json,
}

/// The whole configuration file.
pub struct CConfig {
    pub debug: Option<u8>,
    pub time_zone: Option<String>,
    pub time_format: Option<String>,
    pub pid: Option<String>,
    pub working_dir: Option<String>,
    pub main_log: Option<String>,
    pub error_log: Option<String>,
    pub vrouter: Option<Vec<VRConfig>>,
    pub protocols: Option<Protocols>,
    pub client_api: Option<String>,
    pub api: Option<API>,
}

impl CConfig {
    /// Debug level; informational by default.
    pub fn debug(&self) -> (r: u8)
        ensures
            r == match self.debug {
                Some(v) => v,
                None => 0u8,
            },
    {
        match self.debug {
            Some(v) => v,
            None => crate::constants::DEBUG_LEVEL_INFO,
        }
    }

    /// Time zone code: 1 for UTC, 0 for local time.
    pub fn time_zone(&self) -> (r: u8)
        ensures
            r == match self.time_zone {
                Some(s) => if s@ == "utc"@ {
                    1u8
                } else {
                    0u8
                },
                None => 0u8,
            },
    {
        match &self.time_zone {
            Some(s) => {
                if *s == "utc".to_owned() {
                    1
                } else {
                    0
                }
            },
            None => 0,
        }
    }

    /// Time format code: 0 disabled, 1 short, 2 RFC 2822.
    pub fn time_format(&self) -> (r: u8)
        ensures
            r == match self.time_format {
                Some(s) => if s@ == "short"@ {
                    1u8
                } else if s@ == "rfc2822"@ {
                    2u8
                } else {
                    0u8
                },
                None => 0u8,
            },
    {
        match &self.time_format {
            Some(s) => {
                if *s == "short".to_owned() {
                    1
                } else if *s == "rfc2822".to_owned() {
                    2
                } else {
                    0
                }
            },
            None => 0,
        }
    }

    /// PID file path, or the default.
    pub fn pid(&self) -> (r: String)
        ensures
            match self.pid {
                Some(v) => r@ == v@,
                None => r@ == "/var/run/rvrrpd.pid"@,
            },
    {
        match &self.pid {
            Some(v) => v.clone(),
            None => "/var/run/rvrrpd.pid".to_owned(),
        }
    }

    /// Working directory, or the default.
    pub fn working_dir(&self) -> (r: String)
        ensures
            match self.working_dir {
                Some(v) => r@ == v@,
                None => r@ == "/tmp"@,
            },
    {
        match &self.working_dir {
            Some(v) => v.clone(),
            None => "/tmp".to_owned(),
        }
    }

    /// Main log path, or the default.
    pub fn main_log(&self) -> (r: String)
        ensures
            match self.main_log {
                Some(v) => r@ == v@,
                None => r@ == "/var/log/rvrrpd.log"@,
            },
    {
        match &self.main_log {
            Some(v) => v.clone(),
            None => "/var/log/rvrrpd.log".to_owned(),
        }
    }

    /// Error log path, or the default.
    pub fn error_log(&self) -> (r: String)
        ensures
            match self.error_log {
                Some(v) => r@ == v@,
                None => r@ == "/var/log/rvrrpd-error.log"@,
            },
    {
        match &self.error_log {
            Some(v) => v.clone(),
            None => "/var/log/rvrrpd-error.log".to_owned(),
        }
    }

    /// Whether the client API is enabled: any configured value enables it.
    pub fn client_api(&self) -> (r: bool)
        ensures
            r == self.client_api is Some,
    {
        match &self.client_api {
            Some(_s) => true,
            None => false,
        }
    }
}

/// One virtual router's configuration.
pub struct VRConfig {
    pub group: u8,
    pub interface: String,
    pub vip: Option<String>,
    pub priority: Option<u8>,
    pub preemption: Option<bool>,
    pub auth_type: Option<String>,
    pub auth_secret: Option<String>,
    pub timers: Option<Timers>,
    pub rfc3768: Option<bool>,
    pub netdrv: Option<String>,
    pub iftype: Option<String>,
    pub vifname: Option<String>,
    pub socket_filter: Option<bool>,
}

impl VRConfig {
    /// The VRID; a group below 1 is configuration-invalid.
    pub fn group(&self) -> (r: u8)
        requires
            self.group >= 1,
        ensures
            r == self.group,
    {
        self.group
    }

    /// The interface name.
    pub fn interface(&self) -> (r: &String)
        ensures
            r == self.interface,
    {
        &self.interface
    }

    /// The virtual IP, parsed from its dotted-quad form; `None` when absent
    /// or not a canonical dotted quad.
    pub fn vip(&self) -> (r: Option<[u8; 4]>)
        ensures
            match (r, self.vip) {
                (Some(ip), Some(s)) => encode_utf8(s@) == spec_dotted(ip),
                (None, Some(s)) => forall|ip: [u8; 4]| encode_utf8(s@) != spec_dotted(ip),
                (None, None) => true,
                _ => false,
            },
    {
        match &self.vip {
            Some(s) => {
                let b = s.as_str().as_bytes();
                if b.len() >= 0x1000_0000 {
                    let ghost sv = encode_utf8(s@);
                    proof {
                        assert forall|ip: [u8; 4]| sv != spec_dotted(ip) by {
                            crate::textutil::lemma_dec_of_props(ip[0] as int);
                            crate::textutil::lemma_dec_of_props(ip[1] as int);
                            crate::textutil::lemma_dec_of_props(ip[2] as int);
                            crate::textutil::lemma_dec_of_props(ip[3] as int);
                        }
                    }
                    None
                } else {
                    parse_ipv4(b)
                }
            },
            None => None,
        }
    }

    /// The advertisement interval in seconds; 1 by default.
    pub fn timer_advert(&self) -> (r: u8)
        ensures
            r == match self.timers {
                Some(t) => t.advert,
                None => 1u8,
            },
    {
        match &self.timers {
            Some(t) => t.advert,
            None => 1,
        }
    }

    /// The priority; 100 by default. A configured value outside 1..=254 is
    /// configuration-invalid.
    pub fn priority(&self) -> (r: u8)
        requires
            self.priority matches Some(v) ==> 1 <= v <= 254,
        ensures
            r == match self.priority {
                Some(v) => v,
                None => 100u8,
            },
    {
        match self.priority {
            Some(v) => v,
            None => crate::constants::VRRP_V2_DEFAULT_PRIORITY,
        }
    }

    /// Whether preemption is enabled; off by default.
    pub fn preemption(&self) -> (r: bool)
        ensures
            r == match self.preemption {
                Some(b) => b,
                None => false,
            },
    {
        match self.preemption {
            Some(b) => b,
            None => false,
        }
    }

    /// The wire code of the configured authentication type. An unknown name
    /// is configuration-invalid.
    pub fn auth_type(&self) -> (r: u8)
        requires
            self.auth_type matches Some(s) ==> s@ == "rfc2338-simple"@ || s@ == "p0-t8-sha256"@
                || s@ == "p1-b8-shake256"@,
        ensures
            r == match self.auth_type {
                Some(s) => if s@ == "rfc2338-simple"@ {
                    1u8
                } else if s@ == "p0-t8-sha256"@ {
                    250u8
                } else {
                    251u8
                },
                None => 0u8,
            },
    {
        match &self.auth_type {
            Some(s) => {
                if *s == "rfc2338-simple".to_owned() {
                    crate::constants::AUTH_TYPE_SIMPLE
                } else if *s == "p0-t8-sha256".to_owned() {
                    crate::constants::AUTH_TYPE_P0
                } else {
                    proof {
                        assert(s@ == "p1-b8-shake256"@);
                    }
                    crate::constants::AUTH_TYPE_P1
                }
            },
            None => 0,
        }
    }

    /// The authentication secret as bytes; the plain scheme keeps only the
    /// first 8 bytes.
    pub fn auth_secret(&self) -> (r: Option<Vec<u8>>)
        requires
            self.auth_type matches Some(s) ==> s@ == "rfc2338-simple"@ || s@ == "p0-t8-sha256"@
                || s@ == "p1-b8-shake256"@,
        ensures
            match (r, self.auth_secret) {
                (Some(b), Some(cs)) => {
                    let full = encode_utf8(cs@);
                    if (match self.auth_type {
                        Some(s) => s@ == "rfc2338-simple"@,
                        None => false,
                    }) && full.len() > 8 {
                        b@ == full.take(8)
                    } else {
                        b@ == full
                    }
                },
                (None, None) => true,
                _ => false,
            },
    {
        match &self.auth_secret {
            Some(cs) => {
                let mut b = vstd::slice::slice_to_vec(cs.as_str().as_bytes());
                if self.auth_type_is_simple() {
                    if b.len() > 8 {
                        b.truncate(8);
                    }
                }
                Some(b)
            },
            None => None,
        }
    }

    /// Whether the configured type is the plain RFC 2338 scheme.
    fn auth_type_is_simple(&self) -> (r: bool)
        ensures
            r == match self.auth_type {
                Some(s) => s@ == "rfc2338-simple"@,
                None => false,
            },
    {
        match &self.auth_type {
            Some(s) => *s == "rfc2338-simple".to_owned(),
            None => false,
        }
    }

    /// RFC 2338 compatibility: forced on by the keyed authentication types,
    /// otherwise the configured flag, on by default.
    pub fn rfc3768(&self) -> (r: bool)
        ensures
            r == if (match self.auth_type {
                Some(s) => s@ == "p0-t8-sha256"@ || s@ == "p1-b8-shake256"@,
                None => false,
            }) {
                true
            } else {
                match self.rfc3768 {
                    Some(b) => b,
                    None => true,
                }
            },
    {
        let keyed = match &self.auth_type {
            Some(s) => *s == "p0-t8-sha256".to_owned() || *s == "p1-b8-shake256".to_owned(),
            None => false,
        };
        if keyed {
            return true;
        }
        match self.rfc3768 {
            Some(b) => b,
            None => true,
        }
    }

    /// The network driver: a MAC-VLAN interface forces netlink; `ioctl`
    /// selects the ioctl driver; netlink by default.
    pub fn netdrv(&self) -> (r: NetDrivers)
        ensures
            r == if (match self.iftype {
                Some(s) => s@ == "macvlan"@,
                None => false,
            }) {
                NetDrivers::libnl
            } else {
                match self.netdrv {
                    Some(s) => if s@ == "ioctl"@ {
                        NetDrivers::ioctl
                    } else {
                        NetDrivers::libnl
                    },
                    None => NetDrivers::libnl,
                }
            },
    {
        let macvlan = match &self.iftype {
            Some(s) => *s == "macvlan".to_owned(),
            None => false,
        };
        if macvlan {
            return NetDrivers::libnl;
        }
        match &self.netdrv {
            Some(s) => {
                if *s == "ioctl".to_owned() {
                    NetDrivers::ioctl
                } else {
                    NetDrivers::libnl
                }
            },
            None => NetDrivers::libnl,
        }
    }

    /// The interface type; plain Ethernet by default.
    pub fn iftype(&self) -> (r: IfTypes)
        ensures
            r == match self.iftype {
                Some(s) => if s@ == "macvlan"@ {
                    IfTypes::macvlan
                } else {
                    IfTypes::ether
                },
                None => IfTypes::ether,
            },
    {
        match &self.iftype {
            Some(s) => {
                if *s == "macvlan".to_owned() {
                    IfTypes::macvlan
                } else {
                    IfTypes::ether
                }
            },
            None => IfTypes::ether,
        }
    }

    /// The MAC-VLAN child name as bytes; `standby` followed by the group
    /// number by default.
    pub fn vifname(&self) -> (r: Vec<u8>)
        ensures
            match self.vifname {
                Some(s) => r@ == encode_utf8(s@),
                None => r@ == encode_utf8("standby"@) + crate::textutil::spec_dec_of(
                    self.group as int,
                ),
            },
    {
        match &self.vifname {
            Some(s) => vstd::slice::slice_to_vec(s.as_str().as_bytes()),
            None => {
                let mut r = vstd::slice::slice_to_vec("standby".as_bytes());
                let mut num = u64_to_dec(self.group as u64);
                r.append(&mut num);
                proof {
                    assert(r@ =~= encode_utf8("standby"@) + crate::textutil::spec_dec_of(
                        self.group as int,
                    ));
                }
                r
            },
        }
    }

    /// Whether a kernel socket filter is requested; on by default.
    pub fn socket_filter(&self) -> (r: bool)
        ensures
            r == match self.socket_filter {
                Some(b) => b,
                None => true,
            },
    {
        match self.socket_filter {
            Some(b) => b,
            None => true,
        }
    }
}

/// The advertisement timer setting.
pub struct Timers {
    pub advert: u8,
}

impl Default for Timers {
    /// One second by default.
    fn default() -> (r: Timers)
        ensures
            r.advert == 1,
    {
        Timers { advert: 1 }
    }
}

/// Configured protocols: the static route list.
pub struct Protocols {
    pub static_routes: Option<Vec<Static>>,
}

/// One static route in configured (textual) form.
pub struct Static {
    pub route: String,
    pub mask: String,
    pub nh: String,
    pub metric: Option<u16>,
    pub mtu: Option<u16>,
}

impl Static {
    /// The destination, parsed from dotted-quad form; `None` when it is not
    /// a canonical dotted quad.
    pub fn route(&self) -> (r: Option<[u8; 4]>)
        ensures
            match r {
                Some(ip) => encode_utf8(self.route@) == spec_dotted(ip),
                None => forall|ip: [u8; 4]| encode_utf8(self.route@) != spec_dotted(ip),
            },
    {
        parse_quad(&self.route)
    }

    /// The mask, parsed from dotted-quad form.
    pub fn mask(&self) -> (r: Option<[u8; 4]>)
        ensures
            match r {
                Some(ip) => encode_utf8(self.mask@) == spec_dotted(ip),
                None => forall|ip: [u8; 4]| encode_utf8(self.mask@) != spec_dotted(ip),
            },
    {
        parse_quad(&self.mask)
    }

    /// The next hop, parsed from dotted-quad form.
    pub fn nh(&self) -> (r: Option<[u8; 4]>)
        ensures
            match r {
                Some(ip) => encode_utf8(self.nh@) == spec_dotted(ip),
                None => forall|ip: [u8; 4]| encode_utf8(self.nh@) != spec_dotted(ip),
            },
    {
        parse_quad(&self.nh)
    }

    /// The metric; zero by default.
    pub fn metric(&self) -> (r: i16)
        requires
            self.metric matches Some(v) ==> v <= 0x7fff,
        ensures
            r == match self.metric {
                Some(v) => v as i16,
                None => 0i16,
            },
    {
        match self.metric {
            Some(v) => v as i16,
            None => 0,
        }
    }

    /// The MTU; zero by default.
    pub fn mtu(&self) -> (r: u64)
        ensures
            r == match self.mtu {
                Some(v) => v as u64,
                None => 0u64,
            },
    {
        match self.mtu {
            Some(v) => v as u64,
            None => 0,
        }
    }
}

/// Parse one dotted-quad configuration string.
fn parse_quad(s: &String) -> (r: Option<[u8; 4]>)
    ensures
        match r {
            Some(ip) => encode_utf8(s@) == spec_dotted(ip),
            None => forall|ip: [u8; 4]| encode_utf8(s@) != spec_dotted(ip),
        },
{
    let b = s.as_str().as_bytes();
    if b.len() >= 0x1000_0000 {
        proof {
            assert forall|ip: [u8; 4]| encode_utf8(s@) != spec_dotted(ip) by {
                crate::textutil::lemma_dec_of_props(ip[0] as int);
                crate::textutil::lemma_dec_of_props(ip[1] as int);
                crate::textutil::lemma_dec_of_props(ip[2] as int);
                crate::textutil::lemma_dec_of_props(ip[3] as int);
            }
        }
        None
    } else {
        parse_ipv4(b)
    }
}

/// Client API settings: the account lines, the token secret, and whether
/// TLS fronts the API.
pub struct API {
    pub users: Vec<String>,
    pub secret: String,
    pub tls: bool,
}

impl API {
    /// The configured account lines.
    pub fn users(&self) -> (r: &Vec<String>)
        ensures
            r == self.users,
    {
        &self.users
    }
}

} // verus!
