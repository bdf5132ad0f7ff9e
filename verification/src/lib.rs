//! A VRRPv2 (RFC 3768) virtual-router core: wire codec, internet checksums,
//! authentication trailers, the per-virtual-router finite-state machine and
//! its timers, and validation of inbound advertisements.
//!
//! The crate holds the protocol logic only; sockets, ioctls, threads and
//! configuration files live with the caller, which hands plain values in and
//! carries the returned actions out to the host.

pub mod arp;
pub mod auth;
pub mod bpf;
pub mod capi;
pub mod checksums;
pub mod codec;
pub mod config;
pub mod constants;
pub mod crypto;
pub mod debug;
pub mod dispatch;
pub mod drivers;
pub mod fsm;
pub mod netfilter;
pub mod packets;
pub mod protocols;
pub mod session;
pub mod textutil;
pub mod timers;
pub mod vrouter;

use vstd::prelude::*;

verus! {

/// Library-level run configuration: operating mode and paths, as parsed from
/// the command line.
pub struct Config {
    pub iface: Option<String>,
    pub mode: u8,
    pub conf: Option<String>,
    pub debug: Option<u8>,
    pub cfg_format: Option<String>,
}

impl Config {
    /// Bundle the command-line choices into a `Config`.
    pub fn new(
        iface: Option<String>,
        mode: u8,
        conf: Option<String>,
        debug: Option<u8>,
        cfg_format: Option<String>,
    ) -> (r: Config)
        ensures
            r.iface == iface,
            r.mode == mode,
            r.conf == conf,
            r.debug == debug,
            r.cfg_format == cfg_format,
    {
        Config { iface, mode, conf, debug, cfg_format }
    }

    /// Interface to sniff on; empty when none was given.
    pub fn iface(&self) -> (r: String)
        ensures
            match self.iface {
                Some(s) => r@ == s@,
                None => r@ == Seq::<char>::empty(),
            },
    {
        match &self.iface {
            Some(s) => s.clone(),
            None => String::new(),
        }
    }

    /// Operating mode: 0 sniffer, 1 foreground, 2 daemon.
    pub fn mode(&self) -> (r: &u8)
        ensures
            r == self.mode,
    {
        &self.mode
    }

    /// Path of the configuration file, or the default path.
    pub fn conf(&self) -> (r: String)
        ensures
            match self.conf {
                Some(s) => r@ == s@,
                None => r@ == "/etc/rvrrpd/rvrrpd.conf"@,
            },
    {
        match &self.conf {
            Some(s) => s.clone(),
            None => crate::constants::default_config_path().to_owned(),
        }
    }

    /// Debug level override, when one was given.
    pub fn debug(&self) -> (r: Option<u8>)
        ensures
            r == self.debug,
    {
        self.debug
    }

    /// Configuration file format: JSON when asked for, TOML otherwise.
    pub fn cfg_format(&self) -> (r: crate::config::CfgType)
        ensures
            r == match self.cfg_format {
                Some(s) => if s@ == "json"@ {
                    crate::config::CfgType::Json
                } else {
                    crate::config::CfgType::Toml
                },
                None => crate::config::CfgType::Toml,
            },
    {
        match &self.cfg_format {
            Some(s) => {
                if *s == "json".to_owned() {
                    crate::config::CfgType::Json
                } else {
                    crate::config::CfgType::Toml
                }
            },
            None => crate::config::CfgType::Toml,
        }
    }
}

} // verus!
