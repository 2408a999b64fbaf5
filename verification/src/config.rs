//! The agent's settings, and the check that guards its administration port.

use vstd::prelude::*;
use crate::address::Ipv4Address;

verus! {

/// What the command line supplies.
#[derive(Debug)]
pub struct Args {
    /// Where the settings are read from.
    pub config_path: String,
    /// Whether settings that expose the administration port are accepted.
    pub insecure: bool,
}

/// The agent's settings.
#[derive(Debug)]
pub struct Config {
    /// Name of the network interface that is watched.
    pub interface: String,
    /// Where the initial allowlist is read from, if anywhere.
    pub allowed_mac_list: Option<String>,
    pub arp_proxy: ArpProxyConfig,
    pub administration: AdministrationConfig,
}

/// How the proxy behaves.
#[derive(Clone, Copy, Debug, PartialEq, Eq, Structural)]
pub struct ArpProxyConfig {
    /// Whether allowed senders are answered too.
    pub proxy_allowed_macs: bool,
    /// Seconds between two rounds of forged frames.
    pub arp_reply_interval: u32,
    /// Seconds for which a query keeps being answered.
    pub arp_reply_duration: u32,
}

/// Where the administration interface listens.
#[derive(Clone, Copy, Debug, PartialEq, Eq, Structural)]
pub struct AdministrationConfig {
    pub enable_api: bool,
    pub listen_address: Ipv4Address,
    pub listen_port: u16,
}

impl Clone for Config {
    fn clone(&self) -> (r: Self)
        ensures
            r == *self,
    {
        Config {
            interface: self.interface.clone(),
            allowed_mac_list: match &self.allowed_mac_list {
                Some(path) => Some(path.clone()),
                None => None,
            },
            arp_proxy: self.arp_proxy,
            administration: self.administration,
        }
    }
}

/// What the check of the administration settings found.
#[derive(Clone, Copy, Debug, PartialEq, Eq, Structural)]
pub enum SecurityVerdict {
    /// The administration interface listens on a loopback address.
    Secure,
    /// It listens on another address, and the command line accepts that.
    InsecureAccepted,
    /// It listens on another address, and the command line does not accept
    /// that: the agent must not start.
    Refused,
}

/// The verdict that the settings and the command line call for.
pub open spec fn security_verdict(config: Config, args: Args) -> SecurityVerdict {
    if config.administration.listen_address.loopback() {
        SecurityVerdict::Secure
    } else if args.insecure {
        SecurityVerdict::InsecureAccepted
    } else {
        SecurityVerdict::Refused
    }
}

/// Checks that the administration interface, which asks for no login, is
/// not exposed by accident.
pub fn security_checkup(config: &Config, args: &Args) -> (r: SecurityVerdict)
    ensures
        r == security_verdict(*config, *args),
{
    let admin_config = config.administration;
    if !admin_config.listen_address.is_loopback() && !args.insecure {
        SecurityVerdict::Refused
    } else if !admin_config.listen_address.is_loopback() {
        SecurityVerdict::InsecureAccepted
    } else {
        SecurityVerdict::Secure
    }
}

} // verus!
