use vstd::prelude::*;

verus! {

/// DNS listener settings; `host` is the IPv4 address as a number.
pub struct ServerConf {
    pub host: u32,
    pub port: u16,
    pub ttl: u32,
}

/// Prober settings: TCP port, worker count, probes per address, per-probe
/// timeout and pause between probes (milliseconds).
pub struct PingerConf {
    pub port: u16,
    pub workers: u16,
    pub times: u16,
    pub timeout: u64,
    pub interval: u64,
}

/// Upstream resolver; `host` is the IPv4 address as a number.
pub struct UpstreamConf {
    pub host: u32,
    pub port: u16,
}

/// Paths of the CIDR list and of the domain list.
pub struct ResourceConf {
    pub ipv4_filepath: String,
    pub domain_filepath: String,
}

pub struct Config {
    pub server: ServerConf,
    pub upstream: UpstreamConf,
    pub ping: PingerConf,
    pub resource: ResourceConf,
}

pub open spec fn default_config_path() -> Seq<char> {
    "conf/config.toml"@
}

impl Config {
    /// The configuration file to read: the one given, else `conf/config.toml`.
    pub fn path_or_default(path: Option<String>) -> (r: String)
        ensures
            path matches Some(p) ==> r@ == p@,
            path is None ==> r@ == default_config_path(),
    {
        match path {
            Some(p) => p,
            None => "conf/config.toml".to_owned(),
        }
    }
}

} // verus!
