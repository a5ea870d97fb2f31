//! A DNS forwarder that answers A queries for CDN names with the IPv4
//! address it has measured to be fastest, and the prober that measures it.

pub mod cidr;
pub mod config;
pub mod probe;
pub mod fast_ip;
pub mod oracle;
pub mod dns;
