//! Parsing of IPv4, ICMP and UDP headers out of raw packet buffers, and the
//! decision logic of a UDP/ICMP traceroute.

pub mod addr;
pub mod parser;
pub mod traceroute;
pub mod report;
