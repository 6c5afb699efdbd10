//! Measurement logic of a network tester: probe-result classification,
//! packet framing, path-MTU search and trace state machines.

pub mod browser;
pub mod cert;
pub mod load_gen;
pub mod metrics;
pub mod mthroughput;
pub mod curl;
pub mod dns;
pub mod dualstack;
pub mod http;
pub mod http3;
pub mod pageload;
pub mod native;
pub mod path;
pub mod ping;
pub mod pmtud;
pub mod text;
pub mod urls;
pub mod waterfall;
