//! Connection-establishment core of a transparent TCP proxy: where a
//! redirected client wanted to go, what its first bytes reveal, which
//! upstream proxies to race for it, and how its traffic is accounted.
pub mod attempt;
pub mod client;
pub mod config;
pub mod dest;
pub mod encode;
pub mod handshake;
pub mod race;
pub mod splice;
pub mod stats;
pub mod tls;
