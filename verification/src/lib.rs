//! Deliriuum Direct: a WireGuard VPN whose client has no privilege and talks
//! to a service that holds the tunnel. This library holds their logic: the
//! configuration format, the client's decisions, the service's answers, and
//! the network changes as state machines that the programs drive.

pub mod client;
pub mod codec;
pub mod config;
pub mod engine;
pub mod handover;
pub mod json;
pub mod linux_flow;
pub mod mac_flow;
pub mod net_linux;
pub mod net_macos;
pub mod service;
pub mod text;
pub mod tun;
pub mod windows;
