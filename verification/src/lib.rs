//! NetM: sharing a host's network with a guest over a Type-C cable.
//!
//! The library holds the rules of both sides of the tunnel. It does no I/O:
//! callers hand it bytes, clock readings and events, and perform the actions
//! that it returns.

use vstd::prelude::*;

pub mod addresses;
pub mod buffer;
pub mod cidr;
pub mod cli;
pub mod device;
pub mod discovery;
pub mod dns;
pub mod flow;
pub mod frame;
pub mod guest;
pub mod guest_loop;
pub mod host;
pub mod icmp;
pub mod link;
pub mod macos;
pub mod model;
pub mod net;
pub mod platform;
pub mod privilege;
pub mod reexec;
pub mod report;
pub mod serving;
pub mod session;
pub mod settings;
pub mod speed;
pub mod startup;
pub mod stats;
pub mod text;
pub mod tui;
pub mod units;
pub mod view;
pub mod wire;

verus! {

/// Protocol version carried in `Hello` frames and discovery messages. Peers
/// with a different version must not talk to each other.
pub const PROTOCOL_VERSION: u16 = 1;

/// UDP port used for link-local multicast discovery (`ff02::1`).
pub const DISCOVERY_PORT: u16 = 27777;

/// Default TCP port the host listens on for tunnel data sessions.
pub const DATA_PORT: u16 = 27778;

/// Default MTU of the virtual tunnel interface.
pub const DEFAULT_MTU: u16 = 1400;

} // verus!
