//! UnionDesk: one keyboard and mouse, one clipboard and one drop box shared by
//! the machines on a desk.
//!
//! This crate is the part of UnionDesk that decides: the wire formats, the trust
//! store, the discovery table, the file transfer bookkeeping and the engine that
//! turns events into actions. Sockets, files, hooks and windows are driven by the
//! program around it, which feeds it plain values and carries out what it asks.

use vstd::prelude::*;

pub mod bytes;
pub mod clipboard;
pub mod clock;
pub mod codec;
pub mod config;
pub mod desktop;
pub mod discovery;
pub mod encoding;
pub mod engine;
pub mod error;
pub mod geom;
pub mod identity;
pub mod input;
pub mod key;
pub mod keyed;
pub mod layout;
pub mod lists;
pub mod naming;
pub mod net_error;
pub mod noise;
pub mod observing;
pub mod paths;
pub mod platform;
pub mod protocol;
pub mod session;
pub mod sorted;
pub mod streaming;
pub mod text;
pub mod transfer;
pub mod view;

pub use clock::now_unix;
pub use error::{Error, Result};

verus! {

/// Protocol revision understood by this build, which it announces to its peers.
pub const PROTOCOL_VERSION: u32 = 1;

/// Default TCP port used for control, input, clipboard and file traffic.
pub const DEFAULT_PORT: u16 = 47_823;

/// UDP port used by the broadcast beacon fallback when multicast DNS is blocked.
pub const BEACON_PORT: u16 = 47_824;

/// Service type advertised over multicast DNS.
pub const MDNS_SERVICE_TYPE: &'static str = "_uniondesk._tcp.local.";

/// Human readable product name, used in window titles and mDNS records.
pub const PRODUCT_NAME: &'static str = "UnionDesk";

} // verus!
