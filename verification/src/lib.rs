//! The logic of a server for a distributed torrent archive on Nostr: which events its relay
//! takes, how it answers HTTP requests, and how it finds other relays through the DHT.
use vstd::prelude::*;

pub mod address;
pub mod digest;
pub mod filters;
pub mod http;
pub mod notifications;
pub mod peers;
pub mod policy;
pub mod running;
pub mod settings;
pub mod text;

verus! {

/// Port the relay listens on when the settings name no address.
pub const DEFAULT_RELAY_PORT: u16 = 7777;

} // verus!
