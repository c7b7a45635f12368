//! The core of a nearby-gossip runtime.
//!
//! Nodes that are physically close see each other's radio advertisements.
//! From what they advertise, each node picks the one document that the
//! group is to share (`nearby::peer_calc`), joins it, and keeps on it the
//! identities, statuses and posts of its members (`identity::domain`,
//! `nearby::post`, `nearby`). Rows of peers are held back until their
//! content is here (`doc`).
//!
//! Nothing in this crate waits on the network, the disk or the radio. Each
//! operation takes what was read for it, changes the state it keeps, and
//! says what is to be done next; a host carries that out and reports back.

pub mod ble;
pub mod blob_dispatcher;
pub mod collection;
pub mod data;
pub mod device;
pub mod doc;
pub mod events;
pub mod fingerprinter;
pub mod identity;
pub mod nearby;
pub mod settings;
pub mod views;
pub mod wide_map;
