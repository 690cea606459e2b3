//! Networking engine for sharing files, chat and clipboard text between
//! devices on one local network.
//!
//! The protocol decisions live here as verified functions and state
//! machines; sockets, files and timers are driven by the caller, which hands
//! each event to the matching function and performs the action it returns.
use vstd::prelude::*;

pub mod text;
pub mod path;
pub mod transfer;
pub mod receive;
pub mod send;
pub mod provider;
pub mod discovery;
pub mod clipboard;
pub mod registry;
pub mod relay;
pub mod chat;

verus! {

} // verus!
