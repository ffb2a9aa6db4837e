//! Bridges repository webhook events to chat conversations: command grammar,
//! subscriber registry, webhook decoding and notification fan-out.
use vstd::prelude::*;

pub mod bot;
pub mod db;
pub mod parser;
pub mod rest_api;
pub mod router;
pub mod server;
pub mod shared;
pub mod text;
pub mod webhook;

verus! {

} // verus!
