//! Clipboard synchronisation between the devices of one user: a bounded
//! per-user mailbox, a fan-out channel to live sessions, and the session
//! life cycle of a connected device.

use state::{AppState, StoreView};
use vstd::prelude::*;

pub mod api;
pub mod bark;
pub mod datalayer;
pub mod state;
pub mod utils;
pub mod websocket;

verus! {

/// The state of a server that starts: no mailbox and no live connection.
pub fn init() -> (state: AppState)
    ensures
        state@ == (StoreView { mailboxes: Map::empty(), client_n: 0 }),
        state@.wf(),
{
    AppState::new()
}

} // verus!
