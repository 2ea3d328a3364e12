//! Channel-manager core for an anonymity network client: identity sets,
//! a channel state map with exactly-once-in-flight semantics, flow-control
//! windows, relay message framing, and the supporting decision logic.

use vstd::prelude::*;

pub mod chan_laws;
pub mod circ_config;
pub mod dirfetch;
pub mod fixedvec;
pub mod hs;
pub mod ipt;
pub mod keymgr;
pub mod mistrust;
pub mod chan_map;
pub mod chan_mgr;
pub mod proxy;
pub mod relay_ids;
pub mod relaycell;
pub mod sendme;
pub mod udp;

verus! {

/// How many bytes of payload fit in a relay cell.
pub const CELL_DATA_LEN: usize = 509;

} // verus!
