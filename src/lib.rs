//! A per-peer timer multiplexer: delayed protocol events that can be
//! canceled until their fire decision, delivered in fire order through a
//! bounded queue that holds messages back rather than dropping them.
use vstd::prelude::*;

pub mod timer;
pub mod laws;

verus! {

} // verus!
