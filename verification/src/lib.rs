//! Core logic for a global-shortcuts portal session: parsing shortcut
//! specifications, tracking which bound shortcuts are active, and the
//! state machine that drives the session lifecycle.

pub mod controller;
pub mod network;
pub mod parse;
pub mod tracker;

use vstd::prelude::*;

verus! {

} // verus!
