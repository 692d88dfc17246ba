//! Verified core of the daemon8 observation daemon.
use vstd::prelude::*;

pub mod daemon;
pub mod json;
pub mod store;
pub mod text;
pub mod types;
pub mod xtask;

verus! {

} // verus!
