//! Request-state reconciliation for a leaderless group of elevator nodes.
//!
//! Each node owns a per-floor table of call-request state (the request
//! store).  States announced by peers, or injected by the local operator,
//! are folded into that table by a deterministic, idempotent merge rule
//! (the reconciler).  Periodic full-state re-broadcast of the table keeps
//! all nodes eventually consistent despite message loss and churn; the
//! unverified binary around this library supplies that plumbing.

use vstd::prelude::*;

pub mod orders;
pub mod positions;
pub mod reconciler;
pub mod request;
pub mod store;

verus! {

/// Number of floors served: every request store has exactly this many slots.
pub const N_FLOORS: usize = 4;

} // verus!
