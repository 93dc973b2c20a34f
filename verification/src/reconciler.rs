//! The merge rule that folds a remotely announced request state into the
//! locally known state for the same floor, and the laws it obeys.
//!
//! The rule is a transition table keyed by the pair of statuses.  Pairs not
//! in the table are deliberate no-ops: a malformed or stale announcement can
//! never regress local state.

use vstd::prelude::*;
use crate::request::{RequestModel, RequestStatus};

verus! {

/// The transition table: the `(local, remote)` status pairs on which the
/// merge changes local state.  Every other pair is ignored.
pub open spec fn in_table(local: RequestStatus, remote: RequestStatus) -> bool {
    ||| (local is Active && remote is Inactive)
    ||| (local is Inactive && remote is Pending)
    ||| (local is Pending && remote is Active)
    ||| (local is Pending && remote is Pending)
    ||| (local is Unknown)
}

/// Status after merging a remote announcement into the local status.
///
/// Defined for all sixteen status pairs: pairs outside the transition table
/// keep the local status.
pub open spec fn merged_status(local: RequestStatus, remote: RequestStatus) -> RequestStatus {
    match (local, remote) {
        (RequestStatus::Active, RequestStatus::Inactive) => RequestStatus::Inactive,
        (RequestStatus::Inactive, RequestStatus::Pending) => RequestStatus::Pending,
        (RequestStatus::Pending, RequestStatus::Active) => RequestStatus::Active,
        (RequestStatus::Pending, RequestStatus::Pending) => RequestStatus::Pending,
        (RequestStatus::Unknown, remote_status) => remote_status,
        _ => local,
    }
}

/// Result of merging one remote request into the local request for the same
/// floor.  A local `Unknown` entry adopts the remote request wholesale (the
/// first information about a floor is trusted); every other entry keeps its
/// floor and assignee and moves its status along the transition table.
pub open spec fn merged(local: RequestModel, remote: RequestModel) -> RequestModel {
    if local.status is Unknown {
        remote
    } else {
        RequestModel { status: merged_status(local.status, remote.status), ..local }
    }
}

/// Idempotence: merging the same remote request twice in a row yields the
/// same result as merging it once.
pub proof fn lemma_merge_idempotent(local: RequestModel, remote: RequestModel)
    ensures
        merged(merged(local, remote), remote) == merged(local, remote),
{
}

/// Totality: every one of the sixteen `(local, remote)` status pairs has a
/// defined merge result, and the result never invents a status: it is always
/// the local or the remote one.
pub proof fn lemma_merge_total(local: RequestStatus, remote: RequestStatus)
    ensures
        merged_status(local, remote) == local || merged_status(local, remote) == remote,
{
}

/// Unknown-adoption: merging any remote request into a local `Unknown` entry
/// yields exactly the remote request.
pub proof fn lemma_unknown_adopts(local: RequestModel, remote: RequestModel)
    requires
        local.status is Unknown,
    ensures
        merged(local, remote) == remote,
{
}

/// No-regression: a `(local, remote)` status pair outside the transition
/// table leaves the local request entirely unchanged.
pub proof fn lemma_out_of_table_no_op(local: RequestModel, remote: RequestModel)
    requires
        !in_table(local.status, remote.status),
    ensures
        merged(local, remote) == local,
{
}

/// Monotone happy path: from `Inactive`, announcements of `Pending`, then
/// `Active`, then `Inactive` move the entry through exactly those statuses,
/// and neither intermediate step can be skipped.
pub proof fn lemma_happy_path(
    local: RequestModel,
    pend: RequestModel,
    act: RequestModel,
    inact: RequestModel,
)
    requires
        local.status is Inactive,
        pend.status is Pending,
        act.status is Active,
        inact.status is Inactive,
    ensures
        merged(local, pend).status is Pending,
        merged(merged(local, pend), act).status is Active,
        merged(merged(merged(local, pend), act), inact).status is Inactive,
        merged(local, act) == local,
        merged(merged(local, pend), inact) == merged(local, pend),
{
}

} // verus!
