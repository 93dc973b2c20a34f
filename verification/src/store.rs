//! The request store: the authoritative per-floor table of request state
//! for one node, mutated only through the merge rule.

use vstd::prelude::*;
use crate::N_FLOORS;
use crate::reconciler::{lemma_merge_idempotent, merged};
use crate::request::{Request, RequestModel, RequestStatus};

verus! {

/// Shape of a well-formed store model: one slot per floor, and slot `i`
/// always holds floor `i`.
pub open spec fn store_shape(s: Seq<RequestModel>) -> bool {
    &&& s.len() == N_FLOORS
    &&& forall|i: int| 0 <= i < s.len() ==> (#[trigger] s[i]).floor == i
}

/// Model-level merge of one remote request into a whole store: only the
/// slot of the remote request's floor changes, by the merge rule.
pub open spec fn store_merged(s: Seq<RequestModel>, remote: RequestModel) -> Seq<RequestModel> {
    s.update(remote.floor, merged(s[remote.floor], remote))
}

/// Model-level merge of a whole sequence of remote requests, in order.
pub open spec fn store_merged_all(
    s: Seq<RequestModel>,
    remotes: Seq<RequestModel>,
) -> Seq<RequestModel>
    decreases remotes.len(),
{
    if remotes.len() == 0 {
        s
    } else {
        store_merged_all(store_merged(s, remotes[0]), remotes.drop_first())
    }
}

/// Idempotence at the store: merging the same remote request into the store
/// twice in a row yields the same store as merging it once.
pub proof fn lemma_store_merge_idempotent(s: Seq<RequestModel>, remote: RequestModel)
    requires
        0 <= remote.floor < s.len(),
    ensures
        store_merged(store_merged(s, remote), remote) == store_merged(s, remote),
{
    lemma_merge_idempotent(s[remote.floor], remote);
    assert(store_merged(store_merged(s, remote), remote) =~= store_merged(s, remote));
}

/// Store shape invariant, one step: merging one in-range remote request
/// into a well-shaped store leaves it well-shaped.
pub proof fn lemma_store_shape_merge(s: Seq<RequestModel>, remote: RequestModel)
    requires
        store_shape(s),
        0 <= remote.floor < s.len(),
    ensures
        store_shape(store_merged(s, remote)),
{
}

/// Store shape invariant: after any sequence of in-range merges the store
/// still has exactly `N_FLOORS` slots and slot `i` still holds floor `i`.
pub proof fn lemma_store_shape_merge_all(s: Seq<RequestModel>, remotes: Seq<RequestModel>)
    requires
        store_shape(s),
        forall|i: int| 0 <= i < remotes.len() ==> 0 <= (#[trigger] remotes[i]).floor < N_FLOORS,
    ensures
        store_shape(store_merged_all(s, remotes)),
    decreases remotes.len(),
{
    if remotes.len() > 0 {
        lemma_store_shape_merge(s, remotes[0]);
        lemma_store_shape_merge_all(store_merged(s, remotes[0]), remotes.drop_first());
    }
}

/// Merging the tail of a well-shaped snapshot, floor by floor, into a store
/// that already agrees with the snapshot below floor `k` and knows nothing
/// from floor `k` up reproduces the snapshot.
proof fn lemma_adopt_from(cur: Seq<RequestModel>, snap: Seq<RequestModel>, k: int)
    requires
        store_shape(snap),
        cur.len() == snap.len(),
        0 <= k <= snap.len(),
        forall|j: int| 0 <= j < k ==> #[trigger] cur[j] == snap[j],
        forall|j: int| k <= j < cur.len() ==> (#[trigger] cur[j]).status is Unknown,
    ensures
        store_merged_all(cur, snap.subrange(k, snap.len() as int)) == snap,
    decreases snap.len() - k,
{
    let rest = snap.subrange(k, snap.len() as int);
    if k == snap.len() {
        assert(cur =~= snap);
    } else {
        assert(rest[0] == snap[k]);
        assert(snap[k].floor == k);
        let next = store_merged(cur, snap[k]);
        assert(next =~= cur.update(k, snap[k]));
        assert(rest.drop_first() =~= snap.subrange(k + 1, snap.len() as int));
        lemma_adopt_from(next, snap, k + 1);
    }
}

/// Anti-entropy in one tick: a node that has no information at all (every
/// floor `Unknown`) converges to a peer's state by merging one full
/// broadcast of the peer's well-shaped snapshot, in floor order.
pub proof fn lemma_full_broadcast_converges(
    empty_store: Seq<RequestModel>,
    snap: Seq<RequestModel>,
)
    requires
        store_shape(snap),
        empty_store.len() == N_FLOORS,
        forall|i: int| 0 <= i < empty_store.len() ==> (#[trigger] empty_store[i]).status is Unknown,
    ensures
        store_merged_all(empty_store, snap) == snap,
{
    assert(snap.subrange(0, snap.len() as int) =~= snap);
    lemma_adopt_from(empty_store, snap, 0);
}

/// Merging the tail of a store's own snapshot back into it changes nothing.
proof fn lemma_self_merge_from(s: Seq<RequestModel>, k: int)
    requires
        store_shape(s),
        0 <= k <= s.len(),
    ensures
        store_merged_all(s, s.subrange(k, s.len() as int)) == s,
    decreases s.len() - k,
{
    let rest = s.subrange(k, s.len() as int);
    if k < s.len() {
        assert(rest[0] == s[k]);
        assert(store_merged(s, s[k]) =~= s);
        assert(rest.drop_first() =~= s.subrange(k + 1, s.len() as int));
        lemma_self_merge_from(s, k + 1);
    }
}

/// Duplicate tolerance at tick granularity: a node that receives a full
/// broadcast identical to its own well-shaped state (its own echoed
/// broadcast, or a duplicate from an already converged peer) is unchanged.
pub proof fn lemma_duplicate_broadcast_no_op(s: Seq<RequestModel>)
    requires
        store_shape(s),
    ensures
        store_merged_all(s, s) == s,
{
    assert(s.subrange(0, s.len() as int) =~= s);
    lemma_self_merge_from(s, 0);
}

/// The per-floor table of request state owned by this node.
pub struct RequestHandler {
    pub requests: Vec<Request>,
}

impl View for RequestHandler {
    type V = Seq<RequestModel>;

    open spec fn view(&self) -> Seq<RequestModel> {
        self.requests@.map(|i: int, r: Request| r@)
    }
}

impl RequestHandler {
    /// Store shape invariant, on the store itself.
    pub open spec fn wf(&self) -> bool {
        store_shape(self@)
    }

    /// A fresh store: one slot per floor, every slot `Unknown` and
    /// unassigned.
    pub fn new() -> (res: Self)
        ensures
            res.wf(),
            forall|i: int| 0 <= i < res@.len() ==> (#[trigger] res@[i]).status is Unknown,
            forall|i: int| 0 <= i < res@.len() ==> (#[trigger] res@[i]).assigned_to is None,
    {
        let mut requests: Vec<Request> = Vec::new();
        let mut floor: usize = 0;
        while floor < N_FLOORS
            invariant
                floor <= N_FLOORS,
                requests@.len() == floor,
                forall|i: int| 0 <= i < floor ==> (#[trigger] requests@[i])@.floor == i,
                forall|i: int| 0 <= i < floor ==> (#[trigger] requests@[i])@.status is Unknown,
                forall|i: int| 0 <= i < floor ==> (#[trigger] requests@[i])@.assigned_to is None,
            decreases N_FLOORS - floor,
        {
            requests.push(Request { floor, status: RequestStatus::Unknown, assigned_to: None });
            floor = floor + 1;
        }
        RequestHandler { requests }
    }

    /// The current state of one floor.
    pub fn get(&self, floor: usize) -> (res: &Request)
        requires
            floor < self@.len(),
        ensures
            res@ == self@[floor as int],
    {
        &self.requests[floor]
    }

    /// Total replacement of one slot.  Only the merge rule calls this; a
    /// caller that wants the shape invariant kept must put floor `floor`
    /// in slot `floor`.
    pub fn set(&mut self, floor: usize, request: Request)
        requires
            floor < old(self)@.len(),
        ensures
            final(self)@ == old(self)@.update(floor as int, request@),
    {
        let ghost request_model = request@;
        self.requests.set(floor, request);
        proof {
            assert(self@ =~= old(self)@.update(floor as int, request_model));
        }
    }

    /// A consistent full read of all floors, for dissemination.
    pub fn snapshot(&self) -> (res: Vec<Request>)
        ensures
            res@.len() == self@.len(),
            forall|i: int| 0 <= i < res@.len() ==> (#[trigger] res@[i])@ == self@[i],
    {
        let mut out: Vec<Request> = Vec::new();
        let mut i: usize = 0;
        while i < self.requests.len()
            invariant
                i <= self.requests@.len(),
                out@.len() == i,
                forall|j: int| 0 <= j < i ==> (#[trigger] out@[j])@ == self@[j],
            decreases self.requests@.len() - i,
        {
            out.push(self.requests[i].clone());
            i = i + 1;
        }
        out
    }

    /// Fold one remote (or locally injected) request into the store by the
    /// merge rule.  Defined for every status pair; only the slot of the
    /// request's floor can change, and the shape invariant is kept.
    pub fn merge_request(&mut self, remote_request: Request)
        requires
            old(self).wf(),
            remote_request.floor < N_FLOORS,
        ensures
            final(self).wf(),
            final(self)@ == store_merged(old(self)@, remote_request@),
    {
        let floor = remote_request.floor;
        let local_status = self.requests[floor].status;
        let remote_status = remote_request.status;

        match (local_status, remote_status) {
            (RequestStatus::Active, RequestStatus::Inactive) => {
                self.move_to_inactive(&remote_request)
            },
            (RequestStatus::Inactive, RequestStatus::Pending) => {
                self.move_to_pending(&remote_request)
            },
            (RequestStatus::Pending, RequestStatus::Active) => {
                self.move_to_active(&remote_request)
            },
            (RequestStatus::Pending, RequestStatus::Pending) => {
                self.update_acknowledgements(&remote_request)
            },
            (RequestStatus::Unknown, _) => self.handle_unknown_local(remote_request),
            _ => {},
        }
        proof {
            assert(store_merged(old(self)@, remote_request@) =~= self@);
        }
    }

    /// A claim announcement promotes this floor's entry to `Active`.
    pub fn move_to_active(&mut self, remote: &Request)
        requires
            remote.floor < old(self)@.len(),
        ensures
            final(self)@ == old(self)@.update(
                remote@.floor,
                RequestModel { status: RequestStatus::Active, ..old(self)@[remote@.floor] },
            ),
    {
        self.requests[remote.floor].status = RequestStatus::Active;
        proof {
            assert(self@ =~= old(self)@.update(
                remote@.floor,
                RequestModel { status: RequestStatus::Active, ..old(self)@[remote@.floor] },
            ));
        }
    }

    /// A completion announcement moves this floor's entry to `Inactive`.
    pub fn move_to_inactive(&mut self, remote: &Request)
        requires
            remote.floor < old(self)@.len(),
        ensures
            final(self)@ == old(self)@.update(
                remote@.floor,
                RequestModel { status: RequestStatus::Inactive, ..old(self)@[remote@.floor] },
            ),
    {
        self.requests[remote.floor].status = RequestStatus::Inactive;
        proof {
            assert(self@ =~= old(self)@.update(
                remote@.floor,
                RequestModel { status: RequestStatus::Inactive, ..old(self)@[remote@.floor] },
            ));
        }
    }

    /// A new request announcement moves this floor's entry to `Pending`.
    pub fn move_to_pending(&mut self, remote: &Request)
        requires
            remote.floor < old(self)@.len(),
        ensures
            final(self)@ == old(self)@.update(
                remote@.floor,
                RequestModel { status: RequestStatus::Pending, ..old(self)@[remote@.floor] },
            ),
    {
        self.requests[remote.floor].status = RequestStatus::Pending;
        proof {
            assert(self@ =~= old(self)@.update(
                remote@.floor,
                RequestModel { status: RequestStatus::Pending, ..old(self)@[remote@.floor] },
            ));
        }
    }

    /// A duplicate `Pending` announcement corroborates the local entry and
    /// changes nothing: the observation point reserved for future
    /// acknowledgment counting.
    pub fn update_acknowledgements(&mut self, remote: &Request)
        ensures
            final(self)@ == old(self)@,
    {
    }

    /// First information about a floor is trusted wholesale: the remote
    /// request replaces the local `Unknown` entry.
    pub fn handle_unknown_local(&mut self, remote: Request)
        requires
            remote.floor < old(self)@.len(),
        ensures
            final(self)@ == old(self)@.update(remote@.floor, remote@),
    {
        let floor = remote.floor;
        let ghost remote_model = remote@;
        self.requests.set(floor, remote);
        proof {
            assert(self@ =~= old(self)@.update(floor as int, remote_model));
        }
    }
}

} // verus!
