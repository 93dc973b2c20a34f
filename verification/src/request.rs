//! The per-floor request value and its mathematical model.

use vstd::prelude::*;

verus! {

/// Lifecycle stage of the call request at one floor.
#[derive(Clone, Copy, PartialEq, Eq, Structural, Debug)]
pub enum RequestStatus {
    /// A request has been claimed and is being served.
    Active,
    /// A request has been raised and broadcast, but not yet claimed.
    Pending,
    /// No active request: never requested, or already serviced.
    Inactive,
    /// No information about this floor has been observed yet.
    Unknown,
}

/// The state a node holds (or a peer announces) for one floor.
///
/// `assigned_to` names the node that claims to be serving the request when
/// the status is `Active`; it is advisory metadata and plays no part in the
/// merge decision.
#[derive(Debug, PartialEq, Eq)]
pub struct Request {
    pub floor: usize,
    pub status: RequestStatus,
    pub assigned_to: Option<String>,
}

/// Mathematical model of a `Request`: the floor as an unbounded integer and
/// the assignee as a character sequence.
pub ghost struct RequestModel {
    pub floor: int,
    pub status: RequestStatus,
    pub assigned_to: Option<Seq<char>>,
}

impl View for Request {
    type V = RequestModel;

    open spec fn view(&self) -> RequestModel {
        RequestModel {
            floor: self.floor as int,
            status: self.status,
            assigned_to: match self.assigned_to {
                Some(name) => Some(name@),
                None => None,
            },
        }
    }
}

impl Clone for Request {
    fn clone(&self) -> (res: Self)
        ensures
            res@ == self@,
    {
        Request {
            floor: self.floor,
            status: self.status,
            assigned_to: match &self.assigned_to {
                Some(name) => Some(name.clone()),
                None => None,
            },
        }
    }
}

} // verus!
