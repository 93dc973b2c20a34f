//! The richer tagged order encoding: calls carry their direction and floor
//! inside the status value.  This generalizes the flat per-floor table and
//! is kept as an extension point; its merge handler is an observation stub
//! that changes no state yet.

use vstd::prelude::*;

verus! {

/// Position of a call or of an elevator: at a floor, or between floors.
#[derive(Clone, Copy, PartialEq, Eq, Structural, Debug)]
pub enum Floor {
    At(usize),
    Between,
}

/// A call: from a floor going up or down, or from inside the car.
#[derive(Clone, Copy, PartialEq, Eq, Structural, Debug)]
pub enum Order {
    CallUp(Floor),
    CallDown(Floor),
    Internal(Floor),
}

/// Lifecycle stage of an order, tagged with the order it concerns.
#[derive(Clone, Copy, PartialEq, Eq, Structural, Debug)]
pub enum RequestStatus {
    Active(Order),
    Pending(Order),
    Inactive(Order),
    Unknown(Order),
}

/// Which floors have an outstanding up or down call.
pub struct OrderData {
    pub orders_up: [bool; 4],
    pub orders_down: [bool; 4],
}

impl OrderData {
    /// A fresh table: no call is outstanding in either direction.
    pub fn new() -> (res: Self)
        ensures
            res.orders_up@.len() == 4,
            res.orders_down@.len() == 4,
            forall|i: int| 0 <= i < 4 ==> !res.orders_up@[i],
            forall|i: int| 0 <= i < 4 ==> !res.orders_down@[i],
    {
        OrderData {
            orders_up: [false, false, false, false],
            orders_down: [false, false, false, false],
        }
    }

    /// Observation point for incoming tagged announcements.  Every variant
    /// is accepted; none changes the call table yet.
    pub fn merge_request(&mut self, message: RequestStatus)
        ensures
            final(self).orders_up@ == old(self).orders_up@,
            final(self).orders_down@ == old(self).orders_down@,
    {
        match message {
            RequestStatus::Active(_) => {},
            RequestStatus::Pending(_) => {},
            RequestStatus::Inactive(_) => {},
            _ => {},
        }
    }
}

} // verus!
