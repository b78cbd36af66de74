//! The order record and its lifecycle.

use vstd::prelude::*;

verus! {

/// A point in time: whole seconds since the Unix epoch and the nanoseconds
/// that follow them.
#[derive(Clone, Copy, Debug, PartialEq, Eq, Structural)]
pub struct Timestamp {
    pub seconds: i64,
    pub nanos: i32,
}

impl Timestamp {
    /// The fraction counts forward from `seconds` and is less than a second.
    pub open spec fn is_normalized(self) -> bool {
        0 <= self.nanos < 1_000_000_000
    }
}

/// How an order is to be executed. The caller chooses it.
#[derive(Clone, Copy, Debug, PartialEq, Eq, Structural)]
pub enum OrderType {
    Limit,
    Market,
}

/// Where an order stands in its lifecycle. The service sets it.
///
/// Only the entry state and the terminal state exist today; the enumeration
/// is open so that the states of a later matching stage can be added between
/// them.
#[non_exhaustive]
#[derive(Clone, Copy, Debug, PartialEq, Eq, Structural)]
pub enum OrderStatus {
    Created,
    Cancelled,
}

impl OrderStatus {
    /// The state every order starts in.
    pub open spec fn is_initial(self) -> bool {
        self == OrderStatus::Created
    }

    /// A state that no transition leaves.
    pub open spec fn is_terminal(self) -> bool {
        self == OrderStatus::Cancelled
    }

    /// The lifecycle's single step: an order that was created may be
    /// cancelled. Nothing leads back to `Created`, nothing leaves `Cancelled`.
    pub open spec fn may_become(self, next: OrderStatus) -> bool {
        self == OrderStatus::Created && next == OrderStatus::Cancelled
    }

    /// Whether the lifecycle allows an order in this state to move to `next`.
    pub fn can_transition_to(&self, next: OrderStatus) -> (allowed: bool)
        ensures
            allowed == self.may_become(next),
    {
        match (*self, next) {
            (OrderStatus::Created, OrderStatus::Cancelled) => true,
            _ => false,
        }
    }
}

/// The lifecycle only moves forward: every step leaves the entry state for
/// the terminal state, so no step leads back and none follows another.
pub proof fn lemma_lifecycle_moves_forward(from: OrderStatus, to: OrderStatus, later: OrderStatus)
    requires
        from.may_become(to),
    ensures
        from.is_initial(),
        to.is_terminal(),
        !to.may_become(from),
        !to.may_become(later),
{
}

/// One trading order as the service records it.
#[derive(Debug)]
pub struct Order {
    pub id: String,
    pub user_id: String,
    pub pair: String,
    pub price: u64,
    pub quantity: u64,
    pub order_type: OrderType,
    pub status: OrderStatus,
    pub create_time: Option<Timestamp>,
    pub update_time: Option<Timestamp>,
    pub cancel_time: Option<Timestamp>,
}

/// What an [`Order`] holds, with its texts as sequences of characters.
pub struct OrderView {
    pub id: Seq<char>,
    pub user_id: Seq<char>,
    pub pair: Seq<char>,
    pub price: u64,
    pub quantity: u64,
    pub order_type: OrderType,
    pub status: OrderStatus,
    pub create_time: Option<Timestamp>,
    pub update_time: Option<Timestamp>,
    pub cancel_time: Option<Timestamp>,
}

impl View for Order {
    type V = OrderView;

    open spec fn view(&self) -> OrderView {
        OrderView {
            id: self.id@,
            user_id: self.user_id@,
            pair: self.pair@,
            price: self.price,
            quantity: self.quantity,
            order_type: self.order_type,
            status: self.status,
            create_time: self.create_time,
            update_time: self.update_time,
            cancel_time: self.cancel_time,
        }
    }
}

impl Clone for Order {
    fn clone(&self) -> (copy: Self)
        ensures
            copy == *self,
    {
        Order {
            id: self.id.clone(),
            user_id: self.user_id.clone(),
            pair: self.pair.clone(),
            price: self.price,
            quantity: self.quantity,
            order_type: self.order_type,
            status: self.status,
            create_time: self.create_time,
            update_time: self.update_time,
            cancel_time: self.cancel_time,
        }
    }
}

/// The views of a sequence of orders, one for one.
pub open spec fn views_of(orders: Seq<Order>) -> Seq<OrderView> {
    orders.map_values(|o: Order| o@)
}

} // verus!
