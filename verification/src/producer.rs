//! The dispatcher: it forwards what was placed or cancelled to a channel
//! outside the service and waits for nothing.

use vstd::prelude::*;
use crate::error::OrderError;
use crate::order::Order;

verus! {

/// A backend that forwards orders and cancellations to an event channel.
///
/// A dispatcher may annotate the order that it hands back. Which order it
/// is, when it was created and where it stands in its lifecycle are not the
/// dispatcher's to change.
pub trait OrderProducer: Send + Sync {
    /// Whether a dispatcher of this type never reports a failure.
    spec fn never_fails() -> bool;

    /// Forwards an order that was placed.
    fn place_order(&self, order: Order) -> (sent: Result<Order, OrderError>)
        ensures
            sent matches Ok(echo) ==> {
                &&& echo@.id == order@.id
                &&& echo@.create_time == order@.create_time
                &&& echo@.status == order@.status
            },
            Self::never_fails() ==> sent is Ok,
    ;

    /// Forwards the wish to cancel the order with `order_id`.
    fn cancel_order(&self, order_id: String) -> (sent: Result<String, OrderError>)
        ensures
            sent matches Ok(echo) ==> echo@ == order_id@,
            Self::never_fails() ==> sent is Ok,
    ;
}

/// The dispatcher that is used where no channel is set up: it hands back
/// what it was given and has no effect outside.
#[derive(Debug)]
pub struct KafkaProducer {}

impl KafkaProducer {
    pub fn new() -> (producer: Self)
        ensures
            producer == (KafkaProducer {  }),
    {
        KafkaProducer {  }
    }
}

impl Default for KafkaProducer {
    fn default() -> (producer: Self)
        ensures
            producer == (KafkaProducer {  }),
    {
        KafkaProducer::new()
    }
}

impl OrderProducer for KafkaProducer {
    open spec fn never_fails() -> bool {
        true
    }

    fn place_order(&self, order: Order) -> (sent: Result<Order, OrderError>)
        ensures
            sent == Ok::<Order, OrderError>(order),
    {
        Ok(order)
    }

    fn cancel_order(&self, order_id: String) -> (sent: Result<String, OrderError>)
        ensures
            sent == Ok::<String, OrderError>(order_id),
    {
        Ok(order_id)
    }
}

} // verus!
