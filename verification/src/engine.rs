//! The intake service: it takes the four requests and turns each into one
//! call of its store or of its dispatcher.

use vstd::prelude::*;
use crate::clock::current_time;
use crate::error::OrderError;
use crate::ident::{fresh_order_id, is_order_id};
use crate::messages::{
    CancelOrderRequest,
    CancelOrderResponse,
    GetOrderStatusRequest,
    GetOrderStatusResponse,
    ListOrdersRequest,
    ListOrdersResponse,
    PlaceOrderRequest,
    PlaceOrderRequestView,
    PlaceOrderResponse,
};
use crate::order::{views_of, Order, OrderStatus, OrderView, Timestamp};
use crate::producer::{KafkaProducer, OrderProducer};
use crate::records::{is_listing, keyed_by_id, lookup, with_order, without_order, Records};
use crate::repository::{InMemoryOrderRepository, OrderRepository};

verus! {

/// The record of an order that was placed at `at` under `id`: what the
/// request asked for, in the entry state, with the time of creation and no
/// other time.
pub open spec fn created_order(
    id: Seq<char>,
    at: Timestamp,
    request: PlaceOrderRequestView,
) -> OrderView {
    OrderView {
        id,
        user_id: request.user_id,
        pair: request.pair,
        price: request.price,
        quantity: request.quantity,
        order_type: request.order_type,
        status: OrderStatus::Created,
        create_time: Some(at),
        update_time: None,
        cancel_time: None,
    }
}

/// The service that takes orders in.
///
/// It owns one store and, where one is set up, one dispatcher. Lookups and
/// listings are answered from the store. An order is placed or cancelled in
/// one of the two, never in both: with the dispatcher where there is one, in
/// the store where there is none.
///
/// To cancel an order is to remove its record: once cancelled, an order is
/// not found any more. Cancelling an id that the store does not hold is no
/// failure of the store kept in memory.
#[derive(Debug)]
pub struct EngineServer<R: OrderRepository, P: OrderProducer> {
    repository: R,
    producer: Option<P>,
}

impl<R: OrderRepository, P: OrderProducer> EngineServer<R, P> {
    /// The records in the service's store.
    pub closed spec fn records(&self) -> Records {
        self.repository.records()
    }

    /// Whether placements and cancellations go to a dispatcher.
    pub closed spec fn dispatches(&self) -> bool {
        self.producer is Some
    }

    /// Whether the backend that takes placements and cancellations never
    /// fails.
    pub open spec fn writes_never_fail(&self) -> bool {
        if self.dispatches() {
            P::never_fails()
        } else {
            R::never_fails()
        }
    }

    /// Every record of the service's store stands under its own id, and
    /// there are finitely many.
    pub proof fn records_are_keyed_by_id(&self)
        ensures
            keyed_by_id(self.records()),
            self.records().dom().finite(),
    {
        self.repository.records_are_keyed_by_id();
    }

    /// A service over `repository` that places and cancels with `producer`
    /// if there is one.
    pub fn new(repository: R, producer: Option<P>) -> (engine: Self)
        ensures
            engine.records() == repository.records(),
            engine.dispatches() == (producer is Some),
    {
        EngineServer { repository, producer }
    }

    /// Places an order under a new id, at the time that the clock shows.
    ///
    /// The id is random and the time is the machine's, so the record is
    /// pinned down only up to these two: see [`Self::place_order_at`] for
    /// what is done with them.
    pub fn place_order(&mut self, request: PlaceOrderRequest) -> (placed: Result<
        PlaceOrderResponse,
        OrderError,
    >)
        ensures
            final(self).dispatches() == old(self).dispatches(),
            match placed {
                Ok(response) => {
                    &&& is_order_id(response.id@)
                    &&& response.status == OrderStatus::Created
                    &&& if old(self).dispatches() {
                        final(self).records() == old(self).records()
                    } else {
                        exists|at: Timestamp| #[trigger]
                            at.is_normalized() && final(self).records() == with_order(
                                old(self).records(),
                                created_order(response.id@, at, request@),
                            )
                    }
                },
                Err(_) => final(self).records() == old(self).records(),
            },
            old(self).writes_never_fail() ==> placed is Ok,
    {
        let id = fresh_order_id();
        let now = current_time();
        self.place_order_at(id, now, request)
    }

    /// Places an order under `id`, created at `now`.
    ///
    /// Without a dispatcher the record goes into the store, in place of any
    /// record with that id. With one the order is forwarded and the store is
    /// left as it is.
    pub fn place_order_at(&mut self, id: String, now: Timestamp, request: PlaceOrderRequest) -> (placed:
        Result<PlaceOrderResponse, OrderError>)
        ensures
            final(self).dispatches() == old(self).dispatches(),
            match placed {
                Ok(response) => {
                    &&& response.id@ == id@
                    &&& response.status == OrderStatus::Created
                    &&& final(self).records() == if old(self).dispatches() {
                        old(self).records()
                    } else {
                        with_order(old(self).records(), created_order(id@, now, request@))
                    }
                },
                Err(_) => final(self).records() == old(self).records(),
            },
            old(self).writes_never_fail() ==> placed is Ok,
    {
        let order = Order {
            id,
            user_id: request.user_id,
            pair: request.pair,
            price: request.price,
            quantity: request.quantity,
            order_type: request.order_type,
            status: OrderStatus::Created,
            create_time: Some(now),
            update_time: None,
            cancel_time: None,
        };
        let outcome = match &self.producer {
            Some(producer) => producer.place_order(order),
            None => self.repository.place_order(order),
        };
        PlaceOrderResponse::answering(outcome)
    }

    /// Cancels the order that the request names.
    ///
    /// Without a dispatcher its record is removed from the store. With one
    /// the wish is forwarded and the store is left as it is.
    pub fn cancel_order(&mut self, request: CancelOrderRequest) -> (cancelled: Result<
        CancelOrderResponse,
        OrderError,
    >)
        ensures
            final(self).dispatches() == old(self).dispatches(),
            match cancelled {
                Ok(response) => {
                    &&& response.status == OrderStatus::Cancelled
                    &&& final(self).records() == if old(self).dispatches() {
                        old(self).records()
                    } else {
                        without_order(old(self).records(), request.id@)
                    }
                },
                Err(cause) => {
                    &&& final(self).records() == old(self).records()
                    &&& cause == OrderError::NotFound && !old(self).dispatches() ==> !old(
                        self,
                    ).records().contains_key(request.id@)
                },
            },
            old(self).writes_never_fail() ==> cancelled is Ok,
    {
        match &self.producer {
            Some(producer) => CancelOrderResponse::answering(producer.cancel_order(request.id)),
            None => CancelOrderResponse::answering(self.repository.cancel_order(request.id)),
        }
    }

    /// Looks up the order that the request names, in the store.
    pub fn get_order_status(&self, request: GetOrderStatusRequest) -> (found: Result<
        GetOrderStatusResponse,
        OrderError,
    >)
        ensures
            match found {
                Ok(response) => response.order matches Some(order) && order@.id == request.id@
                    && lookup(self.records(), request.id@) == Ok::<OrderView, OrderError>(order@),
                Err(cause) => cause == OrderError::NotFound ==> !self.records().contains_key(
                    request.id@,
                ),
            },
            R::never_fails() ==> match found {
                Ok(_) => true,
                Err(cause) => lookup(self.records(), request.id@) == Err::<OrderView, OrderError>(
                    cause,
                ),
            },
    {
        proof {
            self.repository.records_are_keyed_by_id();
        }
        GetOrderStatusResponse::answering(self.repository.get_order_status(request.id))
    }

    /// Lists the orders of the user that the request names, from the store.
    pub fn list_orders(&self, request: ListOrdersRequest) -> (listed: Result<
        ListOrdersResponse,
        OrderError,
    >)
        ensures
            listed matches Ok(response) ==> is_listing(
                views_of(response.orders@),
                self.records(),
                request.user_id@,
            ),
            R::never_fails() ==> listed is Ok,
    {
        ListOrdersResponse::answering(self.repository.get_all_orders(request.user_id))
    }
}

impl Default for EngineServer<InMemoryOrderRepository, KafkaProducer> {
    /// A service over an empty store in memory, without a dispatcher.
    fn default() -> (engine: Self)
        ensures
            engine.records() == Records::empty(),
            !engine.dispatches(),
    {
        EngineServer::new(InMemoryOrderRepository::new(), None)
    }
}

} // verus!
