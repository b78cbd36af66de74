//! What the four requests carry and what is answered to them.

use vstd::prelude::*;
use crate::error::OrderError;
use crate::order::{Order, OrderStatus, OrderType};

verus! {

/// The wish to place an order. The id, the state and the times are not the
/// caller's to give.
#[derive(Debug)]
pub struct PlaceOrderRequest {
    pub user_id: String,
    pub pair: String,
    pub price: u64,
    pub quantity: u64,
    pub order_type: OrderType,
}

/// What a [`PlaceOrderRequest`] holds, with its texts as sequences of
/// characters.
pub struct PlaceOrderRequestView {
    pub user_id: Seq<char>,
    pub pair: Seq<char>,
    pub price: u64,
    pub quantity: u64,
    pub order_type: OrderType,
}

impl View for PlaceOrderRequest {
    type V = PlaceOrderRequestView;

    open spec fn view(&self) -> PlaceOrderRequestView {
        PlaceOrderRequestView {
            user_id: self.user_id@,
            pair: self.pair@,
            price: self.price,
            quantity: self.quantity,
            order_type: self.order_type,
        }
    }
}

/// The id that the new order was given, and its state.
#[derive(Debug)]
pub struct PlaceOrderResponse {
    pub id: String,
    pub status: OrderStatus,
}

impl PlaceOrderResponse {
    /// The answer to a placement, from what the backend said of it: the id
    /// and the state of the order that it handed back, or its failure.
    pub fn answering(outcome: Result<Order, OrderError>) -> (answer: Result<Self, OrderError>)
        ensures
            match outcome {
                Ok(order) => answer matches Ok(response) && response.id == order.id
                    && response.status == order.status,
                Err(cause) => answer matches Err(passed) && passed == cause,
            },
    {
        match outcome {
            Ok(order) => Ok(PlaceOrderResponse { id: order.id, status: order.status }),
            Err(cause) => Err(cause),
        }
    }
}

/// The wish to cancel the order with `id`.
#[derive(Debug)]
pub struct CancelOrderRequest {
    pub id: String,
}

/// The state in which the cancellation leaves the order.
#[derive(Debug)]
pub struct CancelOrderResponse {
    pub status: OrderStatus,
}

impl CancelOrderResponse {
    /// The answer to a cancellation, from what the backend said of it: that
    /// the order is cancelled, or the backend's failure. What the backend
    /// handed back on success is not looked at.
    pub fn answering<T>(outcome: Result<T, OrderError>) -> (answer: Result<Self, OrderError>)
        ensures
            match outcome {
                Ok(_) => answer matches Ok(response) && response.status == OrderStatus::Cancelled,
                Err(cause) => answer matches Err(passed) && passed == cause,
            },
    {
        match outcome {
            Ok(_) => Ok(CancelOrderResponse { status: OrderStatus::Cancelled }),
            Err(cause) => Err(cause),
        }
    }
}

/// The wish to see the order with `id`.
#[derive(Debug)]
pub struct GetOrderStatusRequest {
    pub id: String,
}

/// The order that was asked for.
#[derive(Debug)]
pub struct GetOrderStatusResponse {
    pub order: Option<Order>,
}

impl GetOrderStatusResponse {
    /// The answer to a lookup, from what the store said of it: the order
    /// that it found, or its failure.
    pub fn answering(outcome: Result<Order, OrderError>) -> (answer: Result<Self, OrderError>)
        ensures
            match outcome {
                Ok(order) => answer matches Ok(response) && response.order == Some(order),
                Err(cause) => answer matches Err(passed) && passed == cause,
            },
    {
        match outcome {
            Ok(order) => Ok(GetOrderStatusResponse { order: Some(order) }),
            Err(cause) => Err(cause),
        }
    }
}

/// The wish to see the orders of `user_id`.
#[derive(Debug)]
pub struct ListOrdersRequest {
    pub user_id: String,
}

/// The orders of one user, in no particular order.
#[derive(Debug)]
pub struct ListOrdersResponse {
    pub orders: Vec<Order>,
}

impl ListOrdersResponse {
    /// The answer to a listing, from what the store said of it: the orders
    /// that it listed, as it listed them, or its failure.
    pub fn answering(outcome: Result<Vec<Order>, OrderError>) -> (answer: Result<Self, OrderError>)
        ensures
            match outcome {
                Ok(orders) => answer matches Ok(response) && response.orders == orders,
                Err(cause) => answer matches Err(passed) && passed == cause,
            },
    {
        match outcome {
            Ok(orders) => Ok(ListOrdersResponse { orders }),
            Err(cause) => Err(cause),
        }
    }
}

} // verus!
