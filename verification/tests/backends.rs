use order_intake::error::OrderError;
use order_intake::messages::{
    CancelOrderResponse, GetOrderStatusResponse, ListOrdersResponse, PlaceOrderResponse,
};
use order_intake::order::{Order, OrderStatus, OrderType, Timestamp};

const CAUSES: [OrderError; 3] =
    [OrderError::NotFound, OrderError::BackendFailure, OrderError::Unimplemented];

fn order(id: &str, status: OrderStatus) -> Order {
    Order {
        id: id.to_string(),
        user_id: "u1".to_string(),
        pair: "BTC-USD".to_string(),
        price: 50000,
        quantity: 1,
        order_type: OrderType::Limit,
        status,
        create_time: Some(Timestamp { seconds: 1, nanos: 0 }),
        update_time: None,
        cancel_time: None,
    }
}

#[test]
fn placement_answer_takes_id_and_state_from_the_backend() {
    let answer = PlaceOrderResponse::answering(Ok(order("o1", OrderStatus::Created))).expect("placed");
    assert_eq!(answer.id, "o1");
    assert_eq!(answer.status, OrderStatus::Created);
    let answer = PlaceOrderResponse::answering(Ok(order("o2", OrderStatus::Cancelled))).expect("placed");
    assert_eq!(answer.id, "o2");
    assert_eq!(answer.status, OrderStatus::Cancelled);
}

#[test]
fn placement_answer_keeps_the_cause_of_a_failure() {
    for cause in CAUSES {
        assert_eq!(PlaceOrderResponse::answering(Err(cause)).err(), Some(cause));
    }
}

#[test]
fn cancellation_answer_is_cancelled_whatever_came_back() {
    let from_store = CancelOrderResponse::answering(Ok(())).expect("cancelled");
    assert_eq!(from_store.status, OrderStatus::Cancelled);
    let from_dispatcher = CancelOrderResponse::answering(Ok("o1".to_string())).expect("cancelled");
    assert_eq!(from_dispatcher.status, OrderStatus::Cancelled);
}

#[test]
fn cancellation_answer_keeps_the_cause_of_a_failure() {
    for cause in CAUSES {
        assert_eq!(CancelOrderResponse::answering::<()>(Err(cause)).err(), Some(cause));
        assert_eq!(CancelOrderResponse::answering::<String>(Err(cause)).err(), Some(cause));
    }
}

#[test]
fn lookup_answer_holds_the_order_or_the_cause() {
    let answer = GetOrderStatusResponse::answering(Ok(order("o1", OrderStatus::Created))).expect("found");
    let found = answer.order.expect("the answer holds the order");
    assert_eq!(found.id, "o1");
    assert_eq!(found.price, 50000);
    for cause in CAUSES {
        assert_eq!(GetOrderStatusResponse::answering(Err(cause)).err(), Some(cause));
    }
}

#[test]
fn listing_answer_holds_the_orders_as_listed_or_the_cause() {
    let listed = vec![order("o2", OrderStatus::Created), order("o1", OrderStatus::Created)];
    let answer = ListOrdersResponse::answering(Ok(listed)).expect("listed");
    let ids: Vec<&str> = answer.orders.iter().map(|o| o.id.as_str()).collect();
    assert_eq!(ids, vec!["o2", "o1"]);
    let empty = ListOrdersResponse::answering(Ok(Vec::new())).expect("listed");
    assert!(empty.orders.is_empty());
    for cause in CAUSES {
        assert_eq!(ListOrdersResponse::answering(Err(cause)).err(), Some(cause));
    }
}
