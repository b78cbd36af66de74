use order_intake::engine::EngineServer;
use order_intake::error::OrderError;
use order_intake::messages::{
    CancelOrderRequest, GetOrderStatusRequest, ListOrdersRequest, PlaceOrderRequest,
};
use order_intake::order::{OrderStatus, OrderType, Timestamp};
use order_intake::producer::KafkaProducer;
use order_intake::repository::InMemoryOrderRepository;

type Service = EngineServer<InMemoryOrderRepository, KafkaProducer>;

fn store_backed() -> Service {
    EngineServer::new(InMemoryOrderRepository::new(), None)
}

fn request(user: &str, pair: &str, price: u64, quantity: u64, kind: OrderType) -> PlaceOrderRequest {
    PlaceOrderRequest {
        user_id: user.to_string(),
        pair: pair.to_string(),
        price,
        quantity,
        order_type: kind,
    }
}

fn listed_ids(service: &Service, user: &str) -> Vec<String> {
    let listed = service
        .list_orders(ListOrdersRequest { user_id: user.to_string() })
        .expect("the store in memory lists without failure");
    let mut ids: Vec<String> = listed.orders.into_iter().map(|o| o.id).collect();
    ids.sort();
    ids
}

#[test]
fn place_get_list_cancel_scenario() {
    let mut service = store_backed();
    let placed = service
        .place_order(request("u1", "BTC-USD", 50000, 1, OrderType::Limit))
        .expect("placed");
    assert_eq!(placed.status, OrderStatus::Created);
    let id = placed.id;

    let found = service
        .get_order_status(GetOrderStatusRequest { id: id.clone() })
        .expect("found");
    let order = found.order.expect("the answer holds the order");
    assert_eq!(order.id, id);
    assert_eq!(order.user_id, "u1");
    assert_eq!(order.pair, "BTC-USD");
    assert_eq!(order.price, 50000);
    assert_eq!(order.quantity, 1);
    assert_eq!(order.order_type, OrderType::Limit);
    assert_eq!(order.status, OrderStatus::Created);

    assert_eq!(listed_ids(&service, "u1"), vec![id.clone()]);

    let cancelled = service
        .cancel_order(CancelOrderRequest { id: id.clone() })
        .expect("cancelled");
    assert_eq!(cancelled.status, OrderStatus::Cancelled);

    let after = service.get_order_status(GetOrderStatusRequest { id });
    assert_eq!(after.err(), Some(OrderError::NotFound));
    assert!(listed_ids(&service, "u1").is_empty());
}

#[test]
fn placed_order_keeps_its_times() {
    let mut service = store_backed();
    let placed = service
        .place_order(request("u7", "ETH-USD", 3200, 4, OrderType::Market))
        .expect("placed");
    let order = service
        .get_order_status(GetOrderStatusRequest { id: placed.id })
        .expect("found")
        .order
        .expect("the answer holds the order");
    let created = order.create_time.expect("the time of creation is set");
    assert!(created.seconds > 1_500_000_000);
    assert!(created.nanos >= 0 && created.nanos < 1_000_000_000);
    assert_eq!(order.update_time, None);
    assert_eq!(order.cancel_time, None);
    assert_eq!(order.order_type, OrderType::Market);
}

#[test]
fn new_ids_have_the_shape_of_a_random_uuid() {
    let mut service = store_backed();
    for _ in 0..20 {
        let id = service
            .place_order(request("u1", "BTC-USD", 1, 1, OrderType::Limit))
            .expect("placed")
            .id;
        let chars: Vec<char> = id.chars().collect();
        assert_eq!(chars.len(), 36);
        for (i, c) in chars.iter().enumerate() {
            if i == 8 || i == 13 || i == 18 || i == 23 {
                assert_eq!(*c, '-');
            } else {
                assert!(matches!(*c, '0'..='9' | 'a'..='f'));
            }
        }
        assert_eq!(chars[14], '4');
        assert!(matches!(chars[19], '8' | '9' | 'a' | 'b'));
    }
}

#[test]
fn repeated_placements_get_ids_of_their_own() {
    let mut service = store_backed();
    let mut ids: Vec<String> = Vec::new();
    for _ in 0..50 {
        let placed = service
            .place_order(request("u1", "BTC-USD", 50000, 1, OrderType::Limit))
            .expect("placed");
        ids.push(placed.id);
    }
    let mut distinct = ids.clone();
    distinct.sort();
    distinct.dedup();
    assert_eq!(distinct.len(), 50);
    assert_eq!(listed_ids(&service, "u1"), distinct);
}

#[test]
fn place_order_at_stores_exactly_what_was_asked() {
    let mut service = store_backed();
    let at = Timestamp { seconds: 1_700_000_000, nanos: 250 };
    let placed = service
        .place_order_at("order-1".to_string(), at, request("u1", "BTC-USD", 50000, 1, OrderType::Limit))
        .expect("placed");
    assert_eq!(placed.id, "order-1");
    assert_eq!(placed.status, OrderStatus::Created);
    let order = service
        .get_order_status(GetOrderStatusRequest { id: "order-1".to_string() })
        .expect("found")
        .order
        .expect("the answer holds the order");
    assert_eq!(order.id, "order-1");
    assert_eq!(order.user_id, "u1");
    assert_eq!(order.pair, "BTC-USD");
    assert_eq!(order.price, 50000);
    assert_eq!(order.quantity, 1);
    assert_eq!(order.order_type, OrderType::Limit);
    assert_eq!(order.status, OrderStatus::Created);
    assert_eq!(order.create_time, Some(at));
    assert_eq!(order.update_time, None);
    assert_eq!(order.cancel_time, None);
}

#[test]
fn placing_again_under_an_id_overwrites() {
    let mut service = store_backed();
    let first = Timestamp { seconds: 10, nanos: 0 };
    let second = Timestamp { seconds: 20, nanos: 5 };
    service
        .place_order_at("same".to_string(), first, request("u1", "BTC-USD", 1, 1, OrderType::Limit))
        .expect("placed");
    service
        .place_order_at("same".to_string(), second, request("u2", "ETH-USD", 2, 3, OrderType::Market))
        .expect("placed");
    let order = service
        .get_order_status(GetOrderStatusRequest { id: "same".to_string() })
        .expect("found")
        .order
        .expect("the answer holds the order");
    assert_eq!(order.user_id, "u2");
    assert_eq!(order.pair, "ETH-USD");
    assert_eq!(order.price, 2);
    assert_eq!(order.quantity, 3);
    assert_eq!(order.create_time, Some(second));
    assert!(listed_ids(&service, "u1").is_empty());
    assert_eq!(listed_ids(&service, "u2"), vec!["same".to_string()]);
}

#[test]
fn listing_keeps_users_apart() {
    let mut service = store_backed();
    let at = Timestamp { seconds: 1, nanos: 0 };
    let plan = [
        ("a1", "alice"),
        ("b1", "bob"),
        ("a2", "alice"),
        ("c1", "carol"),
        ("b2", "bob"),
        ("a3", "alice"),
    ];
    for (id, user) in plan {
        service
            .place_order_at(id.to_string(), at, request(user, "BTC-USD", 7, 2, OrderType::Limit))
            .expect("placed");
    }
    service
        .cancel_order(CancelOrderRequest { id: "a2".to_string() })
        .expect("cancelled");
    assert_eq!(listed_ids(&service, "alice"), vec!["a1".to_string(), "a3".to_string()]);
    assert_eq!(listed_ids(&service, "bob"), vec!["b1".to_string(), "b2".to_string()]);
    assert_eq!(listed_ids(&service, "carol"), vec!["c1".to_string()]);
    assert!(listed_ids(&service, "dave").is_empty());
    let listed = service
        .list_orders(ListOrdersRequest { user_id: "bob".to_string() })
        .expect("listed");
    for order in listed.orders {
        assert_eq!(order.user_id, "bob");
        assert_eq!(order.pair, "BTC-USD");
        assert_eq!(order.price, 7);
        assert_eq!(order.quantity, 2);
    }
}

#[test]
fn lookup_of_an_id_never_issued_is_not_found() {
    let mut service = store_backed();
    let missing = service.get_order_status(GetOrderStatusRequest { id: "nobody".to_string() });
    assert_eq!(missing.err(), Some(OrderError::NotFound));
    service
        .place_order(request("u1", "BTC-USD", 50000, 1, OrderType::Limit))
        .expect("placed");
    let missing = service.get_order_status(GetOrderStatusRequest { id: "nobody".to_string() });
    assert_eq!(missing.err(), Some(OrderError::NotFound));
    let missing = service.get_order_status(GetOrderStatusRequest { id: String::new() });
    assert_eq!(missing.err(), Some(OrderError::NotFound));
}

#[test]
fn cancelling_an_absent_id_succeeds_and_changes_nothing() {
    let mut service = store_backed();
    let at = Timestamp { seconds: 1, nanos: 0 };
    service
        .place_order_at("kept".to_string(), at, request("u1", "BTC-USD", 1, 1, OrderType::Limit))
        .expect("placed");
    let cancelled = service
        .cancel_order(CancelOrderRequest { id: "absent".to_string() })
        .expect("the store in memory removes without failure");
    assert_eq!(cancelled.status, OrderStatus::Cancelled);
    assert_eq!(listed_ids(&service, "u1"), vec!["kept".to_string()]);
    let again = service
        .cancel_order(CancelOrderRequest { id: "kept".to_string() })
        .expect("cancelled");
    assert_eq!(again.status, OrderStatus::Cancelled);
    let twice = service
        .cancel_order(CancelOrderRequest { id: "kept".to_string() })
        .expect("cancelled");
    assert_eq!(twice.status, OrderStatus::Cancelled);
    assert!(listed_ids(&service, "u1").is_empty());
}

#[test]
fn with_a_dispatcher_the_store_is_left_alone() {
    let mut service: Service = EngineServer::new(InMemoryOrderRepository::new(), Some(KafkaProducer::new()));
    let at = Timestamp { seconds: 5, nanos: 9 };
    let placed = service
        .place_order_at("sent-1".to_string(), at, request("u1", "BTC-USD", 50000, 1, OrderType::Limit))
        .expect("forwarded");
    assert_eq!(placed.id, "sent-1");
    assert_eq!(placed.status, OrderStatus::Created);
    let found = service.get_order_status(GetOrderStatusRequest { id: "sent-1".to_string() });
    assert_eq!(found.err(), Some(OrderError::NotFound));
    assert!(listed_ids(&service, "u1").is_empty());
    let cancelled = service
        .cancel_order(CancelOrderRequest { id: "sent-1".to_string() })
        .expect("forwarded");
    assert_eq!(cancelled.status, OrderStatus::Cancelled);
    let random = service
        .place_order(request("u1", "BTC-USD", 50000, 1, OrderType::Limit))
        .expect("forwarded");
    assert_eq!(random.id.len(), 36);
    assert_eq!(random.status, OrderStatus::Created);
    assert!(listed_ids(&service, "u1").is_empty());
}

#[test]
fn default_service_is_empty_and_store_backed() {
    let mut service = Service::default();
    assert!(listed_ids(&service, "u1").is_empty());
    let placed = service
        .place_order(request("u1", "BTC-USD", 50000, 1, OrderType::Limit))
        .expect("placed");
    assert_eq!(listed_ids(&service, "u1"), vec![placed.id]);
}

#[test]
fn mixed_workload_leaves_placed_minus_removed() {
    let mut service = store_backed();
    let mut ids: Vec<String> = Vec::new();
    for round in 0..40u64 {
        let placed = service
            .place_order(request("u1", "BTC-USD", round, 1, OrderType::Limit))
            .expect("placed");
        ids.push(placed.id);
        if round % 4 == 3 {
            let victim = ids.remove(0);
            service.cancel_order(CancelOrderRequest { id: victim }).expect("cancelled");
        }
        let _ = service.get_order_status(GetOrderStatusRequest { id: ids[0].clone() }).expect("found");
    }
    ids.sort();
    assert_eq!(ids.len(), 30);
    assert_eq!(listed_ids(&service, "u1"), ids);
}
