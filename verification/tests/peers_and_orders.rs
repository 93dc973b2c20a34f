//! Behaviour of the peer position table and of the tagged order encoding.

use elevator_sync::orders::{Floor, Order, OrderData, RequestStatus};
use elevator_sync::positions::ElevatorPositions;

#[test]
fn test_positions_empty() {
    let positions = ElevatorPositions::new();
    assert_eq!(positions.get(&"10.0.0.1:9877".to_string()), None);
}

#[test]
fn test_positions_update_and_get() {
    let mut positions = ElevatorPositions::new();
    positions.update("10.0.0.1:9877".to_string(), 3);
    assert_eq!(positions.get(&"10.0.0.1:9877".to_string()), Some(3));
    assert_eq!(positions.get(&"10.0.0.2:9877".to_string()), None);
}

#[test]
fn test_positions_update_replaces() {
    let mut positions = ElevatorPositions::new();
    positions.update("10.0.0.1:9877".to_string(), 3);
    positions.update("10.0.0.1:9877".to_string(), 0);
    assert_eq!(positions.get(&"10.0.0.1:9877".to_string()), Some(0));
}

#[test]
fn test_positions_two_peers_independent() {
    let mut positions = ElevatorPositions::new();
    positions.update("10.0.0.1:9877".to_string(), 1);
    positions.update("10.0.0.2:9877".to_string(), 2);
    positions.update("10.0.0.1:9877".to_string(), 3);
    assert_eq!(positions.get(&"10.0.0.1:9877".to_string()), Some(3));
    assert_eq!(positions.get(&"10.0.0.2:9877".to_string()), Some(2));
}

#[test]
fn test_positions_remove() {
    let mut positions = ElevatorPositions::new();
    positions.update("10.0.0.1:9877".to_string(), 1);
    positions.update("10.0.0.2:9877".to_string(), 2);
    positions.remove(&"10.0.0.1:9877".to_string());
    assert_eq!(positions.get(&"10.0.0.1:9877".to_string()), None);
    assert_eq!(positions.get(&"10.0.0.2:9877".to_string()), Some(2));
}

#[test]
fn test_positions_remove_absent_is_noop() {
    let mut positions = ElevatorPositions::new();
    positions.update("10.0.0.1:9877".to_string(), 1);
    positions.remove(&"10.0.0.9:9877".to_string());
    assert_eq!(positions.get(&"10.0.0.1:9877".to_string()), Some(1));
}

#[test]
fn test_order_data_new_is_empty() {
    let orders = OrderData::new();
    assert_eq!(orders.orders_up, [false; 4]);
    assert_eq!(orders.orders_down, [false; 4]);
}

#[test]
fn test_order_data_merge_changes_nothing() {
    let mut orders = OrderData::new();
    orders.merge_request(RequestStatus::Active(Order::CallUp(Floor::At(0))));
    orders.merge_request(RequestStatus::Pending(Order::CallDown(Floor::At(2))));
    orders.merge_request(RequestStatus::Inactive(Order::Internal(Floor::At(3))));
    orders.merge_request(RequestStatus::Unknown(Order::CallUp(Floor::Between)));
    assert_eq!(orders.orders_up, [false; 4]);
    assert_eq!(orders.orders_down, [false; 4]);
}
