//! Behaviour of the request store and its merge rule on concrete inputs.

use elevator_sync::request::{Request, RequestStatus};
use elevator_sync::request::RequestStatus::{Active, Inactive, Pending, Unknown};
use elevator_sync::store::RequestHandler;
use elevator_sync::N_FLOORS;

fn req(floor: usize, status: RequestStatus) -> Request {
    Request { floor, status, assigned_to: None }
}

fn assigned(floor: usize, status: RequestStatus, node: &str) -> Request {
    Request { floor, status, assigned_to: Some(node.to_string()) }
}

/// Drive the local entry of `floor` to `status` in a fresh store: the first
/// announcement about a floor is adopted wholesale.
fn store_with(floor: usize, status: RequestStatus) -> RequestHandler {
    let mut handler = RequestHandler::new();
    handler.merge_request(req(floor, status));
    handler
}

#[test]
fn test_new_store_all_unknown() {
    let handler = RequestHandler::new();
    let snap = handler.snapshot();
    assert_eq!(snap.len(), N_FLOORS);
    for (i, request) in snap.iter().enumerate() {
        assert_eq!(request.floor, i);
        assert_eq!(request.status, RequestStatus::Unknown);
        assert_eq!(request.assigned_to, None);
    }
}

#[test]
fn test_merge_idempotent() {
    let remote = assigned(1, RequestStatus::Pending, "10.0.0.7:9876");
    let mut once = RequestHandler::new();
    once.merge_request(remote.clone());
    let mut twice = RequestHandler::new();
    twice.merge_request(remote.clone());
    twice.merge_request(remote.clone());
    assert_eq!(once.snapshot(), twice.snapshot());

    // also from a non-Unknown starting point
    let mut once = store_with(1, RequestStatus::Inactive);
    let mut twice = store_with(1, RequestStatus::Inactive);
    once.merge_request(remote.clone());
    twice.merge_request(remote.clone());
    twice.merge_request(remote.clone());
    assert_eq!(once.snapshot(), twice.snapshot());
}

#[test]
fn test_merge_totality_all_sixteen_pairs() {
    let all = [Active, Pending, Inactive, Unknown];
    for &local in all.iter() {
        for &remote in all.iter() {
            let mut handler = store_with(0, local);
            handler.merge_request(req(0, remote));
            let expected = match (local, remote) {
                (Active, Inactive) => Inactive,
                (Inactive, Pending) => Pending,
                (Pending, Active) => Active,
                (Pending, Pending) => Pending,
                (Unknown, r) => r,
                _ => local,
            };
            assert_eq!(handler.get(0).status, expected);
        }
    }
}

#[test]
fn test_unknown_adopts_remote_wholesale() {
    let remote = assigned(1, RequestStatus::Active, "10.0.0.9:9876");
    let mut handler = RequestHandler::new();
    handler.merge_request(remote.clone());
    assert_eq!(*handler.get(1), remote);
    // the other floors are untouched
    assert_eq!(handler.get(0).status, RequestStatus::Unknown);
    assert_eq!(handler.get(2).status, RequestStatus::Unknown);
    assert_eq!(handler.get(3).status, RequestStatus::Unknown);
}

#[test]
fn test_happy_path_in_order() {
    let mut handler = store_with(3, RequestStatus::Inactive);
    handler.merge_request(req(3, RequestStatus::Pending));
    assert_eq!(handler.get(3).status, RequestStatus::Pending);
    handler.merge_request(req(3, RequestStatus::Active));
    assert_eq!(handler.get(3).status, RequestStatus::Active);
    handler.merge_request(req(3, RequestStatus::Inactive));
    assert_eq!(handler.get(3).status, RequestStatus::Inactive);
}

#[test]
fn test_happy_path_steps_cannot_be_skipped() {
    // Inactive cannot jump straight to Active
    let mut handler = store_with(2, RequestStatus::Inactive);
    handler.merge_request(req(2, RequestStatus::Active));
    assert_eq!(handler.get(2).status, RequestStatus::Inactive);
    // Pending cannot fall straight back to Inactive
    let mut handler = store_with(2, RequestStatus::Pending);
    handler.merge_request(req(2, RequestStatus::Inactive));
    assert_eq!(handler.get(2).status, RequestStatus::Pending);
}

#[test]
fn test_no_regression_on_out_of_table_pair() {
    let local = assigned(1, RequestStatus::Active, "10.0.0.2:9876");
    let mut handler = RequestHandler::new();
    handler.merge_request(local.clone());
    handler.merge_request(assigned(1, RequestStatus::Pending, "10.0.0.3:9876"));
    // (Active, Pending) is not in the table: everything stays, assignee included
    assert_eq!(*handler.get(1), local);
}

#[test]
fn test_store_shape_after_many_merges() {
    let mut handler = RequestHandler::new();
    let announcements = [
        (0, Pending),
        (1, Active),
        (2, Inactive),
        (3, Pending),
        (0, Active),
        (0, Inactive),
        (3, Pending),
        (2, Pending),
        (1, Unknown),
    ];
    for &(floor, status) in announcements.iter() {
        handler.merge_request(req(floor, status));
        let snap = handler.snapshot();
        assert_eq!(snap.len(), N_FLOORS);
        for (i, request) in snap.iter().enumerate() {
            assert_eq!(request.floor, i);
        }
    }
}

#[test]
fn test_get_and_set() {
    let mut handler = RequestHandler::new();
    let request = assigned(2, RequestStatus::Pending, "10.0.0.4:9876");
    handler.set(2, request.clone());
    assert_eq!(*handler.get(2), request);
    assert_eq!(handler.get(1).status, RequestStatus::Unknown);
}

#[test]
fn test_snapshot_matches_gets() {
    let mut handler = RequestHandler::new();
    handler.merge_request(req(0, RequestStatus::Pending));
    handler.merge_request(assigned(2, RequestStatus::Active, "10.0.0.5:9876"));
    let snap = handler.snapshot();
    for floor in 0..N_FLOORS {
        assert_eq!(snap[floor], *handler.get(floor));
    }
}

#[test]
fn test_duplicate_full_broadcast_is_noop() {
    let mut handler = RequestHandler::new();
    handler.merge_request(req(0, Inactive));
    handler.merge_request(req(1, Pending));
    handler.merge_request(assigned(2, Active, "10.0.0.6:9876"));
    let before = handler.snapshot();
    // the node receives an echo of its own full broadcast
    for request in handler.snapshot() {
        handler.merge_request(request);
    }
    assert_eq!(handler.snapshot(), before);
}

/// One anti-entropy tick from `source` into `sink`: every floor's state is
/// broadcast and folded in, exactly as the dissemination loop does.
fn tick(source: &RequestHandler, sink: &mut RequestHandler) {
    for request in source.snapshot() {
        sink.merge_request(request);
    }
}

#[test]
fn test_end_to_end_two_nodes_converge() {
    let mut node_a = RequestHandler::new();
    let mut node_b = RequestHandler::new();

    // node A locally raises floor 2 to Pending
    node_a.merge_request(req(2, RequestStatus::Pending));
    assert_eq!(node_a.get(2).status, RequestStatus::Pending);

    // after one dissemination tick, node B follows: one full broadcast is
    // enough for a node with no information to converge completely
    tick(&node_a, &mut node_b);
    assert_eq!(node_b.get(2).status, RequestStatus::Pending);
    assert_eq!(node_b.snapshot(), node_a.snapshot());

    // node A promotes floor 2 to Active; the next tick carries it over
    node_a.merge_request(req(2, RequestStatus::Active));
    tick(&node_a, &mut node_b);
    assert_eq!(node_b.get(2).status, RequestStatus::Active);

    // floor 2 is served on A; both nodes converge to Inactive
    node_a.merge_request(req(2, RequestStatus::Inactive));
    tick(&node_a, &mut node_b);
    tick(&node_b, &mut node_a);
    assert_eq!(node_a.get(2).status, RequestStatus::Inactive);
    assert_eq!(node_b.get(2).status, RequestStatus::Inactive);
    assert_eq!(node_a.snapshot(), node_b.snapshot());
}
