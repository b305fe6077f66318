use fiddler_crab::request_unit::RequestUnit;
use fiddler_crab::router::{Delivery, ResponseRouter};

fn routed(id: usize) -> RequestUnit {
    RequestUnit::new(id, "m".to_string(), "b".to_string())
}

#[test]
fn new_router_has_nothing_pending() {
    let router: ResponseRouter<&str> = ResponseRouter::new();
    assert_eq!(router.pending_count(), 0);
    assert!(!router.is_pending(0));
}

#[test]
fn outcome_is_routed_to_the_waiting_connection() {
    let mut router: ResponseRouter<&str> = ResponseRouter::new();
    assert_eq!(router.register(1, "first"), None);
    assert_eq!(router.register(2, "second"), None);
    assert!(router.is_pending(1));
    let delivery = router.route(2, Ok(routed(2).answer("done".to_string())));
    assert_eq!(
        delivery,
        Delivery::Respond {
            connection: "second",
            response: "HTTP/1.1 200 OK\r\nContent-Type: text/plain\r\n\r\ndone".to_string(),
        }
    );
    assert!(!router.is_pending(2));
    assert!(router.is_pending(1));
    assert_eq!(router.pending_count(), 1);
}

#[test]
fn error_outcome_is_routed_as_server_error() {
    let mut router: ResponseRouter<u8> = ResponseRouter::new();
    router.register(9, 42);
    assert_eq!(
        router.route(9, Err("boom".to_string())),
        Delivery::Respond {
            connection: 42,
            response: "HTTP/1.1 500 Internal Server Error\r\n\r\nboom".to_string(),
        }
    );
}

#[test]
fn entry_is_removed_exactly_once() {
    let mut router: ResponseRouter<u8> = ResponseRouter::new();
    router.register(4, 1);
    router.register(5, 2);
    assert!(matches!(router.route(4, Err("e".to_string())), Delivery::Respond { .. }));
    assert_eq!(router.route(4, Err("e".to_string())), Delivery::Miss);
    assert_eq!(router.route(4, Ok(routed(4))), Delivery::Miss);
    assert_eq!(router.pending_count(), 1);
    assert!(router.is_pending(5));
}

#[test]
fn outcome_for_unknown_id_is_discarded() {
    let mut router: ResponseRouter<u8> = ResponseRouter::new();
    router.register(1, 1);
    assert_eq!(router.route(77, Ok(routed(77))), Delivery::Miss);
    assert_eq!(router.pending_count(), 1);
}

#[test]
fn register_replaces_a_connection_under_the_same_id() {
    let mut router: ResponseRouter<&str> = ResponseRouter::new();
    assert_eq!(router.register(1, "old"), None);
    assert_eq!(router.register(1, "new"), Some("old"));
    assert_eq!(router.pending_count(), 1);
    assert_eq!(router.abandon(1), Some("new"));
}

#[test]
fn abandoned_connection_no_longer_waits() {
    let mut router: ResponseRouter<&str> = ResponseRouter::new();
    router.register(1, "a");
    assert_eq!(router.abandon(1), Some("a"));
    assert_eq!(router.abandon(1), None);
    assert_eq!(router.route(1, Err("late".to_string())), Delivery::Miss);
}

#[test]
fn abandon_all_takes_each_connection_once() {
    let mut router: ResponseRouter<&str> = ResponseRouter::new();
    router.register(1, "a");
    router.register(2, "b");
    router.register(3, "c");
    let lost = vec![routed(3), routed(8), routed(1), routed(3)];
    assert_eq!(router.abandon_all(&lost), vec!["c", "a"]);
    assert_eq!(router.pending_count(), 1);
    assert!(router.is_pending(2));
    assert!(router.abandon_all(&Vec::new()).is_empty());
}
