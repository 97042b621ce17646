use request_response_tunnel::header::RequestContext;
use request_response_tunnel::pending::{PendingRequests, PendingResponses};

fn context(client_id: u128, request_id: u64) -> RequestContext {
    RequestContext { client_id, request_id, header: vec![request_id as u8] }
}

#[test]
fn pending_request_is_found_under_its_key_once() {
    let mut pending = PendingRequests::new();
    assert_eq!(pending.insert((7, 1), "first"), None);
    assert_eq!(pending.insert((7, 2), "second"), None);
    assert_eq!(pending.insert((8, 1), "third"), None);
    assert_eq!(pending.remove((7, 1)), Some("first"));
    assert_eq!(pending.remove((7, 1)), None);
    assert_eq!(pending.remove((8, 2)), None);
    assert_eq!(pending.remove((7, 2)), Some("second"));
    assert_eq!(pending.remove((8, 1)), Some("third"));
    assert_eq!(pending.remove((8, 1)), None);
}

#[test]
fn later_request_displaces_the_one_under_its_key() {
    let mut pending = PendingRequests::new();
    pending.insert((u128::MAX, u64::MAX), 1);
    assert_eq!(pending.insert((u128::MAX, u64::MAX), 2), Some(1));
    assert_eq!(pending.remove((u128::MAX, u64::MAX)), Some(2));
}

#[test]
fn sweep_takes_out_what_is_over_and_keeps_the_order() {
    let mut pending = PendingResponses::new();
    for n in 0..6u64 {
        pending.push(n, context(1, n));
    }
    let mut visited = Vec::new();
    while let Some(entry) = pending.current() {
        let n = entry.0;
        visited.push(n);
        pending.visit(n == 0 || n == 2 || n == 3);
    }
    assert_eq!(visited, vec![0, 1, 2, 3, 4, 5]);
    pending.end_sweep();

    let mut left = Vec::new();
    while let Some(entry) = pending.current() {
        left.push((entry.0, entry.1.request_id));
        pending.visit(true);
    }
    assert_eq!(left, vec![(1, 1), (4, 4), (5, 5)]);
    pending.end_sweep();
    assert!(pending.current().is_none());
}

#[test]
fn sweep_of_nothing_is_at_its_end() {
    let mut pending = PendingResponses::<u8>::new();
    assert!(pending.current().is_none());
    pending.end_sweep();
    assert!(pending.current().is_none());
}
