use request_response_tunnel::header::{request_header_size, response_header_size, RequestContext};
use request_response_tunnel::relay::{
    Relay, RequestArrival, ResponseAction, ResponseParts, StaticConfig,
};
use request_response_tunnel::wire::MessageSizes;
use zenoh::bytes::ZBytes;

/// Both directions carry one `u64` and no user header.
const CONFIG: StaticConfig = StaticConfig {
    request: MessageSizes { user_header: 0, payload: 8 },
    response: MessageSizes { user_header: 0, payload: 8 },
};

/// Puts the key at the front of a header of the right size.
fn write_context(client_id: u128, request_id: u64) -> RequestContext {
    let mut header = vec![0; request_header_size()];
    header[..16].copy_from_slice(&client_id.to_ne_bytes());
    header[16..24].copy_from_slice(&request_id.to_ne_bytes());
    RequestContext { client_id, request_id, header }
}

/// Reads a header that [`write_context`] wrote.
fn read_context(header: Vec<u8>) -> RequestContext {
    let client_id = u128::from_ne_bytes(header[..16].try_into().unwrap());
    let request_id = u64::from_ne_bytes(header[16..24].try_into().unwrap());
    RequestContext { client_id, request_id, header }
}

/// Has a relay go through all its awaited responses, and gives what it publishes. `connected` is
/// whether the servers are still there, and `poll` is what the awaited responses give.
fn publish_responses<Req, Pend>(
    relay: &mut Relay<Req, Pend>,
    connected: bool,
    poll: impl Fn(&Pend) -> Option<u64>,
) -> Vec<ZBytes> {
    let mut published = Vec::new();
    let mut action = relay.receive_response();
    loop {
        action = match action {
            ResponseAction::CheckConnection => relay.connection_checked(connected),
            ResponseAction::PollPending { connected } => {
                let header = vec![0xab; response_header_size()];
                let payload = poll(&relay.next_pending().unwrap().0).map(u64::to_ne_bytes);
                let response = payload.as_ref().map(|payload| ResponseParts {
                    header: &header,
                    user_header: &[],
                    payload,
                });
                relay.response_polled(connected, Ok::<_, ()>(response))
            }
            ResponseAction::Publish(message) => {
                published.push(message);
                relay.response_published(Ok::<(), ()>(()))
            }
            ResponseAction::ReceiveSample => return published,
            _ => panic!("a sweep takes no sample"),
        };
    }
}

#[test]
fn propagate_simple_request_test() {
    let mut host_a: Relay<&'static str, ()> = Relay::new(CONFIG);
    let mut host_b: Relay<(), u64> = Relay::new(CONFIG);
    let request_payload: u64 = 123456;

    // Host A sends the request of its client.
    let context = write_context(42, 7);
    let extents = host_a.request_extents(1);
    assert_eq!((extents.user_header, extents.payload), (0, 8));
    let message =
        host_a.send_request(&context, &[], &request_payload.to_ne_bytes(), "request of client a");

    // Host B receives it, and its server answers.
    let frame = match host_b.receive_request(Ok::<_, ()>(Some(message))) {
        Ok(RequestArrival::Accepted(frame)) => frame,
        other => panic!("{other:?}"),
    };
    assert_eq!(frame.number_of_elements, 1);
    let received = u64::from_ne_bytes(frame.payload[..].try_into().unwrap());
    assert_eq!(received, request_payload);
    assert_eq!(host_b.submit_pending_response(received * 2, read_context(frame.header)), Ok(()));
    let mut published = publish_responses(&mut host_b, true, |response| Some(*response));
    assert_eq!(published.len(), 1);

    // Host A receives the response for the client.
    let sample = published.pop();
    let frame = match host_a.sample_received(Ok::<_, ()>(sample)) {
        ResponseAction::IdentifyRequest(frame) => frame,
        other => panic!("{other:?}"),
    };
    let key = read_context(frame.request_header.clone()).key();
    assert_eq!(key, (42, 7));
    match host_a.request_identified(frame, key) {
        ResponseAction::Loan(delivery) => {
            assert_eq!(delivery.request, "request of client a");
            assert_eq!(delivery.number_of_elements, 1);
            let response = u64::from_ne_bytes(delivery.payload[..].try_into().unwrap());
            assert_eq!(response, request_payload * 2);
        }
        other => panic!("{other:?}"),
    }
}

#[test]
fn responses_reach_their_own_requests() {
    let mut host_a: Relay<u64, ()> = Relay::new(CONFIG);
    let mut host_b: Relay<(), u64> = Relay::new(CONFIG);
    for n in 0..5u64 {
        let message =
            host_a.send_request(&write_context(1 + n as u128 % 2, n), &[], &n.to_ne_bytes(), n);
        let frame = match host_b.receive_request(Ok::<_, ()>(Some(message))) {
            Ok(RequestArrival::Accepted(frame)) => frame,
            other => panic!("{other:?}"),
        };
        let payload = u64::from_ne_bytes(frame.payload[..].try_into().unwrap());
        host_b.submit_pending_response(payload, read_context(frame.header)).unwrap();
    }

    // The servers of host B answer all requests but the third.
    let published = publish_responses(&mut host_b, true, |n| if *n == 2 { None } else { Some(n * 10) });
    assert_eq!(published.len(), 4);
    let mut answered = Vec::new();
    for sample in published.into_iter().rev() {
        let frame = match host_a.sample_received(Ok::<_, ()>(Some(sample))) {
            ResponseAction::IdentifyRequest(frame) => frame,
            other => panic!("{other:?}"),
        };
        let key = read_context(frame.request_header.clone()).key();
        match host_a.request_identified(frame, key) {
            ResponseAction::Loan(delivery) => answered.push((
                delivery.request,
                u64::from_ne_bytes(delivery.payload[..].try_into().unwrap()),
            )),
            other => panic!("{other:?}"),
        }
    }
    assert_eq!(answered, vec![(4, 40), (3, 30), (1, 10), (0, 0)]);
}

#[test]
fn response_of_a_server_that_answers_and_disconnects_is_delivered() {
    let mut host_a: Relay<&'static str, ()> = Relay::new(CONFIG);
    let mut host_b: Relay<(), u64> = Relay::new(CONFIG);
    let message = host_a.send_request(&write_context(42, 7), &[], &5u64.to_ne_bytes(), "request");
    let frame = match host_b.receive_request(Ok::<_, ()>(Some(message))) {
        Ok(RequestArrival::Accepted(frame)) => frame,
        other => panic!("{other:?}"),
    };
    host_b.submit_pending_response(10, read_context(frame.header)).unwrap();

    // The server has answered and is gone before the relay looks for the first time.
    let published = publish_responses(&mut host_b, false, |response| Some(*response));
    assert_eq!(published.len(), 1);
    for sample in published {
        let frame = match host_a.sample_received(Ok::<_, ()>(Some(sample))) {
            ResponseAction::IdentifyRequest(frame) => frame,
            other => panic!("{other:?}"),
        };
        let key = read_context(frame.request_header.clone()).key();
        match host_a.request_identified(frame, key) {
            ResponseAction::Loan(delivery) => {
                assert_eq!(delivery.request, "request");
                assert_eq!(delivery.payload, 10u64.to_ne_bytes().to_vec());
            }
            other => panic!("{other:?}"),
        }
    }

    // It has nothing more to give, so that it is awaited no longer.
    assert!(host_b.next_pending().is_some());
    assert_eq!(publish_responses(&mut host_b, false, |_| None).len(), 0);
    assert!(host_b.next_pending().is_none());
}

#[test]
fn request_of_several_elements_arrives_whole() {
    let mut host_a: Relay<(), ()> = Relay::new(CONFIG);
    let host_b: Relay<(), ()> = Relay::new(CONFIG);
    let extents = host_a.request_extents(3);
    assert_eq!(extents.payload, 24);
    let payload: Vec<u8> = (0..24).collect();
    let message = host_a.send_request(&write_context(1, 1), &[], &payload, ());
    assert_eq!(message.len(), request_header_size() + 24);
    match host_b.receive_request(Ok::<_, ()>(Some(message))) {
        Ok(RequestArrival::Accepted(frame)) => {
            assert_eq!(frame.number_of_elements, 3);
            assert_eq!(frame.payload, payload);
        }
        other => panic!("{other:?}"),
    }
}
