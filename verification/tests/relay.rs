use iceoryx2::service::header::request_response::{RequestHeader, ResponseHeader};
use request_response_tunnel::header::{request_header_size, response_header_size, RequestContext};
use request_response_tunnel::relay::{
    loaned, request_published, ReceiveError, Relay, RequestArrival, ResponseAction, ResponseParts,
    SendError, StaticConfig,
};
use request_response_tunnel::wire::{MessageSizes, RequestRejection};
use zenoh::bytes::ZBytes;

type TestRelay = Relay<&'static str, u32>;

const CONFIG: StaticConfig = StaticConfig {
    request: MessageSizes { user_header: 2, payload: 8 },
    response: MessageSizes { user_header: 3, payload: 4 },
};

fn context(client_id: u128, request_id: u64, fill: u8) -> RequestContext {
    RequestContext { client_id, request_id, header: vec![fill; request_header_size()] }
}

fn joined(parts: &[&[u8]]) -> Vec<u8> {
    parts.concat()
}

fn response_sample(payload: &[u8]) -> ZBytes {
    ZBytes::from(joined(&[
        &vec![5; request_header_size()],
        &vec![6; response_header_size()],
        &[7, 8, 9],
        payload,
    ]))
}

#[test]
fn header_sizes_are_those_of_the_headers() {
    assert_eq!(request_header_size(), core::mem::size_of::<RequestHeader>());
    assert_eq!(response_header_size(), core::mem::size_of::<ResponseHeader>());
}

#[test]
fn key_is_client_and_request() {
    assert_eq!(context(3, 4, 0).key(), (3, 4));
}

#[test]
fn extents_follow_the_direction() {
    let relay = TestRelay::new(CONFIG);
    let extents = relay.request_extents(1);
    assert_eq!((extents.user_header, extents.payload), (2, 8));
    let extents = relay.request_extents(16);
    assert_eq!((extents.user_header, extents.payload), (2, 128));
    let extents = relay.response_extents(1);
    assert_eq!((extents.user_header, extents.payload), (3, 4));
    let extents = relay.response_extents(0);
    assert_eq!((extents.user_header, extents.payload), (3, 0));
}

#[test]
fn sent_request_is_published_whole() {
    let mut relay = TestRelay::new(CONFIG);
    let message = relay.send_request(&context(1, 2, 9), &[10, 11], &[1, 2, 3, 4, 5, 6, 7, 8], "r");
    let expected =
        joined(&[&vec![9; request_header_size()], &[10, 11], &[1, 2, 3, 4, 5, 6, 7, 8]]);
    assert_eq!(message.to_bytes().into_owned(), expected);
}

#[test]
fn publication_decides_whether_a_request_was_sent() {
    assert_eq!(request_published(Ok::<(), u8>(())), Ok(()));
    assert_eq!(request_published(Err::<(), u8>(1)), Err(SendError::PayloadPut));
}

#[test]
fn loan_decides_whether_a_message_is_taken() {
    assert_eq!(loaned(Ok::<u8, &str>(4)), Ok(4));
    assert_eq!(loaned(Err::<u8, &str>("out of memory")), Err(ReceiveError::IceoryxLoan));
}

#[test]
fn request_sample_that_cannot_be_received_is_an_error() {
    let relay = TestRelay::new(CONFIG);
    assert_eq!(relay.receive_request(Err(())).unwrap_err(), ReceiveError::SampleReceive);
}

#[test]
fn no_request_sample_is_no_request() {
    let relay = TestRelay::new(CONFIG);
    assert!(matches!(relay.receive_request(Ok::<_, ()>(None)), Ok(RequestArrival::Absent)));
}

#[test]
fn received_request_is_taken_apart() {
    let relay = TestRelay::new(CONFIG);
    let sample = ZBytes::from(joined(&[&vec![1; request_header_size()], &[2, 3], &[4; 16]]));
    match relay.receive_request(Ok::<_, ()>(Some(sample))) {
        Ok(RequestArrival::Accepted(frame)) => {
            assert_eq!(frame.header, vec![1; request_header_size()]);
            assert_eq!(frame.user_header, vec![2, 3]);
            assert_eq!(frame.payload, vec![4; 16]);
            assert_eq!(frame.number_of_elements, 2);
        }
        other => panic!("{other:?}"),
    }
}

#[test]
fn fragmented_request_is_put_together() {
    let relay = TestRelay::new(CONFIG);
    let mut writer = ZBytes::writer();
    writer.append(ZBytes::from(vec![1; request_header_size()]));
    writer.append(ZBytes::from(vec![2]));
    writer.append(ZBytes::from(vec![3, 4, 5, 6, 7, 8, 9, 10, 11]));
    match relay.receive_request(Ok::<_, ()>(Some(writer.finish()))) {
        Ok(RequestArrival::Accepted(frame)) => {
            assert_eq!(frame.user_header, vec![2, 3]);
            assert_eq!(frame.payload, vec![4, 5, 6, 7, 8, 9, 10, 11]);
            assert_eq!(frame.number_of_elements, 1);
        }
        other => panic!("{other:?}"),
    }
}

#[test]
fn malformed_requests_are_dropped() {
    let relay = TestRelay::new(CONFIG);
    let headers = request_header_size() + 2;
    let short = relay.receive_request(Ok::<_, ()>(Some(ZBytes::from(vec![0; headers - 1]))));
    assert!(matches!(short, Ok(RequestArrival::Rejected(RequestRejection::TooSmall))));
    let partial = relay.receive_request(Ok::<_, ()>(Some(ZBytes::from(vec![0; headers + 9]))));
    assert!(matches!(
        partial,
        Ok(RequestArrival::Rejected(RequestRejection::PartialElement {
            data_len: 9,
            element_size: 8
        }))
    ));
    let relay = TestRelay::new(StaticConfig {
        request: MessageSizes { user_header: 2, payload: 0 },
        response: CONFIG.response,
    });
    let sizeless = relay.receive_request(Ok::<_, ()>(Some(ZBytes::from(vec![0; headers]))));
    assert!(matches!(sizeless, Ok(RequestArrival::Rejected(RequestRejection::ZeroElementSize))));
}

#[test]
fn without_awaited_responses_a_sample_is_taken_at_once() {
    let mut relay = TestRelay::new(CONFIG);
    assert!(matches!(relay.receive_response(), ResponseAction::ReceiveSample));
    assert!(relay.next_pending().is_none());
}

#[test]
fn awaited_responses_are_visited_before_a_sample_is_taken() {
    let mut relay = TestRelay::new(CONFIG);
    for n in 0..4u32 {
        assert_eq!(
            relay.submit_pending_response(n, context(1, n as u64, n as u8)),
            Ok(())
        );
    }
    let response = ResponseParts {
        header: &vec![20; response_header_size()],
        user_header: &[21, 22, 23],
        payload: &[24, 25, 26, 27],
    };

    // The first is disconnected and has nothing left, the second has a response, the third fails,
    // the fourth has nothing yet.
    assert!(matches!(relay.receive_response(), ResponseAction::CheckConnection));
    assert_eq!(relay.next_pending().unwrap().0, 0);
    assert!(matches!(
        relay.connection_checked(false),
        ResponseAction::PollPending { connected: false }
    ));
    assert_eq!(relay.next_pending().unwrap().0, 0);
    assert!(matches!(
        relay.response_polled(false, Ok::<_, ()>(None)),
        ResponseAction::CheckConnection
    ));
    assert_eq!(relay.next_pending().unwrap().0, 1);
    assert!(matches!(
        relay.connection_checked(true),
        ResponseAction::PollPending { connected: true }
    ));
    assert_eq!(relay.next_pending().unwrap().0, 1);
    match relay.response_polled(true, Ok::<_, ()>(Some(response))) {
        ResponseAction::Publish(message) => assert_eq!(
            message.to_bytes().into_owned(),
            joined(&[
                &vec![1; request_header_size()],
                &vec![20; response_header_size()],
                &[21, 22, 23],
                &[24, 25, 26, 27],
            ])
        ),
        other => panic!("{other:?}"),
    }
    assert!(matches!(
        relay.response_published(Err::<(), _>("the transport is down")),
        ResponseAction::CheckConnection
    ));
    assert_eq!(relay.next_pending().unwrap().0, 2);
    assert!(matches!(relay.response_polled(true, Err("lost")), ResponseAction::CheckConnection));
    assert_eq!(relay.next_pending().unwrap().0, 3);
    assert!(matches!(
        relay.response_polled(true, Ok::<_, ()>(None)),
        ResponseAction::ReceiveSample
    ));

    // The second and the fourth are still awaited.
    assert!(matches!(relay.receive_response(), ResponseAction::CheckConnection));
    assert_eq!(relay.next_pending().unwrap().0, 1);
    assert!(matches!(
        relay.response_polled(false, Ok::<_, ()>(None)),
        ResponseAction::CheckConnection
    ));
    assert_eq!(relay.next_pending().unwrap().0, 3);
    assert!(matches!(
        relay.response_polled(false, Ok::<_, ()>(None)),
        ResponseAction::ReceiveSample
    ));
    assert!(matches!(relay.receive_response(), ResponseAction::ReceiveSample));
}

#[test]
fn disconnected_entry_stays_while_it_has_responses() {
    let mut relay = TestRelay::new(CONFIG);
    relay.submit_pending_response(7, context(1, 1, 1)).unwrap();
    for fill in [30, 31] {
        let response = ResponseParts { header: &[], user_header: &[], payload: &[fill; 4] };
        assert!(matches!(relay.receive_response(), ResponseAction::CheckConnection));
        assert!(matches!(
            relay.connection_checked(false),
            ResponseAction::PollPending { connected: false }
        ));
        match relay.response_polled(false, Ok::<_, ()>(Some(response))) {
            ResponseAction::Publish(message) => assert_eq!(
                message.to_bytes().into_owned(),
                joined(&[&vec![1; request_header_size()], &[fill; 4]])
            ),
            other => panic!("{other:?}"),
        }
        relay.response_published(Ok::<(), ()>(()));
        assert_eq!(relay.next_pending().unwrap().0, 7);
    }
    relay.receive_response();
    assert!(matches!(
        relay.response_polled(false, Ok::<_, ()>(None)),
        ResponseAction::ReceiveSample
    ));
    assert!(relay.next_pending().is_none());
}

#[test]
fn published_response_of_the_last_entry_ends_the_sweep() {
    let mut relay = TestRelay::new(CONFIG);
    relay.submit_pending_response(7, context(1, 1, 1)).unwrap();
    relay.receive_response();
    let response = ResponseParts { header: &[], user_header: &[], payload: &[] };
    assert!(matches!(
        relay.response_polled(true, Ok::<_, ()>(Some(response))),
        ResponseAction::Publish(_)
    ));
    assert!(matches!(relay.response_published(Ok::<(), ()>(())), ResponseAction::ReceiveSample));
    assert_eq!(relay.next_pending().unwrap().0, 7);
}

#[test]
fn response_sample_that_cannot_be_received_is_an_error() {
    let relay = TestRelay::new(CONFIG);
    assert!(matches!(
        relay.sample_received(Err(())),
        ResponseAction::Finish(Err(ReceiveError::SampleReceive))
    ));
}

#[test]
fn no_response_sample_is_no_response() {
    let relay = TestRelay::new(CONFIG);
    assert!(matches!(relay.sample_received(Ok::<_, ()>(None)), ResponseAction::Finish(Ok(()))));
}

#[test]
fn response_that_is_too_small_is_dropped() {
    let relay = TestRelay::new(CONFIG);
    let headers = request_header_size() + response_header_size() + 3;
    assert!(matches!(
        relay.sample_received(Ok::<_, ()>(Some(ZBytes::from(vec![0; headers - 1])))),
        ResponseAction::Finish(Ok(()))
    ));
    assert!(matches!(
        relay.sample_received(Ok::<_, ()>(Some(ZBytes::from(vec![0; headers])))),
        ResponseAction::IdentifyRequest(_)
    ));
}

#[test]
fn response_is_delivered_to_its_request_once() {
    let mut relay = TestRelay::new(CONFIG);
    relay.send_request(&context(1, 2, 5), &[0, 0], &[0; 8], "wanted");
    relay.send_request(&context(1, 3, 5), &[0, 0], &[0; 8], "other");
    for expected in [Some("wanted"), None] {
        let frame = match relay.sample_received(Ok::<_, ()>(Some(response_sample(&[1; 8])))) {
            ResponseAction::IdentifyRequest(frame) => frame,
            other => panic!("{other:?}"),
        };
        assert_eq!(frame.request_header, vec![5; request_header_size()]);
        match (relay.request_identified(frame, (1, 2)), expected) {
            (ResponseAction::Loan(delivery), Some(request)) => {
                assert_eq!(delivery.request, request);
                assert_eq!(delivery.number_of_elements, 2);
                assert_eq!(delivery.user_header, vec![7, 8, 9]);
                assert_eq!(delivery.payload, vec![1; 8]);
            }
            (ResponseAction::Finish(Ok(())), None) => (),
            (other, _) => panic!("{other:?}"),
        }
    }
}

#[test]
fn partial_element_of_a_response_is_not_delivered() {
    let mut relay = TestRelay::new(CONFIG);
    relay.send_request(&context(1, 2, 5), &[], &[], "request");
    let frame = match relay.sample_received(Ok::<_, ()>(Some(response_sample(&[1, 2, 3, 4, 5, 6]))))
    {
        ResponseAction::IdentifyRequest(frame) => frame,
        other => panic!("{other:?}"),
    };
    match relay.request_identified(frame, (1, 2)) {
        ResponseAction::Loan(delivery) => {
            assert_eq!(delivery.number_of_elements, 1);
            assert_eq!(delivery.payload, vec![1, 2, 3, 4]);
        }
        other => panic!("{other:?}"),
    }
}

#[test]
fn response_without_element_size_uses_its_request_up() {
    let mut relay = TestRelay::new(StaticConfig {
        request: CONFIG.request,
        response: MessageSizes { user_header: 3, payload: 0 },
    });
    relay.send_request(&context(1, 2, 5), &[], &[], "first");
    let frame = match relay.sample_received(Ok::<_, ()>(Some(response_sample(&[])))) {
        ResponseAction::IdentifyRequest(frame) => frame,
        other => panic!("{other:?}"),
    };
    assert!(matches!(relay.request_identified(frame, (1, 2)), ResponseAction::Finish(Ok(()))));
}

#[test]
fn relay_errors_tell_their_names() {
    assert_eq!(SendError::PayloadPut.to_string(), "SendError::PayloadPut");
    assert_eq!(SendError::Serialization.to_string(), "SendError::Serialization");
    assert_eq!(ReceiveError::SampleReceive.to_string(), "ReceiveError::SampleReceive");
    assert_eq!(ReceiveError::IceoryxLoan.to_string(), "ReceiveError::IceoryxLoan");
    assert_eq!(ReceiveError::Deserialization.to_string(), "ReceiveError::Deserialization");
}
