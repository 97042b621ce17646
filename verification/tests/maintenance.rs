use request_response_tunnel::maintenance::{
    local_request_received, pending_response_submitted, remote_request_received,
    remote_response_received, request_delivered, request_sent, response_sent, start, Action,
};
use request_response_tunnel::ports::Error;

type TestAction = Action<&'static str, &'static str, u8, &'static str, &'static str>;

#[test]
fn idle_round_looks_at_each_side_once() {
    let action: TestAction = start();
    assert_eq!(action, Action::ReceiveLocalRequest);
    let action: TestAction = local_request_received(Ok::<_, ()>(None));
    assert_eq!(action, Action::ReceiveRemoteRequest);
    let action: TestAction = remote_request_received(Ok::<_, ()>(None));
    assert_eq!(action, Action::ReceiveRemoteResponse);
    let action: TestAction = remote_response_received(Ok::<_, ()>(None));
    assert_eq!(action, Action::Finish(Ok(())));
}

#[test]
fn local_requests_are_delivered_until_none_waits() {
    let action: TestAction = local_request_received(Ok::<_, ()>(Some("request")));
    assert_eq!(action, Action::DeliverRequest("request"));
    let action: TestAction = request_delivered(Ok::<_, ()>(()));
    assert_eq!(action, Action::ReceiveLocalRequest);
}

#[test]
fn remote_requests_are_sent_and_their_responses_awaited() {
    let action: TestAction = remote_request_received(Ok::<_, ()>(Some(("request", 7))));
    assert_eq!(action, Action::SendRequest("request", 7));
    let action: TestAction = request_sent(Ok::<_, ()>("pending"), 7);
    assert_eq!(action, Action::SubmitPendingResponse("pending", 7));
    let action: TestAction = pending_response_submitted(Ok::<_, ()>(()));
    assert_eq!(action, Action::ReceiveRemoteRequest);
}

#[test]
fn remote_responses_are_sent_until_none_waits() {
    let action: TestAction = remote_response_received(Ok::<_, ()>(Some("response")));
    assert_eq!(action, Action::SendResponse("response"));
    let action: TestAction = response_sent(Ok::<_, ()>(()));
    assert_eq!(action, Action::ReceiveRemoteResponse);
}

#[test]
fn every_failure_ends_the_round_with_its_error() {
    let action: TestAction = local_request_received(Err(()));
    assert_eq!(action, Action::Finish(Err(Error::LocalRequestReceive)));
    let action: TestAction = request_delivered(Err(()));
    assert_eq!(action, Action::Finish(Err(Error::RequestDelivery)));
    let action: TestAction = remote_request_received(Err(()));
    assert_eq!(action, Action::Finish(Err(Error::RequestIngestion)));
    let action: TestAction = request_sent(Err(()), 7);
    assert_eq!(action, Action::Finish(Err(Error::RequestIngestion)));
    let action: TestAction = pending_response_submitted(Err(()));
    assert_eq!(action, Action::Finish(Err(Error::ResponseDelivery)));
    let action: TestAction = remote_response_received(Err(()));
    assert_eq!(action, Action::Finish(Err(Error::ResponseIngestion)));
    let action: TestAction = response_sent(Err(()));
    assert_eq!(action, Action::Finish(Err(Error::ResponseDelivery)));
}

#[test]
fn round_carries_everything_over_in_order() {
    let mut local_requests = vec!["b", "a"];
    let mut remote_requests = vec![("d", 2), ("c", 1)];
    let mut remote_responses = vec!["f", "e"];
    let mut done = Vec::new();
    let mut action: TestAction = start();
    let result = loop {
        action = match action {
            Action::ReceiveLocalRequest => local_request_received(Ok::<_, ()>(local_requests.pop())),
            Action::DeliverRequest(request) => {
                done.push(format!("deliver {request}"));
                request_delivered(Ok::<_, ()>(()))
            }
            Action::ReceiveRemoteRequest => {
                remote_request_received(Ok::<_, ()>(remote_requests.pop()))
            }
            Action::SendRequest(request, context) => {
                done.push(format!("send {request}"));
                request_sent(Ok::<_, ()>(request), context)
            }
            Action::SubmitPendingResponse(pending, context) => {
                done.push(format!("submit {pending} {context}"));
                pending_response_submitted(Ok::<_, ()>(()))
            }
            Action::ReceiveRemoteResponse => {
                remote_response_received(Ok::<_, ()>(remote_responses.pop()))
            }
            Action::SendResponse(response) => {
                done.push(format!("respond {response}"));
                response_sent(Ok::<_, ()>(()))
            }
            Action::Finish(result) => break result,
        };
    };
    assert_eq!(result, Ok(()));
    assert_eq!(
        done,
        vec![
            "deliver a",
            "deliver b",
            "send c",
            "submit c 1",
            "send d",
            "submit d 2",
            "respond e",
            "respond f",
        ]
    );
}

#[test]
fn maintenance_errors_tell_their_names() {
    for error in [
        Error::RequestDelivery,
        Error::RequestIngestion,
        Error::ResponseDelivery,
        Error::ResponseIngestion,
        Error::LocalRequestReceive,
    ] {
        assert_eq!(error.to_string(), format!("Error::{error:?}"));
    }
}
