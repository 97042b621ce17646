//! One round of maintenance of the ports of a service: what waits at one side is carried over to
//! the other.
//!
//! A round has three phases. Requests of local clients go to the relay, requests of remote
//! clients go to the local service, and responses of remote servers go to the local clients. Each
//! phase goes on until its source gives nothing more, and the first failure ends the round.
//!
//! A round starts with [`start`]. Every [`Action`] is to be performed and its result to be handed
//! to the function that the action names, which gives the next action.
use crate::ports::Error;
use vstd::prelude::*;

verus! {

/// What is to be done next in a round. `Req` is a request of a local client, `ReqMut` a request
/// that is ready to be sent to the local service, `Ctx` the context that comes with it, `Pend` the
/// response to it that is awaited, and `ResMut` a response that is ready to be sent to a local
/// client.
#[derive(Debug, PartialEq, Eq)]
pub enum Action<Req, ReqMut, Ctx, Pend, ResMut> {
    /// Receive from the server, for [`local_request_received`].
    ReceiveLocalRequest,
    /// Send a request over the relay, for [`request_delivered`].
    DeliverRequest(Req),
    /// Receive a request from the relay, for [`remote_request_received`].
    ReceiveRemoteRequest,
    /// Send a request to the local service, for [`request_sent`].
    SendRequest(ReqMut, Ctx),
    /// Submit the response that is awaited to the relay, for [`pending_response_submitted`].
    SubmitPendingResponse(Pend, Ctx),
    /// Receive a response from the relay, for [`remote_response_received`].
    ReceiveRemoteResponse,
    /// Send a response to the local client, for [`response_sent`].
    SendResponse(ResMut),
    /// The round is over.
    Finish(Result<(), Error>),
}

/// What came of an action.
pub enum Event<Req, ReqMut, Ctx, Pend, ResMut> {
    LocalRequest(Result<Option<Req>, ()>),
    RequestDelivered(Result<(), ()>),
    RemoteRequest(Result<Option<(ReqMut, Ctx)>, ()>),
    RequestSent(Result<Pend, ()>),
    PendingResponseSubmitted(Result<(), ()>),
    RemoteResponse(Result<Option<ResMut>, ()>),
    ResponseSent(Result<(), ()>),
}

impl<Req, ReqMut, Ctx, Pend, ResMut> Event<Req, ReqMut, Ctx, Pend, ResMut> {
    /// The error that ends the round, if the event is a failure.
    pub open spec fn failure(self) -> Option<Error> {
        match self {
            Event::LocalRequest(Err(_)) => Some(Error::LocalRequestReceive),
            Event::RequestDelivered(Err(_)) => Some(Error::RequestDelivery),
            Event::RemoteRequest(Err(_)) => Some(Error::RequestIngestion),
            Event::RequestSent(Err(_)) => Some(Error::RequestIngestion),
            Event::PendingResponseSubmitted(Err(_)) => Some(Error::ResponseDelivery),
            Event::RemoteResponse(Err(_)) => Some(Error::ResponseIngestion),
            Event::ResponseSent(Err(_)) => Some(Error::ResponseDelivery),
            _ => None,
        }
    }
}

/// `result` with nothing left of the error but that there was one.
pub open spec fn outcome<T, E>(result: Result<T, E>) -> Result<T, ()> {
    match result {
        Ok(value) => Ok(value),
        Err(_) => Err(()),
    }
}

/// A local request is handed on to the relay. When none comes, the remote requests follow.
pub open spec fn after_local_request<Req, ReqMut, Ctx, Pend, ResMut>(
    received: Result<Option<Req>, ()>,
) -> Action<Req, ReqMut, Ctx, Pend, ResMut> {
    match received {
        Ok(Some(request)) => Action::DeliverRequest(request),
        Ok(None) => Action::ReceiveRemoteRequest,
        Err(_) => Action::Finish(Err(Error::LocalRequestReceive)),
    }
}

/// More local requests may wait once one is delivered.
pub open spec fn after_request_delivered<Req, ReqMut, Ctx, Pend, ResMut>(
    delivered: Result<(), ()>,
) -> Action<Req, ReqMut, Ctx, Pend, ResMut> {
    match delivered {
        Ok(_) => Action::ReceiveLocalRequest,
        Err(_) => Action::Finish(Err(Error::RequestDelivery)),
    }
}

/// A remote request is handed on to the local service. When none comes, the remote responses
/// follow.
pub open spec fn after_remote_request<Req, ReqMut, Ctx, Pend, ResMut>(
    received: Result<Option<(ReqMut, Ctx)>, ()>,
) -> Action<Req, ReqMut, Ctx, Pend, ResMut> {
    match received {
        Ok(Some((request, context))) => Action::SendRequest(request, context),
        Ok(None) => Action::ReceiveRemoteResponse,
        Err(_) => Action::Finish(Err(Error::RequestIngestion)),
    }
}

/// The response to a request that was sent is awaited, with the context of the request.
pub open spec fn after_request_sent<Req, ReqMut, Ctx, Pend, ResMut>(
    sent: Result<Pend, ()>,
    context: Ctx,
) -> Action<Req, ReqMut, Ctx, Pend, ResMut> {
    match sent {
        Ok(pending) => Action::SubmitPendingResponse(pending, context),
        Err(_) => Action::Finish(Err(Error::RequestIngestion)),
    }
}

/// More remote requests may wait once the response to one is awaited.
pub open spec fn after_pending_response_submitted<Req, ReqMut, Ctx, Pend, ResMut>(
    submitted: Result<(), ()>,
) -> Action<Req, ReqMut, Ctx, Pend, ResMut> {
    match submitted {
        Ok(_) => Action::ReceiveRemoteRequest,
        Err(_) => Action::Finish(Err(Error::ResponseDelivery)),
    }
}

/// A remote response is handed on to the local client. When none comes, the round is over.
pub open spec fn after_remote_response<Req, ReqMut, Ctx, Pend, ResMut>(
    received: Result<Option<ResMut>, ()>,
) -> Action<Req, ReqMut, Ctx, Pend, ResMut> {
    match received {
        Ok(Some(response)) => Action::SendResponse(response),
        Ok(None) => Action::Finish(Ok(())),
        Err(_) => Action::Finish(Err(Error::ResponseIngestion)),
    }
}

/// More remote responses may wait once one is sent.
pub open spec fn after_response_sent<Req, ReqMut, Ctx, Pend, ResMut>(
    sent: Result<(), ()>,
) -> Action<Req, ReqMut, Ctx, Pend, ResMut> {
    match sent {
        Ok(_) => Action::ReceiveRemoteResponse,
        Err(_) => Action::Finish(Err(Error::ResponseDelivery)),
    }
}

/// The action that follows when `action` has come to `event`. There is none where the event does
/// not belong to the action.
pub open spec fn next<Req, ReqMut, Ctx, Pend, ResMut>(
    action: Action<Req, ReqMut, Ctx, Pend, ResMut>,
    event: Event<Req, ReqMut, Ctx, Pend, ResMut>,
) -> Option<Action<Req, ReqMut, Ctx, Pend, ResMut>> {
    match (action, event) {
        (Action::ReceiveLocalRequest, Event::LocalRequest(received)) => Some(
            after_local_request(received),
        ),
        (Action::DeliverRequest(_), Event::RequestDelivered(delivered)) => Some(
            after_request_delivered(delivered),
        ),
        (Action::ReceiveRemoteRequest, Event::RemoteRequest(received)) => Some(
            after_remote_request(received),
        ),
        (Action::SendRequest(_, context), Event::RequestSent(sent)) => Some(
            after_request_sent(sent, context),
        ),
        (Action::SubmitPendingResponse(_, _), Event::PendingResponseSubmitted(submitted)) => Some(
            after_pending_response_submitted(submitted),
        ),
        (Action::ReceiveRemoteResponse, Event::RemoteResponse(received)) => Some(
            after_remote_response(received),
        ),
        (Action::SendResponse(_), Event::ResponseSent(sent)) => Some(after_response_sent(sent)),
        _ => None,
    }
}

/// A round starts with the requests of the local clients.
pub fn start<Req, ReqMut, Ctx, Pend, ResMut>() -> (action: Action<Req, ReqMut, Ctx, Pend, ResMut>)
    ensures
        action == Action::<Req, ReqMut, Ctx, Pend, ResMut>::ReceiveLocalRequest,
{
    Action::ReceiveLocalRequest
}

/// Hands a local request on to the relay. When none comes, the remote requests follow.
pub fn local_request_received<Req, ReqMut, Ctx, Pend, ResMut, E>(
    received: Result<Option<Req>, E>,
) -> (action: Action<Req, ReqMut, Ctx, Pend, ResMut>)
    ensures
        action == after_local_request::<Req, ReqMut, Ctx, Pend, ResMut>(outcome(received)),
        received matches Ok(Some(request)) ==> action
            == Action::<Req, ReqMut, Ctx, Pend, ResMut>::DeliverRequest(request),
        received matches Ok(None) ==> action
            == Action::<Req, ReqMut, Ctx, Pend, ResMut>::ReceiveRemoteRequest,
        received is Err ==> action
            == Action::<Req, ReqMut, Ctx, Pend, ResMut>::Finish(Err(Error::LocalRequestReceive)),
{
    match received {
        Ok(Some(request)) => Action::DeliverRequest(request),
        Ok(None) => Action::ReceiveRemoteRequest,
        Err(_) => Action::Finish(Err(Error::LocalRequestReceive)),
    }
}

/// Goes on with the local requests once one is delivered.
pub fn request_delivered<Req, ReqMut, Ctx, Pend, ResMut, E>(
    delivered: Result<(), E>,
) -> (action: Action<Req, ReqMut, Ctx, Pend, ResMut>)
    ensures
        action == after_request_delivered::<Req, ReqMut, Ctx, Pend, ResMut>(outcome(delivered)),
        delivered is Ok ==> action == Action::<Req, ReqMut, Ctx, Pend, ResMut>::ReceiveLocalRequest,
        delivered is Err ==> action
            == Action::<Req, ReqMut, Ctx, Pend, ResMut>::Finish(Err(Error::RequestDelivery)),
{
    match delivered {
        Ok(_) => Action::ReceiveLocalRequest,
        Err(_) => Action::Finish(Err(Error::RequestDelivery)),
    }
}

/// Hands a remote request on to the local service. When none comes, the remote responses follow.
pub fn remote_request_received<Req, ReqMut, Ctx, Pend, ResMut, E>(
    received: Result<Option<(ReqMut, Ctx)>, E>,
) -> (action: Action<Req, ReqMut, Ctx, Pend, ResMut>)
    ensures
        action == after_remote_request::<Req, ReqMut, Ctx, Pend, ResMut>(outcome(received)),
        received matches Ok(Some((request, context))) ==> action
            == Action::<Req, ReqMut, Ctx, Pend, ResMut>::SendRequest(
            request,
            context,
        ),
        received matches Ok(None) ==> action
            == Action::<Req, ReqMut, Ctx, Pend, ResMut>::ReceiveRemoteResponse,
        received is Err ==> action
            == Action::<Req, ReqMut, Ctx, Pend, ResMut>::Finish(Err(Error::RequestIngestion)),
{
    match received {
        Ok(Some((request, context))) => Action::SendRequest(request, context),
        Ok(None) => Action::ReceiveRemoteResponse,
        Err(_) => Action::Finish(Err(Error::RequestIngestion)),
    }
}

/// Has the relay await the response to a request that was sent to the local service, with the
/// context that came with the request.
pub fn request_sent<Req, ReqMut, Ctx, Pend, ResMut, E>(
    sent: Result<Pend, E>,
    context: Ctx,
) -> (action: Action<Req, ReqMut, Ctx, Pend, ResMut>)
    ensures
        action == after_request_sent::<Req, ReqMut, Ctx, Pend, ResMut>(outcome(sent), context),
        sent matches Ok(pending) ==> action
            == Action::<Req, ReqMut, Ctx, Pend, ResMut>::SubmitPendingResponse(pending, context),
        sent is Err ==> action
            == Action::<Req, ReqMut, Ctx, Pend, ResMut>::Finish(Err(Error::RequestIngestion)),
{
    match sent {
        Ok(pending) => Action::SubmitPendingResponse(pending, context),
        Err(_) => Action::Finish(Err(Error::RequestIngestion)),
    }
}

/// Goes on with the remote requests once the response to one is awaited.
pub fn pending_response_submitted<Req, ReqMut, Ctx, Pend, ResMut, E>(
    submitted: Result<(), E>,
) -> (action: Action<Req, ReqMut, Ctx, Pend, ResMut>)
    ensures
        action == after_pending_response_submitted::<Req, ReqMut, Ctx, Pend, ResMut>(outcome(submitted)),
        submitted is Ok ==> action
            == Action::<Req, ReqMut, Ctx, Pend, ResMut>::ReceiveRemoteRequest,
        submitted is Err ==> action
            == Action::<Req, ReqMut, Ctx, Pend, ResMut>::Finish(Err(Error::ResponseDelivery)),
{
    match submitted {
        Ok(_) => Action::ReceiveRemoteRequest,
        Err(_) => Action::Finish(Err(Error::ResponseDelivery)),
    }
}

/// Hands a remote response on to the local client. When none comes, the round is over.
pub fn remote_response_received<Req, ReqMut, Ctx, Pend, ResMut, E>(
    received: Result<Option<ResMut>, E>,
) -> (action: Action<Req, ReqMut, Ctx, Pend, ResMut>)
    ensures
        action == after_remote_response::<Req, ReqMut, Ctx, Pend, ResMut>(outcome(received)),
        received matches Ok(Some(response)) ==> action
            == Action::<Req, ReqMut, Ctx, Pend, ResMut>::SendResponse(response),
        received matches Ok(None) ==> action
            == Action::<Req, ReqMut, Ctx, Pend, ResMut>::Finish(Ok(())),
        received is Err ==> action
            == Action::<Req, ReqMut, Ctx, Pend, ResMut>::Finish(Err(Error::ResponseIngestion)),
{
    match received {
        Ok(Some(response)) => Action::SendResponse(response),
        Ok(None) => Action::Finish(Ok(())),
        Err(_) => Action::Finish(Err(Error::ResponseIngestion)),
    }
}

/// Goes on with the remote responses once one is sent.
pub fn response_sent<Req, ReqMut, Ctx, Pend, ResMut, E>(
    sent: Result<(), E>,
) -> (action: Action<Req, ReqMut, Ctx, Pend, ResMut>)
    ensures
        action == after_response_sent::<Req, ReqMut, Ctx, Pend, ResMut>(outcome(sent)),
        sent is Ok ==> action == Action::<Req, ReqMut, Ctx, Pend, ResMut>::ReceiveRemoteResponse,
        sent is Err ==> action
            == Action::<Req, ReqMut, Ctx, Pend, ResMut>::Finish(Err(Error::ResponseDelivery)),
{
    match sent {
        Ok(_) => Action::ReceiveRemoteResponse,
        Err(_) => Action::Finish(Err(Error::ResponseDelivery)),
    }
}

/// Whether `actions` are the actions of a round that has come to `events` so far. The last action
/// is the one that is to be performed next.
pub open spec fn is_round<Req, ReqMut, Ctx, Pend, ResMut>(
    actions: Seq<Action<Req, ReqMut, Ctx, Pend, ResMut>>,
    events: Seq<Event<Req, ReqMut, Ctx, Pend, ResMut>>,
) -> bool {
    &&& actions.len() == events.len() + 1
    &&& actions[0] == Action::<Req, ReqMut, Ctx, Pend, ResMut>::ReceiveLocalRequest
    &&& forall|i: int|
        0 <= i < events.len() ==> next(#[trigger] actions[i], events[i]) == Some(actions[i + 1])
}

/// The phase of the round that an action belongs to.
pub open spec fn phase<Req, ReqMut, Ctx, Pend, ResMut>(
    action: Action<Req, ReqMut, Ctx, Pend, ResMut>,
) -> int {
    match action {
        Action::ReceiveLocalRequest | Action::DeliverRequest(_) => 1,
        Action::ReceiveRemoteRequest | Action::SendRequest(_, _) | Action::SubmitPendingResponse(
            _,
            _,
        ) => 2,
        Action::ReceiveRemoteResponse | Action::SendResponse(_) => 3,
        Action::Finish(_) => 4,
    }
}

/// The phases follow one another: no round returns to an earlier one.
pub proof fn phases_do_not_return<Req, ReqMut, Ctx, Pend, ResMut>(
    actions: Seq<Action<Req, ReqMut, Ctx, Pend, ResMut>>,
    events: Seq<Event<Req, ReqMut, Ctx, Pend, ResMut>>,
    i: int,
    j: int,
)
    requires
        is_round(actions, events),
        0 <= i <= j < actions.len(),
    ensures
        phase(actions[i]) <= phase(actions[j]),
    decreases j - i,
{
    if i < j {
        phases_do_not_return(actions, events, i, j - 1);
        assert(next(actions[j - 1], events[j - 1]) == Some(actions[j - 1 + 1]));
    }
}

/// A failure ends the round at once, with the error that stands for it.
pub proof fn failure_ends_the_round<Req, ReqMut, Ctx, Pend, ResMut>(
    actions: Seq<Action<Req, ReqMut, Ctx, Pend, ResMut>>,
    events: Seq<Event<Req, ReqMut, Ctx, Pend, ResMut>>,
    i: int,
)
    requires
        is_round(actions, events),
        0 <= i < events.len(),
        events[i].failure() is Some,
    ensures
        i == events.len() - 1,
        actions.last() == Action::<Req, ReqMut, Ctx, Pend, ResMut>::Finish(
            Err(events[i].failure()->0),
        ),
{
    assert(next(actions[i], events[i]) == Some(actions[i + 1]));
    if i + 1 < events.len() {
        assert(next(actions[i + 1], events[i + 1]) == Some(actions[i + 1 + 1]));
    }
}

/// A round ends with an error only when the last thing that was done failed, and with the error
/// that stands for that failure.
pub proof fn error_tells_the_failure<Req, ReqMut, Ctx, Pend, ResMut>(
    actions: Seq<Action<Req, ReqMut, Ctx, Pend, ResMut>>,
    events: Seq<Event<Req, ReqMut, Ctx, Pend, ResMut>>,
    error: Error,
)
    requires
        is_round(actions, events),
        actions.last() == Action::<Req, ReqMut, Ctx, Pend, ResMut>::Finish(Err(error)),
    ensures
        events.len() > 0,
        events.last().failure() == Some(error),
{
    let n = events.len() - 1;
    assert(next(actions[n], events[n]) == Some(actions[n + 1]));
}

/// What is received is handed on: the action that follows is to send it, and a remote request
/// keeps its context until the response to it is awaited.
pub proof fn what_is_received_is_handed_on<Req, ReqMut, Ctx, Pend, ResMut>(
    actions: Seq<Action<Req, ReqMut, Ctx, Pend, ResMut>>,
    events: Seq<Event<Req, ReqMut, Ctx, Pend, ResMut>>,
    i: int,
)
    requires
        is_round(actions, events),
        0 <= i < events.len(),
    ensures
        events[i] matches Event::LocalRequest(Ok(Some(request))) ==> actions[i + 1]
            == Action::<Req, ReqMut, Ctx, Pend, ResMut>::DeliverRequest(request),
        events[i] matches Event::RemoteRequest(Ok(Some((request, context)))) ==> {
            &&& actions[i + 1] == Action::<Req, ReqMut, Ctx, Pend, ResMut>::SendRequest(
                request,
                context,
            )
            &&& i + 1 < events.len() ==> (events[i + 1] matches Event::RequestSent(Ok(pending))
                ==> actions[i + 2] == Action::<
                Req,
                ReqMut,
                Ctx,
                Pend,
                ResMut,
            >::SubmitPendingResponse(pending, context))
        },
        events[i] matches Event::RemoteResponse(Ok(Some(response))) ==> actions[i + 1]
            == Action::<Req, ReqMut, Ctx, Pend, ResMut>::SendResponse(response),
{
    assert(next(actions[i], events[i]) == Some(actions[i + 1]));
    if i + 1 < events.len() {
        assert(next(actions[i + 1], events[i + 1]) == Some(actions[i + 1 + 1]));
    }
}

/// An empty source ends its phase, in every round: when the server gives no request, the remote
/// requests are next; when the relay gives no request, the remote responses are; and when the
/// relay gives no response, the round is over, and well.
pub proof fn empty_source_ends_its_phase<Req, ReqMut, Ctx, Pend, ResMut>(
    actions: Seq<Action<Req, ReqMut, Ctx, Pend, ResMut>>,
    events: Seq<Event<Req, ReqMut, Ctx, Pend, ResMut>>,
    i: int,
)
    requires
        is_round(actions, events),
        0 <= i < events.len(),
    ensures
        events[i] matches Event::LocalRequest(Ok(None)) ==> actions[i + 1]
            == Action::<Req, ReqMut, Ctx, Pend, ResMut>::ReceiveRemoteRequest,
        events[i] matches Event::RemoteRequest(Ok(None)) ==> actions[i + 1]
            == Action::<Req, ReqMut, Ctx, Pend, ResMut>::ReceiveRemoteResponse,
        events[i] matches Event::RemoteResponse(Ok(None)) ==> {
            &&& actions[i + 1] == Action::<Req, ReqMut, Ctx, Pend, ResMut>::Finish(Ok(()))
            &&& i == events.len() - 1
        },
{
    assert(next(actions[i], events[i]) == Some(actions[i + 1]));
    if i + 1 < events.len() {
        assert(next(actions[i + 1], events[i + 1]) == Some(actions[i + 1 + 1]));
    }
}

/// A source is asked again once what it gave is carried over: the server after its request was
/// delivered, the relay after the response to its request is awaited, and the relay again after
/// its response was sent.
pub proof fn source_is_asked_again<Req, ReqMut, Ctx, Pend, ResMut>(
    actions: Seq<Action<Req, ReqMut, Ctx, Pend, ResMut>>,
    events: Seq<Event<Req, ReqMut, Ctx, Pend, ResMut>>,
    i: int,
)
    requires
        is_round(actions, events),
        0 <= i < events.len(),
    ensures
        events[i] matches Event::RequestDelivered(Ok(_)) ==> actions[i + 1]
            == Action::<Req, ReqMut, Ctx, Pend, ResMut>::ReceiveLocalRequest,
        events[i] matches Event::PendingResponseSubmitted(Ok(_)) ==> actions[i + 1]
            == Action::<Req, ReqMut, Ctx, Pend, ResMut>::ReceiveRemoteRequest,
        events[i] matches Event::ResponseSent(Ok(_)) ==> actions[i + 1]
            == Action::<Req, ReqMut, Ctx, Pend, ResMut>::ReceiveRemoteResponse,
{
    assert(next(actions[i], events[i]) == Some(actions[i + 1]));
}

/// Each failure has its error: the error tells which direction and which side of it failed.
pub proof fn failure_has_its_error<Req, ReqMut, Ctx, Pend, ResMut>(
    actions: Seq<Action<Req, ReqMut, Ctx, Pend, ResMut>>,
    events: Seq<Event<Req, ReqMut, Ctx, Pend, ResMut>>,
    i: int,
)
    requires
        is_round(actions, events),
        0 <= i < events.len(),
    ensures
        events[i] matches Event::LocalRequest(Err(_)) ==> actions[i + 1]
            == Action::<Req, ReqMut, Ctx, Pend, ResMut>::Finish(
            Err(Error::LocalRequestReceive),
        ),
        events[i] matches Event::RequestDelivered(Err(_)) ==> actions[i + 1]
            == Action::<Req, ReqMut, Ctx, Pend, ResMut>::Finish(
            Err(Error::RequestDelivery),
        ),
        events[i] matches Event::RemoteRequest(Err(_)) ==> actions[i + 1]
            == Action::<Req, ReqMut, Ctx, Pend, ResMut>::Finish(
            Err(Error::RequestIngestion),
        ),
        events[i] matches Event::RequestSent(Err(_)) ==> actions[i + 1]
            == Action::<Req, ReqMut, Ctx, Pend, ResMut>::Finish(
            Err(Error::RequestIngestion),
        ),
        events[i] matches Event::PendingResponseSubmitted(Err(_)) ==> actions[i + 1]
            == Action::<Req, ReqMut, Ctx, Pend, ResMut>::Finish(Err(Error::ResponseDelivery)),
        events[i] matches Event::RemoteResponse(Err(_)) ==> actions[i + 1]
            == Action::<Req, ReqMut, Ctx, Pend, ResMut>::Finish(
            Err(Error::ResponseIngestion),
        ),
        events[i] matches Event::ResponseSent(Err(_)) ==> actions[i + 1]
            == Action::<Req, ReqMut, Ctx, Pend, ResMut>::Finish(
            Err(Error::ResponseDelivery),
        ),
{
    assert(next(actions[i], events[i]) == Some(actions[i + 1]));
}

/// A round goes on until it is over: whatever comes of an action, there is an action that follows,
/// and nothing follows the end.
pub proof fn round_goes_on_until_it_is_over<Req, ReqMut, Ctx, Pend, ResMut>(
    received: Result<Option<Req>, ()>,
    ingested: Result<Option<(ReqMut, Ctx)>, ()>,
    answered: Result<Option<ResMut>, ()>,
    sent: Result<Pend, ()>,
    done: Result<(), ()>,
    request: Req,
    remote_request: ReqMut,
    context: Ctx,
    pending: Pend,
    response: ResMut,
    event: Event<Req, ReqMut, Ctx, Pend, ResMut>,
    ended: Result<(), Error>,
)
    ensures
        next(
            Action::<Req, ReqMut, Ctx, Pend, ResMut>::ReceiveLocalRequest,
            Event::LocalRequest(received),
        ) is Some,
        next(
            Action::<Req, ReqMut, Ctx, Pend, ResMut>::DeliverRequest(request),
            Event::RequestDelivered(done),
        ) is Some,
        next(
            Action::<Req, ReqMut, Ctx, Pend, ResMut>::ReceiveRemoteRequest,
            Event::RemoteRequest(ingested),
        ) is Some,
        next(
            Action::<Req, ReqMut, Ctx, Pend, ResMut>::SendRequest(remote_request, context),
            Event::RequestSent(sent),
        ) is Some,
        next(
            Action::<Req, ReqMut, Ctx, Pend, ResMut>::SubmitPendingResponse(pending, context),
            Event::PendingResponseSubmitted(done),
        ) is Some,
        next(
            Action::<Req, ReqMut, Ctx, Pend, ResMut>::ReceiveRemoteResponse,
            Event::RemoteResponse(answered),
        ) is Some,
        next(
            Action::<Req, ReqMut, Ctx, Pend, ResMut>::SendResponse(response),
            Event::ResponseSent(done),
        ) is Some,
        next(Action::<Req, ReqMut, Ctx, Pend, ResMut>::Finish(ended), event) is None,
{
}

/// A round in which nothing waits anywhere is over, and well, after each source was asked once.
pub proof fn idle_round_ends_after_three_events<Req, ReqMut, Ctx, Pend, ResMut>(
    actions: Seq<Action<Req, ReqMut, Ctx, Pend, ResMut>>,
    events: Seq<Event<Req, ReqMut, Ctx, Pend, ResMut>>,
)
    requires
        events.len() >= 3,
        events[0] == Event::<Req, ReqMut, Ctx, Pend, ResMut>::LocalRequest(Ok(None)),
        events[1] == Event::<Req, ReqMut, Ctx, Pend, ResMut>::RemoteRequest(Ok(None)),
        events[2] == Event::<Req, ReqMut, Ctx, Pend, ResMut>::RemoteResponse(Ok(None)),
    ensures
        is_round(actions, events) <==> {
            &&& events.len() == 3
            &&& actions == seq![
                Action::<Req, ReqMut, Ctx, Pend, ResMut>::ReceiveLocalRequest,
                Action::<Req, ReqMut, Ctx, Pend, ResMut>::ReceiveRemoteRequest,
                Action::<Req, ReqMut, Ctx, Pend, ResMut>::ReceiveRemoteResponse,
                Action::<Req, ReqMut, Ctx, Pend, ResMut>::Finish(Ok(())),
            ]
        },
{
    if is_round(actions, events) {
        empty_source_ends_its_phase(actions, events, 0);
        empty_source_ends_its_phase(actions, events, 1);
        empty_source_ends_its_phase(actions, events, 2);
        assert(actions =~= seq![
            Action::<Req, ReqMut, Ctx, Pend, ResMut>::ReceiveLocalRequest,
            Action::<Req, ReqMut, Ctx, Pend, ResMut>::ReceiveRemoteRequest,
            Action::<Req, ReqMut, Ctx, Pend, ResMut>::ReceiveRemoteResponse,
            Action::<Req, ReqMut, Ctx, Pend, ResMut>::Finish(Ok(())),
        ]);
    }
}

/// How many steps of a round something that was received takes until it is carried over.
pub open spec fn steps_for<Req, ReqMut, Ctx, Pend, ResMut>(
    event: Event<Req, ReqMut, Ctx, Pend, ResMut>,
) -> nat {
    match event {
        Event::LocalRequest(Ok(Some(_))) => 2,
        Event::RemoteRequest(Ok(Some(_))) => 3,
        Event::RemoteResponse(Ok(Some(_))) => 2,
        _ => 0,
    }
}

/// How many steps of a round all that was received takes until it is carried over.
pub open spec fn steps_for_all<Req, ReqMut, Ctx, Pend, ResMut>(
    events: Seq<Event<Req, ReqMut, Ctx, Pend, ResMut>>,
) -> nat
    decreases events.len(),
{
    if events.len() == 0 {
        0
    } else {
        steps_for_all(events.drop_last()) + steps_for(events.last())
    }
}

/// What lies between the events of a round and the steps that what was received takes: the sources
/// that were found empty, and the steps that are still to be done.
proof fn lemma_steps<Req, ReqMut, Ctx, Pend, ResMut>(
    actions: Seq<Action<Req, ReqMut, Ctx, Pend, ResMut>>,
    events: Seq<Event<Req, ReqMut, Ctx, Pend, ResMut>>,
    n: int,
)
    requires
        is_round(actions, events),
        0 <= n < actions.len(),
    ensures
        ({
            let steps = steps_for_all(events.take(n));
            match actions[n] {
                Action::ReceiveLocalRequest => n == steps,
                Action::DeliverRequest(_) => n == steps - 1,
                Action::ReceiveRemoteRequest => n == steps + 1,
                Action::SendRequest(_, _) => n == steps - 1,
                Action::SubmitPendingResponse(_, _) => n == steps,
                Action::ReceiveRemoteResponse => n == steps + 2,
                Action::SendResponse(_) => n == steps + 1,
                Action::Finish(Ok(_)) => n == steps + 3,
                Action::Finish(Err(_)) => true,
            }
        }),
    decreases n,
{
    if n > 0 {
        lemma_steps(actions, events, n - 1);
        assert(next(actions[n - 1], events[n - 1]) == Some(actions[n - 1 + 1]));
        assert(events.take(n).drop_last() =~= events.take(n - 1));
        assert(events.take(n).last() == events[n - 1]);
    } else {
        assert(events.take(0).len() == 0);
    }
}

/// A round that ends well did nothing in vain: besides the steps that carry over what was
/// received, two for a local request, three for a remote request and two for a remote response, it
/// only asked each of the three sources once more than the source had something to give.
pub proof fn round_does_nothing_in_vain<Req, ReqMut, Ctx, Pend, ResMut>(
    actions: Seq<Action<Req, ReqMut, Ctx, Pend, ResMut>>,
    events: Seq<Event<Req, ReqMut, Ctx, Pend, ResMut>>,
)
    requires
        is_round(actions, events),
        actions.last() == Action::<Req, ReqMut, Ctx, Pend, ResMut>::Finish(Ok(())),
    ensures
        events.len() == 3 + steps_for_all(events),
{
    lemma_steps(actions, events, events.len() as int);
    assert(events.take(events.len() as int) =~= events);
}

/// Where a round has got beyond the local requests without an error, the server gave none at last;
/// where it has got beyond the remote requests, the relay gave none after that.
proof fn lemma_drained<Req, ReqMut, Ctx, Pend, ResMut>(
    actions: Seq<Action<Req, ReqMut, Ctx, Pend, ResMut>>,
    events: Seq<Event<Req, ReqMut, Ctx, Pend, ResMut>>,
    n: int,
) -> (drained: (int, int))
    requires
        is_round(actions, events),
        0 <= n < actions.len(),
    ensures
        2 <= phase(actions[n]) <= 3 ==> {
            &&& 0 <= drained.0 < n
            &&& events[drained.0] == Event::<Req, ReqMut, Ctx, Pend, ResMut>::LocalRequest(Ok(None))
        },
        phase(actions[n]) == 3 ==> {
            &&& drained.0 < drained.1 < n
            &&& events[drained.1] == Event::<Req, ReqMut, Ctx, Pend, ResMut>::RemoteRequest(
                Ok(None),
            )
        },
    decreases n,
{
    if n == 0 {
        (0, 0)
    } else {
        let before = lemma_drained(actions, events, n - 1);
        assert(next(actions[n - 1], events[n - 1]) == Some(actions[n - 1 + 1]));
        if phase(actions[n - 1]) == 1 {
            (n - 1, n - 1)
        } else if phase(actions[n - 1]) == 2 && phase(actions[n]) == 3 {
            (before.0, n - 1)
        } else {
            before
        }
    }
}

/// A round ends well only when there is nothing more to carry over: the server gave no request,
/// after that the relay gave no request, and last of all the relay gave no response. Nothing
/// failed on the way.
pub proof fn round_ends_well_when_drained<Req, ReqMut, Ctx, Pend, ResMut>(
    actions: Seq<Action<Req, ReqMut, Ctx, Pend, ResMut>>,
    events: Seq<Event<Req, ReqMut, Ctx, Pend, ResMut>>,
)
    requires
        is_round(actions, events),
        actions.last() == Action::<Req, ReqMut, Ctx, Pend, ResMut>::Finish(Ok(())),
    ensures
        exists|i: int, j: int|
            {
                &&& 0 <= i < j < events.len() - 1
                &&& #[trigger] events[i] == Event::<Req, ReqMut, Ctx, Pend, ResMut>::LocalRequest(
                    Ok(None),
                )
                &&& #[trigger] events[j] == Event::<Req, ReqMut, Ctx, Pend, ResMut>::RemoteRequest(
                    Ok(None),
                )
            },
        events.last() == Event::<Req, ReqMut, Ctx, Pend, ResMut>::RemoteResponse(Ok(None)),
        forall|i: int| 0 <= i < events.len() ==> (#[trigger] events[i]).failure() is None,
{
    let n = events.len() - 1;
    assert(next(actions[n], events[n]) == Some(actions[n + 1]));
    let (i, j) = lemma_drained(actions, events, n);
    assert(0 <= i < j < events.len() - 1);
    assert forall|i: int| 0 <= i < events.len() implies (#[trigger] events[i]).failure() is None by {
        if events[i].failure() is Some {
            failure_ends_the_round(actions, events, i);
        }
    }
}

} // verus!
