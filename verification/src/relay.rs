//! The relay of one request-response service: what it publishes, what it makes of a sample that
//! arrives, and how it pairs a response with the request that it answers.
//!
//! The relay decides; its caller performs what only the ports can do. A call that needs more than
//! one decision is several methods, to be called in the order of their description.
use crate::header::{request_header_size, response_header_size, RequestContext, RequestKey};
use crate::pending::{Awaited, PendingRequests, PendingResponses};
use crate::wire::{
    decode_request, decode_response, encode_request, encode_response, payload_len_bytes,
    MessageSizes, RequestFrame, RequestRejection, ResponseFrame,
};
use crate::zbytes::{zbytes_from_vec, zbytes_to_vec};
use iceoryx2::service::header::request_response::{RequestHeader, ResponseHeader};
use vstd::prelude::*;
use vstd::slice::{slice_subrange, slice_to_vec};
use zenoh::bytes::ZBytes;

verus! {

/// Why a request or a response could not be sent.
#[derive(Debug, Clone, Copy, PartialEq, Eq, Structural)]
pub enum SendError {
    PayloadPut,
    Serialization,
}

impl SendError {
    /// The text that stands for the error.
    pub open spec fn text(&self) -> Seq<char> {
        match self {
            SendError::PayloadPut => "SendError::PayloadPut"@,
            SendError::Serialization => "SendError::Serialization"@,
        }
    }

    /// The name of the error with that of its type.
    pub fn to_string(&self) -> (text: String)
        ensures
            text@ == self.text(),
    {
        match self {
            SendError::PayloadPut => "SendError::PayloadPut".to_owned(),
            SendError::Serialization => "SendError::Serialization".to_owned(),
        }
    }
}

/// Why a request or a response could not be received.
#[derive(Debug, Clone, Copy, PartialEq, Eq, Structural)]
pub enum ReceiveError {
    SampleReceive,
    IceoryxLoan,
    Deserialization,
}

impl ReceiveError {
    /// The text that stands for the error.
    pub open spec fn text(&self) -> Seq<char> {
        match self {
            ReceiveError::SampleReceive => "ReceiveError::SampleReceive"@,
            ReceiveError::IceoryxLoan => "ReceiveError::IceoryxLoan"@,
            ReceiveError::Deserialization => "ReceiveError::Deserialization"@,
        }
    }

    /// The name of the error with that of its type.
    pub fn to_string(&self) -> (text: String)
        ensures
            text@ == self.text(),
    {
        match self {
            ReceiveError::SampleReceive => "ReceiveError::SampleReceive".to_owned(),
            ReceiveError::IceoryxLoan => "ReceiveError::IceoryxLoan".to_owned(),
            ReceiveError::Deserialization => "ReceiveError::Deserialization".to_owned(),
        }
    }
}

/// No two errors have the same text, and the text starts with the name of the type.
pub proof fn texts_tell_send_errors_apart(a: SendError, b: SendError)
    ensures
        a.text() == b.text() ==> a == b,
        a.text().take(11) == "SendError::"@,
{
    reveal_strlit("SendError::");
    reveal_strlit("SendError::PayloadPut");
    reveal_strlit("SendError::Serialization");
    assert(a.text().take(11) =~= "SendError::"@);
    if a.text() == b.text() {
        assert(a.text().len() == b.text().len());
    }
}

/// No two errors have the same text, and the text starts with the name of the type.
pub proof fn texts_tell_receive_errors_apart(a: ReceiveError, b: ReceiveError)
    ensures
        a.text() == b.text() ==> a == b,
        a.text().take(14) == "ReceiveError::"@,
{
    reveal_strlit("ReceiveError::");
    reveal_strlit("ReceiveError::SampleReceive");
    reveal_strlit("ReceiveError::IceoryxLoan");
    reveal_strlit("ReceiveError::Deserialization");
    assert(a.text().take(14) =~= "ReceiveError::"@);
    if a.text() == b.text() {
        assert(a.text().len() == b.text().len());
    }
}

/// The sizes that the service fixes for its requests and for its responses.
#[derive(Debug, Clone, Copy, PartialEq, Eq, Structural)]
pub struct StaticConfig {
    pub request: MessageSizes,
    pub response: MessageSizes,
}

/// How many bytes the user header and the payload of a local message take.
#[derive(Debug, Clone, Copy, PartialEq, Eq, Structural)]
pub struct Extents {
    pub user_header: usize,
    pub payload: usize,
}

/// What an attempt to receive a request came to.
#[derive(Debug)]
pub enum RequestArrival {
    /// No sample was waiting.
    Absent,
    /// The sample is no request of the service, and is dropped.
    Rejected(RequestRejection),
    /// A request arrived. Memory for its elements is to be loaned.
    Accepted(RequestFrame),
}

/// The parts of a response of a local server.
#[derive(Debug, Clone, Copy)]
pub struct ResponseParts<'a> {
    pub header: &'a [u8],
    pub user_header: &'a [u8],
    pub payload: &'a [u8],
}

/// A remote response together with the local request that it answers. Memory for its elements is
/// to be loaned from the request.
#[derive(Debug)]
pub struct ResponseDelivery<Req> {
    pub request: Req,
    pub number_of_elements: usize,
    pub user_header: Vec<u8>,
    pub payload: Vec<u8>,
}

/// What is to be done next in order to receive a response.
#[derive(Debug)]
pub enum ResponseAction<Req> {
    /// Find out whether the [next awaited response](Relay::next_pending) is still connected, for
    /// [`connection_checked`](Relay::connection_checked).
    CheckConnection,
    /// Poll the [next awaited response](Relay::next_pending), for
    /// [`response_polled`](Relay::response_polled), which is told as well whether the response
    /// was connected before.
    PollPending { connected: bool },
    /// Publish a response of a local server, for
    /// [`response_published`](Relay::response_published).
    Publish(ZBytes),
    /// Take a sample from the subscriber for responses, for
    /// [`sample_received`](Relay::sample_received).
    ReceiveSample,
    /// Read the key of the request out of the request header, for
    /// [`request_identified`](Relay::request_identified).
    IdentifyRequest(ResponseFrame),
    /// Loan memory from the request and fill it, see [`loaned`].
    Loan(ResponseDelivery<Req>),
    /// End with nothing received, or with an error.
    Finish(Result<(), ReceiveError>),
}

/// What became of a request, given what became of its publication. The request stays pending
/// either way.
pub fn request_published<E>(published: Result<(), E>) -> (sent: Result<(), SendError>)
    ensures
        sent == (match published {
            Ok(_) => Ok(()),
            Err(_) => Err(SendError::PayloadPut),
        }),
{
    match published {
        Ok(_) => Ok(()),
        Err(_) => Err(SendError::PayloadPut),
    }
}

/// What becomes of a message that was accepted, given what became of the loan for it.
pub fn loaned<L, E>(loan: Result<L, E>) -> (memory: Result<L, ReceiveError>)
    ensures
        memory == (match loan {
            Ok(memory) => Ok(memory),
            Err(_) => Err(ReceiveError::IceoryxLoan),
        }),
{
    match loan {
        Ok(memory) => Ok(memory),
        Err(_) => Err(ReceiveError::IceoryxLoan),
    }
}

/// What is awaited once a sweep has gone on: the same, or what is left at the end of the sweep.
pub open spec fn resumed<Pend>(awaited: Awaited<Pend>) -> Awaited<Pend> {
    if awaited.unvisited() {
        awaited
    } else {
        awaited.end_sweep()
    }
}

/// Whether an awaited response is over, given whether it was connected and what it gave when it
/// was polled after that: it is if polling failed, or if it gave nothing and nothing more can come.
pub open spec fn is_over<T, E>(connected: bool, polled: Result<Option<T>, E>) -> bool {
    match polled {
        Ok(Some(_)) => false,
        Ok(None) => !connected,
        Err(_) => true,
    }
}

/// How a sweep goes on: with the next entry, or, when all were visited, with the samples of the
/// remote side.
pub open spec fn resumed_action<Req, Pend>(awaited: Awaited<Pend>) -> ResponseAction<Req> {
    if awaited.unvisited() {
        ResponseAction::CheckConnection
    } else {
        ResponseAction::ReceiveSample
    }
}

/// Whether a response can be delivered: the request that it answers is pending, and elements can
/// be counted.
pub open spec fn can_be_delivered<Req>(
    local: Map<RequestKey, Req>,
    key: RequestKey,
    element_size: usize,
) -> bool {
    &&& local.contains_key(key)
    &&& element_size != 0
}

/// The number of whole elements in `data`.
pub open spec fn whole_elements(data: Seq<u8>, element_size: usize) -> nat {
    data.len() / element_size as nat
}

/// `data` without a partial element at its end.
pub open spec fn up_to_whole_element(data: Seq<u8>, element_size: usize) -> Seq<u8> {
    data.take((whole_elements(data, element_size) * element_size) as int)
}

/// An awaited response is given up exactly if polling it failed, or if it gave nothing and was not
/// connected before. One that gave something stays, connected or not.
pub proof fn response_is_over_when_nothing_can_come<T, E>(
    connected: bool,
    polled: Result<Option<T>, E>,
)
    ensures
        is_over(connected, polled) <==> polled is Err || (polled matches Ok(None) && !connected),
        polled matches Ok(Some(_)) ==> !is_over(connected, polled),
{
}

/// While an entry is left, a sweep stays as it is and goes on with that entry. Once none is, what
/// is not marked is awaited further, without gaps, and the samples of the remote side follow: the
/// entry at `i`, with `k` marks before it, has moved up by `k` places.
pub proof fn sweep_ends_with_its_last_entry<Req, Pend>(awaited: Awaited<Pend>, i: int, k: int)
    requires
        awaited.well_formed(),
        0 <= i < awaited.entries.len(),
        0 <= k <= awaited.completed.len(),
        k > 0 ==> awaited.completed[k - 1] < i,
        k < awaited.completed.len() ==> i < awaited.completed[k],
    ensures
        awaited.cursor < awaited.entries.len() ==> {
            &&& resumed(awaited) == awaited
            &&& resumed_action::<Req, Pend>(awaited) == ResponseAction::<Req>::CheckConnection
        },
        awaited.cursor >= awaited.entries.len() ==> {
            &&& resumed(awaited).cursor == 0
            &&& resumed(awaited).completed.len() == 0
            &&& resumed(awaited).entries.len() == awaited.entries.len() - awaited.completed.len()
            &&& resumed(awaited).entries[i - k] == awaited.entries[i]
            &&& resumed_action::<Req, Pend>(awaited) == ResponseAction::<Req>::ReceiveSample
        },
{
    crate::pending::without_closes_the_gaps(awaited.entries, awaited.completed, i, k);
}

/// A response is delivered exactly if its request is pending and the service has an element size.
/// It is delivered from its first byte on, in whole elements, and what is left over is shorter than
/// an element.
pub proof fn response_is_delivered_in_whole_elements<Req>(
    local: Map<RequestKey, Req>,
    key: RequestKey,
    data: Seq<u8>,
    element_size: usize,
)
    ensures
        can_be_delivered(local, key, element_size) <==> local.contains_key(key) && element_size > 0,
        element_size > 0 ==> {
            let elements = whole_elements(data, element_size);
            let delivered = up_to_whole_element(data, element_size);
            &&& delivered.len() == elements * element_size
            &&& delivered.len() <= data.len() < delivered.len() + element_size
            &&& delivered == data.subrange(0, delivered.len() as int)
        },
{
    if element_size > 0 {
        let size = element_size as int;
        let elements = whole_elements(data, element_size);
        vstd::arithmetic::div_mod::lemma_fundamental_div_mod(data.len() as int, size);
        vstd::arithmetic::mul::lemma_mul_is_commutative(size, elements as int);
        vstd::arithmetic::mul::lemma_mul_nonnegative(elements as int, size);
    }
}

/// The relay of one service. `Req` is a request of a local client, `Pend` the response of a local
/// server that is awaited on behalf of a remote client.
#[derive(Debug)]
pub struct Relay<Req, Pend> {
    static_config: StaticConfig,
    pending_local_requests: PendingRequests<Req>,
    pending_remote_requests: PendingResponses<Pend>,
}

impl<Req, Pend> Relay<Req, Pend> {
    /// The sizes of the service.
    pub closed spec fn static_config(&self) -> StaticConfig {
        self.static_config
    }

    /// The local requests that were sent and not answered yet.
    pub closed spec fn local(&self) -> Map<RequestKey, Req> {
        self.pending_local_requests@
    }

    /// The responses that are awaited on behalf of remote clients.
    pub closed spec fn remote(&self) -> Awaited<Pend> {
        self.pending_remote_requests@
    }

    /// What is awaited is in order. Every relay starts so and stays so.
    pub open spec fn well_formed(&self) -> bool {
        self.remote().well_formed()
    }

    /// A relay with nothing pending.
    pub fn new(static_config: StaticConfig) -> (relay: Self)
        ensures
            relay.well_formed(),
            relay.static_config() == static_config,
            relay.local() == Map::<RequestKey, Req>::empty(),
            relay.remote() == Awaited::<Pend>::nothing(),
    {
        Relay {
            static_config,
            pending_local_requests: PendingRequests::new(),
            pending_remote_requests: PendingResponses::new(),
        }
    }

    /// How much of a local request of so many elements is sent: all of it.
    pub fn request_extents(&self, number_of_elements: usize) -> (extents: Extents)
        requires
            number_of_elements * self.static_config().request.payload <= usize::MAX,
        ensures
            extents.user_header == self.static_config().request.user_header,
            extents.payload == number_of_elements * self.static_config().request.payload,
    {
        Extents {
            user_header: self.static_config.request.user_header,
            payload: payload_len_bytes(number_of_elements, self.static_config.request.payload),
        }
    }

    /// How much of a local response of so many elements is sent: all of it.
    pub fn response_extents(&self, number_of_elements: usize) -> (extents: Extents)
        requires
            number_of_elements * self.static_config().response.payload <= usize::MAX,
        ensures
            extents.user_header == self.static_config().response.user_header,
            extents.payload == number_of_elements * self.static_config().response.payload,
    {
        Extents {
            user_header: self.static_config.response.user_header,
            payload: payload_len_bytes(number_of_elements, self.static_config.response.payload),
        }
    }

    /// Keeps a local request for the response to come, and gives what is to be published for it.
    /// A request that is kept under the same key gives way.
    pub fn send_request(
        &mut self,
        context: &RequestContext,
        user_header: &[u8],
        payload: &[u8],
        request: Req,
    ) -> (message: ZBytes)
        requires
            old(self).well_formed(),
        ensures
            final(self).well_formed(),
            final(self).static_config() == old(self).static_config(),
            final(self).remote() == old(self).remote(),
            final(self).local() == old(self).local().insert(context.key(), request),
            final(self).local() == old(self).local().insert(
                (context.client_id, context.request_id),
                request,
            ),
            crate::zbytes::zbytes_content(message) == crate::wire::request_message(
                context.header@,
                user_header@,
                payload@,
            ),
            crate::zbytes::zbytes_content(message) == context.header@ + user_header@ + payload@,
    {
        let message = encode_request(context.header.as_slice(), user_header, payload);
        let _ = self.pending_local_requests.insert(context.key(), request);
        zbytes_from_vec(message)
    }

    /// Looks at the sample that the subscriber for requests had waiting.
    pub fn receive_request<E>(&self, received: Result<Option<ZBytes>, E>) -> (arrival: Result<
        RequestArrival,
        ReceiveError,
    >)
        ensures
            match received {
                Err(_) => arrival == Err::<RequestArrival, _>(ReceiveError::SampleReceive),
                Ok(None) => arrival == Ok::<_, ReceiveError>(RequestArrival::Absent),
                Ok(Some(sample)) => {
                    let message = crate::zbytes::zbytes_content(sample);
                    let header_size = vstd::layout::size_of::<RequestHeader>();
                    let sizes = self.static_config().request;
                    match crate::wire::request_rejection(message.len(), header_size, sizes) {
                        Some(rejection) => arrival == Ok::<_, ReceiveError>(
                            RequestArrival::Rejected(rejection),
                        ),
                        None => {
                            &&& arrival matches Ok(RequestArrival::Accepted(frame))
                            &&& frame.carried_by(message, header_size, sizes)
                        },
                    }
                },
            },
            received matches Ok(Some(sample)) ==> {
                let message = crate::zbytes::zbytes_content(sample);
                let header_size = vstd::layout::size_of::<RequestHeader>() as int;
                let data_start = header_size + self.static_config().request.user_header;
                let data_len = message.len() - data_start;
                let size = self.static_config().request.payload;
                match arrival {
                    Ok(RequestArrival::Accepted(frame)) => {
                        &&& data_len >= 0
                        &&& frame.header@ == message.subrange(0, header_size)
                        &&& frame.user_header@ == message.subrange(header_size, data_start)
                        &&& frame.payload@ == message.subrange(data_start, message.len() as int)
                        &&& size > 0
                        &&& data_len == frame.number_of_elements * size
                    },
                    Ok(RequestArrival::Rejected(RequestRejection::TooSmall)) => data_len < 0,
                    Ok(RequestArrival::Rejected(RequestRejection::ZeroElementSize)) => data_len >= 0
                        && size == 0,
                    Ok(
                        RequestArrival::Rejected(
                            RequestRejection::PartialElement { data_len: len, element_size },
                        ),
                    ) => {
                        &&& len == data_len
                        &&& element_size == size
                        &&& size > 0
                        &&& data_len % size as int != 0
                    },
                    _ => false,
                }
            },
    {
        match received {
            Err(_) => Err(ReceiveError::SampleReceive),
            Ok(None) => Ok(RequestArrival::Absent),
            Ok(Some(sample)) => {
                let message = zbytes_to_vec(&sample);
                match decode_request(
                    message.as_slice(),
                    request_header_size(),
                    self.static_config.request,
                ) {
                    Ok(frame) => Ok(RequestArrival::Accepted(frame)),
                    Err(rejection) => Ok(RequestArrival::Rejected(rejection)),
                }
            },
        }
    }

    /// Awaits the response to a remote request, on behalf of the client that `context` tells.
    pub fn submit_pending_response(&mut self, response: Pend, context: RequestContext) -> (submitted:
        Result<(), SendError>)
        requires
            old(self).well_formed(),
        ensures
            final(self).well_formed(),
            final(self).static_config() == old(self).static_config(),
            final(self).local() == old(self).local(),
            final(self).remote() == old(self).remote().push(response, context),
            final(self).remote().entries == old(self).remote().entries.push((response, context)),
            final(self).remote().cursor == old(self).remote().cursor,
            final(self).remote().completed == old(self).remote().completed,
            submitted == Ok::<(), SendError>(()),
    {
        self.pending_remote_requests.push(response, context);
        Ok(())
    }

    /// Goes on with the running sweep, or ends it.
    fn resume(&mut self) -> (action: ResponseAction<Req>)
        requires
            old(self).well_formed(),
        ensures
            final(self).well_formed(),
            final(self).static_config() == old(self).static_config(),
            final(self).local() == old(self).local(),
            final(self).remote() == resumed(old(self).remote()),
            action == resumed_action::<Req, Pend>(old(self).remote()),
            ({
                let before = old(self).remote();
                let after = final(self).remote();
                if before.cursor < before.entries.len() {
                    &&& action == ResponseAction::<Req>::CheckConnection
                    &&& after == before
                } else {
                    &&& action == ResponseAction::<Req>::ReceiveSample
                    &&& after.cursor == 0
                    &&& after.completed.len() == 0
                    &&& after.entries.len() == before.entries.len() - before.completed.len()
                    &&& forall|i: int, k: int|
                        0 <= i < before.entries.len() && #[trigger] crate::pending::marked_before(
                            before.completed,
                            i,
                            k,
                        ) ==> after.entries[i - k] == #[trigger] before.entries[i]
                }
            }),
    {
        match self.pending_remote_requests.current() {
            Some(_) => ResponseAction::CheckConnection,
            None => {
                self.pending_remote_requests.end_sweep();
                ResponseAction::ReceiveSample
            },
        }
    }

    /// Starts to receive a response. The awaited responses of the local servers come first: every
    /// one of them is visited before a sample of the remote side is taken.
    pub fn receive_response(&mut self) -> (action: ResponseAction<Req>)
        requires
            old(self).well_formed(),
        ensures
            final(self).well_formed(),
            final(self).static_config() == old(self).static_config(),
            final(self).local() == old(self).local(),
            final(self).remote() == resumed(old(self).remote()),
            action == resumed_action::<Req, Pend>(old(self).remote()),
            ({
                let before = old(self).remote();
                let after = final(self).remote();
                if before.cursor < before.entries.len() {
                    &&& action == ResponseAction::<Req>::CheckConnection
                    &&& after == before
                } else {
                    &&& action == ResponseAction::<Req>::ReceiveSample
                    &&& after.cursor == 0
                    &&& after.completed.len() == 0
                    &&& after.entries.len() == before.entries.len() - before.completed.len()
                    &&& forall|i: int, k: int|
                        0 <= i < before.entries.len() && #[trigger] crate::pending::marked_before(
                            before.completed,
                            i,
                            k,
                        ) ==> after.entries[i - k] == #[trigger] before.entries[i]
                }
            }),
    {
        self.resume()
    }

    /// The awaited response that is visited next, with the context of the request that it
    /// answers.
    pub fn next_pending(&self) -> (entry: Option<&(Pend, RequestContext)>)
        ensures
            entry == (if self.remote().unvisited() {
                Some(&self.remote().current())
            } else {
                None
            }),
            entry is Some <==> self.remote().cursor < self.remote().entries.len(),
            entry matches Some(pending) ==> *pending
                == self.remote().entries[self.remote().cursor as int],
    {
        self.pending_remote_requests.current()
    }

    /// Goes on with the visited entry. It is polled whether or not it is still connected, for
    /// a server may have answered before it went away.
    pub fn connection_checked(&self, connected: bool) -> (action: ResponseAction<Req>)
        ensures
            action == (ResponseAction::<Req>::PollPending { connected }),
    {
        ResponseAction::PollPending { connected }
    }

    /// Takes the response of the visited entry, if it has one. `connected` is whether the entry
    /// was connected before it was polled. The entry is over where polling it failed, and where it
    /// gave nothing and was not connected; otherwise it stays, as more responses may follow.
    pub fn response_polled<E>(
        &mut self,
        connected: bool,
        polled: Result<Option<ResponseParts<'_>>, E>,
    ) -> (action: ResponseAction<Req>)
        requires
            old(self).well_formed(),
            old(self).remote().unvisited(),
        ensures
            final(self).well_formed(),
            final(self).static_config() == old(self).static_config(),
            final(self).local() == old(self).local(),
            ({
                let visited = old(self).remote().visit(is_over(connected, polled));
                match polled {
                    Ok(Some(response)) => {
                        &&& final(self).remote() == visited
                        &&& action matches ResponseAction::Publish(message)
                        &&& crate::zbytes::zbytes_content(message) == crate::wire::response_message(
                            old(self).remote().current().1.header@,
                            response.header@,
                            response.user_header@,
                            response.payload@,
                        )
                    },
                    _ => {
                        &&& final(self).remote() == resumed(visited)
                        &&& action == resumed_action::<Req, Pend>(visited)
                    },
                }
            }),
            ({
                let before = old(self).remote();
                let after = final(self).remote();
                let stays = polled matches Ok(Some(_)) || polled is Ok && connected;
                if let Ok(Some(response)) = polled {
                    &&& action matches ResponseAction::Publish(message)
                    &&& crate::zbytes::zbytes_content(message)
                        == before.entries[before.cursor as int].1.header@ + response.header@
                        + response.user_header@ + response.payload@
                    &&& after.entries == before.entries
                    &&& after.cursor == before.cursor + 1
                    &&& after.completed == before.completed
                } else if before.cursor + 1 < before.entries.len() {
                    &&& action == ResponseAction::<Req>::CheckConnection
                    &&& after.entries == before.entries
                    &&& after.cursor == before.cursor + 1
                    &&& stays ==> after.completed == before.completed
                    &&& !stays ==> after.completed == before.completed.push(before.cursor as usize)
                } else {
                    &&& action == ResponseAction::<Req>::ReceiveSample
                    &&& after.cursor == 0
                    &&& after.completed.len() == 0
                    &&& stays ==> after.entries.len() == before.entries.len()
                        - before.completed.len()
                    &&& !stays ==> after.entries.len() == before.entries.len()
                        - before.completed.len() - 1
                }
            }),
    {
        match polled {
            Ok(Some(response)) => {
                let message = encode_response(
                    self.pending_remote_requests.current_context().header.as_slice(),
                    response.header,
                    response.user_header,
                    response.payload,
                );
                self.pending_remote_requests.visit(false);
                ResponseAction::Publish(zbytes_from_vec(message))
            },
            Ok(None) => {
                self.pending_remote_requests.visit(!connected);
                self.resume()
            },
            Err(_) => {
                self.pending_remote_requests.visit(true);
                self.resume()
            },
        }
    }

    /// Goes on after a response of a local server was published. Whether that succeeded makes no
    /// difference.
    pub fn response_published<E>(&mut self, published: Result<(), E>) -> (action: ResponseAction<
        Req,
    >)
        requires
            old(self).well_formed(),
        ensures
            final(self).well_formed(),
            final(self).static_config() == old(self).static_config(),
            final(self).local() == old(self).local(),
            final(self).remote() == resumed(old(self).remote()),
            action == resumed_action::<Req, Pend>(old(self).remote()),
            ({
                let before = old(self).remote();
                let after = final(self).remote();
                if before.cursor < before.entries.len() {
                    &&& action == ResponseAction::<Req>::CheckConnection
                    &&& after == before
                } else {
                    &&& action == ResponseAction::<Req>::ReceiveSample
                    &&& after.cursor == 0
                    &&& after.completed.len() == 0
                    &&& after.entries.len() == before.entries.len() - before.completed.len()
                    &&& forall|i: int, k: int|
                        0 <= i < before.entries.len() && #[trigger] crate::pending::marked_before(
                            before.completed,
                            i,
                            k,
                        ) ==> after.entries[i - k] == #[trigger] before.entries[i]
                }
            }),
    {
        let _ = published;
        self.resume()
    }

    /// Looks at the sample that the subscriber for responses had waiting. A sample that ends
    /// within the headers is dropped.
    pub fn sample_received<E>(&self, received: Result<Option<ZBytes>, E>) -> (action:
        ResponseAction<Req>)
        ensures
            match received {
                Err(_) => action == ResponseAction::<Req>::Finish(Err(ReceiveError::SampleReceive)),
                Ok(None) => action == ResponseAction::<Req>::Finish(Ok(())),
                Ok(Some(sample)) => {
                    let message = crate::zbytes::zbytes_content(sample);
                    let request_header_size = vstd::layout::size_of::<RequestHeader>();
                    let response_header_size = vstd::layout::size_of::<ResponseHeader>();
                    let sizes = self.static_config().response;
                    if message.len() < request_header_size + response_header_size
                        + sizes.user_header {
                        action == ResponseAction::<Req>::Finish(Ok(()))
                    } else {
                        &&& action matches ResponseAction::IdentifyRequest(frame)
                        &&& frame.carried_by(
                            message,
                            request_header_size,
                            response_header_size,
                            sizes,
                        )
                    }
                },
            },
            received matches Ok(Some(sample)) ==> {
                let message = crate::zbytes::zbytes_content(sample);
                let request_header_size = vstd::layout::size_of::<RequestHeader>() as int;
                let user_header_start = request_header_size + vstd::layout::size_of::<
                    ResponseHeader,
                >();
                let data_start = user_header_start + self.static_config().response.user_header;
                if message.len() < data_start {
                    action == ResponseAction::<Req>::Finish(Ok(()))
                } else {
                    &&& action matches ResponseAction::IdentifyRequest(frame)
                    &&& frame.request_header@ == message.subrange(0, request_header_size)
                    &&& frame.user_header@ == message.subrange(user_header_start, data_start)
                    &&& frame.payload@ == message.subrange(data_start, message.len() as int)
                }
            },
    {
        match received {
            Err(_) => ResponseAction::Finish(Err(ReceiveError::SampleReceive)),
            Ok(None) => ResponseAction::Finish(Ok(())),
            Ok(Some(sample)) => {
                let message = zbytes_to_vec(&sample);
                match decode_response(
                    message.as_slice(),
                    request_header_size(),
                    response_header_size(),
                    self.static_config.response,
                ) {
                    Some(frame) => ResponseAction::IdentifyRequest(frame),
                    None => ResponseAction::Finish(Ok(())),
                }
            },
        }
    }

    /// Finds the local request that a remote response answers; `key` is the key in the request
    /// header of the response. The request is pending no longer, whether or not the response can
    /// be delivered: it cannot where the service has no element size.
    ///
    /// The payload is delivered up to its last whole element.
    pub fn request_identified(&mut self, response: ResponseFrame, key: RequestKey) -> (action:
        ResponseAction<Req>)
        requires
            old(self).well_formed(),
        ensures
            final(self).well_formed(),
            final(self).static_config() == old(self).static_config(),
            final(self).remote() == old(self).remote(),
            final(self).local() == old(self).local().remove(key),
            ({
                let element_size = old(self).static_config().response.payload;
                if can_be_delivered(old(self).local(), key, element_size) {
                    &&& action matches ResponseAction::Loan(delivery)
                    &&& delivery.request == old(self).local()[key]
                    &&& delivery.user_header == response.user_header
                    &&& delivery.number_of_elements == whole_elements(
                        response.payload@,
                        element_size,
                    )
                    &&& delivery.payload@ == up_to_whole_element(response.payload@, element_size)
                } else {
                    action == ResponseAction::<Req>::Finish(Ok(()))
                }
            }),
            ({
                let element_size = old(self).static_config().response.payload;
                if old(self).local().contains_key(key) && element_size > 0 {
                    &&& action matches ResponseAction::Loan(delivery)
                    &&& delivery.request == old(self).local()[key]
                    &&& delivery.user_header@ == response.user_header@
                    &&& delivery.payload@.len() == delivery.number_of_elements * element_size
                    &&& delivery.payload@.len() <= response.payload@.len()
                        < delivery.payload@.len() + element_size
                    &&& forall|i: int|
                        0 <= i < delivery.payload@.len() ==> #[trigger] delivery.payload@[i]
                            == response.payload@[i]
                } else {
                    action == ResponseAction::<Req>::Finish(Ok(()))
                }
            }),
    {
        match self.pending_local_requests.remove(key) {
            Some(request) => {
                let element_size: usize = self.static_config.response.payload;
                if element_size == 0 {
                    return ResponseAction::Finish(Ok(()));
                }
                let data_len: usize = response.payload.len();
                let number_of_elements: usize = data_len / element_size;
                proof {
                    vstd::arithmetic::div_mod::lemma_fundamental_div_mod(
                        data_len as int,
                        element_size as int,
                    );
                    vstd::arithmetic::mul::lemma_mul_is_commutative(
                        number_of_elements as int,
                        element_size as int,
                    );
                    vstd::arithmetic::mul::lemma_mul_nonnegative(
                        number_of_elements as int,
                        element_size as int,
                    );
                }
                let whole: usize = number_of_elements * element_size;
                let payload = slice_to_vec(slice_subrange(response.payload.as_slice(), 0, whole));
                ResponseAction::Loan(
                    ResponseDelivery {
                        request,
                        number_of_elements,
                        user_header: response.user_header,
                        payload,
                    },
                )
            },
            None => ResponseAction::Finish(Ok(())),
        }
    }
}

} // verus!
