//! What holds of a request and its response on their way through two relays.
//!
//! The messages are those that [`Relay::send_request`] and [`Relay::response_polled`] publish, and
//! the frames those that [`Relay::receive_request`] and [`Relay::sample_received`] make of them.
//!
//! [`Relay::send_request`]: crate::relay::Relay::send_request
//! [`Relay::response_polled`]: crate::relay::Relay::response_polled
//! [`Relay::receive_request`]: crate::relay::Relay::receive_request
//! [`Relay::sample_received`]: crate::relay::Relay::sample_received
use crate::header::{RequestContext, RequestKey};
use crate::pending::Awaited;
use crate::relay::{ResponseAction, StaticConfig};
use crate::wire::{MessageSizes, RequestFrame, ResponseFrame};
use iceoryx2::service::header::request_response::{RequestHeader, ResponseHeader};
use vstd::prelude::*;
use zenoh::bytes::ZBytes;

verus! {

/// A request arrives as it was sent. What is published for a request whose user header has the
/// size of the service and whose payload is a whole number of elements is accepted by a relay of
/// the same service, which makes of it the header, the user header, the payload and the number of
/// elements that the request had. The message holds every byte of the elements.
pub proof fn request_arrives_as_sent(
    sizes: MessageSizes,
    context: RequestContext,
    user_header: Seq<u8>,
    payload: Seq<u8>,
    number_of_elements: nat,
    message: ZBytes,
    frame: RequestFrame,
)
    requires
        context.header@.len() == vstd::layout::size_of::<RequestHeader>(),
        user_header.len() == sizes.user_header,
        sizes.payload > 0,
        payload.len() == number_of_elements * sizes.payload,
        crate::zbytes::zbytes_content(message) == crate::wire::request_message(
            context.header@,
            user_header,
            payload,
        ),
    ensures
        crate::zbytes::zbytes_content(message).len() == vstd::layout::size_of::<RequestHeader>()
            + sizes.user_header + number_of_elements * sizes.payload,
        crate::wire::request_rejection(
            crate::zbytes::zbytes_content(message).len(),
            vstd::layout::size_of::<RequestHeader>(),
            sizes,
        ) is None,
        frame.carried_by(
            crate::zbytes::zbytes_content(message),
            vstd::layout::size_of::<RequestHeader>(),
            sizes,
        ) ==> {
            &&& frame.header@ == context.header@
            &&& frame.user_header@ == user_header
            &&& frame.payload@ == payload
            &&& frame.number_of_elements == number_of_elements
        },
{
    crate::wire::request_reads_back(
        context.header@,
        user_header,
        payload,
        sizes,
        number_of_elements,
        frame,
    );
}

/// A response arrives as it was sent, and finds its request. `local` is what was pending where the
/// request was sent from, and `key_of` reads the key out of a request header. What is published
/// for a response to the request is long enough for a relay of the same service, which makes of it
/// the header of the request. The request is found under the key in that header, and the response
/// is delivered to it with the user header, the payload and the number of elements that it had. The
/// message holds the response header as well, right behind the header of the request.
pub proof fn response_arrives_at_its_request<Req>(
    sizes: MessageSizes,
    local: Map<RequestKey, Req>,
    context: RequestContext,
    request: Req,
    key_of: spec_fn(Seq<u8>) -> RequestKey,
    response_header: Seq<u8>,
    user_header: Seq<u8>,
    payload: Seq<u8>,
    number_of_elements: nat,
    message: ZBytes,
    frame: ResponseFrame,
)
    requires
        context.header@.len() == vstd::layout::size_of::<RequestHeader>(),
        key_of(context.header@) == context.key(),
        response_header.len() == vstd::layout::size_of::<ResponseHeader>(),
        user_header.len() == sizes.user_header,
        sizes.payload > 0,
        payload.len() == number_of_elements * sizes.payload,
        crate::zbytes::zbytes_content(message) == crate::wire::response_message(
            context.header@,
            response_header,
            user_header,
            payload,
        ),
    ensures
        crate::zbytes::zbytes_content(message).len() == vstd::layout::size_of::<RequestHeader>()
            + vstd::layout::size_of::<ResponseHeader>() + sizes.user_header + number_of_elements
            * sizes.payload,
        frame.carried_by(
            crate::zbytes::zbytes_content(message),
            vstd::layout::size_of::<RequestHeader>(),
            vstd::layout::size_of::<ResponseHeader>(),
            sizes,
        ) ==> {
            let key = key_of(frame.request_header@);
            let pending = local.insert(context.key(), request);
            &&& frame.request_header@ == context.header@
            &&& key == (context.client_id, context.request_id)
            &&& crate::relay::can_be_delivered(pending, key, sizes.payload)
            &&& pending[key] == request
            &&& frame.user_header@ == user_header
            &&& crate::relay::whole_elements(frame.payload@, sizes.payload) == number_of_elements
            &&& crate::relay::up_to_whole_element(frame.payload@, sizes.payload) == payload
        },
        crate::zbytes::zbytes_content(message).subrange(
            vstd::layout::size_of::<RequestHeader>() as int,
            vstd::layout::size_of::<RequestHeader>() + vstd::layout::size_of::<
                ResponseHeader,
            >() as int,
        ) == response_header,
{
    crate::wire::response_reads_back(
        context.header@,
        response_header,
        user_header,
        payload,
        sizes,
        frame,
    );
    vstd::arithmetic::div_mod::lemma_div_by_multiple(
        number_of_elements as int,
        sizes.payload as int,
    );
    assert(payload.take(payload.len() as int) =~= payload);
}

/// A request that is sent from one host is answered from another. The request of `context`, kept
/// as `request` and published as `request_message`, arrives there as `request_frame`. The response
/// to it is awaited with `remote_context`, which holds the header that arrived, and is published as
/// `response_message`. That message comes back as `response_frame`, whose key leads to `request`,
/// and brings the user header and the elements of the response.
pub proof fn request_is_answered<Req>(
    config: StaticConfig,
    local: Map<RequestKey, Req>,
    context: RequestContext,
    request: Req,
    key_of: spec_fn(Seq<u8>) -> RequestKey,
    request_user_header: Seq<u8>,
    request_payload: Seq<u8>,
    request_elements: nat,
    request_message: ZBytes,
    request_frame: RequestFrame,
    remote_context: RequestContext,
    response_header: Seq<u8>,
    response_user_header: Seq<u8>,
    response_payload: Seq<u8>,
    response_elements: nat,
    response_message: ZBytes,
    response_frame: ResponseFrame,
)
    requires
        context.header@.len() == vstd::layout::size_of::<RequestHeader>(),
        key_of(context.header@) == context.key(),
        request_user_header.len() == config.request.user_header,
        config.request.payload > 0,
        request_payload.len() == request_elements * config.request.payload,
        crate::zbytes::zbytes_content(request_message) == crate::wire::request_message(
            context.header@,
            request_user_header,
            request_payload,
        ),
        request_frame.carried_by(
            crate::zbytes::zbytes_content(request_message),
            vstd::layout::size_of::<RequestHeader>(),
            config.request,
        ),
        remote_context.header@ == request_frame.header@,
        response_header.len() == vstd::layout::size_of::<ResponseHeader>(),
        response_user_header.len() == config.response.user_header,
        config.response.payload > 0,
        response_payload.len() == response_elements * config.response.payload,
        crate::zbytes::zbytes_content(response_message) == crate::wire::response_message(
            remote_context.header@,
            response_header,
            response_user_header,
            response_payload,
        ),
        response_frame.carried_by(
            crate::zbytes::zbytes_content(response_message),
            vstd::layout::size_of::<RequestHeader>(),
            vstd::layout::size_of::<ResponseHeader>(),
            config.response,
        ),
    ensures
        crate::wire::request_rejection(
            crate::zbytes::zbytes_content(request_message).len(),
            vstd::layout::size_of::<RequestHeader>(),
            config.request,
        ) is None,
        request_frame.user_header@ == request_user_header,
        request_frame.payload@ == request_payload,
        request_frame.number_of_elements == request_elements,
        ({
            let key = key_of(response_frame.request_header@);
            let pending = local.insert(context.key(), request);
            let element_size = config.response.payload;
            &&& crate::relay::can_be_delivered(pending, key, element_size)
            &&& pending[key] == request
            &&& response_frame.user_header@ == response_user_header
            &&& crate::relay::whole_elements(response_frame.payload@, element_size)
                == response_elements
            &&& crate::relay::up_to_whole_element(response_frame.payload@, element_size)
                == response_payload
        }),
{
    request_arrives_as_sent(
        config.request,
        context,
        request_user_header,
        request_payload,
        request_elements,
        request_message,
        request_frame,
    );
    response_arrives_at_its_request(
        config.response,
        local,
        context,
        request,
        key_of,
        response_header,
        response_user_header,
        response_payload,
        response_elements,
        response_message,
        response_frame,
    );
}

/// A request is answered once. Once a response has been matched with it, no further response is
/// delivered for its key unless a request is sent under it again, and the requests under other
/// keys are pending as before.
pub proof fn request_is_answered_once<Req>(
    local: Map<RequestKey, Req>,
    key: RequestKey,
    other: RequestKey,
    request: Req,
    element_size: usize,
)
    ensures
        !crate::relay::can_be_delivered(local.remove(key), key, element_size),
        local.insert(key, request).remove(key) == local.remove(key),
        other != key ==> {
            &&& local.remove(key).contains_key(other) == local.contains_key(other)
            &&& local.insert(key, request).contains_key(other) == local.contains_key(other)
            &&& local.contains_key(other) ==> {
                &&& local.remove(key)[other] == local[other]
                &&& local.insert(key, request)[other] == local[other]
            }
        },
{
    assert(local.insert(key, request).remove(key) =~= local.remove(key));
}

/// The requests of different clients do not get in each other's way, nor do the requests that one
/// client gave different numbers. Sending the request of `context`, or answering it, leaves the
/// request of `other` as it was: pending, and as the same request, or not pending. Where both are
/// sent, one after the other, both are pending.
pub proof fn requests_do_not_get_in_each_others_way<Req>(
    local: Map<RequestKey, Req>,
    context: RequestContext,
    request: Req,
    other: RequestContext,
    other_request: Req,
)
    requires
        context.client_id != other.client_id || context.request_id != other.request_id,
    ensures
        ({
            let sent = local.insert(context.key(), request);
            let answered = local.remove(context.key());
            &&& sent.contains_key(other.key()) == local.contains_key(other.key())
            &&& answered.contains_key(other.key()) == local.contains_key(other.key())
            &&& local.contains_key(other.key()) ==> {
                &&& sent[other.key()] == local[other.key()]
                &&& answered[other.key()] == local[other.key()]
            }
        }),
        ({
            let both = local.insert(context.key(), request).insert(other.key(), other_request);
            &&& both.contains_key(context.key())
            &&& both[context.key()] == request
            &&& both.contains_key(other.key())
            &&& both[other.key()] == other_request
        }),
{
    crate::header::key_identifies_the_request(context, other);
}

/// The awaited responses of the local servers come first. As long as a sweep has an entry left,
/// that entry is next; only when every entry was visited is a sample of the remote side taken, and
/// then the entries that were over are gone and the others are awaited further, in their order.
pub proof fn local_responses_come_first<Req, Pend>(awaited: Awaited<Pend>, over: Seq<bool>)
    requires
        awaited.at_rest(),
        awaited.well_formed(),
        over.len() == awaited.entries.len(),
    ensures
        forall|n: int|
            0 <= n < over.len() ==> {
                let midway = #[trigger] crate::pending::sweep(awaited, over.take(n));
                &&& crate::relay::resumed_action::<Req, Pend>(midway) == ResponseAction::<
                    Req,
                >::CheckConnection
                &&& crate::relay::resumed(midway) == midway
                &&& midway.current() == awaited.entries[n]
            },
        ({
            let end = crate::pending::sweep(awaited, over);
            &&& crate::relay::resumed_action::<Req, Pend>(end) == ResponseAction::<
                Req,
            >::ReceiveSample
            &&& crate::relay::resumed(end).at_rest()
            &&& crate::relay::resumed(end).entries == crate::pending::still_awaited(
                awaited.entries,
                over,
            )
        }),
{
    crate::pending::sweep_gives_up_what_is_over(awaited, over);
}

/// What each entry of a sweep was found to be, given whether it was connected and what it gave
/// when it was polled after that.
pub open spec fn found_over<T, E>(polls: Seq<(bool, Result<Option<T>, E>)>) -> Seq<bool> {
    polls.map_values(|poll: (bool, Result<Option<T>, E>)| crate::relay::is_over(poll.0, poll.1))
}

/// A response that is submitted is polled by every sweep, with the context that it was submitted
/// with, and leaves only after a poll that failed, or that gave nothing while the response was not
/// connected. What a server sent before it went away is not lost.
///
/// `awaited` is what was awaited before, and `polls` what the first sweep finds: for each entry
/// whether it was connected, and what it gave when it was polled.
pub proof fn submitted_response_is_awaited_until_over<Pend, T, E>(
    awaited: Awaited<Pend>,
    response: Pend,
    context: RequestContext,
    polls: Seq<(bool, Result<Option<T>, E>)>,
)
    requires
        awaited.at_rest(),
        awaited.well_formed(),
        awaited.entries.len() < usize::MAX,
        polls.len() == awaited.entries.len() + 1,
    ensures
        ({
            let submitted = awaited.push(response, context);
            let visit = crate::pending::sweep(submitted, found_over(polls.drop_last()));
            let end = crate::relay::resumed(crate::pending::sweep(submitted, found_over(polls)));
            let others = crate::pending::still_awaited(
                awaited.entries,
                found_over(polls.drop_last()),
            );
            let (connected, polled) = polls.last();
            &&& visit.unvisited()
            &&& visit.current() == (response, context)
            &&& end.at_rest()
            &&& end.entries == if polled is Err || (polled matches Ok(None) && !connected) {
                others
            } else {
                others.push((response, context))
            }
        }),
{
    let submitted = awaited.push(response, context);
    let over = found_over(polls);
    crate::pending::sweep_gives_up_what_is_over(submitted, over);
    assert(over.take(over.len() - 1) =~= found_over(polls.drop_last()));
    assert(over.drop_last() =~= found_over(polls.drop_last()));
    assert(submitted.entries.drop_last() =~= awaited.entries);
    assert(crate::pending::sweep(submitted, over.take(over.len() - 1)).unvisited());
}

} // verus!
