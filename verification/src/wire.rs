//! The format of the messages that travel over the transport.
//!
//! A request is its header, its user header and its payload, one after the other. A response
//! starts with the header of the request that it answers, followed by its own header, its user
//! header and its payload. No part carries a length: the headers have the sizes that the service
//! fixes, and the payload is what remains.
use vstd::prelude::*;
use vstd::slice::{slice_subrange, slice_to_vec};

verus! {

/// The sizes, in bytes, that a service fixes for the messages of one direction: that of the user
/// header, and that of one payload element.
#[derive(Debug, Clone, Copy, PartialEq, Eq, Structural)]
pub struct MessageSizes {
    pub user_header: usize,
    pub payload: usize,
}

/// A request that arrived: the parts of its message, and the number of elements that its payload
/// makes up.
#[derive(Debug)]
pub struct RequestFrame {
    pub header: Vec<u8>,
    pub user_header: Vec<u8>,
    pub payload: Vec<u8>,
    pub number_of_elements: usize,
}

/// Why a message is no request of the service.
#[derive(Debug, Clone, Copy, PartialEq, Eq, Structural)]
pub enum RequestRejection {
    /// The message ends within the headers.
    TooSmall,
    /// The size of a payload element is zero, so that elements cannot be counted.
    ZeroElementSize,
    /// The payload does not end with a whole element.
    PartialElement { data_len: usize, element_size: usize },
}

/// A response that arrived: the header of the request that it answers, its user header and its
/// payload.
#[derive(Debug)]
pub struct ResponseFrame {
    pub request_header: Vec<u8>,
    pub user_header: Vec<u8>,
    pub payload: Vec<u8>,
}

/// The message that carries a request.
pub open spec fn request_message(
    header: Seq<u8>,
    user_header: Seq<u8>,
    payload: Seq<u8>,
) -> Seq<u8> {
    header + user_header + payload
}

/// The message that carries a response to the request with the header `request_header`.
pub open spec fn response_message(
    request_header: Seq<u8>,
    response_header: Seq<u8>,
    user_header: Seq<u8>,
    payload: Seq<u8>,
) -> Seq<u8> {
    request_header + response_header + user_header + payload
}

/// Why a message of `len` bytes is no request, where it is none.
pub open spec fn request_rejection(
    len: nat,
    header_size: nat,
    sizes: MessageSizes,
) -> Option<RequestRejection> {
    let data_len = len - header_size - sizes.user_header;
    if data_len < 0 {
        Some(RequestRejection::TooSmall)
    } else if sizes.payload == 0 {
        Some(RequestRejection::ZeroElementSize)
    } else if data_len % sizes.payload as int != 0 {
        Some(
            RequestRejection::PartialElement {
                data_len: data_len as usize,
                element_size: sizes.payload,
            },
        )
    } else {
        None
    }
}

impl RequestFrame {
    /// Whether this is what `message` carries: its parts have the sizes of the service and make
    /// the message up, and its elements make the payload up.
    pub open spec fn carried_by(
        &self,
        message: Seq<u8>,
        header_size: nat,
        sizes: MessageSizes,
    ) -> bool {
        &&& message == request_message(self.header@, self.user_header@, self.payload@)
        &&& self.header@.len() == header_size
        &&& self.user_header@.len() == sizes.user_header
        &&& self.payload@.len() == self.number_of_elements * sizes.payload
    }
}

impl ResponseFrame {
    /// Whether this is what `message` carries around the header of the response.
    pub open spec fn carried_by(
        &self,
        message: Seq<u8>,
        request_header_size: nat,
        response_header_size: nat,
        sizes: MessageSizes,
    ) -> bool {
        let user_header_start = request_header_size + response_header_size;
        let payload_start = user_header_start + sizes.user_header;
        &&& payload_start <= message.len()
        &&& self.request_header@ == message.subrange(0, request_header_size as int)
        &&& self.user_header@ == message.subrange(user_header_start as int, payload_start as int)
        &&& self.payload@ == message.subrange(payload_start as int, message.len() as int)
    }
}

/// The number of bytes that the payload of a message takes: those of all its elements.
pub fn payload_len_bytes(number_of_elements: usize, element_size: usize) -> (bytes: usize)
    requires
        number_of_elements * element_size <= usize::MAX,
    ensures
        bytes == number_of_elements * element_size,
{
    number_of_elements * element_size
}

/// Appends `part` to `message`.
fn append(message: &mut Vec<u8>, part: &[u8])
    ensures
        final(message)@ == old(message)@ + part@,
{
    message.extend_from_slice(part);
    assert(message@ =~= old(message)@ + part@);
}

/// Puts the message together that carries a request.
pub fn encode_request(header: &[u8], user_header: &[u8], payload: &[u8]) -> (message: Vec<u8>)
    ensures
        message@ == request_message(header@, user_header@, payload@),
        message@ == header@ + user_header@ + payload@,
{
    let capacity: usize = header.len().saturating_add(user_header.len()).saturating_add(
        payload.len(),
    );
    let mut message: Vec<u8> = Vec::with_capacity(capacity);
    append(&mut message, header);
    append(&mut message, user_header);
    append(&mut message, payload);
    assert(message@ =~= request_message(header@, user_header@, payload@));
    message
}

/// Puts the message together that carries a response to the request with the header
/// `request_header`.
pub fn encode_response(
    request_header: &[u8],
    response_header: &[u8],
    user_header: &[u8],
    payload: &[u8],
) -> (message: Vec<u8>)
    ensures
        message@ == response_message(request_header@, response_header@, user_header@, payload@),
        message@ == request_header@ + response_header@ + user_header@ + payload@,
{
    let capacity: usize = request_header.len().saturating_add(
        response_header.len(),
    ).saturating_add(user_header.len()).saturating_add(payload.len());
    let mut message: Vec<u8> = Vec::with_capacity(capacity);
    append(&mut message, request_header);
    append(&mut message, response_header);
    append(&mut message, user_header);
    append(&mut message, payload);
    assert(message@ =~= response_message(
        request_header@,
        response_header@,
        user_header@,
        payload@,
    ));
    message
}

/// Takes the message apart that carries a request.
pub fn decode_request(message: &[u8], header_size: usize, sizes: MessageSizes) -> (decoded: Result<
    RequestFrame,
    RequestRejection,
>)
    ensures
        match decoded {
            Ok(frame) => {
                &&& request_rejection(message@.len(), header_size as nat, sizes) is None
                &&& frame.carried_by(message@, header_size as nat, sizes)
            },
            Err(rejection) => {
                request_rejection(message@.len(), header_size as nat, sizes) == Some(rejection)
            },
        },
        ({
            let data_start = header_size + sizes.user_header;
            let data_len = message@.len() - data_start;
            match decoded {
                Ok(frame) => {
                    &&& data_len >= 0
                    &&& frame.header@ == message@.subrange(0, header_size as int)
                    &&& frame.user_header@ == message@.subrange(header_size as int, data_start)
                    &&& frame.payload@ == message@.subrange(data_start, message@.len() as int)
                    &&& sizes.payload > 0
                    &&& data_len == frame.number_of_elements * sizes.payload
                },
                Err(RequestRejection::TooSmall) => data_len < 0,
                Err(RequestRejection::ZeroElementSize) => data_len >= 0 && sizes.payload == 0,
                Err(RequestRejection::PartialElement { data_len: len, element_size }) => {
                    &&& len == data_len
                    &&& element_size == sizes.payload
                    &&& sizes.payload > 0
                    &&& data_len % sizes.payload as int != 0
                },
            }
        }),
{
    let total_len: usize = message.len();
    if total_len < header_size || total_len - header_size < sizes.user_header {
        return Err(RequestRejection::TooSmall);
    }
    let data_start: usize = header_size + sizes.user_header;
    let data_len: usize = total_len - data_start;
    if sizes.payload == 0 {
        return Err(RequestRejection::ZeroElementSize);
    }
    if data_len % sizes.payload != 0 {
        return Err(RequestRejection::PartialElement { data_len, element_size: sizes.payload });
    }
    let frame = RequestFrame {
        header: slice_to_vec(slice_subrange(message, 0, header_size)),
        user_header: slice_to_vec(slice_subrange(message, header_size, data_start)),
        payload: slice_to_vec(slice_subrange(message, data_start, total_len)),
        number_of_elements: data_len / sizes.payload,
    };
    proof {
        vstd::arithmetic::div_mod::lemma_fundamental_div_mod(
            data_len as int,
            sizes.payload as int,
        );
        vstd::arithmetic::mul::lemma_mul_is_commutative(
            sizes.payload as int,
            frame.number_of_elements as int,
        );
        assert(message@ =~= request_message(frame.header@, frame.user_header@, frame.payload@));
    }
    Ok(frame)
}

/// Takes the message apart that carries a response, unless it ends within the headers.
pub fn decode_response(
    message: &[u8],
    request_header_size: usize,
    response_header_size: usize,
    sizes: MessageSizes,
) -> (decoded: Option<ResponseFrame>)
    ensures
        match decoded {
            Some(frame) => frame.carried_by(
                message@,
                request_header_size as nat,
                response_header_size as nat,
                sizes,
            ),
            None => message@.len() < request_header_size + response_header_size
                + sizes.user_header,
        },
        ({
            let user_header_start = request_header_size + response_header_size;
            let data_start = user_header_start + sizes.user_header;
            &&& decoded is Some <==> data_start <= message@.len()
            &&& decoded matches Some(frame) ==> {
                &&& frame.request_header@ == message@.subrange(0, request_header_size as int)
                &&& frame.user_header@ == message@.subrange(user_header_start, data_start)
                &&& frame.payload@ == message@.subrange(data_start, message@.len() as int)
            }
        }),
{
    let total_len: usize = message.len();
    if total_len < request_header_size || total_len - request_header_size < response_header_size {
        return None;
    }
    let user_header_start: usize = request_header_size + response_header_size;
    if total_len - user_header_start < sizes.user_header {
        return None;
    }
    let data_start: usize = user_header_start + sizes.user_header;
    Some(
        ResponseFrame {
            request_header: slice_to_vec(slice_subrange(message, 0, request_header_size)),
            user_header: slice_to_vec(slice_subrange(message, user_header_start, data_start)),
            payload: slice_to_vec(slice_subrange(message, data_start, total_len)),
        },
    )
}

/// The parts of a request stand in its message one after the other, each of them whole, and the
/// message holds nothing else.
pub proof fn request_message_holds_its_parts(
    header: Seq<u8>,
    user_header: Seq<u8>,
    payload: Seq<u8>,
)
    ensures
        ({
            let message = request_message(header, user_header, payload);
            let user_header_start = header.len() as int;
            let payload_start = user_header_start + user_header.len();
            let end = payload_start + payload.len();
            &&& message.len() == end
            &&& message.subrange(0, user_header_start) == header
            &&& message.subrange(user_header_start, payload_start) == user_header
            &&& message.subrange(payload_start, end) == payload
        }),
{
    let message = request_message(header, user_header, payload);
    let user_header_start = header.len() as int;
    let payload_start = user_header_start + user_header.len();
    assert(message.subrange(0, user_header_start) =~= header);
    assert(message.subrange(user_header_start, payload_start) =~= user_header);
    assert(message.subrange(payload_start, message.len() as int) =~= payload);
}

/// The parts of a response stand in its message one after the other, each of them whole: the
/// header of the request, the header of the response, the user header and the payload. The message
/// holds nothing else.
pub proof fn response_message_holds_its_parts(
    request_header: Seq<u8>,
    response_header: Seq<u8>,
    user_header: Seq<u8>,
    payload: Seq<u8>,
)
    ensures
        ({
            let message = response_message(request_header, response_header, user_header, payload);
            let response_header_start = request_header.len() as int;
            let user_header_start = response_header_start + response_header.len();
            let payload_start = user_header_start + user_header.len();
            let end = payload_start + payload.len();
            &&& message.len() == end
            &&& message.subrange(0, response_header_start) == request_header
            &&& message.subrange(response_header_start, user_header_start) == response_header
            &&& message.subrange(user_header_start, payload_start) == user_header
            &&& message.subrange(payload_start, end) == payload
        }),
{
    let message = response_message(request_header, response_header, user_header, payload);
    let response_header_start = request_header.len() as int;
    let user_header_start = response_header_start + response_header.len();
    let payload_start = user_header_start + user_header.len();
    assert(message.subrange(0, response_header_start) =~= request_header);
    assert(message.subrange(response_header_start, user_header_start) =~= response_header);
    assert(message.subrange(user_header_start, payload_start) =~= user_header);
    assert(message.subrange(payload_start, message.len() as int) =~= payload);
}

/// A message is a request exactly if it has room for both headers and goes on with a whole number
/// of elements of some size. Where it is none, the rejection tells the first of these that does
/// not hold.
pub proof fn request_is_whole_elements_behind_its_headers(
    len: nat,
    header_size: nat,
    sizes: MessageSizes,
)
    requires
        len <= usize::MAX,
    ensures
        ({
            let rejection = request_rejection(len, header_size, sizes);
            let data_start = header_size + sizes.user_header;
            &&& rejection is None <==> sizes.payload > 0 && exists|n: nat|
                len == data_start + #[trigger] (n * sizes.payload)
            &&& rejection == Some(RequestRejection::TooSmall) <==> len < data_start
            &&& rejection == Some(RequestRejection::ZeroElementSize) <==> data_start <= len
                && sizes.payload == 0
            &&& rejection matches Some(RequestRejection::PartialElement { data_len, element_size })
                ==> {
                &&& data_start + data_len == len
                &&& element_size == sizes.payload
            }
        }),
{
    let data_start = header_size + sizes.user_header;
    let size = sizes.payload as int;
    let data_len = len - data_start;
    if data_len >= 0 && size > 0 {
        vstd::arithmetic::div_mod::lemma_fundamental_div_mod(data_len, size);
        if data_len % size == 0 {
            let n = (data_len / size) as nat;
            vstd::arithmetic::div_mod::lemma_div_pos_is_pos(data_len, size);
            vstd::arithmetic::mul::lemma_mul_is_commutative(size, n as int);
            assert(len == data_start + n * sizes.payload);
        }
        assert forall|n: nat| len == data_start + #[trigger] (n * sizes.payload) implies data_len
            % size == 0 by {
            vstd::arithmetic::div_mod::lemma_mod_multiples_basic(n as int, size);
        }
    }
    if data_len < 0 {
        assert forall|n: nat| len != data_start + #[trigger] (n * sizes.payload) by {
            vstd::arithmetic::mul::lemma_mul_nonnegative(n as int, size);
        }
    }
}

/// A frame is what a message carries exactly if its header, its user header and its payload are
/// read off the message one after the other, at the sizes of the service and up to the end, and its
/// elements are as many as fit the payload.
pub proof fn request_frame_is_read_off_its_message(
    frame: RequestFrame,
    message: Seq<u8>,
    header_size: nat,
    sizes: MessageSizes,
)
    ensures
        ({
            let payload_start = header_size + sizes.user_header;
            frame.carried_by(message, header_size, sizes) <==> {
                &&& payload_start <= message.len()
                &&& frame.header@ == message.subrange(0, header_size as int)
                &&& frame.user_header@ == message.subrange(header_size as int, payload_start)
                &&& frame.payload@ == message.subrange(payload_start, message.len() as int)
                &&& message.len() == payload_start + frame.number_of_elements * sizes.payload
            }
        }),
{
    let payload_start = header_size + sizes.user_header;
    request_message_holds_its_parts(frame.header@, frame.user_header@, frame.payload@);
    vstd::arithmetic::mul::lemma_mul_nonnegative(
        frame.number_of_elements as int,
        sizes.payload as int,
    );
    if payload_start <= message.len() && frame.header@ == message.subrange(0, header_size as int)
        && frame.user_header@ == message.subrange(header_size as int, payload_start)
        && frame.payload@ == message.subrange(payload_start, message.len() as int) {
        assert(message =~= request_message(frame.header@, frame.user_header@, frame.payload@));
    }
}

/// A request reads back as it was written: a message made of a header, a user header and a whole
/// number of payload elements is accepted, and whatever it is taken apart into are those three
/// parts and that number.
pub proof fn request_reads_back(
    header: Seq<u8>,
    user_header: Seq<u8>,
    payload: Seq<u8>,
    sizes: MessageSizes,
    number_of_elements: nat,
    frame: RequestFrame,
)
    requires
        user_header.len() == sizes.user_header,
        sizes.payload > 0,
        payload.len() == number_of_elements * sizes.payload,
    ensures
        request_rejection(
            request_message(header, user_header, payload).len(),
            header.len(),
            sizes,
        ) is None,
        frame.carried_by(request_message(header, user_header, payload), header.len(), sizes) ==> {
            &&& frame.header@ == header
            &&& frame.user_header@ == user_header
            &&& frame.payload@ == payload
            &&& frame.number_of_elements == number_of_elements
        },
{
    let message = request_message(header, user_header, payload);
    vstd::arithmetic::div_mod::lemma_mod_multiples_basic(
        number_of_elements as int,
        sizes.payload as int,
    );
    if frame.carried_by(message, header.len(), sizes) {
        let data_start = header.len() + user_header.len();
        let again = request_message(frame.header@, frame.user_header@, frame.payload@);
        assert(again.len() == message.len());
        assert(header =~= message.subrange(0, header.len() as int));
        assert(frame.header@ =~= again.subrange(0, header.len() as int));
        assert(user_header =~= message.subrange(header.len() as int, data_start as int));
        assert(frame.user_header@ =~= again.subrange(header.len() as int, data_start as int));
        assert(payload =~= message.subrange(data_start as int, message.len() as int));
        assert(frame.payload@ =~= again.subrange(data_start as int, message.len() as int));
        vstd::arithmetic::mul::lemma_mul_is_commutative(
            number_of_elements as int,
            sizes.payload as int,
        );
        vstd::arithmetic::mul::lemma_mul_is_commutative(
            frame.number_of_elements as int,
            sizes.payload as int,
        );
        vstd::arithmetic::mul::lemma_mul_equality_converse(
            sizes.payload as int,
            frame.number_of_elements as int,
            number_of_elements as int,
        );
    }
}

/// A response reads back as it was written: a message made of the header of a request, a response
/// header, a user header and a payload is long enough, and whatever it is taken apart into are
/// that request header, that user header and that payload. The response header is found between
/// the request header and the user header.
pub proof fn response_reads_back(
    request_header: Seq<u8>,
    response_header: Seq<u8>,
    user_header: Seq<u8>,
    payload: Seq<u8>,
    sizes: MessageSizes,
    frame: ResponseFrame,
)
    requires
        user_header.len() == sizes.user_header,
    ensures
        response_message(request_header, response_header, user_header, payload).len()
            >= request_header.len() + response_header.len() + sizes.user_header,
        frame.carried_by(
            response_message(request_header, response_header, user_header, payload),
            request_header.len(),
            response_header.len(),
            sizes,
        ) ==> {
            &&& frame.request_header@ == request_header
            &&& frame.user_header@ == user_header
            &&& frame.payload@ == payload
        },
        response_message(request_header, response_header, user_header, payload).subrange(
            request_header.len() as int,
            (request_header.len() + response_header.len()) as int,
        ) == response_header,
{
    let message = response_message(request_header, response_header, user_header, payload);
    let user_header_start = request_header.len() + response_header.len();
    let payload_start = user_header_start + user_header.len();
    assert(request_header =~= message.subrange(0, request_header.len() as int));
    assert(response_header =~= message.subrange(
        request_header.len() as int,
        user_header_start as int,
    ));
    assert(user_header =~= message.subrange(user_header_start as int, payload_start as int));
    assert(payload =~= message.subrange(payload_start as int, message.len() as int));
}

} // verus!
