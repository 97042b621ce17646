//! The fixed-size headers that lead every message, and the context that pairs a response with
//! the request it answers.
use iceoryx2::service::header::request_response::{RequestHeader, ResponseHeader};
use vstd::prelude::*;

verus! {

/// The header that iceoryx2 puts in front of a request.
#[verifier::external_type_specification]
#[verifier::external_body]
pub struct ExRequestHeader(iceoryx2::service::header::request_response::RequestHeader);

/// The header that iceoryx2 puts in front of a response.
#[verifier::external_type_specification]
#[verifier::external_body]
pub struct ExResponseHeader(iceoryx2::service::header::request_response::ResponseHeader);

/// The number of bytes that the header of a request takes.
pub fn request_header_size() -> (size: usize)
    ensures
        size == vstd::layout::size_of::<RequestHeader>(),
{
    core::mem::size_of::<RequestHeader>()
}

/// The number of bytes that the header of a response takes.
pub fn response_header_size() -> (size: usize)
    ensures
        size == vstd::layout::size_of::<ResponseHeader>(),
{
    core::mem::size_of::<ResponseHeader>()
}

/// What identifies a request: the value of the unique id of the client that sent it, and the
/// number that the client gave it.
pub type RequestKey = (u128, u64);

/// Context for pairing requests and responses: the header of a request, as the bytes that travel
/// and as the two values in it by which the request is found again.
#[derive(Debug)]
pub struct RequestContext {
    pub client_id: u128,
    pub request_id: u64,
    pub header: Vec<u8>,
}

impl RequestContext {
    /// The key under which the request with this header is kept.
    pub open spec fn spec_key(&self) -> RequestKey {
        (self.client_id, self.request_id)
    }

    /// The key under which the request with this header is kept.
    #[verifier::when_used_as_spec(spec_key)]
    pub fn key(&self) -> (key: RequestKey)
        ensures
            key == self.spec_key(),
            key.0 == self.client_id,
            key.1 == self.request_id,
    {
        (self.client_id, self.request_id)
    }
}

/// Two requests share a key exactly if the same client sent them under the same number. What else
/// their headers hold makes no difference.
pub proof fn key_identifies_the_request(a: RequestContext, b: RequestContext)
    ensures
        a.key() == b.key() <==> a.client_id == b.client_id && a.request_id == b.request_id,
        a.key().0 == a.client_id,
        a.key().1 == a.request_id,
{
}

} // verus!
