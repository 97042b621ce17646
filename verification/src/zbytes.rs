//! The byte container that the transport sends and delivers.
//!
//! [`ZBytes`] is opaque to the verifier. What it holds has a name,
//! [`zbytes_content`], and the two conversions below are the only places
//! where a value of the type is made or read.
use vstd::prelude::*;
use zenoh::bytes::ZBytes;

verus! {

/// `zenoh::bytes::ZBytes`, the payload type of a zenoh sample.
#[verifier::external_type_specification]
#[verifier::external_body]
pub struct ExZBytes(zenoh::bytes::ZBytes);

/// The raw bytes that a [`ZBytes`] holds, in order.
pub uninterp spec fn zbytes_content(payload: ZBytes) -> Seq<u8>;

/// `<ZBytes as From<Vec<u8>>>::from`: the payload made of `message` holds exactly the bytes of
/// `message`.
#[verifier::external_body]
pub(crate) fn zbytes_from_vec(message: Vec<u8>) -> (payload: ZBytes)
    ensures
        zbytes_content(payload) == message@,
{
    ZBytes::from(message)
}

/// `ZBytes::to_bytes`: gives the bytes that `payload` holds as one contiguous run, copying
/// them together where the transport delivered them in fragments.
#[verifier::external_body]
pub(crate) fn zbytes_to_vec(payload: &ZBytes) -> (message: Vec<u8>)
    ensures
        message@ == zbytes_content(*payload),
{
    payload.to_bytes().into_owned()
}

} // verus!
