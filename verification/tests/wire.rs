use request_response_tunnel::wire::{
    decode_request, decode_response, encode_request, encode_response, payload_len_bytes,
    MessageSizes, RequestRejection,
};

const SIZES: MessageSizes = MessageSizes { user_header: 2, payload: 4 };

#[test]
fn payload_takes_the_bytes_of_all_elements() {
    assert_eq!(payload_len_bytes(1, 8), 8);
    assert_eq!(payload_len_bytes(2, 8), 16);
    assert_eq!(payload_len_bytes(3, 40), 120);
    assert_eq!(payload_len_bytes(0, 8), 0);
    assert_eq!(payload_len_bytes(5, 0), 0);
    assert_eq!(payload_len_bytes(usize::MAX, 1), usize::MAX);
}

#[test]
fn request_message_is_header_then_user_header_then_payload() {
    assert_eq!(encode_request(&[1, 2, 3], &[4, 5], &[6]), vec![1, 2, 3, 4, 5, 6]);
    assert_eq!(encode_request(&[], &[], &[]), Vec::<u8>::new());
}

#[test]
fn response_message_starts_with_the_request_header() {
    assert_eq!(
        encode_response(&[1, 2], &[3], &[4, 5], &[6, 7, 8]),
        vec![1, 2, 3, 4, 5, 6, 7, 8]
    );
}

#[test]
fn request_is_read_back() {
    let message = encode_request(&[1, 2, 3], &[4, 5], &[6, 7, 8, 9, 10, 11, 12, 13]);
    let frame = decode_request(&message, 3, SIZES).unwrap();
    assert_eq!(frame.header, vec![1, 2, 3]);
    assert_eq!(frame.user_header, vec![4, 5]);
    assert_eq!(frame.payload, vec![6, 7, 8, 9, 10, 11, 12, 13]);
    assert_eq!(frame.number_of_elements, 2);
}

#[test]
fn request_without_payload_has_no_elements() {
    let frame = decode_request(&[1, 2, 3, 4, 5], 3, SIZES).unwrap();
    assert_eq!(frame.payload, Vec::<u8>::new());
    assert_eq!(frame.number_of_elements, 0);
}

#[test]
fn request_that_ends_within_the_headers_is_too_small() {
    assert_eq!(decode_request(&[1, 2, 3, 4], 3, SIZES).unwrap_err(), RequestRejection::TooSmall);
    assert_eq!(decode_request(&[], 3, SIZES).unwrap_err(), RequestRejection::TooSmall);
}

#[test]
fn too_small_is_told_before_the_element_size() {
    let sizes = MessageSizes { user_header: 2, payload: 0 };
    assert_eq!(decode_request(&[1, 2, 3, 4], 3, sizes).unwrap_err(), RequestRejection::TooSmall);
}

#[test]
fn header_sizes_beyond_the_address_space_are_too_large_for_any_request() {
    let sizes = MessageSizes { user_header: usize::MAX, payload: 1 };
    assert_eq!(
        decode_request(&[1, 2], usize::MAX, sizes).unwrap_err(),
        RequestRejection::TooSmall
    );
    assert_eq!(decode_request(&[1, 2], 1, sizes).unwrap_err(), RequestRejection::TooSmall);
}

#[test]
fn request_without_element_size_is_rejected() {
    let sizes = MessageSizes { user_header: 2, payload: 0 };
    assert_eq!(
        decode_request(&[1, 2, 3, 4, 5], 3, sizes).unwrap_err(),
        RequestRejection::ZeroElementSize
    );
}

#[test]
fn request_with_partial_element_is_rejected() {
    assert_eq!(
        decode_request(&[1, 2, 3, 4, 5, 6, 7, 8, 9, 10], 3, SIZES).unwrap_err(),
        RequestRejection::PartialElement { data_len: 5, element_size: 4 }
    );
}

#[test]
fn response_is_read_back() {
    let message = encode_response(&[1, 2, 3], &[4, 5], &[6, 7], &[8, 9, 10]);
    let frame = decode_response(&message, 3, 2, SIZES).unwrap();
    assert_eq!(frame.request_header, vec![1, 2, 3]);
    assert_eq!(frame.user_header, vec![6, 7]);
    assert_eq!(frame.payload, vec![8, 9, 10]);
}

#[test]
fn response_that_ends_within_the_headers_is_none() {
    assert!(decode_response(&[0; 6], 3, 2, SIZES).is_none());
    assert!(decode_response(&[0; 4], 3, 2, SIZES).is_none());
    assert!(decode_response(&[0; 2], 3, 2, SIZES).is_none());
    assert!(decode_response(&[0; 7], 3, 2, SIZES).is_some());
    assert!(decode_response(&[0; 7], usize::MAX, usize::MAX, SIZES).is_none());
}
