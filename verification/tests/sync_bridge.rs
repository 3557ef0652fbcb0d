//! The synchronous request/response path against a simulated boundary.

use ios_notifications::bridge::{
    encode_request, interpret_reply, schedule_identifier, RequestError, SCRATCH_CAPACITY,
};
use ios_notifications::decode::decode_request;
use ios_notifications::encode::encode_response_bytes;
use ios_notifications::messages::{Request, Response};
use ios_notifications::resource::{schedule_request, IosNotificationRequest};

/// A native side that accepts any request and answers a schedule call
/// with a fixed identifier.
fn accepting_boundary(request_bytes: &[u8]) -> (bool, Vec<u8>) {
    let decoded = decode_request(request_bytes).expect("boundary got malformed bytes");
    match decoded {
        Request::Schedule(_) => (
            true,
            encode_response_bytes(&Response::Schedule {
                identifier: String::from("native-id-7"),
            }),
        ),
        _ => (true, Vec::new()),
    }
}

/// A native side that rejects every request.
fn rejecting_boundary(_request_bytes: &[u8]) -> (bool, Vec<u8>) {
    (false, Vec::new())
}

fn call<F: Fn(&[u8]) -> (bool, Vec<u8>)>(
    boundary: F,
    request: &Request,
) -> Result<Response, RequestError> {
    let buffer = encode_request(request, SCRATCH_CAPACITY)?;
    let (ok, reply) = boundary(&buffer);
    interpret_reply(ok, &reply)
}

#[test]
fn schedule_call_returns_boundary_identifier() {
    let request = schedule_request(IosNotificationRequest::new(String::from("dinner")));
    let response = call(accepting_boundary, &request);
    assert_eq!(
        response,
        Ok(Response::Schedule { identifier: String::from("native-id-7") })
    );
    match response.unwrap() {
        resp @ Response::Schedule { .. } => {
            assert_eq!(schedule_identifier(resp), Some(String::from("native-id-7")));
        }
        Response::Empty => panic!("expected a schedule response"),
    }
}

#[test]
fn rejected_call_is_a_typed_error_not_a_default() {
    let request = schedule_request(IosNotificationRequest::new(String::from("dinner")));
    let response = call(rejecting_boundary, &request);
    assert_eq!(response, Err(RequestError::NativeRejected));
}

#[test]
fn non_schedule_call_gets_empty_response() {
    let response = call(accepting_boundary, &Request::Pending);
    assert_eq!(response, Ok(Response::Empty));
    assert_eq!(schedule_identifier(Response::Empty), None);
}

#[test]
fn malformed_reply_is_a_decode_error() {
    assert_eq!(interpret_reply(true, &[0xFF, 0x00]), Err(RequestError::Decode));
}

#[test]
fn oversized_request_is_buffer_too_small() {
    let mut big = String::new();
    while big.len() <= SCRATCH_CAPACITY {
        big.push('x');
    }
    let request = schedule_request(IosNotificationRequest::new(big));
    assert_eq!(
        encode_request(&request, SCRATCH_CAPACITY),
        Err(RequestError::BufferTooSmall)
    );
}

#[test]
fn fitting_request_is_encoded_exactly() {
    let request = Request::Pending;
    let buffer = encode_request(&request, SCRATCH_CAPACITY).unwrap();
    assert!(buffer.len() <= SCRATCH_CAPACITY);
    assert_eq!(decode_request(&buffer), Some(Request::Pending));
}
