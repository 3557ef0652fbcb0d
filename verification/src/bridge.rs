//! The two paths across the foreign-function boundary.
//!
//! Synchronous path: [`encode_request`] marshals a request into a buffer
//! bounded by the scratch capacity handed to the native side, surfacing
//! `BufferTooSmall` instead of truncating; the surrounding application
//! passes the buffer across the boundary and hands the boundary's boolean
//! result and reply bytes to [`interpret_reply`], which turns them into a
//! typed `Response` or a typed error — a rejected call is `NativeRejected`,
//! never a silently substituted default.
//!
//! Asynchronous path: the native layer invokes a registered callback with
//! a byte buffer it owns only for the duration of the call.  The
//! application copies those bytes and hands them, with the process's
//! [`EventSink`], to [`handle_native_callback`]: decode as an
//! [`AsyncEvent`] (a malformed buffer is reported and dropped, never a
//! crash), map to a host event, and forward through the sink.  The
//! returned [`CallbackOutcome`] says exactly which of those steps ended
//! the invocation.

use vstd::prelude::*;

verus! {

use crate::channel::EventSink;
use crate::decode::{parse_async_event, parse_response, decode_async_event, decode_response};
use crate::encode::{request_bytes, encode_request_bytes};
use crate::messages::{AsyncEvent, AsyncEventV, RemoteRegistration, RemoteRegistrationV, Request, Response};
use crate::plugin::{
    IosNotificationEvents, IosNotificationEventsV, IosNotificationResponse,
    IosNotificationResponseV, IosRemoteNotificationRegistration,
    IosRemoteNotificationRegistrationV,
};

/// The reply bytes could not be read as a message of the wire schema.
#[derive(Clone, Copy, Debug, PartialEq, Eq, Structural)]
pub struct DecodeError;

/// Why a synchronous call failed.
#[derive(Clone, Copy, Debug, PartialEq, Eq, Structural)]
pub enum RequestError {
    /// The encoded request does not fit the scratch buffer the native
    /// side is given; nothing was transmitted.
    BufferTooSmall,
    /// The boundary's call primitive reported failure.
    NativeRejected,
    /// The boundary reported success but its reply bytes are malformed.
    Decode,
}

/// The capacity of the scratch buffer handed to the native side by
/// default.
pub const SCRATCH_CAPACITY: usize = 1024;

/// Encodes `r` for transmission through a scratch buffer of `capacity`
/// bytes.  The encoding is exact and never truncated: a request that does
/// not fit is refused as `BufferTooSmall`.
pub fn encode_request(r: &Request, capacity: usize) -> (result: Result<Vec<u8>, RequestError>)
    ensures
        match result {
            Ok(buf) => buf@ == request_bytes(r@) && buf@.len() <= capacity,
            Err(e) => e == RequestError::BufferTooSmall && request_bytes(r@).len() > capacity,
        },
{
    let buf = encode_request_bytes(r);
    if buf.len() > capacity {
        Err(RequestError::BufferTooSmall)
    } else {
        Ok(buf)
    }
}

/// Interprets what came back across the boundary: `native_ok` is the call
/// primitive's own result, `reply` the bytes it left in the scratch
/// buffer.  A rejected call is a typed `NativeRejected` error; a reply
/// that does not parse is a typed `Decode` error; otherwise the decoded
/// response is returned.
pub fn interpret_reply(native_ok: bool, reply: &[u8]) -> (result: Result<Response, RequestError>)
    ensures
        !native_ok ==> result == Err::<Response, RequestError>(RequestError::NativeRejected),
        native_ok ==> match result {
            Ok(resp) => parse_response(reply@) == Some(resp@),
            Err(e) => e == RequestError::Decode && parse_response(reply@) is None,
        },
{
    if !native_ok {
        return Err(RequestError::NativeRejected);
    }
    match decode_response(reply) {
        Some(resp) => Ok(resp),
        None => Err(RequestError::Decode),
    }
}

/// The identifier of a schedule response, if the response carries one.
pub fn schedule_identifier(resp: Response) -> (r: Option<String>)
    ensures
        match resp@ {
            crate::messages::ResponseV::Schedule { identifier } => r matches Some(s) && s@
                == identifier,
            crate::messages::ResponseV::Empty => r is None,
        },
{
    match resp {
        Response::Schedule { identifier } => Some(identifier),
        Response::Empty => None,
    }
}

/// Decodes the bytes handed to the asynchronous callback.  Malformed
/// bytes are a typed error, never a crash.
pub fn decode_event(bytes: &[u8]) -> (r: Result<AsyncEvent, DecodeError>)
    ensures
        match r {
            Ok(e) => parse_async_event(bytes@) == Some(e@),
            Err(_) => parse_async_event(bytes@) is None,
        },
{
    match decode_async_event(bytes) {
        Some(e) => Ok(e),
        None => Err(DecodeError),
    }
}

// ---------------------------------------------------------------------------
// event taxonomy
// ---------------------------------------------------------------------------

/// What [`convert`] yields: the host's form of a remote registration
/// outcome, or nothing for a registration message carrying no result.
pub open spec fn convert_view(
    v: RemoteRegistrationV,
) -> Option<IosRemoteNotificationRegistrationV> {
    match v {
        RemoteRegistrationV::Unset => None,
        RemoteRegistrationV::Failed { code, localized_description } => Some(
            IosRemoteNotificationRegistrationV::Failed { code, localized_description },
        ),
        RemoteRegistrationV::DeviceToken(token) => Some(
            IosRemoteNotificationRegistrationV::DeviceToken(token),
        ),
    }
}

/// Turns a wire registration outcome into the host's form; a message
/// carrying no result maps to nothing.
pub fn convert(v: RemoteRegistration) -> (r: Option<IosRemoteNotificationRegistration>)
    ensures
        match r {
            Some(h) => convert_view(v@) == Some(h@),
            None => convert_view(v@) is None,
        },
{
    match v {
        RemoteRegistration::Unset => None,
        RemoteRegistration::Failed { code, localized_description } => Some(
            IosRemoteNotificationRegistration::Failed { code, localized_description },
        ),
        RemoteRegistration::DeviceToken(token) => Some(
            IosRemoteNotificationRegistration::DeviceToken(token),
        ),
    }
}

/// What [`map_async_event`] yields: the host event for each wire event.
/// Every variant is mapped; only a remote registration without a result
/// maps to nothing.
pub open spec fn map_event_view(e: AsyncEventV) -> Option<IosNotificationEventsV> {
    match e {
        AsyncEventV::Permission { granted } => Some(
            IosNotificationEventsV::PermissionResponse(granted),
        ),
        AsyncEventV::Scheduled { identifier, success } => Some(
            if success {
                IosNotificationEventsV::NotificationSchedulingSucceeded(identifier)
            } else {
                IosNotificationEventsV::NotificationSchedulingFailed(identifier)
            },
        ),
        AsyncEventV::Pending { items } => Some(
            IosNotificationEventsV::PendingNotifications(items),
        ),
        AsyncEventV::TriggeredWhileRunning { identifier } => Some(
            IosNotificationEventsV::NotificationTriggered(identifier),
        ),
        AsyncEventV::NotificationResponse { identifier, action_identifier } => Some(
            IosNotificationEventsV::NotificationResponse(
                IosNotificationResponseV { identifier, action: action_identifier },
            ),
        ),
        AsyncEventV::RemoteRegistration(r) => match convert_view(r) {
            None => None,
            Some(h) => Some(IosNotificationEventsV::RemoteNotificationRegistration(h)),
        },
    }
}

/// Maps a decoded wire event to the host event the sink forwards, as
/// `map_event_view` describes.
pub fn map_async_event(e: AsyncEvent) -> (r: Option<IosNotificationEvents>)
    ensures
        match r {
            Some(h) => map_event_view(e@) == Some(h@),
            None => map_event_view(e@) is None,
        },
{
    match e {
        AsyncEvent::Permission { granted } => Some(
            IosNotificationEvents::PermissionResponse(granted),
        ),
        AsyncEvent::Scheduled { identifier, success } => Some(
            if success {
                IosNotificationEvents::NotificationSchedulingSucceeded(identifier)
            } else {
                IosNotificationEvents::NotificationSchedulingFailed(identifier)
            },
        ),
        AsyncEvent::Pending { items } => {
            let ghost item_views = items@.map_values(|n: crate::messages::NotificationId| n@);
            let mut ids: Vec<String> = Vec::new();
            let mut i: usize = 0;
            while i < items.len()
                invariant
                    i <= items@.len(),
                    item_views == items@.map_values(|n: crate::messages::NotificationId| n@),
                    ids@.map_values(|s: String| s@) =~= item_views.take(i as int),
                decreases items@.len() - i,
            {
                let id: String = items[i].identifier.clone();
                proof {
                    assert(items@[i as int]@ == item_views[i as int]);
                    assert(id@ == item_views[i as int]);
                }
                let ghost prev = ids@;
                ids.push(id);
                proof {
                    assert(ids@ == prev.push(id));
                    assert(prev.map_values(|s: String| s@) == item_views.take(i as int));
                    assert(item_views.len() == items@.len());
                    assert(item_views.take(i as int).len() == i);
                    assert(prev.map_values(|s: String| s@).len() == prev.len());
                    assert(prev.len() == i);
                    assert(ids@.map_values(|s: String| s@) =~= item_views.take(i as int + 1));
                }
                i = i + 1;
            }
            proof {
                assert(item_views.take(items@.len() as int) =~= item_views);
            }
            Some(IosNotificationEvents::PendingNotifications(ids))
        },
        AsyncEvent::TriggeredWhileRunning { identifier } => Some(
            IosNotificationEvents::NotificationTriggered(identifier),
        ),
        AsyncEvent::NotificationResponse { identifier, action_identifier } => Some(
            IosNotificationEvents::NotificationResponse(
                IosNotificationResponse { identifier, action: action_identifier },
            ),
        ),
        AsyncEvent::RemoteRegistration(r) => match convert(r) {
            None => None,
            Some(h) => Some(IosNotificationEvents::RemoteNotificationRegistration(h)),
        },
    }
}

// ---------------------------------------------------------------------------
// the callback
// ---------------------------------------------------------------------------

/// How one invocation of the asynchronous callback ended.
#[derive(Clone, Copy, Debug, PartialEq, Eq, Structural)]
pub enum CallbackOutcome {
    /// The event was decoded, mapped and queued for the host.
    Delivered,
    /// The buffer decoded to an event that maps to no host event; nothing
    /// to forward.
    Ignored,
    /// No sink is installed yet; the event was dropped, not queued for
    /// later.
    SinkUnavailable,
    /// The buffer does not decode; the event was dropped.
    Malformed,
}

/// One invocation of the asynchronous callback: decode `bytes`, map the
/// event, forward it through `sink`.  A malformed buffer, an event
/// without a host mapping, and a missing sink each leave the sink exactly
/// as it was — a bad event can never crash the process or disturb queued
/// events — and the outcome says which happened.  On delivery the host
/// event is appended behind the events already queued, preserving arrival
/// order.
pub fn handle_native_callback(sink: &mut EventSink, bytes: &[u8]) -> (r: CallbackOutcome)
    ensures
        final(sink).installed() == old(sink).installed(),
        match parse_async_event(bytes@) {
            None => r == CallbackOutcome::Malformed && final(sink).queued() == old(
                sink,
            ).queued(),
            Some(ev) => match map_event_view(ev) {
                None => r == CallbackOutcome::Ignored && final(sink).queued() == old(
                    sink,
                ).queued(),
                Some(hv) => if old(sink).installed() {
                    r == CallbackOutcome::Delivered && final(sink).queued_views() == old(
                        sink,
                    ).queued_views().push(hv)
                } else {
                    r == CallbackOutcome::SinkUnavailable && final(sink).queued() == old(
                        sink,
                    ).queued()
                },
            },
        },
{
    let event = match decode_event(bytes) {
        Err(_) => {
            return CallbackOutcome::Malformed;
        },
        Ok(e) => e,
    };
    let host_event = match map_async_event(event) {
        None => {
            return CallbackOutcome::Ignored;
        },
        Some(h) => h,
    };
    let ghost hv = host_event@;
    if sink.send_event(host_event) {
        proof {
            assert(final(sink).queued_views() =~= old(sink).queued_views().push(hv));
        }
        CallbackOutcome::Delivered
    } else {
        CallbackOutcome::SinkUnavailable
    }
}

} // verus!
