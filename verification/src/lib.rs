//! A verified bridge between a host application's event loop and an
//! operating-system notification subsystem reached over a foreign-function
//! boundary.
//!
//! The crate provides:
//! - a binary codec for the wire messages crossing the boundary, with a
//!   proved encode/decode round-trip;
//! - the synchronous request/response protocol (encode into a bounded
//!   scratch buffer, interpret the boundary's reply as a typed result);
//! - the asynchronous callback pipeline (decode a native-origin event, map
//!   it to a host-level event, forward it through the event sink);
//! - the event sink itself, a single-assignment slot in front of an ordered
//!   queue that the host drains on its own schedule.
//!
//! The foreign calls themselves (and the host engine's plugin machinery)
//! cannot be verified and live outside this crate; everything here is plain
//! logic on values and is checked by Verus.

pub mod bridge;
pub mod channel;
pub mod codec;
pub mod decode;
pub mod encode;
pub mod laws;
pub mod messages;
pub mod plugin;
pub mod resource;

pub use bridge::{CallbackOutcome, DecodeError, RequestError, SCRATCH_CAPACITY};
pub use channel::EventSink;
pub use messages::{AsyncEvent, RemoteRegistration, Request, Response};
pub use plugin::{
    IosNotificationEvents, IosNotificationPermissions, IosNotificationResponse,
    IosNotificationsPlugin, IosRemoteNotificationRegistration,
};
pub use resource::{IosNotificationRequest, IosNotificationTrigger};
