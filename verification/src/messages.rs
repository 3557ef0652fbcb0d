//! The wire messages crossing the foreign-function boundary, and their
//! mathematical views.
//!
//! Three top-level messages exist: `Request` (host to native, synchronous),
//! `Response` (native to host, the synchronous reply) and `AsyncEvent`
//! (native to host, delivered through the asynchronous callback).  Each is a
//! tagged union; exactly one variant is on the wire, and a buffer carrying
//! none of them is malformed.
//!
//! Floating-point fields of the wire format (a relevance score, a trigger
//! delay) are carried as the 64 bits of their IEEE 754 representation; the
//! codec moves those bits verbatim, so the crate never computes on floats.

use vstd::prelude::*;

verus! {

// ---------------------------------------------------------------------------
// permission flags
// ---------------------------------------------------------------------------

/// The permission flags of a permission request.
#[derive(Clone, Copy, Debug, PartialEq, Eq, Structural)]
pub struct Permissions {
    pub alert: bool,
    pub sound: bool,
    pub badge: bool,
}

// ---------------------------------------------------------------------------
// trigger
// ---------------------------------------------------------------------------

/// When a scheduled notification fires: after `seconds_bits` (the IEEE 754
/// bits of a non-negative number of seconds), once or repeatedly.
#[derive(Clone, Copy, Debug, PartialEq, Eq, Structural)]
pub struct Trigger {
    pub repeat: bool,
    pub seconds_bits: u64,
}

// ---------------------------------------------------------------------------
// notification identifiers
// ---------------------------------------------------------------------------

/// A notification's identifier, as carried in list-shaped messages.
#[derive(Clone, Debug, PartialEq, Eq)]
pub struct NotificationId {
    pub identifier: String,
}

impl View for NotificationId {
    type V = Seq<char>;

    open spec fn view(&self) -> Seq<char> {
        self.identifier@
    }
}

// ---------------------------------------------------------------------------
// user data
// ---------------------------------------------------------------------------

/// One key/value pair of the user data a scheduled notification carries.
#[derive(Clone, Debug, PartialEq, Eq)]
pub struct UserDataEntry {
    pub key: String,
    pub value: String,
}

/// The view of a [`UserDataEntry`].
#[verifier::ext_equal]
pub struct UserDataEntryV {
    pub key: Seq<char>,
    pub value: Seq<char>,
}

impl View for UserDataEntry {
    type V = UserDataEntryV;

    open spec fn view(&self) -> UserDataEntryV {
        UserDataEntryV { key: self.key@, value: self.value@ }
    }
}

// ---------------------------------------------------------------------------
// schedule
// ---------------------------------------------------------------------------

/// The wire form of a request to schedule a notification.
#[derive(Clone, Debug, PartialEq)]
pub struct Schedule {
    pub title: String,
    pub body: String,
    pub category_identifier: String,
    pub subtitle: String,
    /// IEEE 754 bits of the relevance score.
    pub relevance_score_bits: u64,
    pub thread_identifier: String,
    pub filter_criteria: Option<String>,
    pub user_data: Option<Vec<UserDataEntry>>,
    pub identifier: Option<String>,
    pub badge: Option<i32>,
    pub trigger: Option<Trigger>,
}

/// The view of a [`Schedule`].
#[verifier::ext_equal]
pub struct ScheduleV {
    pub title: Seq<char>,
    pub body: Seq<char>,
    pub category_identifier: Seq<char>,
    pub subtitle: Seq<char>,
    pub relevance_score_bits: u64,
    pub thread_identifier: Seq<char>,
    pub filter_criteria: Option<Seq<char>>,
    pub user_data: Option<Seq<UserDataEntryV>>,
    pub identifier: Option<Seq<char>>,
    pub badge: Option<i32>,
    pub trigger: Option<Trigger>,
}

impl View for Schedule {
    type V = ScheduleV;

    open spec fn view(&self) -> ScheduleV {
        ScheduleV {
            title: self.title@,
            body: self.body@,
            category_identifier: self.category_identifier@,
            subtitle: self.subtitle@,
            relevance_score_bits: self.relevance_score_bits,
            thread_identifier: self.thread_identifier@,
            filter_criteria: match self.filter_criteria {
                Some(s) => Some(s@),
                None => None,
            },
            user_data: match self.user_data {
                Some(entries) => Some(entries@.map_values(|e: UserDataEntry| e@)),
                None => None,
            },
            identifier: match self.identifier {
                Some(s) => Some(s@),
                None => None,
            },
            badge: self.badge,
            trigger: self.trigger,
        }
    }
}

// ---------------------------------------------------------------------------
// requests
// ---------------------------------------------------------------------------

/// A synchronous request to the native side.  Exactly one variant crosses
/// the wire per call.
#[derive(Clone, Debug, PartialEq)]
pub enum Request {
    Permissions(Permissions),
    Schedule(Schedule),
    Pending,
    RemovePending(Vec<NotificationId>),
    RemoveDelivered(Vec<NotificationId>),
    RemoveAllPending,
    RemoveAllDelivered,
}

/// The view of a [`Request`].
#[verifier::ext_equal]
pub enum RequestV {
    Permissions { alert: bool, sound: bool, badge: bool },
    Schedule(ScheduleV),
    Pending,
    RemovePending(Seq<Seq<char>>),
    RemoveDelivered(Seq<Seq<char>>),
    RemoveAllPending,
    RemoveAllDelivered,
}

impl View for Request {
    type V = RequestV;

    open spec fn view(&self) -> RequestV {
        match self {
            Request::Permissions(p) => RequestV::Permissions {
                alert: p.alert,
                sound: p.sound,
                badge: p.badge,
            },
            Request::Schedule(s) => RequestV::Schedule(s@),
            Request::Pending => RequestV::Pending,
            Request::RemovePending(ids) => RequestV::RemovePending(
                ids@.map_values(|n: NotificationId| n@),
            ),
            Request::RemoveDelivered(ids) => RequestV::RemoveDelivered(
                ids@.map_values(|n: NotificationId| n@),
            ),
            Request::RemoveAllPending => RequestV::RemoveAllPending,
            Request::RemoveAllDelivered => RequestV::RemoveAllDelivered,
        }
    }
}

// ---------------------------------------------------------------------------
// responses
// ---------------------------------------------------------------------------

/// The synchronous reply from the native side.  Only a schedule call
/// carries a structured payload; every other call replies with an empty
/// message, success being the boundary's own boolean result.
#[derive(Clone, Debug, PartialEq, Eq)]
pub enum Response {
    Empty,
    Schedule { identifier: String },
}

/// The view of a [`Response`].
#[verifier::ext_equal]
pub enum ResponseV {
    Empty,
    Schedule { identifier: Seq<char> },
}

impl View for Response {
    type V = ResponseV;

    open spec fn view(&self) -> ResponseV {
        match self {
            Response::Empty => ResponseV::Empty,
            Response::Schedule { identifier } => ResponseV::Schedule {
                identifier: identifier@,
            },
        }
    }
}

// ---------------------------------------------------------------------------
// asynchronous events
// ---------------------------------------------------------------------------

/// The outcome of registering for remote notifications, nested inside
/// [`AsyncEvent::RemoteRegistration`].  `Unset` is a registration message
/// carrying neither result; the bridge ignores it.
#[derive(Clone, Debug, PartialEq, Eq)]
pub enum RemoteRegistration {
    Unset,
    Failed { code: i32, localized_description: String },
    DeviceToken(String),
}

/// The view of a [`RemoteRegistration`].
#[verifier::ext_equal]
pub enum RemoteRegistrationV {
    Unset,
    Failed { code: i32, localized_description: Seq<char> },
    DeviceToken(Seq<char>),
}

impl View for RemoteRegistration {
    type V = RemoteRegistrationV;

    open spec fn view(&self) -> RemoteRegistrationV {
        match self {
            RemoteRegistration::Unset => RemoteRegistrationV::Unset,
            RemoteRegistration::Failed { code, localized_description } => {
                RemoteRegistrationV::Failed {
                    code: *code,
                    localized_description: localized_description@,
                }
            },
            RemoteRegistration::DeviceToken(token) => RemoteRegistrationV::DeviceToken(token@),
        }
    }
}

/// A native-origin notification event, delivered through the asynchronous
/// callback.  Exactly one variant crosses the wire per invocation.
#[derive(Clone, Debug, PartialEq, Eq)]
pub enum AsyncEvent {
    Permission { granted: bool },
    Scheduled { identifier: String, success: bool },
    Pending { items: Vec<NotificationId> },
    TriggeredWhileRunning { identifier: String },
    NotificationResponse { identifier: String, action_identifier: String },
    RemoteRegistration(RemoteRegistration),
}

/// The view of an [`AsyncEvent`].
#[verifier::ext_equal]
pub enum AsyncEventV {
    Permission { granted: bool },
    Scheduled { identifier: Seq<char>, success: bool },
    Pending { items: Seq<Seq<char>> },
    TriggeredWhileRunning { identifier: Seq<char> },
    NotificationResponse { identifier: Seq<char>, action_identifier: Seq<char> },
    RemoteRegistration(RemoteRegistrationV),
}

impl View for AsyncEvent {
    type V = AsyncEventV;

    open spec fn view(&self) -> AsyncEventV {
        match self {
            AsyncEvent::Permission { granted } => AsyncEventV::Permission { granted: *granted },
            AsyncEvent::Scheduled { identifier, success } => AsyncEventV::Scheduled {
                identifier: identifier@,
                success: *success,
            },
            AsyncEvent::Pending { items } => AsyncEventV::Pending {
                items: items@.map_values(|n: NotificationId| n@),
            },
            AsyncEvent::TriggeredWhileRunning { identifier } => {
                AsyncEventV::TriggeredWhileRunning { identifier: identifier@ }
            },
            AsyncEvent::NotificationResponse { identifier, action_identifier } => {
                AsyncEventV::NotificationResponse {
                    identifier: identifier@,
                    action_identifier: action_identifier@,
                }
            },
            AsyncEvent::RemoteRegistration(r) => AsyncEventV::RemoteRegistration(r@),
        }
    }
}

} // verus!
