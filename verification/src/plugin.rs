//! Host-facing types: the events delivered to the host's event queue, the
//! permission flags a host asks for, and the plugin value describing how
//! the bridge is to be initialized.
//!
//! The host-facing event enum is deliberately distinct from the wire's
//! [`crate::messages::AsyncEvent`]: the wire schema can evolve without
//! touching the host's API.  The mapping between the two lives in
//! [`crate::bridge`].

use vstd::prelude::*;

verus! {

// ---------------------------------------------------------------------------
// permissions
// ---------------------------------------------------------------------------

/// The notification permissions a host can ask the user for.
#[derive(Clone, Copy, Debug, PartialEq, Eq, Structural)]
pub struct IosNotificationPermissions {
    pub alert: bool,
    pub sound: bool,
    pub badge: bool,
}

// ---------------------------------------------------------------------------
// host events
// ---------------------------------------------------------------------------

/// A user's interaction with a delivered notification.
#[derive(Clone, Debug, PartialEq, Eq)]
pub struct IosNotificationResponse {
    pub identifier: String,
    pub action: String,
}

/// The view of an [`IosNotificationResponse`].
#[verifier::ext_equal]
pub struct IosNotificationResponseV {
    pub identifier: Seq<char>,
    pub action: Seq<char>,
}

impl View for IosNotificationResponse {
    type V = IosNotificationResponseV;

    open spec fn view(&self) -> IosNotificationResponseV {
        IosNotificationResponseV { identifier: self.identifier@, action: self.action@ }
    }
}

/// The outcome of registering for remote notifications, as the host sees
/// it.
#[derive(Clone, Debug, PartialEq, Eq)]
pub enum IosRemoteNotificationRegistration {
    Failed { code: i32, localized_description: String },
    DeviceToken(String),
}

/// The view of an [`IosRemoteNotificationRegistration`].
#[verifier::ext_equal]
pub enum IosRemoteNotificationRegistrationV {
    Failed { code: i32, localized_description: Seq<char> },
    DeviceToken(Seq<char>),
}

impl View for IosRemoteNotificationRegistration {
    type V = IosRemoteNotificationRegistrationV;

    open spec fn view(&self) -> IosRemoteNotificationRegistrationV {
        match self {
            IosRemoteNotificationRegistration::Failed { code, localized_description } => {
                IosRemoteNotificationRegistrationV::Failed {
                    code: *code,
                    localized_description: localized_description@,
                }
            },
            IosRemoteNotificationRegistration::DeviceToken(token) => {
                IosRemoteNotificationRegistrationV::DeviceToken(token@)
            },
        }
    }
}

/// A native-origin notification event as delivered to the host's event
/// queue.  Produced only by mapping a decoded asynchronous wire event;
/// the synchronous path never constructs one.
#[derive(Clone, Debug, PartialEq, Eq)]
pub enum IosNotificationEvents {
    PermissionResponse(bool),
    NotificationSchedulingSucceeded(String),
    NotificationSchedulingFailed(String),
    NotificationTriggered(String),
    PendingNotifications(Vec<String>),
    NotificationResponse(IosNotificationResponse),
    RemoteNotificationRegistration(IosRemoteNotificationRegistration),
}

/// The view of an [`IosNotificationEvents`].
#[verifier::ext_equal]
pub enum IosNotificationEventsV {
    PermissionResponse(bool),
    NotificationSchedulingSucceeded(Seq<char>),
    NotificationSchedulingFailed(Seq<char>),
    NotificationTriggered(Seq<char>),
    PendingNotifications(Seq<Seq<char>>),
    NotificationResponse(IosNotificationResponseV),
    RemoteNotificationRegistration(IosRemoteNotificationRegistrationV),
}

impl View for IosNotificationEvents {
    type V = IosNotificationEventsV;

    open spec fn view(&self) -> IosNotificationEventsV {
        match self {
            IosNotificationEvents::PermissionResponse(granted) => {
                IosNotificationEventsV::PermissionResponse(*granted)
            },
            IosNotificationEvents::NotificationSchedulingSucceeded(id) => {
                IosNotificationEventsV::NotificationSchedulingSucceeded(id@)
            },
            IosNotificationEvents::NotificationSchedulingFailed(id) => {
                IosNotificationEventsV::NotificationSchedulingFailed(id@)
            },
            IosNotificationEvents::NotificationTriggered(id) => {
                IosNotificationEventsV::NotificationTriggered(id@)
            },
            IosNotificationEvents::PendingNotifications(ids) => {
                IosNotificationEventsV::PendingNotifications(
                    ids@.map_values(|s: String| s@),
                )
            },
            IosNotificationEvents::NotificationResponse(r) => {
                IosNotificationEventsV::NotificationResponse(r@)
            },
            IosNotificationEvents::RemoteNotificationRegistration(r) => {
                IosNotificationEventsV::RemoteNotificationRegistration(r@)
            },
        }
    }
}

// ---------------------------------------------------------------------------
// the plugin value
// ---------------------------------------------------------------------------

/// How the bridge is to be initialized: optionally, which permissions to
/// request as soon as the native side is reachable.  The surrounding
/// application hands this to its engine's plugin machinery; the value
/// itself is plain data.
#[derive(Clone, Copy, Debug, PartialEq, Eq, Structural)]
pub struct IosNotificationsPlugin {
    pub permissions: Option<IosNotificationPermissions>,
}

impl IosNotificationsPlugin {
    /// A plugin that requests the given permissions during startup.
    pub fn request_permissions_on_start(alert: bool, sound: bool, badge: bool) -> (r: Self)
        ensures
            r.permissions == Some(IosNotificationPermissions { alert, sound, badge }),
    {
        IosNotificationsPlugin {
            permissions: Some(IosNotificationPermissions { alert, sound, badge }),
        }
    }
}

impl Default for IosNotificationsPlugin {
    /// A plugin that requests no permissions during startup.
    fn default() -> (r: Self)
        ensures
            r.permissions is None,
    {
        IosNotificationsPlugin { permissions: None }
    }
}

} // verus!
