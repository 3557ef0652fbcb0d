//! The asynchronous callback path: decode, map, forward through the sink.

use ios_notifications::bridge::{handle_native_callback, CallbackOutcome};
use ios_notifications::channel::EventSink;
use ios_notifications::encode::encode_async_event_bytes;
use ios_notifications::messages::{AsyncEvent, RemoteRegistration};
use ios_notifications::plugin::{
    IosNotificationEvents, IosNotificationResponse, IosRemoteNotificationRegistration,
};

fn event_bytes(e: &AsyncEvent) -> Vec<u8> {
    encode_async_event_bytes(e)
}

#[test]
fn truncated_buffer_is_malformed_and_publishes_nothing() {
    let mut sink = EventSink::new();
    assert!(sink.set_sender());
    let bytes = event_bytes(&AsyncEvent::Permission { granted: true });
    let outcome = handle_native_callback(&mut sink, &bytes[..3]);
    assert_eq!(outcome, CallbackOutcome::Malformed);
    assert_eq!(sink.drain(), Vec::<IosNotificationEvents>::new());
}

#[test]
fn permission_event_is_delivered() {
    let mut sink = EventSink::new();
    assert!(sink.set_sender());
    let bytes = event_bytes(&AsyncEvent::Permission { granted: true });
    assert_eq!(handle_native_callback(&mut sink, &bytes), CallbackOutcome::Delivered);
    assert_eq!(
        sink.drain(),
        vec![IosNotificationEvents::PermissionResponse(true)]
    );
}

#[test]
fn scheduling_outcomes_keep_their_order() {
    let mut sink = EventSink::new();
    assert!(sink.set_sender());
    let first = event_bytes(&AsyncEvent::Scheduled {
        identifier: String::from("a"),
        success: true,
    });
    let second = event_bytes(&AsyncEvent::Scheduled {
        identifier: String::from("b"),
        success: false,
    });
    assert_eq!(handle_native_callback(&mut sink, &first), CallbackOutcome::Delivered);
    assert_eq!(handle_native_callback(&mut sink, &second), CallbackOutcome::Delivered);
    assert_eq!(
        sink.drain(),
        vec![
            IosNotificationEvents::NotificationSchedulingSucceeded(String::from("a")),
            IosNotificationEvents::NotificationSchedulingFailed(String::from("b")),
        ]
    );
}

#[test]
fn pending_list_maps_to_plain_identifiers() {
    let mut sink = EventSink::new();
    assert!(sink.set_sender());
    let bytes = event_bytes(&AsyncEvent::Pending {
        items: vec![
            ios_notifications::messages::NotificationId { identifier: String::from("p1") },
            ios_notifications::messages::NotificationId { identifier: String::from("p2") },
        ],
    });
    assert_eq!(handle_native_callback(&mut sink, &bytes), CallbackOutcome::Delivered);
    assert_eq!(
        sink.drain(),
        vec![IosNotificationEvents::PendingNotifications(vec![
            String::from("p1"),
            String::from("p2"),
        ])]
    );
}

#[test]
fn notification_response_maps_identifier_and_action() {
    let mut sink = EventSink::new();
    assert!(sink.set_sender());
    let bytes = event_bytes(&AsyncEvent::NotificationResponse {
        identifier: String::from("n1"),
        action_identifier: String::from("open"),
    });
    assert_eq!(handle_native_callback(&mut sink, &bytes), CallbackOutcome::Delivered);
    assert_eq!(
        sink.drain(),
        vec![IosNotificationEvents::NotificationResponse(IosNotificationResponse {
            identifier: String::from("n1"),
            action: String::from("open"),
        })]
    );
}

#[test]
fn registration_results_map_and_empty_one_is_ignored() {
    let mut sink = EventSink::new();
    assert!(sink.set_sender());

    let unset = event_bytes(&AsyncEvent::RemoteRegistration(RemoteRegistration::Unset));
    assert_eq!(handle_native_callback(&mut sink, &unset), CallbackOutcome::Ignored);

    let failed = event_bytes(&AsyncEvent::RemoteRegistration(RemoteRegistration::Failed {
        code: -3,
        localized_description: String::from("denied"),
    }));
    assert_eq!(handle_native_callback(&mut sink, &failed), CallbackOutcome::Delivered);

    let token = event_bytes(&AsyncEvent::RemoteRegistration(
        RemoteRegistration::DeviceToken(String::from("tok")),
    ));
    assert_eq!(handle_native_callback(&mut sink, &token), CallbackOutcome::Delivered);

    assert_eq!(
        sink.drain(),
        vec![
            IosNotificationEvents::RemoteNotificationRegistration(
                IosRemoteNotificationRegistration::Failed {
                    code: -3,
                    localized_description: String::from("denied"),
                }
            ),
            IosNotificationEvents::RemoteNotificationRegistration(
                IosRemoteNotificationRegistration::DeviceToken(String::from("tok"))
            ),
        ]
    );
}

#[test]
fn triggered_event_is_delivered() {
    let mut sink = EventSink::new();
    assert!(sink.set_sender());
    let bytes = event_bytes(&AsyncEvent::TriggeredWhileRunning {
        identifier: String::from("t9"),
    });
    assert_eq!(handle_native_callback(&mut sink, &bytes), CallbackOutcome::Delivered);
    assert_eq!(
        sink.drain(),
        vec![IosNotificationEvents::NotificationTriggered(String::from("t9"))]
    );
}

#[test]
fn callback_without_sink_reports_sink_unavailable() {
    let mut sink = EventSink::new();
    let bytes = event_bytes(&AsyncEvent::Permission { granted: false });
    assert_eq!(
        handle_native_callback(&mut sink, &bytes),
        CallbackOutcome::SinkUnavailable
    );
    assert!(sink.set_sender());
    assert_eq!(sink.drain(), Vec::<IosNotificationEvents>::new());
}
