//! The event sink's slot and queue semantics.

use ios_notifications::channel::EventSink;
use ios_notifications::plugin::IosNotificationEvents;

#[test]
fn publish_without_sink_is_a_silent_no_op() {
    let mut sink = EventSink::new();
    let delivered = sink.send_event(IosNotificationEvents::PermissionResponse(true));
    assert!(!delivered);
    // installing afterwards does not retroactively deliver the dropped event
    assert!(sink.set_sender());
    assert_eq!(sink.drain(), Vec::<IosNotificationEvents>::new());
}

#[test]
fn first_install_wins_and_second_is_a_no_op() {
    let mut sink = EventSink::new();
    assert!(sink.set_sender());
    assert!(!sink.set_sender());
    // the queue survives the rejected second install
    assert!(sink.send_event(IosNotificationEvents::PermissionResponse(false)));
    assert!(!sink.set_sender());
    assert_eq!(
        sink.drain(),
        vec![IosNotificationEvents::PermissionResponse(false)]
    );
}

#[test]
fn events_drain_in_publish_order() {
    let mut sink = EventSink::new();
    assert!(sink.set_sender());
    assert!(sink.send_event(IosNotificationEvents::NotificationTriggered(String::from("1"))));
    assert!(sink.send_event(IosNotificationEvents::NotificationTriggered(String::from("2"))));
    assert!(sink.send_event(IosNotificationEvents::NotificationTriggered(String::from("3"))));
    assert_eq!(
        sink.drain(),
        vec![
            IosNotificationEvents::NotificationTriggered(String::from("1")),
            IosNotificationEvents::NotificationTriggered(String::from("2")),
            IosNotificationEvents::NotificationTriggered(String::from("3")),
        ]
    );
    // a drain empties the queue
    assert_eq!(sink.drain(), Vec::<IosNotificationEvents>::new());
}
