//! The notification request object, its defaults, the trigger's seconds,
//! and the request builders.

use ios_notifications::decode::decode_request;
use ios_notifications::encode::encode_request_bytes;
use ios_notifications::messages::{Request, Schedule, Trigger, UserDataEntry};
use ios_notifications::plugin::{IosNotificationPermissions, IosNotificationsPlugin};
use ios_notifications::resource::{
    double_bits_from_u32, pending_request, permissions_request, remove_all_delivered_request,
    remove_all_pending_request, remove_delivered_request, remove_pending_request,
    schedule_request, IosNotificationRequest, IosNotificationTrigger,
};

#[test]
fn title_only_request_yields_defaulted_wire_fields() {
    let request = IosNotificationRequest::new(String::from("only title"));
    let wire: Schedule = request.into();
    assert_eq!(wire.title, "only title");
    assert_eq!(wire.body, "");
    assert_eq!(wire.category_identifier, "");
    assert_eq!(wire.subtitle, "");
    assert_eq!(f64::from_bits(wire.relevance_score_bits), 0.0);
    assert_eq!(wire.thread_identifier, "");
    assert_eq!(wire.filter_criteria, None);
    assert_eq!(wire.user_data, None);
    assert_eq!(wire.identifier, None);
    assert_eq!(wire.badge, None);
    assert_eq!(wire.trigger, None);
}

#[test]
fn builder_methods_set_their_fields() {
    let request = IosNotificationRequest::new(String::from("t"))
        .body(String::from("b"))
        .category_identifier(String::from("c"))
        .subtitle(String::from("s"))
        .relevance_score_bits(0.5f64.to_bits())
        .thread_identifier(String::from("th"))
        .filter_criteria(String::from("f"))
        .user_data(vec![UserDataEntry { key: String::from("k"), value: String::from("v") }])
        .identifier(String::from("i"))
        .badge(3)
        .trigger(IosNotificationTrigger::one_shot(60));
    let wire: Schedule = request.into();
    assert_eq!(wire.body, "b");
    assert_eq!(wire.category_identifier, "c");
    assert_eq!(wire.subtitle, "s");
    assert_eq!(f64::from_bits(wire.relevance_score_bits), 0.5);
    assert_eq!(wire.thread_identifier, "th");
    assert_eq!(wire.filter_criteria.as_deref(), Some("f"));
    assert_eq!(wire.identifier.as_deref(), Some("i"));
    assert_eq!(wire.badge, Some(3));
    let trigger = wire.trigger.unwrap();
    assert!(!trigger.repeat);
    assert_eq!(f64::from_bits(trigger.seconds_bits), 60.0);
}

#[test]
fn one_shot_trigger_round_trips_to_thirty_seconds_no_repeat() {
    let trigger = IosNotificationTrigger::one_shot(30);
    assert!(!trigger.repeat);
    assert_eq!(f64::from_bits(trigger.seconds_bits), 30.0);

    // and across the wire
    let request = schedule_request(
        IosNotificationRequest::new(String::from("t")).trigger(trigger),
    );
    let bytes = encode_request_bytes(&request);
    match decode_request(&bytes).unwrap() {
        Request::Schedule(s) => {
            let wire = s.trigger.unwrap();
            assert_eq!(
                wire,
                Trigger { repeat: false, seconds_bits: 30.0f64.to_bits() }
            );
        }
        _ => panic!("expected a schedule request"),
    }
}

#[test]
fn whole_seconds_become_exact_double_bits() {
    for n in [0u32, 1, 2, 3, 30, 31, 32, 255, 1000, 12345, u32::MAX] {
        assert_eq!(
            double_bits_from_u32(n),
            (n as f64).to_bits(),
            "bits of {n}"
        );
    }
}

#[test]
fn repeating_trigger_keeps_its_flag() {
    let trigger = IosNotificationTrigger::new(90, true);
    assert!(trigger.repeat);
    assert_eq!(f64::from_bits(trigger.seconds_bits), 90.0);
}

#[test]
fn permissions_request_carries_the_flags() {
    let request = permissions_request(&IosNotificationPermissions {
        alert: true,
        sound: false,
        badge: true,
    });
    let bytes = encode_request_bytes(&request);
    match decode_request(&bytes).unwrap() {
        Request::Permissions(p) => {
            assert!(p.alert);
            assert!(!p.sound);
            assert!(p.badge);
        }
        _ => panic!("expected a permissions request"),
    }
}

#[test]
fn list_requests_carry_their_identifiers() {
    let ids = vec![String::from("a"), String::from("b")];
    match remove_pending_request(&ids) {
        Request::RemovePending(items) => {
            let names: Vec<String> = items.into_iter().map(|n| n.identifier).collect();
            assert_eq!(names, ids);
        }
        _ => panic!("expected a remove-pending request"),
    }
    match remove_delivered_request(&ids) {
        Request::RemoveDelivered(items) => {
            let names: Vec<String> = items.into_iter().map(|n| n.identifier).collect();
            assert_eq!(names, ids);
        }
        _ => panic!("expected a remove-delivered request"),
    }
}

#[test]
fn unit_requests_have_their_variants() {
    assert_eq!(pending_request(), Request::Pending);
    assert_eq!(remove_all_pending_request(), Request::RemoveAllPending);
    assert_eq!(remove_all_delivered_request(), Request::RemoveAllDelivered);
}

#[test]
fn plugin_start_permissions_are_kept() {
    let plugin = IosNotificationsPlugin::request_permissions_on_start(true, true, false);
    assert_eq!(
        plugin.permissions,
        Some(IosNotificationPermissions { alert: true, sound: true, badge: false })
    );
    let defaulted = IosNotificationsPlugin::default();
    assert_eq!(defaulted.permissions, None);
}
