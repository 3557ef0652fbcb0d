//! Round trips of the wire codec on concrete values: every message kind,
//! all-absent and all-present optional fields, and malformed input.

use ios_notifications::decode::{decode_async_event, decode_request, decode_response};
use ios_notifications::encode::{
    encode_async_event_bytes, encode_request_bytes, encode_response_bytes,
};
use ios_notifications::messages::{
    AsyncEvent, NotificationId, Permissions, RemoteRegistration, Request, Response, Schedule,
    Trigger, UserDataEntry,
};

fn minimal_schedule() -> Schedule {
    Schedule {
        title: String::from("hello"),
        body: String::new(),
        category_identifier: String::new(),
        subtitle: String::new(),
        relevance_score_bits: 0,
        thread_identifier: String::new(),
        filter_criteria: None,
        user_data: None,
        identifier: None,
        badge: None,
        trigger: None,
    }
}

fn full_schedule() -> Schedule {
    Schedule {
        title: String::from("title"),
        body: String::from("body text"),
        category_identifier: String::from("cat"),
        subtitle: String::from("sub"),
        relevance_score_bits: 0x3FE0000000000000,
        thread_identifier: String::from("thread-7"),
        filter_criteria: Some(String::from("filter")),
        user_data: Some(vec![
            UserDataEntry { key: String::from("k1"), value: String::from("v1") },
            UserDataEntry { key: String::from("k2"), value: String::from("v2") },
        ]),
        identifier: Some(String::from("id-123")),
        badge: Some(-5),
        trigger: Some(Trigger { repeat: true, seconds_bits: 0x403E000000000000 }),
    }
}

#[test]
fn request_permissions_round_trip() {
    let r = Request::Permissions(Permissions { alert: true, sound: false, badge: true });
    let bytes = encode_request_bytes(&r);
    assert_eq!(decode_request(&bytes), Some(r));
}

#[test]
fn request_schedule_minimal_round_trip() {
    let r = Request::Schedule(minimal_schedule());
    let bytes = encode_request_bytes(&r);
    assert_eq!(decode_request(&bytes), Some(r));
}

#[test]
fn request_schedule_full_round_trip() {
    let r = Request::Schedule(full_schedule());
    let bytes = encode_request_bytes(&r);
    assert_eq!(decode_request(&bytes), Some(r));
}

#[test]
fn request_unit_variants_round_trip() {
    for r in [Request::Pending, Request::RemoveAllPending, Request::RemoveAllDelivered] {
        let bytes = encode_request_bytes(&r);
        assert_eq!(decode_request(&bytes), Some(r));
    }
}

#[test]
fn request_remove_lists_round_trip() {
    let ids = vec![
        NotificationId { identifier: String::from("a") },
        NotificationId { identifier: String::from("b") },
        NotificationId { identifier: String::new() },
    ];
    let r = Request::RemovePending(ids.clone());
    let bytes = encode_request_bytes(&r);
    assert_eq!(decode_request(&bytes), Some(r));

    let r = Request::RemoveDelivered(ids);
    let bytes = encode_request_bytes(&r);
    assert_eq!(decode_request(&bytes), Some(r));

    let r = Request::RemovePending(Vec::new());
    let bytes = encode_request_bytes(&r);
    assert_eq!(decode_request(&bytes), Some(r));
}

#[test]
fn request_unicode_strings_round_trip() {
    let mut s = minimal_schedule();
    s.title = String::from("gr\u{00fc}\u{00df}e \u{1f514} \u{4e16}\u{754c}");
    let r = Request::Schedule(s);
    let bytes = encode_request_bytes(&r);
    assert_eq!(decode_request(&bytes), Some(r));
}

#[test]
fn request_empty_buffer_is_malformed() {
    assert_eq!(decode_request(&[]), None);
}

#[test]
fn request_unknown_tag_is_malformed() {
    // field number 12 does not exist in the request schema
    assert_eq!(decode_request(&[0x62, 0x00]), None);
}

#[test]
fn request_truncated_is_malformed() {
    let r = Request::Schedule(full_schedule());
    let bytes = encode_request_bytes(&r);
    for cut in [1, 2, 3, bytes.len() / 2, bytes.len() - 1] {
        assert_eq!(decode_request(&bytes[..cut]), None, "cut at {cut}");
    }
}

#[test]
fn request_trailing_bytes_are_malformed() {
    let r = Request::Pending;
    let mut bytes = encode_request_bytes(&r);
    bytes.push(0);
    assert_eq!(decode_request(&bytes), None);
}

#[test]
fn response_empty_round_trip() {
    let r = Response::Empty;
    let bytes = encode_response_bytes(&r);
    assert_eq!(bytes.len(), 0);
    assert_eq!(decode_response(&bytes), Some(r));
}

#[test]
fn response_schedule_round_trip() {
    let r = Response::Schedule { identifier: String::from("sched-42") };
    let bytes = encode_response_bytes(&r);
    assert_eq!(decode_response(&bytes), Some(r));
}

#[test]
fn response_garbage_is_malformed() {
    assert_eq!(decode_response(&[0xFF]), None);
}

#[test]
fn async_event_round_trips() {
    let events = [
        AsyncEvent::Permission { granted: true },
        AsyncEvent::Permission { granted: false },
        AsyncEvent::Scheduled { identifier: String::from("a"), success: true },
        AsyncEvent::Scheduled { identifier: String::from("b"), success: false },
        AsyncEvent::Pending {
            items: vec![
                NotificationId { identifier: String::from("x") },
                NotificationId { identifier: String::from("y") },
            ],
        },
        AsyncEvent::Pending { items: Vec::new() },
        AsyncEvent::TriggeredWhileRunning { identifier: String::from("t") },
        AsyncEvent::NotificationResponse {
            identifier: String::from("n"),
            action_identifier: String::from("act"),
        },
        AsyncEvent::RemoteRegistration(RemoteRegistration::Unset),
        AsyncEvent::RemoteRegistration(RemoteRegistration::Failed {
            code: -13,
            localized_description: String::from("no network"),
        }),
        AsyncEvent::RemoteRegistration(RemoteRegistration::DeviceToken(String::from(
            "deadbeef",
        ))),
    ];
    for e in events {
        let bytes = encode_async_event_bytes(&e);
        assert_eq!(decode_async_event(&bytes), Some(e));
    }
}

#[test]
fn async_event_empty_buffer_is_malformed() {
    assert_eq!(decode_async_event(&[]), None);
}

#[test]
fn badge_extremes_round_trip() {
    for badge in [i32::MIN, -1, 0, 1, i32::MAX] {
        let mut s = minimal_schedule();
        s.badge = Some(badge);
        let r = Request::Schedule(s);
        let bytes = encode_request_bytes(&r);
        assert_eq!(decode_request(&bytes), Some(r), "badge {badge}");
    }
}
