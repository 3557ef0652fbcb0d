//! The round-trip law of the codec: decoding an encoding yields the
//! original message.
//!
//! The law is stated over the views of the three top-level messages —
//! [`lemma_request_round_trip`], [`lemma_response_round_trip`] and
//! [`lemma_async_event_round_trip`] — for every well-formed value, where
//! well-formedness (`request_wf` and friends) only bounds the lengths of
//! unbounded ghost values by what a length varint can carry; every value
//! an executable encoder can be handed satisfies it.  The lemmas building
//! up to the law walk the encoded buffer field by field.

use vstd::prelude::*;

verus! {

use vstd::bytes::spec_u64_to_le_bytes;
use crate::codec::{
    WIRE_LEN, WIRE_VARINT, bool_bytes, lemma_chunk_at, lemma_parse_bool_encoded,
    lemma_parse_fixed64_encoded, lemma_parse_len_delim_encoded, lemma_parse_string_encoded,
    lemma_parse_varint_encoded, lemma_sint32_round_trip, len_delim_bytes, sint32_as_u64, str_wf,
    string_bytes, tag_byte, varint_bytes,
};
use crate::encode::{
    bool_field_bytes, entry_msg_bytes, entry_wf, fixed64_field_bytes, id_list_bytes, id_list_wf,
    msg_field_bytes, notifid_msg_bytes, notifid_wf, opt_badge_bytes, opt_string_field_bytes,
    opt_trigger_bytes, opt_user_data_bytes, permissions_bytes, request_bytes, request_wf,
    response_bytes, response_wf, schedule_bytes, schedule_optional_bytes, schedule_required_bytes,
    schedule_response_bytes, schedule_wf, sint32_field_bytes, string_field_bytes, trigger_bytes,
    user_data_bytes, async_event_bytes, async_event_wf, remote_registration_bytes,
};
use crate::decode::{
    parse_bool_field, parse_entry_msg, parse_exact_msg_field, parse_failed_msg,
    parse_fixed64_field, parse_id_items, parse_id_list_msg, parse_msg_field, parse_notifid_msg,
    parse_opt_msg_field, parse_opt_sint32_field, parse_opt_string_field, parse_permission_msg,
    parse_permissions_msg, parse_remote_registration_msg, parse_request, parse_response,
    parse_schedule_msg, parse_schedule_optional, parse_schedule_required,
    parse_schedule_response_msg, parse_scheduled_msg, parse_sint32_field, parse_string_field,
    parse_async_event,
    parse_token_msg, parse_trigger_msg, parse_user_data_items, parse_user_data_msg,
    parse_notification_response_msg,
};
use crate::messages::{
    AsyncEventV, RemoteRegistrationV, RequestV, ResponseV, ScheduleV, Trigger, UserDataEntryV,
};

// ---------------------------------------------------------------------------
// fields
// ---------------------------------------------------------------------------

/// A bool field's bytes at `pos` parse to its value.
pub proof fn lemma_parse_bool_field_at(b: Seq<u8>, pos: int, field: u64, v: bool)
    requires
        0 <= pos,
        1 <= field <= 15,
        pos + bool_field_bytes(field, v).len() <= b.len(),
        b.subrange(pos, pos + bool_field_bytes(field, v).len() as int) == bool_field_bytes(
            field,
            v,
        ),
    ensures
        parse_bool_field(b, pos, field) == Some((
            v,
            pos + bool_field_bytes(field, v).len() as int,
        )),
{
    let chunk = bool_field_bytes(field, v);
    assert(b[pos] == chunk[0]) by {
        assert(b.subrange(pos, pos + chunk.len() as int)[0] == chunk[0]);
    }
    lemma_chunk_at(b, pos, chunk, 1, chunk.len() as int);
    assert(chunk.subrange(1, chunk.len() as int) =~= bool_bytes(v));
    lemma_parse_bool_encoded(b, pos + 1, v);
}

/// A string field's bytes at `pos` parse to its value.
pub proof fn lemma_parse_string_field_at(b: Seq<u8>, pos: int, field: u64, s: Seq<char>)
    requires
        0 <= pos,
        1 <= field <= 15,
        str_wf(s),
        pos + string_field_bytes(field, s).len() <= b.len(),
        b.subrange(pos, pos + string_field_bytes(field, s).len() as int) == string_field_bytes(
            field,
            s,
        ),
    ensures
        parse_string_field(b, pos, field) == Some((
            s,
            pos + string_field_bytes(field, s).len() as int,
        )),
{
    let chunk = string_field_bytes(field, s);
    assert(b[pos] == chunk[0]) by {
        assert(b.subrange(pos, pos + chunk.len() as int)[0] == chunk[0]);
    }
    lemma_chunk_at(b, pos, chunk, 1, chunk.len() as int);
    assert(chunk.subrange(1, chunk.len() as int) =~= string_bytes(s));
    lemma_parse_string_encoded(b, pos + 1, s);
}

/// A 64-bit field's bytes at `pos` parse to its value.
pub proof fn lemma_parse_fixed64_field_at(b: Seq<u8>, pos: int, field: u64, n: u64)
    requires
        0 <= pos,
        1 <= field <= 15,
        pos + fixed64_field_bytes(field, n).len() <= b.len(),
        b.subrange(pos, pos + fixed64_field_bytes(field, n).len() as int) == fixed64_field_bytes(
            field,
            n,
        ),
    ensures
        parse_fixed64_field(b, pos, field) == Some((
            n,
            pos + fixed64_field_bytes(field, n).len() as int,
        )),
{
    let chunk = fixed64_field_bytes(field, n);
    assert(b[pos] == chunk[0]) by {
        assert(b.subrange(pos, pos + chunk.len() as int)[0] == chunk[0]);
    }
    lemma_chunk_at(b, pos, chunk, 1, chunk.len() as int);
    assert(chunk.subrange(1, chunk.len() as int) =~= spec_u64_to_le_bytes(n));
    lemma_parse_fixed64_encoded(b, pos + 1, n);
}

/// A signed 32-bit field's bytes at `pos` parse to its value.
pub proof fn lemma_parse_sint32_field_at(b: Seq<u8>, pos: int, field: u64, v: i32)
    requires
        0 <= pos,
        1 <= field <= 15,
        pos + sint32_field_bytes(field, v).len() <= b.len(),
        b.subrange(pos, pos + sint32_field_bytes(field, v).len() as int) == sint32_field_bytes(
            field,
            v,
        ),
    ensures
        parse_sint32_field(b, pos, field) == Some((
            v,
            pos + sint32_field_bytes(field, v).len() as int,
        )),
{
    let chunk = sint32_field_bytes(field, v);
    assert(b[pos] == chunk[0]) by {
        assert(b.subrange(pos, pos + chunk.len() as int)[0] == chunk[0]);
    }
    lemma_chunk_at(b, pos, chunk, 1, chunk.len() as int);
    assert(chunk.subrange(1, chunk.len() as int) =~= varint_bytes(sint32_as_u64(v)));
    lemma_parse_varint_encoded(b, pos + 1, sint32_as_u64(v));
    lemma_sint32_round_trip(v);
}

/// A nested-message field's bytes at `pos` parse to its payload.
pub proof fn lemma_parse_msg_field_at(b: Seq<u8>, pos: int, field: u64, payload: Seq<u8>)
    requires
        0 <= pos,
        1 <= field <= 15,
        payload.len() <= u64::MAX,
        pos + msg_field_bytes(field, payload).len() <= b.len(),
        b.subrange(pos, pos + msg_field_bytes(field, payload).len() as int) == msg_field_bytes(
            field,
            payload,
        ),
    ensures
        parse_msg_field(b, pos, field) == Some((
            payload,
            pos + msg_field_bytes(field, payload).len() as int,
        )),
{
    let chunk = msg_field_bytes(field, payload);
    assert(b[pos] == chunk[0]) by {
        assert(b.subrange(pos, pos + chunk.len() as int)[0] == chunk[0]);
    }
    lemma_chunk_at(b, pos, chunk, 1, chunk.len() as int);
    assert(chunk.subrange(1, chunk.len() as int) =~= len_delim_bytes(payload));
    lemma_parse_len_delim_encoded(b, pos + 1, payload);
}

/// A present optional string field's bytes at `pos` parse to its value.
pub proof fn lemma_parse_opt_string_field_at(b: Seq<u8>, pos: int, field: u64, s: Seq<char>)
    requires
        0 <= pos,
        1 <= field <= 15,
        str_wf(s),
        pos + string_field_bytes(field, s).len() <= b.len(),
        b.subrange(pos, pos + string_field_bytes(field, s).len() as int) == string_field_bytes(
            field,
            s,
        ),
    ensures
        parse_opt_string_field(b, pos, field) == Some((
            Some(s),
            pos + string_field_bytes(field, s).len() as int,
        )),
{
    let chunk = string_field_bytes(field, s);
    assert(b[pos] == chunk[0]) by {
        assert(b.subrange(pos, pos + chunk.len() as int)[0] == chunk[0]);
    }
    lemma_chunk_at(b, pos, chunk, 1, chunk.len() as int);
    assert(chunk.subrange(1, chunk.len() as int) =~= string_bytes(s));
    lemma_parse_string_encoded(b, pos + 1, s);
}

/// A present optional nested-message field's bytes at `pos` parse to its
/// payload.
pub proof fn lemma_parse_opt_msg_field_at(b: Seq<u8>, pos: int, field: u64, payload: Seq<u8>)
    requires
        0 <= pos,
        1 <= field <= 15,
        payload.len() <= u64::MAX,
        pos + msg_field_bytes(field, payload).len() <= b.len(),
        b.subrange(pos, pos + msg_field_bytes(field, payload).len() as int) == msg_field_bytes(
            field,
            payload,
        ),
    ensures
        parse_opt_msg_field(b, pos, field) == Some((
            Some(payload),
            pos + msg_field_bytes(field, payload).len() as int,
        )),
{
    let chunk = msg_field_bytes(field, payload);
    assert(b[pos] == chunk[0]) by {
        assert(b.subrange(pos, pos + chunk.len() as int)[0] == chunk[0]);
    }
    lemma_chunk_at(b, pos, chunk, 1, chunk.len() as int);
    assert(chunk.subrange(1, chunk.len() as int) =~= len_delim_bytes(payload));
    lemma_parse_len_delim_encoded(b, pos + 1, payload);
}

/// A present optional signed 32-bit field's bytes at `pos` parse to its
/// value.
pub proof fn lemma_parse_opt_sint32_field_at(b: Seq<u8>, pos: int, field: u64, v: i32)
    requires
        0 <= pos,
        1 <= field <= 15,
        pos + sint32_field_bytes(field, v).len() <= b.len(),
        b.subrange(pos, pos + sint32_field_bytes(field, v).len() as int) == sint32_field_bytes(
            field,
            v,
        ),
    ensures
        parse_opt_sint32_field(b, pos, field) == Some((
            Some(v),
            pos + sint32_field_bytes(field, v).len() as int,
        )),
{
    let chunk = sint32_field_bytes(field, v);
    assert(b[pos] == chunk[0]) by {
        assert(b.subrange(pos, pos + chunk.len() as int)[0] == chunk[0]);
    }
    lemma_chunk_at(b, pos, chunk, 1, chunk.len() as int);
    assert(chunk.subrange(1, chunk.len() as int) =~= varint_bytes(sint32_as_u64(v)));
    lemma_parse_varint_encoded(b, pos + 1, sint32_as_u64(v));
    lemma_sint32_round_trip(v);
}

// ---------------------------------------------------------------------------
// leaf messages
// ---------------------------------------------------------------------------

/// The encoding of a permissions message parses back to its flags.
pub proof fn lemma_parse_permissions_encoded(b: Seq<u8>, alert: bool, sound: bool, badge: bool)
    requires
        b == permissions_bytes(alert, sound, badge),
    ensures
        parse_permissions_msg(b) == Some((alert, sound, badge)),
{
    let c1 = bool_field_bytes(1, alert);
    let c2 = bool_field_bytes(2, sound);
    let c3 = bool_field_bytes(3, badge);
    let p1 = c1.len() as int;
    let p2 = p1 + c2.len() as int;
    let p3 = p2 + c3.len() as int;
    assert(b.subrange(0, p1) =~= c1);
    lemma_parse_bool_field_at(b, 0, 1, alert);
    assert(b.subrange(p1, p2) =~= c2);
    lemma_parse_bool_field_at(b, p1, 2, sound);
    assert(b.subrange(p2, p3) =~= c3);
    lemma_parse_bool_field_at(b, p2, 3, badge);
    assert(p3 == b.len());
}

/// The encoding of a trigger message parses back to its value.
pub proof fn lemma_parse_trigger_encoded(b: Seq<u8>, t: Trigger)
    requires
        b == trigger_bytes(t),
    ensures
        parse_trigger_msg(b) == Some(t),
{
    vstd::bytes::lemma_auto_spec_u64_to_from_le_bytes();
    let c1 = bool_field_bytes(1, t.repeat);
    let c2 = fixed64_field_bytes(2, t.seconds_bits);
    let p1 = c1.len() as int;
    let p2 = p1 + c2.len() as int;
    assert(b.subrange(0, p1) =~= c1);
    lemma_parse_bool_field_at(b, 0, 1, t.repeat);
    assert(b.subrange(p1, p2) =~= c2);
    lemma_parse_fixed64_field_at(b, p1, 2, t.seconds_bits);
    assert(p2 == b.len());
}

/// The encoding of a user data entry message parses back to its entry.
pub proof fn lemma_parse_entry_encoded(b: Seq<u8>, e: UserDataEntryV)
    requires
        b == entry_msg_bytes(e),
        str_wf(e.key),
        str_wf(e.value),
    ensures
        parse_entry_msg(b) == Some(e),
{
    let c1 = string_field_bytes(1, e.key);
    let c2 = string_field_bytes(2, e.value);
    let p1 = c1.len() as int;
    let p2 = p1 + c2.len() as int;
    assert(b.subrange(0, p1) =~= c1);
    lemma_parse_string_field_at(b, 0, 1, e.key);
    assert(b.subrange(p1, p2) =~= c2);
    lemma_parse_string_field_at(b, p1, 2, e.value);
    assert(p2 == b.len());
    assert(parse_entry_msg(b) == Some(UserDataEntryV { key: e.key, value: e.value }));
    assert(UserDataEntryV { key: e.key, value: e.value } =~= e);
}

/// The encoding of a notification identifier message parses back to its
/// identifier.
pub proof fn lemma_parse_notifid_encoded(b: Seq<u8>, s: Seq<char>)
    requires
        b == notifid_msg_bytes(s),
        str_wf(s),
    ensures
        parse_notifid_msg(b) == Some(s),
{
    let c1 = string_field_bytes(1, s);
    assert(b.subrange(0, c1.len() as int) =~= c1);
    lemma_parse_string_field_at(b, 0, 1, s);
}

// ---------------------------------------------------------------------------
// repeated items
// ---------------------------------------------------------------------------

/// A run of user data entry fields filling the rest of `b` parses back to
/// its entries, ending at the end of `b`.
pub proof fn lemma_parse_user_data_items_tail(b: Seq<u8>, pos: int, entries: Seq<UserDataEntryV>)
    requires
        0 <= pos <= b.len(),
        b.subrange(pos, b.len() as int) == user_data_bytes(entries),
        forall|i: int| 0 <= i < entries.len() ==> entry_wf(#[trigger] entries[i]),
    ensures
        parse_user_data_items(b, pos) == Some((entries, b.len() as int)),
    decreases entries.len(),
{
    if entries.len() == 0 {
        assert(pos == b.len());
        assert(entries =~= Seq::<UserDataEntryV>::empty());
    } else {
        let e0 = entries[0];
        assert(entry_wf(e0));
        let chunk0 = msg_field_bytes(1, entry_msg_bytes(e0));
        let rest = entries.drop_first();
        let tail = user_data_bytes(rest);
        let whole = chunk0 + tail;
        assert(user_data_bytes(entries) == whole);
        lemma_chunk_at(b, pos, whole, 0, chunk0.len() as int);
        assert(whole.subrange(0, chunk0.len() as int) =~= chunk0);
        lemma_parse_msg_field_at(b, pos, 1, entry_msg_bytes(e0));
        let p = pos + chunk0.len() as int;
        lemma_parse_entry_encoded(entry_msg_bytes(e0), e0);
        lemma_chunk_at(b, pos, whole, chunk0.len() as int, whole.len() as int);
        assert(whole.subrange(chunk0.len() as int, whole.len() as int) =~= tail);
        assert(b.subrange(p, b.len() as int) == tail);
        assert forall|i: int| 0 <= i < rest.len() implies entry_wf(#[trigger] rest[i]) by {
            assert(rest[i] == entries[i + 1]);
            assert(entry_wf(entries[i + 1]));
        }
        lemma_parse_user_data_items_tail(b, p, rest);
        assert(seq![e0] + rest =~= entries);
        assert(b[pos] == tag_byte(1, WIRE_LEN)) by {
            assert(b.subrange(pos, b.len() as int)[0] == whole[0]);
        }
    }
}

/// The encoding of a user data message parses back to its entries.
pub proof fn lemma_parse_user_data_msg_encoded(b: Seq<u8>, entries: Seq<UserDataEntryV>)
    requires
        b == user_data_bytes(entries),
        forall|i: int| 0 <= i < entries.len() ==> entry_wf(#[trigger] entries[i]),
    ensures
        parse_user_data_msg(b) == Some(entries),
{
    assert(b.subrange(0, b.len() as int) =~= b);
    lemma_parse_user_data_items_tail(b, 0, entries);
}

/// A run of notification identifier fields filling the rest of `b` parses
/// back to its identifiers, ending at the end of `b`.
pub proof fn lemma_parse_id_items_tail(b: Seq<u8>, pos: int, ids: Seq<Seq<char>>)
    requires
        0 <= pos <= b.len(),
        b.subrange(pos, b.len() as int) == id_list_bytes(ids),
        forall|i: int| 0 <= i < ids.len() ==> notifid_wf(#[trigger] ids[i]),
    ensures
        parse_id_items(b, pos) == Some((ids, b.len() as int)),
    decreases ids.len(),
{
    if ids.len() == 0 {
        assert(pos == b.len());
        assert(ids =~= Seq::<Seq<char>>::empty());
    } else {
        let s0 = ids[0];
        assert(notifid_wf(s0));
        let chunk0 = msg_field_bytes(1, notifid_msg_bytes(s0));
        let rest = ids.drop_first();
        let tail = id_list_bytes(rest);
        let whole = chunk0 + tail;
        assert(id_list_bytes(ids) == whole);
        lemma_chunk_at(b, pos, whole, 0, chunk0.len() as int);
        assert(whole.subrange(0, chunk0.len() as int) =~= chunk0);
        lemma_parse_msg_field_at(b, pos, 1, notifid_msg_bytes(s0));
        let p = pos + chunk0.len() as int;
        lemma_parse_notifid_encoded(notifid_msg_bytes(s0), s0);
        lemma_chunk_at(b, pos, whole, chunk0.len() as int, whole.len() as int);
        assert(whole.subrange(chunk0.len() as int, whole.len() as int) =~= tail);
        assert(b.subrange(p, b.len() as int) == tail);
        assert forall|i: int| 0 <= i < rest.len() implies notifid_wf(#[trigger] rest[i]) by {
            assert(rest[i] == ids[i + 1]);
            assert(notifid_wf(ids[i + 1]));
        }
        lemma_parse_id_items_tail(b, p, rest);
        assert(seq![s0] + rest =~= ids);
        assert(b[pos] == tag_byte(1, WIRE_LEN)) by {
            assert(b.subrange(pos, b.len() as int)[0] == whole[0]);
        }
    }
}

/// The encoding of an identifier list message parses back to its
/// identifiers.
pub proof fn lemma_parse_id_list_msg_encoded(b: Seq<u8>, ids: Seq<Seq<char>>)
    requires
        b == id_list_bytes(ids),
        forall|i: int| 0 <= i < ids.len() ==> notifid_wf(#[trigger] ids[i]),
    ensures
        parse_id_list_msg(b) == Some(ids),
{
    assert(b.subrange(0, b.len() as int) =~= b);
    lemma_parse_id_items_tail(b, 0, ids);
}

// ---------------------------------------------------------------------------
// schedule
// ---------------------------------------------------------------------------

/// The required fields of an encoded schedule message parse back to their
/// values, ending where the optional fields begin.
pub proof fn lemma_parse_schedule_required_encoded(b: Seq<u8>, v: ScheduleV)
    requires
        schedule_wf(v),
        schedule_required_bytes(v).len() <= b.len(),
        b.subrange(0, schedule_required_bytes(v).len() as int) == schedule_required_bytes(v),
    ensures
        parse_schedule_required(b) == Some((
            (
                v.title,
                v.body,
                v.category_identifier,
                v.subtitle,
                v.relevance_score_bits,
                v.thread_identifier,
            ),
            schedule_required_bytes(v).len() as int,
        )),
{
    let r = schedule_required_bytes(v);
    let c1 = string_field_bytes(1, v.title);
    let c2 = string_field_bytes(2, v.body);
    let c3 = string_field_bytes(3, v.category_identifier);
    let c4 = string_field_bytes(4, v.subtitle);
    let c5 = fixed64_field_bytes(5, v.relevance_score_bits);
    let c6 = string_field_bytes(6, v.thread_identifier);
    let p1 = c1.len() as int;
    let p2 = p1 + c2.len() as int;
    let p3 = p2 + c3.len() as int;
    let p4 = p3 + c4.len() as int;
    let p5 = p4 + c5.len() as int;
    let p6 = p5 + c6.len() as int;
    lemma_chunk_at(b, 0, r, 0, p1);
    assert(r.subrange(0, p1) =~= c1);
    lemma_parse_string_field_at(b, 0, 1, v.title);
    lemma_chunk_at(b, 0, r, p1, p2);
    assert(r.subrange(p1, p2) =~= c2);
    lemma_parse_string_field_at(b, p1, 2, v.body);
    lemma_chunk_at(b, 0, r, p2, p3);
    assert(r.subrange(p2, p3) =~= c3);
    lemma_parse_string_field_at(b, p2, 3, v.category_identifier);
    lemma_chunk_at(b, 0, r, p3, p4);
    assert(r.subrange(p3, p4) =~= c4);
    lemma_parse_string_field_at(b, p3, 4, v.subtitle);
    lemma_chunk_at(b, 0, r, p4, p5);
    assert(r.subrange(p4, p5) =~= c5);
    lemma_parse_fixed64_field_at(b, p4, 5, v.relevance_score_bits);
    lemma_chunk_at(b, 0, r, p5, p6);
    assert(r.subrange(p5, p6) =~= c6);
    lemma_parse_string_field_at(b, p5, 6, v.thread_identifier);
}

/// Step of [`lemma_parse_schedule_optional_tail`]: the optional filter
/// criteria field at `pos`.
proof fn lemma_schedule_step7(b: Seq<u8>, pos: int, v: ScheduleV)
    requires
        schedule_wf(v),
        0 <= pos <= b.len(),
        b.subrange(pos, b.len() as int) == schedule_optional_bytes(v),
    ensures
        parse_opt_string_field(b, pos, 7) == Some((
            v.filter_criteria,
            pos + opt_string_field_bytes(7, v.filter_criteria).len() as int,
        )),
        b.subrange(pos + opt_string_field_bytes(7, v.filter_criteria).len() as int, b.len() as int)
            == opt_user_data_bytes(v) + opt_string_field_bytes(9, v.identifier) + opt_badge_bytes(
            v,
        ) + opt_trigger_bytes(v),
{
    let o7 = opt_string_field_bytes(7, v.filter_criteria);
    let o8 = opt_user_data_bytes(v);
    let o9 = opt_string_field_bytes(9, v.identifier);
    let o10 = opt_badge_bytes(v);
    let o11 = opt_trigger_bytes(v);
    let opt = schedule_optional_bytes(v);
    assert(opt == o7 + o8 + o9 + o10 + o11);
    assert(b.len() == pos + opt.len());
    match v.filter_criteria {
        Some(s) => {
            lemma_chunk_at(b, pos, opt, 0, o7.len() as int);
            assert(opt.subrange(0, o7.len() as int) =~= o7);
            lemma_parse_opt_string_field_at(b, pos, 7, s);
        },
        None => {
            if pos < b.len() {
                assert(b[pos] == opt[0]) by {
                    assert(b.subrange(pos, b.len() as int)[0] == opt[0]);
                }
                assert(opt =~= o8 + o9 + o10 + o11);
                assert(o8.len() > 0 ==> o8[0] == tag_byte(8, WIRE_LEN));
                assert(o9.len() > 0 ==> o9[0] == tag_byte(9, WIRE_LEN));
                assert(o10.len() > 0 ==> o10[0] == tag_byte(10, WIRE_VARINT));
                assert(o11.len() > 0 ==> o11[0] == tag_byte(11, WIRE_LEN));
                assert(b[pos] != tag_byte(7, WIRE_LEN));
            }
        },
    }
    lemma_chunk_at(b, pos, opt, o7.len() as int, opt.len() as int);
    assert(opt.subrange(o7.len() as int, opt.len() as int) =~= o8 + o9 + o10 + o11);
}

/// Step of [`lemma_parse_schedule_optional_tail`]: the optional user data
/// field at `pos`.
proof fn lemma_schedule_step8(b: Seq<u8>, pos: int, v: ScheduleV)
    requires
        schedule_wf(v),
        0 <= pos <= b.len(),
        b.subrange(pos, b.len() as int) == opt_user_data_bytes(v) + opt_string_field_bytes(
            9,
            v.identifier,
        ) + opt_badge_bytes(v) + opt_trigger_bytes(v),
    ensures
        match v.user_data {
            None => parse_opt_msg_field(b, pos, 8) == Some((
                None::<Seq<u8>>,
                pos + opt_user_data_bytes(v).len() as int,
            )),
            Some(entries) => parse_opt_msg_field(b, pos, 8) == Some((
                Some(user_data_bytes(entries)),
                pos + opt_user_data_bytes(v).len() as int,
            )) && parse_user_data_msg(user_data_bytes(entries)) == Some(entries),
        },
        b.subrange(pos + opt_user_data_bytes(v).len() as int, b.len() as int)
            == opt_string_field_bytes(9, v.identifier) + opt_badge_bytes(v) + opt_trigger_bytes(v),
{
    let o8 = opt_user_data_bytes(v);
    let o9 = opt_string_field_bytes(9, v.identifier);
    let o10 = opt_badge_bytes(v);
    let o11 = opt_trigger_bytes(v);
    let whole = o8 + o9 + o10 + o11;
    assert(b.len() == pos + whole.len());
    match v.user_data {
        Some(entries) => {
            lemma_chunk_at(b, pos, whole, 0, o8.len() as int);
            assert(whole.subrange(0, o8.len() as int) =~= o8);
            assert(o8 == msg_field_bytes(8, user_data_bytes(entries)));
            lemma_parse_opt_msg_field_at(b, pos, 8, user_data_bytes(entries));
            lemma_parse_user_data_msg_encoded(user_data_bytes(entries), entries);
        },
        None => {
            if pos < b.len() {
                assert(b[pos] == whole[0]) by {
                    assert(b.subrange(pos, b.len() as int)[0] == whole[0]);
                }
                assert(whole =~= o9 + o10 + o11);
                assert(o9.len() > 0 ==> o9[0] == tag_byte(9, WIRE_LEN));
                assert(o10.len() > 0 ==> o10[0] == tag_byte(10, WIRE_VARINT));
                assert(o11.len() > 0 ==> o11[0] == tag_byte(11, WIRE_LEN));
                assert(b[pos] != tag_byte(8, WIRE_LEN));
            }
        },
    }
    lemma_chunk_at(b, pos, whole, o8.len() as int, whole.len() as int);
    assert(whole.subrange(o8.len() as int, whole.len() as int) =~= o9 + o10 + o11);
}

/// Step of [`lemma_parse_schedule_optional_tail`]: the optional identifier
/// field at `pos`.
proof fn lemma_schedule_step9(b: Seq<u8>, pos: int, v: ScheduleV)
    requires
        schedule_wf(v),
        0 <= pos <= b.len(),
        b.subrange(pos, b.len() as int) == opt_string_field_bytes(9, v.identifier)
            + opt_badge_bytes(v) + opt_trigger_bytes(v),
    ensures
        parse_opt_string_field(b, pos, 9) == Some((
            v.identifier,
            pos + opt_string_field_bytes(9, v.identifier).len() as int,
        )),
        b.subrange(pos + opt_string_field_bytes(9, v.identifier).len() as int, b.len() as int)
            == opt_badge_bytes(v) + opt_trigger_bytes(v),
{
    let o9 = opt_string_field_bytes(9, v.identifier);
    let o10 = opt_badge_bytes(v);
    let o11 = opt_trigger_bytes(v);
    let whole = o9 + o10 + o11;
    assert(b.len() == pos + whole.len());
    match v.identifier {
        Some(s) => {
            lemma_chunk_at(b, pos, whole, 0, o9.len() as int);
            assert(whole.subrange(0, o9.len() as int) =~= o9);
            lemma_parse_opt_string_field_at(b, pos, 9, s);
        },
        None => {
            if pos < b.len() {
                assert(b[pos] == whole[0]) by {
                    assert(b.subrange(pos, b.len() as int)[0] == whole[0]);
                }
                assert(whole =~= o10 + o11);
                assert(o10.len() > 0 ==> o10[0] == tag_byte(10, WIRE_VARINT));
                assert(o11.len() > 0 ==> o11[0] == tag_byte(11, WIRE_LEN));
                assert(b[pos] != tag_byte(9, WIRE_LEN));
            }
        },
    }
    lemma_chunk_at(b, pos, whole, o9.len() as int, whole.len() as int);
    assert(whole.subrange(o9.len() as int, whole.len() as int) =~= o10 + o11);
}

/// Step of [`lemma_parse_schedule_optional_tail`]: the optional badge
/// field at `pos`.
proof fn lemma_schedule_step10(b: Seq<u8>, pos: int, v: ScheduleV)
    requires
        schedule_wf(v),
        0 <= pos <= b.len(),
        b.subrange(pos, b.len() as int) == opt_badge_bytes(v) + opt_trigger_bytes(v),
    ensures
        parse_opt_sint32_field(b, pos, 10) == Some((
            v.badge,
            pos + opt_badge_bytes(v).len() as int,
        )),
        b.subrange(pos + opt_badge_bytes(v).len() as int, b.len() as int) == opt_trigger_bytes(v),
{
    let o10 = opt_badge_bytes(v);
    let o11 = opt_trigger_bytes(v);
    let whole = o10 + o11;
    assert(b.len() == pos + whole.len());
    match v.badge {
        Some(c) => {
            lemma_chunk_at(b, pos, whole, 0, o10.len() as int);
            assert(whole.subrange(0, o10.len() as int) =~= o10);
            lemma_parse_opt_sint32_field_at(b, pos, 10, c);
        },
        None => {
            if pos < b.len() {
                assert(b[pos] == whole[0]) by {
                    assert(b.subrange(pos, b.len() as int)[0] == whole[0]);
                }
                assert(whole =~= o11);
                assert(o11.len() > 0 ==> o11[0] == tag_byte(11, WIRE_LEN));
                assert(b[pos] != tag_byte(10, WIRE_VARINT));
            }
        },
    }
    lemma_chunk_at(b, pos, whole, o10.len() as int, whole.len() as int);
    assert(whole.subrange(o10.len() as int, whole.len() as int) =~= o11);
}

/// Step of [`lemma_parse_schedule_optional_tail`]: the optional trigger
/// field, filling the rest of `b`.
proof fn lemma_schedule_step11(b: Seq<u8>, pos: int, v: ScheduleV)
    requires
        schedule_wf(v),
        0 <= pos <= b.len(),
        b.subrange(pos, b.len() as int) == opt_trigger_bytes(v),
    ensures
        match v.trigger {
            None => parse_opt_msg_field(b, pos, 11) == Some((None::<Seq<u8>>, b.len() as int))
                && pos == b.len(),
            Some(t) => parse_opt_msg_field(b, pos, 11) == Some((
                Some(trigger_bytes(t)),
                b.len() as int,
            )) && parse_trigger_msg(trigger_bytes(t)) == Some(t),
        },
{
    let o11 = opt_trigger_bytes(v);
    assert(b.len() == pos + o11.len());
    match v.trigger {
        Some(t) => {
            lemma_chunk_at(b, pos, o11, 0, o11.len() as int);
            assert(o11.subrange(0, o11.len() as int) =~= o11);
            assert(o11 == msg_field_bytes(11, trigger_bytes(t)));
            lemma_parse_opt_msg_field_at(b, pos, 11, trigger_bytes(t));
            lemma_parse_trigger_encoded(trigger_bytes(t), t);
        },
        None => {
            assert(pos == b.len());
        },
    }
}

/// The optional fields of an encoded schedule message, filling the rest of
/// `b`, parse back to their values, ending at the end of `b`.
#[verifier::spinoff_prover]
#[verifier::rlimit(100)]
pub proof fn lemma_parse_schedule_optional_tail(b: Seq<u8>, pos: int, v: ScheduleV)
    requires
        schedule_wf(v),
        0 <= pos <= b.len(),
        b.subrange(pos, b.len() as int) == schedule_optional_bytes(v),
    ensures
        parse_schedule_optional(b, pos) == Some((
            (v.filter_criteria, v.user_data, v.identifier, v.badge, v.trigger),
            b.len() as int,
        )),
{
    lemma_schedule_step7(b, pos, v);
    let p7 = pos + opt_string_field_bytes(7, v.filter_criteria).len() as int;
    lemma_schedule_step8(b, p7, v);
    let p8 = p7 + opt_user_data_bytes(v).len() as int;
    lemma_schedule_step9(b, p8, v);
    let p9 = p8 + opt_string_field_bytes(9, v.identifier).len() as int;
    lemma_schedule_step10(b, p9, v);
    let p10 = p9 + opt_badge_bytes(v).len() as int;
    lemma_schedule_step11(b, p10, v);
}

/// The encoding of a schedule message parses back to its value.
pub proof fn lemma_parse_schedule_encoded(b: Seq<u8>, v: ScheduleV)
    requires
        schedule_wf(v),
        b == schedule_bytes(v),
    ensures
        parse_schedule_msg(b) == Some(v),
{
    let r = schedule_required_bytes(v);
    let opt = schedule_optional_bytes(v);
    assert(b.subrange(0, r.len() as int) =~= r);
    lemma_parse_schedule_required_encoded(b, v);
    assert(b.subrange(r.len() as int, b.len() as int) =~= opt);
    lemma_parse_schedule_optional_tail(b, r.len() as int, v);
    assert(parse_schedule_msg(b) matches Some(sv) && sv =~= v);
}

// ---------------------------------------------------------------------------
// two-field and one-field messages
// ---------------------------------------------------------------------------

/// The encoding of a schedule response message parses back to its
/// identifier.
pub proof fn lemma_parse_schedule_response_encoded(b: Seq<u8>, identifier: Seq<char>)
    requires
        b == schedule_response_bytes(identifier),
        str_wf(identifier),
    ensures
        parse_schedule_response_msg(b) == Some(identifier),
{
    assert(b.subrange(0, b.len() as int) =~= b);
    lemma_parse_string_field_at(b, 0, 1, identifier);
}

/// The encoding of a permission result message parses back to its flag.
pub proof fn lemma_parse_permission_encoded(b: Seq<u8>, granted: bool)
    requires
        b == bool_field_bytes(1, granted),
    ensures
        parse_permission_msg(b) == Some(granted),
{
    assert(b.subrange(0, b.len() as int) =~= b);
    lemma_parse_bool_field_at(b, 0, 1, granted);
}

/// The encoding of a scheduling outcome message parses back to its values.
pub proof fn lemma_parse_scheduled_encoded(b: Seq<u8>, identifier: Seq<char>, success: bool)
    requires
        b == string_field_bytes(1, identifier) + bool_field_bytes(2, success),
        str_wf(identifier),
    ensures
        parse_scheduled_msg(b) == Some((identifier, success)),
{
    let c1 = string_field_bytes(1, identifier);
    let c2 = bool_field_bytes(2, success);
    let p1 = c1.len() as int;
    let p2 = p1 + c2.len() as int;
    assert(b.subrange(0, p1) =~= c1);
    lemma_parse_string_field_at(b, 0, 1, identifier);
    assert(b.subrange(p1, p2) =~= c2);
    lemma_parse_bool_field_at(b, p1, 2, success);
    assert(p2 == b.len());
}

/// The encoding of a notification response message parses back to its
/// values.
pub proof fn lemma_parse_notification_response_encoded(
    b: Seq<u8>,
    identifier: Seq<char>,
    action: Seq<char>,
)
    requires
        b == string_field_bytes(1, identifier) + string_field_bytes(2, action),
        str_wf(identifier),
        str_wf(action),
    ensures
        parse_notification_response_msg(b) == Some((identifier, action)),
{
    let c1 = string_field_bytes(1, identifier);
    let c2 = string_field_bytes(2, action);
    let p1 = c1.len() as int;
    let p2 = p1 + c2.len() as int;
    assert(b.subrange(0, p1) =~= c1);
    lemma_parse_string_field_at(b, 0, 1, identifier);
    assert(b.subrange(p1, p2) =~= c2);
    lemma_parse_string_field_at(b, p1, 2, action);
    assert(p2 == b.len());
}

/// The encoding of a failed registration message parses back to its code
/// and description.
pub proof fn lemma_parse_failed_encoded(b: Seq<u8>, code: i32, description: Seq<char>)
    requires
        b == sint32_field_bytes(1, code) + string_field_bytes(2, description),
        str_wf(description),
    ensures
        parse_failed_msg(b) == Some((code, description)),
{
    let c1 = sint32_field_bytes(1, code);
    let c2 = string_field_bytes(2, description);
    let p1 = c1.len() as int;
    let p2 = p1 + c2.len() as int;
    assert(b.subrange(0, p1) =~= c1);
    lemma_parse_sint32_field_at(b, 0, 1, code);
    assert(b.subrange(p1, p2) =~= c2);
    lemma_parse_string_field_at(b, p1, 2, description);
    assert(p2 == b.len());
}

/// The encoding of a device token message parses back to its token.
pub proof fn lemma_parse_token_encoded(b: Seq<u8>, token: Seq<char>)
    requires
        b == string_field_bytes(1, token),
        str_wf(token),
    ensures
        parse_token_msg(b) == Some(token),
{
    assert(b.subrange(0, b.len() as int) =~= b);
    lemma_parse_string_field_at(b, 0, 1, token);
}

/// The encoding of a remote registration message parses back to its value.
pub proof fn lemma_parse_remote_registration_encoded(b: Seq<u8>, r: RemoteRegistrationV)
    requires
        b == remote_registration_bytes(r),
        match r {
            RemoteRegistrationV::Unset => true,
            RemoteRegistrationV::Failed { localized_description, .. } => str_wf(
                localized_description,
            ) && remote_registration_bytes(r).len() <= u64::MAX,
            RemoteRegistrationV::DeviceToken(token) => str_wf(token)
                && remote_registration_bytes(r).len() <= u64::MAX,
        },
    ensures
        parse_remote_registration_msg(b) == Some(r),
{
    match r {
        RemoteRegistrationV::Unset => {
            assert(b.len() == 0);
        },
        RemoteRegistrationV::Failed { code, localized_description } => {
            let payload = sint32_field_bytes(1, code) + string_field_bytes(
                2,
                localized_description,
            );
            assert(b == msg_field_bytes(1, payload));
            assert(b.subrange(0, b.len() as int) =~= b);
            lemma_parse_msg_field_at(b, 0, 1, payload);
            lemma_parse_failed_encoded(payload, code, localized_description);
        },
        RemoteRegistrationV::DeviceToken(token) => {
            let payload = string_field_bytes(1, token);
            assert(b == msg_field_bytes(2, payload));
            assert(b.subrange(0, b.len() as int) =~= b);
            lemma_parse_msg_field_at(b, 0, 2, payload);
            lemma_parse_token_encoded(payload, token);
            assert(b[0] == tag_byte(2, WIRE_LEN));
            assert(b[0] != tag_byte(1, WIRE_LEN));
        },
    }
}

// ---------------------------------------------------------------------------
// the three round-trip laws
// ---------------------------------------------------------------------------

/// Round trip of the codec for requests: every well-formed request value
/// parses back from its own encoding, unchanged.
pub proof fn lemma_request_round_trip(v: RequestV)
    requires
        request_wf(v),
    ensures
        parse_request(request_bytes(v)) == Some(v),
{
    let b = request_bytes(v);
    assert(b.subrange(0, b.len() as int) =~= b);
    assert(bool_bytes(true).len() == 1 && bool_bytes(false).len() == 1);
    match v {
        RequestV::Permissions { alert, sound, badge } => {
            let payload = permissions_bytes(alert, sound, badge);
            assert(payload.len() == 6);
            lemma_parse_msg_field_at(b, 0, 1, payload);
            lemma_parse_permissions_encoded(payload, alert, sound, badge);
        },
        RequestV::Schedule(s) => {
            let payload = schedule_bytes(s);
            lemma_parse_msg_field_at(b, 0, 2, payload);
            lemma_parse_schedule_encoded(payload, s);
            assert(parse_request(b) matches Some(rv) && rv =~= v);
        },
        RequestV::Pending => {
            let payload = Seq::<u8>::empty();
            assert(b == msg_field_bytes(3, payload));
            lemma_parse_msg_field_at(b, 0, 3, payload);
        },
        RequestV::RemovePending(ids) => {
            let payload = id_list_bytes(ids);
            lemma_parse_msg_field_at(b, 0, 4, payload);
            lemma_parse_id_list_msg_encoded(payload, ids);
        },
        RequestV::RemoveDelivered(ids) => {
            let payload = id_list_bytes(ids);
            lemma_parse_msg_field_at(b, 0, 5, payload);
            lemma_parse_id_list_msg_encoded(payload, ids);
        },
        RequestV::RemoveAllPending => {
            let payload = Seq::<u8>::empty();
            assert(b == msg_field_bytes(6, payload));
            lemma_parse_msg_field_at(b, 0, 6, payload);
        },
        RequestV::RemoveAllDelivered => {
            let payload = Seq::<u8>::empty();
            assert(b == msg_field_bytes(7, payload));
            lemma_parse_msg_field_at(b, 0, 7, payload);
        },
    }
}

/// Round trip of the codec for responses: every well-formed response value
/// parses back from its own encoding, unchanged.
pub proof fn lemma_response_round_trip(v: ResponseV)
    requires
        response_wf(v),
    ensures
        parse_response(response_bytes(v)) == Some(v),
{
    let b = response_bytes(v);
    match v {
        ResponseV::Empty => {
            assert(b.len() == 0);
        },
        ResponseV::Schedule { identifier } => {
            let payload = schedule_response_bytes(identifier);
            assert(b.subrange(0, b.len() as int) =~= b);
            lemma_parse_msg_field_at(b, 0, 2, payload);
            lemma_parse_schedule_response_encoded(payload, identifier);
        },
    }
}

/// Round trip of the codec for asynchronous events: every well-formed
/// event value parses back from its own encoding, unchanged.
pub proof fn lemma_async_event_round_trip(v: AsyncEventV)
    requires
        async_event_wf(v),
    ensures
        parse_async_event(async_event_bytes(v)) == Some(v),
{
    let b = async_event_bytes(v);
    assert(b.subrange(0, b.len() as int) =~= b);
    assert(bool_bytes(true).len() == 1 && bool_bytes(false).len() == 1);
    match v {
        AsyncEventV::Permission { granted } => {
            let payload = bool_field_bytes(1, granted);
            assert(payload.len() == 2);
            lemma_parse_msg_field_at(b, 0, 1, payload);
            lemma_parse_permission_encoded(payload, granted);
        },
        AsyncEventV::Scheduled { identifier, success } => {
            let payload = string_field_bytes(1, identifier) + bool_field_bytes(2, success);
            lemma_parse_msg_field_at(b, 0, 2, payload);
            lemma_parse_scheduled_encoded(payload, identifier, success);
        },
        AsyncEventV::Pending { items } => {
            let payload = id_list_bytes(items);
            lemma_parse_msg_field_at(b, 0, 3, payload);
            lemma_parse_id_list_msg_encoded(payload, items);
        },
        AsyncEventV::TriggeredWhileRunning { identifier } => {
            let payload = string_field_bytes(1, identifier);
            lemma_parse_msg_field_at(b, 0, 4, payload);
            lemma_parse_token_encoded(payload, identifier);
        },
        AsyncEventV::NotificationResponse { identifier, action_identifier } => {
            let payload = string_field_bytes(1, identifier) + string_field_bytes(
                2,
                action_identifier,
            );
            lemma_parse_msg_field_at(b, 0, 5, payload);
            lemma_parse_notification_response_encoded(payload, identifier, action_identifier);
        },
        AsyncEventV::RemoteRegistration(r) => {
            let payload = remote_registration_bytes(r);
            assert(payload.len() <= u64::MAX) by {
                match r {
                    RemoteRegistrationV::Unset => {
                        assert(payload.len() == 0);
                    },
                    _ => {},
                }
            }
            lemma_parse_msg_field_at(b, 0, 6, payload);
            lemma_parse_remote_registration_encoded(payload, r);
        },
    }
}

} // verus!
