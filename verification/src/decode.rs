//! Decoding of the wire messages.
//!
//! For each message a spec function parses a value out of a byte sequence,
//! and an executable decoder is proved to return exactly what the spec
//! function parses.  Parsing is strict: fields are expected in field
//! order, a required field must be present, a message must be consumed to
//! its end, and a buffer carrying no variant of a tagged union is
//! malformed (with the one exception of the empty `Response` and the empty
//! remote registration message, which the wire defines as carrying
//! nothing).  Truncated or otherwise malformed input parses to `None`,
//! never a crash.

use vstd::prelude::*;

verus! {

use vstd::slice::{slice_index_get, slice_subrange};
use crate::codec::{
    WIRE_FIXED64, WIRE_LEN, WIRE_VARINT, parse_bool, parse_fixed64, parse_len_delim,
    parse_string, parse_varint, tag_byte, u64_as_sint32, decode_bool, decode_fixed64,
    decode_len_delim, decode_string, decode_varint, u64_to_sint32,
};
use crate::messages::{
    AsyncEvent, AsyncEventV, NotificationId, Permissions, RemoteRegistration,
    RemoteRegistrationV, Request, RequestV, Response, ResponseV, Schedule, ScheduleV, Trigger,
    UserDataEntry, UserDataEntryV,
};

// ---------------------------------------------------------------------------
// fields
// ---------------------------------------------------------------------------

/// Parses a required bool field: its tag, then the varint 0 or 1.
pub open spec fn parse_bool_field(b: Seq<u8>, pos: int, field: u64) -> Option<(bool, int)> {
    if 0 <= pos < b.len() && b[pos] == tag_byte(field, WIRE_VARINT) {
        parse_bool(b, pos + 1)
    } else {
        None
    }
}

/// Parses a required string field: its tag, then the string.
pub open spec fn parse_string_field(b: Seq<u8>, pos: int, field: u64) -> Option<
    (Seq<char>, int),
> {
    if 0 <= pos < b.len() && b[pos] == tag_byte(field, WIRE_LEN) {
        parse_string(b, pos + 1)
    } else {
        None
    }
}

/// Parses a required 64-bit field: its tag, then eight bytes.
pub open spec fn parse_fixed64_field(b: Seq<u8>, pos: int, field: u64) -> Option<(u64, int)> {
    if 0 <= pos < b.len() && b[pos] == tag_byte(field, WIRE_FIXED64) {
        parse_fixed64(b, pos + 1)
    } else {
        None
    }
}

/// Parses a required signed 32-bit field: its tag, then a varint carrying
/// a 64-bit two's-complement image of a 32-bit value.
pub open spec fn parse_sint32_field(b: Seq<u8>, pos: int, field: u64) -> Option<(i32, int)> {
    if 0 <= pos < b.len() && b[pos] == tag_byte(field, WIRE_VARINT) {
        match parse_varint(b, pos + 1) {
            None => None,
            Some((n, p)) => match u64_as_sint32(n) {
                None => None,
                Some(v) => Some((v, p)),
            },
        }
    } else {
        None
    }
}

/// Parses a required nested-message field: its tag, then the
/// length-delimited payload.
pub open spec fn parse_msg_field(b: Seq<u8>, pos: int, field: u64) -> Option<(Seq<u8>, int)> {
    if 0 <= pos < b.len() && b[pos] == tag_byte(field, WIRE_LEN) {
        parse_len_delim(b, pos + 1)
    } else {
        None
    }
}

/// Parses an optional string field: absent (without moving) when the next
/// byte is not its tag or the buffer is exhausted.
pub open spec fn parse_opt_string_field(b: Seq<u8>, pos: int, field: u64) -> Option<
    (Option<Seq<char>>, int),
> {
    if 0 <= pos < b.len() && b[pos] == tag_byte(field, WIRE_LEN) {
        match parse_string(b, pos + 1) {
            None => None,
            Some((s, p)) => Some((Some(s), p)),
        }
    } else {
        Some((None, pos))
    }
}

/// Parses an optional nested-message field, as `parse_opt_string_field`
/// does for strings.
pub open spec fn parse_opt_msg_field(b: Seq<u8>, pos: int, field: u64) -> Option<
    (Option<Seq<u8>>, int),
> {
    if 0 <= pos < b.len() && b[pos] == tag_byte(field, WIRE_LEN) {
        match parse_len_delim(b, pos + 1) {
            None => None,
            Some((payload, p)) => Some((Some(payload), p)),
        }
    } else {
        Some((None, pos))
    }
}

/// Parses an optional signed 32-bit field.
pub open spec fn parse_opt_sint32_field(b: Seq<u8>, pos: int, field: u64) -> Option<
    (Option<i32>, int),
> {
    if 0 <= pos < b.len() && b[pos] == tag_byte(field, WIRE_VARINT) {
        match parse_varint(b, pos + 1) {
            None => None,
            Some((n, p)) => match u64_as_sint32(n) {
                None => None,
                Some(v) => Some((Some(v), p)),
            },
        }
    } else {
        Some((None, pos))
    }
}

/// The payload of the one length-delimited field filling `b` entirely, a
/// tagged union's variant.
pub open spec fn parse_exact_msg_field(b: Seq<u8>, field: u64) -> Option<Seq<u8>> {
    match parse_msg_field(b, 0, field) {
        None => None,
        Some((payload, end)) => if end == b.len() {
            Some(payload)
        } else {
            None
        },
    }
}

/// Reads a required bool field, as `parse_bool_field` describes.
pub fn decode_bool_field(b: &[u8], pos: usize, field: u64) -> (r: Option<(bool, usize)>)
    requires
        1 <= field <= 15,
    ensures
        match r {
            Some((v, end)) => parse_bool_field(b@, pos as int, field) == Some((v, end as int))
                && pos < end <= b@.len(),
            None => parse_bool_field(b@, pos as int, field) is None,
        },
{
    if pos < b.len() && *slice_index_get(b, pos) == (field * 8 + WIRE_VARINT) as u8 {
        decode_bool(b, pos + 1)
    } else {
        None
    }
}

/// Reads a required string field, as `parse_string_field` describes.
pub fn decode_string_field(b: &[u8], pos: usize, field: u64) -> (r: Option<(String, usize)>)
    requires
        1 <= field <= 15,
    ensures
        match r {
            Some((s, end)) => parse_string_field(b@, pos as int, field) matches Some((sv, e))
                && sv == s@ && e == end as int && pos < end <= b@.len(),
            None => parse_string_field(b@, pos as int, field) is None,
        },
{
    if pos < b.len() && *slice_index_get(b, pos) == (field * 8 + WIRE_LEN) as u8 {
        decode_string(b, pos + 1)
    } else {
        None
    }
}

/// Reads a required 64-bit field, as `parse_fixed64_field` describes.
pub fn decode_fixed64_field(b: &[u8], pos: usize, field: u64) -> (r: Option<(u64, usize)>)
    requires
        1 <= field <= 15,
    ensures
        match r {
            Some((n, end)) => parse_fixed64_field(b@, pos as int, field) == Some((n, end as int))
                && pos < end <= b@.len(),
            None => parse_fixed64_field(b@, pos as int, field) is None,
        },
{
    if pos < b.len() && *slice_index_get(b, pos) == (field * 8 + WIRE_FIXED64) as u8 {
        decode_fixed64(b, pos + 1)
    } else {
        None
    }
}

/// Reads a required signed 32-bit field, as `parse_sint32_field`
/// describes.
pub fn decode_sint32_field(b: &[u8], pos: usize, field: u64) -> (r: Option<(i32, usize)>)
    requires
        1 <= field <= 15,
    ensures
        match r {
            Some((v, end)) => parse_sint32_field(b@, pos as int, field) == Some((v, end as int))
                && pos < end <= b@.len(),
            None => parse_sint32_field(b@, pos as int, field) is None,
        },
{
    if pos < b.len() && *slice_index_get(b, pos) == (field * 8 + WIRE_VARINT) as u8 {
        match decode_varint(b, pos + 1) {
            None => None,
            Some((n, p)) => match u64_to_sint32(n) {
                None => None,
                Some(v) => Some((v, p)),
            },
        }
    } else {
        None
    }
}

/// Reads a required nested-message field and returns the bounds of its
/// payload, as `parse_msg_field` describes.
pub fn decode_msg_field(b: &[u8], pos: usize, field: u64) -> (r: Option<(usize, usize)>)
    requires
        1 <= field <= 15,
    ensures
        match r {
            Some((start, end)) => {
                &&& parse_msg_field(b@, pos as int, field) == Some((
                    b@.subrange(start as int, end as int),
                    end as int,
                ))
                &&& pos < end <= b@.len()
                &&& start <= end
            },
            None => parse_msg_field(b@, pos as int, field) is None,
        },
{
    if pos < b.len() && *slice_index_get(b, pos) == (field * 8 + WIRE_LEN) as u8 {
        decode_len_delim(b, pos + 1)
    } else {
        None
    }
}

// ---------------------------------------------------------------------------
// leaf messages
// ---------------------------------------------------------------------------

/// Parses a permissions message filling `b`.
pub open spec fn parse_permissions_msg(b: Seq<u8>) -> Option<(bool, bool, bool)> {
    match parse_bool_field(b, 0, 1) {
        None => None,
        Some((alert, p1)) => match parse_bool_field(b, p1, 2) {
            None => None,
            Some((sound, p2)) => match parse_bool_field(b, p2, 3) {
                None => None,
                Some((badge, p3)) => if p3 == b.len() {
                    Some((alert, sound, badge))
                } else {
                    None
                },
            },
        },
    }
}

/// Reads a permissions message, as `parse_permissions_msg` describes.
pub fn decode_permissions_msg(b: &[u8]) -> (r: Option<Permissions>)
    ensures
        match r {
            Some(p) => parse_permissions_msg(b@) == Some((p.alert, p.sound, p.badge)),
            None => parse_permissions_msg(b@) is None,
        },
{
    match decode_bool_field(b, 0, 1) {
        None => None,
        Some((alert, p1)) => match decode_bool_field(b, p1, 2) {
            None => None,
            Some((sound, p2)) => match decode_bool_field(b, p2, 3) {
                None => None,
                Some((badge, p3)) => if p3 == b.len() {
                    Some(Permissions { alert, sound, badge })
                } else {
                    None
                },
            },
        },
    }
}

/// Parses a trigger message filling `b`.
pub open spec fn parse_trigger_msg(b: Seq<u8>) -> Option<Trigger> {
    match parse_bool_field(b, 0, 1) {
        None => None,
        Some((repeat, p1)) => match parse_fixed64_field(b, p1, 2) {
            None => None,
            Some((seconds_bits, p2)) => if p2 == b.len() {
                Some(Trigger { repeat, seconds_bits })
            } else {
                None
            },
        },
    }
}

/// Reads a trigger message, as `parse_trigger_msg` describes.
pub fn decode_trigger_msg(b: &[u8]) -> (r: Option<Trigger>)
    ensures
        match r {
            Some(t) => parse_trigger_msg(b@) == Some(t),
            None => parse_trigger_msg(b@) is None,
        },
{
    match decode_bool_field(b, 0, 1) {
        None => None,
        Some((repeat, p1)) => match decode_fixed64_field(b, p1, 2) {
            None => None,
            Some((seconds_bits, p2)) => if p2 == b.len() {
                Some(Trigger { repeat, seconds_bits })
            } else {
                None
            },
        },
    }
}

/// Parses a user data entry message filling `b`.
pub open spec fn parse_entry_msg(b: Seq<u8>) -> Option<UserDataEntryV> {
    match parse_string_field(b, 0, 1) {
        None => None,
        Some((key, p1)) => match parse_string_field(b, p1, 2) {
            None => None,
            Some((value, p2)) => if p2 == b.len() {
                Some(UserDataEntryV { key, value })
            } else {
                None
            },
        },
    }
}

/// Reads a user data entry message, as `parse_entry_msg` describes.
pub fn decode_entry_msg(b: &[u8]) -> (r: Option<UserDataEntry>)
    ensures
        match r {
            Some(e) => parse_entry_msg(b@) == Some(e@),
            None => parse_entry_msg(b@) is None,
        },
{
    match decode_string_field(b, 0, 1) {
        None => None,
        Some((key, p1)) => match decode_string_field(b, p1, 2) {
            None => None,
            Some((value, p2)) => if p2 == b.len() {
                let e = UserDataEntry { key, value };
                assert(parse_entry_msg(b@) == Some(e@));
                Some(e)
            } else {
                None
            },
        },
    }
}

/// Parses a notification identifier message filling `b`.
pub open spec fn parse_notifid_msg(b: Seq<u8>) -> Option<Seq<char>> {
    match parse_string_field(b, 0, 1) {
        None => None,
        Some((s, p1)) => if p1 == b.len() {
            Some(s)
        } else {
            None
        },
    }
}

/// Reads a notification identifier message, as `parse_notifid_msg`
/// describes.
pub fn decode_notifid_msg(b: &[u8]) -> (r: Option<NotificationId>)
    ensures
        match r {
            Some(n) => parse_notifid_msg(b@) == Some(n@),
            None => parse_notifid_msg(b@) is None,
        },
{
    match decode_string_field(b, 0, 1) {
        None => None,
        Some((identifier, p1)) => if p1 == b.len() {
            Some(NotificationId { identifier })
        } else {
            None
        },
    }
}

// ---------------------------------------------------------------------------
// repeated items
// ---------------------------------------------------------------------------

/// Parses the run of user data entry fields starting at `pos`: one
/// length-delimited entry message per `items` tag, until the tag stops
/// appearing.
pub open spec fn parse_user_data_items(b: Seq<u8>, pos: int) -> Option<
    (Seq<UserDataEntryV>, int),
>
    decreases b.len() - pos,
{
    if 0 <= pos < b.len() && b[pos] == tag_byte(1, WIRE_LEN) {
        match parse_len_delim(b, pos + 1) {
            None => None,
            Some((payload, p)) => if pos + 1 < p <= b.len() {
                match parse_entry_msg(payload) {
                    None => None,
                    Some(e) => match parse_user_data_items(b, p) {
                        None => None,
                        Some((rest, end)) => Some((seq![e] + rest, end)),
                    },
                }
            } else {
                None
            },
        }
    } else {
        Some((Seq::empty(), pos))
    }
}

/// Parses a user data message filling `b`.
pub open spec fn parse_user_data_msg(b: Seq<u8>) -> Option<Seq<UserDataEntryV>> {
    match parse_user_data_items(b, 0) {
        None => None,
        Some((entries, end)) => if end == b.len() {
            Some(entries)
        } else {
            None
        },
    }
}

/// Reads the run of user data entry fields starting at `pos`, as
/// `parse_user_data_items` describes.
fn decode_user_data_items(b: &[u8], pos: usize) -> (r: Option<(Vec<UserDataEntry>, usize)>)
    requires
        pos <= b@.len(),
    ensures
        match r {
            Some((entries, end)) => parse_user_data_items(b@, pos as int) matches Some((ev, e))
                && ev == entries@.map_values(|x: UserDataEntry| x@) && e == end as int
                && pos <= end <= b@.len(),
            None => parse_user_data_items(b@, pos as int) is None,
        },
    decreases b@.len() - pos,
{
    if pos < b.len() && *slice_index_get(b, pos) == (1 * 8 + WIRE_LEN) as u8 {
        match decode_len_delim(b, pos + 1) {
            None => None,
            Some((start, end)) => {
                let payload = slice_subrange(b, start, end);
                match decode_entry_msg(payload) {
                    None => None,
                    Some(e) => match decode_user_data_items(b, end) {
                        None => None,
                        Some((rest, fin)) => {
                            let mut entries = rest;
                            entries.insert(0, e);
                            proof {
                                assert(entries@.map_values(|x: UserDataEntry| x@) =~= seq![e@]
                                    + rest@.map_values(|x: UserDataEntry| x@));
                            }
                            Some((entries, fin))
                        },
                    },
                }
            },
        }
    } else {
        Some((Vec::new(), pos))
    }
}

/// Reads a user data message, as `parse_user_data_msg` describes.
pub fn decode_user_data_msg(b: &[u8]) -> (r: Option<Vec<UserDataEntry>>)
    ensures
        match r {
            Some(entries) => parse_user_data_msg(b@) == Some(
                entries@.map_values(|x: UserDataEntry| x@),
            ),
            None => parse_user_data_msg(b@) is None,
        },
{
    match decode_user_data_items(b, 0) {
        None => None,
        Some((entries, end)) => if end == b.len() {
            Some(entries)
        } else {
            None
        },
    }
}

/// Parses the run of notification identifier fields starting at `pos`.
pub open spec fn parse_id_items(b: Seq<u8>, pos: int) -> Option<(Seq<Seq<char>>, int)>
    decreases b.len() - pos,
{
    if 0 <= pos < b.len() && b[pos] == tag_byte(1, WIRE_LEN) {
        match parse_len_delim(b, pos + 1) {
            None => None,
            Some((payload, p)) => if pos + 1 < p <= b.len() {
                match parse_notifid_msg(payload) {
                    None => None,
                    Some(s) => match parse_id_items(b, p) {
                        None => None,
                        Some((rest, end)) => Some((seq![s] + rest, end)),
                    },
                }
            } else {
                None
            },
        }
    } else {
        Some((Seq::empty(), pos))
    }
}

/// Parses an identifier list message filling `b`.
pub open spec fn parse_id_list_msg(b: Seq<u8>) -> Option<Seq<Seq<char>>> {
    match parse_id_items(b, 0) {
        None => None,
        Some((ids, end)) => if end == b.len() {
            Some(ids)
        } else {
            None
        },
    }
}

/// Reads the run of notification identifier fields starting at `pos`, as
/// `parse_id_items` describes.
fn decode_id_items(b: &[u8], pos: usize) -> (r: Option<(Vec<NotificationId>, usize)>)
    requires
        pos <= b@.len(),
    ensures
        match r {
            Some((ids, end)) => parse_id_items(b@, pos as int) matches Some((iv, e))
                && iv == ids@.map_values(|x: NotificationId| x@) && e == end as int
                && pos <= end <= b@.len(),
            None => parse_id_items(b@, pos as int) is None,
        },
    decreases b@.len() - pos,
{
    if pos < b.len() && *slice_index_get(b, pos) == (1 * 8 + WIRE_LEN) as u8 {
        match decode_len_delim(b, pos + 1) {
            None => None,
            Some((start, end)) => {
                let payload = slice_subrange(b, start, end);
                match decode_notifid_msg(payload) {
                    None => None,
                    Some(n) => match decode_id_items(b, end) {
                        None => None,
                        Some((rest, fin)) => {
                            let mut ids = rest;
                            ids.insert(0, n);
                            proof {
                                assert(ids@.map_values(|x: NotificationId| x@) =~= seq![n@]
                                    + rest@.map_values(|x: NotificationId| x@));
                            }
                            Some((ids, fin))
                        },
                    },
                }
            },
        }
    } else {
        Some((Vec::new(), pos))
    }
}

/// Reads an identifier list message, as `parse_id_list_msg` describes.
pub fn decode_id_list_msg(b: &[u8]) -> (r: Option<Vec<NotificationId>>)
    ensures
        match r {
            Some(ids) => parse_id_list_msg(b@) == Some(
                ids@.map_values(|x: NotificationId| x@),
            ),
            None => parse_id_list_msg(b@) is None,
        },
{
    match decode_id_items(b, 0) {
        None => None,
        Some((ids, end)) => if end == b.len() {
            Some(ids)
        } else {
            None
        },
    }
}

// ---------------------------------------------------------------------------
// schedule
// ---------------------------------------------------------------------------

/// Parses the six required fields of a schedule message.
pub open spec fn parse_schedule_required(b: Seq<u8>) -> Option<
    ((Seq<char>, Seq<char>, Seq<char>, Seq<char>, u64, Seq<char>), int),
> {
    match parse_string_field(b, 0, 1) {
        None => None,
        Some((title, p1)) => match parse_string_field(b, p1, 2) {
            None => None,
            Some((body, p2)) => match parse_string_field(b, p2, 3) {
                None => None,
                Some((category, p3)) => match parse_string_field(b, p3, 4) {
                    None => None,
                    Some((subtitle, p4)) => match parse_fixed64_field(b, p4, 5) {
                        None => None,
                        Some((bits, p5)) => match parse_string_field(b, p5, 6) {
                            None => None,
                            Some((thread, p6)) => Some((
                                (title, body, category, subtitle, bits, thread),
                                p6,
                            )),
                        },
                    },
                },
            },
        },
    }
}

/// Parses the five optional fields of a schedule message, starting at
/// `pos`.
pub open spec fn parse_schedule_optional(b: Seq<u8>, pos: int) -> Option<
    (
        (
            Option<Seq<char>>,
            Option<Seq<UserDataEntryV>>,
            Option<Seq<char>>,
            Option<i32>,
            Option<Trigger>,
        ),
        int,
    ),
> {
    match parse_opt_string_field(b, pos, 7) {
        None => None,
        Some((filter_criteria, p7)) => match parse_opt_msg_field(b, p7, 8) {
            None => None,
            Some((ud_payload, p8)) => {
                let user_data = match ud_payload {
                    None => Some(None),
                    Some(payload) => match parse_user_data_msg(payload) {
                        None => None,
                        Some(entries) => Some(Some(entries)),
                    },
                };
                match user_data {
                    None => None,
                    Some(user_data) => match parse_opt_string_field(b, p8, 9) {
                        None => None,
                        Some((identifier, p9)) => match parse_opt_sint32_field(b, p9, 10) {
                            None => None,
                            Some((badge, p10)) => match parse_opt_msg_field(b, p10, 11) {
                                None => None,
                                Some((tr_payload, p11)) => {
                                    let trigger = match tr_payload {
                                        None => Some(None),
                                        Some(payload) => match parse_trigger_msg(payload) {
                                            None => None,
                                            Some(t) => Some(Some(t)),
                                        },
                                    };
                                    match trigger {
                                        None => None,
                                        Some(trigger) => Some((
                                            (filter_criteria, user_data, identifier, badge, trigger),
                                            p11,
                                        )),
                                    }
                                },
                            },
                        },
                    },
                }
            },
        },
    }
}

/// Parses a schedule message filling `b`.
pub open spec fn parse_schedule_msg(b: Seq<u8>) -> Option<ScheduleV> {
    match parse_schedule_required(b) {
        None => None,
        Some(((title, body, category_identifier, subtitle, relevance_score_bits, thread_identifier), p6)) => {
            match parse_schedule_optional(b, p6) {
                None => None,
                Some(((filter_criteria, user_data, identifier, badge, trigger), p11)) => {
                    if p11 == b.len() {
                        Some(ScheduleV {
                            title,
                            body,
                            category_identifier,
                            subtitle,
                            relevance_score_bits,
                            thread_identifier,
                            filter_criteria,
                            user_data,
                            identifier,
                            badge,
                            trigger,
                        })
                    } else {
                        None
                    }
                },
            }
        },
    }
}

/// Reads an optional string field, as `parse_opt_string_field` describes.
fn decode_opt_string_field(b: &[u8], pos: usize, field: u64) -> (r: Option<
    (Option<String>, usize),
>)
    requires
        1 <= field <= 15,
        pos <= b@.len(),
    ensures
        match r {
            Some((v, end)) => parse_opt_string_field(b@, pos as int, field) matches Some((sv, e))
                && e == end as int && pos <= end <= b@.len() && (match (v, sv) {
                (Some(s), Some(svv)) => svv == s@,
                (None, None) => true,
                _ => false,
            }),
            None => parse_opt_string_field(b@, pos as int, field) is None,
        },
{
    if pos < b.len() && *slice_index_get(b, pos) == (field * 8 + WIRE_LEN) as u8 {
        match decode_string(b, pos + 1) {
            None => None,
            Some((s, end)) => Some((Some(s), end)),
        }
    } else {
        Some((None, pos))
    }
}

/// Reads an optional nested-message field and returns the bounds of its
/// payload, as `parse_opt_msg_field` describes.
fn decode_opt_msg_field(b: &[u8], pos: usize, field: u64) -> (r: Option<
    (Option<(usize, usize)>, usize),
>)
    requires
        1 <= field <= 15,
        pos <= b@.len(),
    ensures
        match r {
            Some((v, end)) => parse_opt_msg_field(b@, pos as int, field) matches Some((pv, e))
                && e == end as int && pos <= end <= b@.len() && (match (v, pv) {
                (Some((start, stop)), Some(payload)) => payload == b@.subrange(
                    start as int,
                    stop as int,
                ) && start <= stop <= b@.len(),
                (None, None) => true,
                _ => false,
            }),
            None => parse_opt_msg_field(b@, pos as int, field) is None,
        },
{
    if pos < b.len() && *slice_index_get(b, pos) == (field * 8 + WIRE_LEN) as u8 {
        match decode_len_delim(b, pos + 1) {
            None => None,
            Some((start, stop)) => Some((Some((start, stop)), stop)),
        }
    } else {
        Some((None, pos))
    }
}

/// Reads an optional signed 32-bit field, as `parse_opt_sint32_field`
/// describes.
fn decode_opt_sint32_field(b: &[u8], pos: usize, field: u64) -> (r: Option<
    (Option<i32>, usize),
>)
    requires
        1 <= field <= 15,
        pos <= b@.len(),
    ensures
        match r {
            Some((v, end)) => parse_opt_sint32_field(b@, pos as int, field) == Some((
                v,
                end as int,
            )) && pos <= end <= b@.len(),
            None => parse_opt_sint32_field(b@, pos as int, field) is None,
        },
{
    if pos < b.len() && *slice_index_get(b, pos) == (field * 8 + WIRE_VARINT) as u8 {
        match decode_varint(b, pos + 1) {
            None => None,
            Some((n, p)) => match u64_to_sint32(n) {
                None => None,
                Some(v) => Some((Some(v), p)),
            },
        }
    } else {
        Some((None, pos))
    }
}

/// Reads a schedule message, as `parse_schedule_msg` describes.
#[verifier::spinoff_prover]
#[verifier::rlimit(100)]
pub fn decode_schedule_msg(b: &[u8]) -> (r: Option<Schedule>)
    ensures
        match r {
            Some(s) => parse_schedule_msg(b@) == Some(s@),
            None => parse_schedule_msg(b@) is None,
        },
{
    let req = match decode_string_field(b, 0, 1) {
        None => None,
        Some((title, p1)) => match decode_string_field(b, p1, 2) {
            None => None,
            Some((body, p2)) => match decode_string_field(b, p2, 3) {
                None => None,
                Some((category, p3)) => match decode_string_field(b, p3, 4) {
                    None => None,
                    Some((subtitle, p4)) => match decode_fixed64_field(b, p4, 5) {
                        None => None,
                        Some((bits, p5)) => match decode_string_field(b, p5, 6) {
                            None => None,
                            Some((thread, p6)) => Some((
                                (title, body, category, subtitle, bits, thread),
                                p6,
                            )),
                        },
                    },
                },
            },
        },
    };
    match req {
        None => {
            assert(parse_schedule_required(b@) is None);
            None
        },
        Some(((title, body, category_identifier, subtitle, relevance_score_bits, thread_identifier), p6)) => {
            assert(parse_schedule_required(b@) matches Some((rv, e)) && e == p6 as int
                && rv.0 == title@ && rv.1 == body@ && rv.2 == category_identifier@
                && rv.3 == subtitle@ && rv.4 == relevance_score_bits
                && rv.5 == thread_identifier@);
            match decode_opt_string_field(b, p6, 7) {
                None => None,
                Some((filter_criteria, p7)) => match decode_opt_msg_field(b, p7, 8) {
                    None => None,
                    Some((ud_bounds, p8)) => {
                        let user_data: Option<Vec<UserDataEntry>> = match ud_bounds {
                            None => None,
                            Some((start, stop)) => {
                                let payload = slice_subrange(b, start, stop);
                                match decode_user_data_msg(payload) {
                                    None => {
                                        return None;
                                    },
                                    Some(entries) => Some(entries),
                                }
                            },
                        };
                        match decode_opt_string_field(b, p8, 9) {
                            None => None,
                            Some((identifier, p9)) => match decode_opt_sint32_field(b, p9, 10) {
                                None => None,
                                Some((badge, p10)) => match decode_opt_msg_field(b, p10, 11) {
                                    None => None,
                                    Some((tr_bounds, p11)) => {
                                        let trigger: Option<Trigger> = match tr_bounds {
                                            None => None,
                                            Some((start, stop)) => {
                                                let payload = slice_subrange(b, start, stop);
                                                match decode_trigger_msg(payload) {
                                                    None => {
                                                        return None;
                                                    },
                                                    Some(t) => Some(t),
                                                }
                                            },
                                        };
                                        if p11 == b.len() {
                                            let s = Schedule {
                                                title,
                                                body,
                                                category_identifier,
                                                subtitle,
                                                relevance_score_bits,
                                                thread_identifier,
                                                filter_criteria,
                                                user_data,
                                                identifier,
                                                badge,
                                                trigger,
                                            };
                                            assert(parse_schedule_msg(b@) matches Some(sv)
                                                && sv =~= s@);
                                            Some(s)
                                        } else {
                                            None
                                        }
                                    },
                                },
                            },
                        }
                    },
                },
            }
        },
    }
}

// ---------------------------------------------------------------------------
// requests
// ---------------------------------------------------------------------------

/// Parses a request filling `b`.  A buffer carrying no variant is
/// malformed.
pub open spec fn parse_request(b: Seq<u8>) -> Option<RequestV> {
    if b.len() == 0 {
        None
    } else if b[0] == tag_byte(1, WIRE_LEN) {
        match parse_exact_msg_field(b, 1) {
            None => None,
            Some(payload) => match parse_permissions_msg(payload) {
                None => None,
                Some((alert, sound, badge)) => Some(RequestV::Permissions { alert, sound, badge }),
            },
        }
    } else if b[0] == tag_byte(2, WIRE_LEN) {
        match parse_exact_msg_field(b, 2) {
            None => None,
            Some(payload) => match parse_schedule_msg(payload) {
                None => None,
                Some(s) => Some(RequestV::Schedule(s)),
            },
        }
    } else if b[0] == tag_byte(3, WIRE_LEN) {
        match parse_exact_msg_field(b, 3) {
            None => None,
            Some(payload) => if payload.len() == 0 {
                Some(RequestV::Pending)
            } else {
                None
            },
        }
    } else if b[0] == tag_byte(4, WIRE_LEN) {
        match parse_exact_msg_field(b, 4) {
            None => None,
            Some(payload) => match parse_id_list_msg(payload) {
                None => None,
                Some(ids) => Some(RequestV::RemovePending(ids)),
            },
        }
    } else if b[0] == tag_byte(5, WIRE_LEN) {
        match parse_exact_msg_field(b, 5) {
            None => None,
            Some(payload) => match parse_id_list_msg(payload) {
                None => None,
                Some(ids) => Some(RequestV::RemoveDelivered(ids)),
            },
        }
    } else if b[0] == tag_byte(6, WIRE_LEN) {
        match parse_exact_msg_field(b, 6) {
            None => None,
            Some(payload) => if payload.len() == 0 {
                Some(RequestV::RemoveAllPending)
            } else {
                None
            },
        }
    } else if b[0] == tag_byte(7, WIRE_LEN) {
        match parse_exact_msg_field(b, 7) {
            None => None,
            Some(payload) => if payload.len() == 0 {
                Some(RequestV::RemoveAllDelivered)
            } else {
                None
            },
        }
    } else {
        None
    }
}

/// Reads a variant's payload filling `b`, as `parse_exact_msg_field`
/// describes: its bounds within `b`, or `None`.
fn decode_exact_msg_field(b: &[u8], field: u64) -> (r: Option<(usize, usize)>)
    requires
        1 <= field <= 15,
    ensures
        match r {
            Some((start, stop)) => parse_exact_msg_field(b@, field) == Some(
                b@.subrange(start as int, stop as int),
            ) && start <= stop <= b@.len(),
            None => parse_exact_msg_field(b@, field) is None,
        },
{
    match decode_msg_field(b, 0, field) {
        None => None,
        Some((start, stop)) => if stop == b.len() {
            Some((start, stop))
        } else {
            None
        },
    }
}

/// Reads a request, as `parse_request` describes.
pub fn decode_request(b: &[u8]) -> (r: Option<Request>)
    ensures
        match r {
            Some(req) => parse_request(b@) == Some(req@),
            None => parse_request(b@) is None,
        },
{
    if b.len() == 0 {
        return None;
    }
    let first = *slice_index_get(b, 0);
    if first == (1 * 8 + WIRE_LEN) as u8 {
        match decode_exact_msg_field(b, 1) {
            None => None,
            Some((start, stop)) => {
                let payload = slice_subrange(b, start, stop);
                match decode_permissions_msg(payload) {
                    None => None,
                    Some(p) => Some(Request::Permissions(p)),
                }
            },
        }
    } else if first == (2 * 8 + WIRE_LEN) as u8 {
        match decode_exact_msg_field(b, 2) {
            None => None,
            Some((start, stop)) => {
                let payload = slice_subrange(b, start, stop);
                match decode_schedule_msg(payload) {
                    None => None,
                    Some(s) => Some(Request::Schedule(s)),
                }
            },
        }
    } else if first == (3 * 8 + WIRE_LEN) as u8 {
        match decode_exact_msg_field(b, 3) {
            None => None,
            Some((start, stop)) => if stop - start == 0 {
                Some(Request::Pending)
            } else {
                None
            },
        }
    } else if first == (4 * 8 + WIRE_LEN) as u8 {
        match decode_exact_msg_field(b, 4) {
            None => None,
            Some((start, stop)) => {
                let payload = slice_subrange(b, start, stop);
                match decode_id_list_msg(payload) {
                    None => None,
                    Some(ids) => Some(Request::RemovePending(ids)),
                }
            },
        }
    } else if first == (5 * 8 + WIRE_LEN) as u8 {
        match decode_exact_msg_field(b, 5) {
            None => None,
            Some((start, stop)) => {
                let payload = slice_subrange(b, start, stop);
                match decode_id_list_msg(payload) {
                    None => None,
                    Some(ids) => Some(Request::RemoveDelivered(ids)),
                }
            },
        }
    } else if first == (6 * 8 + WIRE_LEN) as u8 {
        match decode_exact_msg_field(b, 6) {
            None => None,
            Some((start, stop)) => if stop - start == 0 {
                Some(Request::RemoveAllPending)
            } else {
                None
            },
        }
    } else if first == (7 * 8 + WIRE_LEN) as u8 {
        match decode_exact_msg_field(b, 7) {
            None => None,
            Some((start, stop)) => if stop - start == 0 {
                Some(Request::RemoveAllDelivered)
            } else {
                None
            },
        }
    } else {
        None
    }
}

// ---------------------------------------------------------------------------
// responses
// ---------------------------------------------------------------------------

/// Parses a schedule response message filling `b`.
pub open spec fn parse_schedule_response_msg(b: Seq<u8>) -> Option<Seq<char>> {
    match parse_string_field(b, 0, 1) {
        None => None,
        Some((s, p1)) => if p1 == b.len() {
            Some(s)
        } else {
            None
        },
    }
}

/// Parses a response filling `b`.  An empty buffer is the reply without a
/// structured payload.
pub open spec fn parse_response(b: Seq<u8>) -> Option<ResponseV> {
    if b.len() == 0 {
        Some(ResponseV::Empty)
    } else if b[0] == tag_byte(2, WIRE_LEN) {
        match parse_exact_msg_field(b, 2) {
            None => None,
            Some(payload) => match parse_schedule_response_msg(payload) {
                None => None,
                Some(identifier) => Some(ResponseV::Schedule { identifier }),
            },
        }
    } else {
        None
    }
}

/// Reads a response, as `parse_response` describes.
pub fn decode_response(b: &[u8]) -> (r: Option<Response>)
    ensures
        match r {
            Some(resp) => parse_response(b@) == Some(resp@),
            None => parse_response(b@) is None,
        },
{
    if b.len() == 0 {
        return Some(Response::Empty);
    }
    let first = *slice_index_get(b, 0);
    if first == (2 * 8 + WIRE_LEN) as u8 {
        match decode_exact_msg_field(b, 2) {
            None => None,
            Some((start, stop)) => {
                let payload = slice_subrange(b, start, stop);
                match decode_string_field(payload, 0, 1) {
                    None => None,
                    Some((identifier, p1)) => if p1 == payload.len() {
                        Some(Response::Schedule { identifier })
                    } else {
                        None
                    },
                }
            },
        }
    } else {
        None
    }
}

// ---------------------------------------------------------------------------
// asynchronous events
// ---------------------------------------------------------------------------

/// Parses a permission result message filling `b`.
pub open spec fn parse_permission_msg(b: Seq<u8>) -> Option<bool> {
    match parse_bool_field(b, 0, 1) {
        None => None,
        Some((granted, p1)) => if p1 == b.len() {
            Some(granted)
        } else {
            None
        },
    }
}

/// Parses a scheduling outcome message filling `b`.
pub open spec fn parse_scheduled_msg(b: Seq<u8>) -> Option<(Seq<char>, bool)> {
    match parse_string_field(b, 0, 1) {
        None => None,
        Some((identifier, p1)) => match parse_bool_field(b, p1, 2) {
            None => None,
            Some((success, p2)) => if p2 == b.len() {
                Some((identifier, success))
            } else {
                None
            },
        },
    }
}

/// Parses a notification response message filling `b`.
pub open spec fn parse_notification_response_msg(b: Seq<u8>) -> Option<(Seq<char>, Seq<char>)> {
    match parse_string_field(b, 0, 1) {
        None => None,
        Some((identifier, p1)) => match parse_string_field(b, p1, 2) {
            None => None,
            Some((action, p2)) => if p2 == b.len() {
                Some((identifier, action))
            } else {
                None
            },
        },
    }
}

/// Parses a failed registration message filling `b`.
pub open spec fn parse_failed_msg(b: Seq<u8>) -> Option<(i32, Seq<char>)> {
    match parse_sint32_field(b, 0, 1) {
        None => None,
        Some((code, p1)) => match parse_string_field(b, p1, 2) {
            None => None,
            Some((description, p2)) => if p2 == b.len() {
                Some((code, description))
            } else {
                None
            },
        },
    }
}

/// Parses a device token message filling `b`.
pub open spec fn parse_token_msg(b: Seq<u8>) -> Option<Seq<char>> {
    match parse_string_field(b, 0, 1) {
        None => None,
        Some((token, p1)) => if p1 == b.len() {
            Some(token)
        } else {
            None
        },
    }
}

/// Parses a remote registration message filling `b`.  An empty buffer
/// carries no result.
pub open spec fn parse_remote_registration_msg(b: Seq<u8>) -> Option<RemoteRegistrationV> {
    if b.len() == 0 {
        Some(RemoteRegistrationV::Unset)
    } else if b[0] == tag_byte(1, WIRE_LEN) {
        match parse_exact_msg_field(b, 1) {
            None => None,
            Some(payload) => match parse_failed_msg(payload) {
                None => None,
                Some((code, localized_description)) => Some(
                    RemoteRegistrationV::Failed { code, localized_description },
                ),
            },
        }
    } else if b[0] == tag_byte(2, WIRE_LEN) {
        match parse_exact_msg_field(b, 2) {
            None => None,
            Some(payload) => match parse_token_msg(payload) {
                None => None,
                Some(token) => Some(RemoteRegistrationV::DeviceToken(token)),
            },
        }
    } else {
        None
    }
}

/// Parses an asynchronous event filling `b`.  A buffer carrying no
/// variant is malformed.
pub open spec fn parse_async_event(b: Seq<u8>) -> Option<AsyncEventV> {
    if b.len() == 0 {
        None
    } else if b[0] == tag_byte(1, WIRE_LEN) {
        match parse_exact_msg_field(b, 1) {
            None => None,
            Some(payload) => match parse_permission_msg(payload) {
                None => None,
                Some(granted) => Some(AsyncEventV::Permission { granted }),
            },
        }
    } else if b[0] == tag_byte(2, WIRE_LEN) {
        match parse_exact_msg_field(b, 2) {
            None => None,
            Some(payload) => match parse_scheduled_msg(payload) {
                None => None,
                Some((identifier, success)) => Some(
                    AsyncEventV::Scheduled { identifier, success },
                ),
            },
        }
    } else if b[0] == tag_byte(3, WIRE_LEN) {
        match parse_exact_msg_field(b, 3) {
            None => None,
            Some(payload) => match parse_id_list_msg(payload) {
                None => None,
                Some(items) => Some(AsyncEventV::Pending { items }),
            },
        }
    } else if b[0] == tag_byte(4, WIRE_LEN) {
        match parse_exact_msg_field(b, 4) {
            None => None,
            Some(payload) => match parse_token_msg(payload) {
                None => None,
                Some(identifier) => Some(AsyncEventV::TriggeredWhileRunning { identifier }),
            },
        }
    } else if b[0] == tag_byte(5, WIRE_LEN) {
        match parse_exact_msg_field(b, 5) {
            None => None,
            Some(payload) => match parse_notification_response_msg(payload) {
                None => None,
                Some((identifier, action_identifier)) => Some(
                    AsyncEventV::NotificationResponse { identifier, action_identifier },
                ),
            },
        }
    } else if b[0] == tag_byte(6, WIRE_LEN) {
        match parse_exact_msg_field(b, 6) {
            None => None,
            Some(payload) => match parse_remote_registration_msg(payload) {
                None => None,
                Some(r) => Some(AsyncEventV::RemoteRegistration(r)),
            },
        }
    } else {
        None
    }
}

/// Reads a message of one string field filling `b`.
fn decode_single_string_msg(b: &[u8]) -> (r: Option<String>)
    ensures
        match r {
            Some(s) => parse_token_msg(b@) == Some(s@),
            None => parse_token_msg(b@) is None,
        },
{
    match decode_string_field(b, 0, 1) {
        None => None,
        Some((s, p1)) => if p1 == b.len() {
            Some(s)
        } else {
            None
        },
    }
}

/// Reads a remote registration message, as
/// `parse_remote_registration_msg` describes.
fn decode_remote_registration_msg(b: &[u8]) -> (r: Option<RemoteRegistration>)
    ensures
        match r {
            Some(rr) => parse_remote_registration_msg(b@) == Some(rr@),
            None => parse_remote_registration_msg(b@) is None,
        },
{
    if b.len() == 0 {
        return Some(RemoteRegistration::Unset);
    }
    let first = *slice_index_get(b, 0);
    if first == (1 * 8 + WIRE_LEN) as u8 {
        match decode_exact_msg_field(b, 1) {
            None => None,
            Some((start, stop)) => {
                let payload = slice_subrange(b, start, stop);
                match decode_sint32_field(payload, 0, 1) {
                    None => None,
                    Some((code, p1)) => match decode_string_field(payload, p1, 2) {
                        None => None,
                        Some((localized_description, p2)) => if p2 == payload.len() {
                            Some(RemoteRegistration::Failed { code, localized_description })
                        } else {
                            None
                        },
                    },
                }
            },
        }
    } else if first == (2 * 8 + WIRE_LEN) as u8 {
        match decode_exact_msg_field(b, 2) {
            None => None,
            Some((start, stop)) => {
                let payload = slice_subrange(b, start, stop);
                match decode_single_string_msg(payload) {
                    None => None,
                    Some(token) => Some(RemoteRegistration::DeviceToken(token)),
                }
            },
        }
    } else {
        None
    }
}

/// Reads an asynchronous event, as `parse_async_event` describes.
#[verifier::spinoff_prover]
#[verifier::rlimit(100)]
pub fn decode_async_event(b: &[u8]) -> (r: Option<AsyncEvent>)
    ensures
        match r {
            Some(e) => parse_async_event(b@) == Some(e@),
            None => parse_async_event(b@) is None,
        },
{
    if b.len() == 0 {
        return None;
    }
    let first = *slice_index_get(b, 0);
    if first == (1 * 8 + WIRE_LEN) as u8 {
        match decode_exact_msg_field(b, 1) {
            None => None,
            Some((start, stop)) => {
                let payload = slice_subrange(b, start, stop);
                match decode_bool_field(payload, 0, 1) {
                    None => None,
                    Some((granted, p1)) => if p1 == payload.len() {
                        Some(AsyncEvent::Permission { granted })
                    } else {
                        None
                    },
                }
            },
        }
    } else if first == (2 * 8 + WIRE_LEN) as u8 {
        match decode_exact_msg_field(b, 2) {
            None => None,
            Some((start, stop)) => {
                let payload = slice_subrange(b, start, stop);
                match decode_string_field(payload, 0, 1) {
                    None => None,
                    Some((identifier, p1)) => match decode_bool_field(payload, p1, 2) {
                        None => None,
                        Some((success, p2)) => if p2 == payload.len() {
                            Some(AsyncEvent::Scheduled { identifier, success })
                        } else {
                            None
                        },
                    },
                }
            },
        }
    } else if first == (3 * 8 + WIRE_LEN) as u8 {
        match decode_exact_msg_field(b, 3) {
            None => None,
            Some((start, stop)) => {
                let payload = slice_subrange(b, start, stop);
                match decode_id_list_msg(payload) {
                    None => None,
                    Some(items) => Some(AsyncEvent::Pending { items }),
                }
            },
        }
    } else if first == (4 * 8 + WIRE_LEN) as u8 {
        match decode_exact_msg_field(b, 4) {
            None => None,
            Some((start, stop)) => {
                let payload = slice_subrange(b, start, stop);
                match decode_single_string_msg(payload) {
                    None => None,
                    Some(identifier) => Some(AsyncEvent::TriggeredWhileRunning { identifier }),
                }
            },
        }
    } else if first == (5 * 8 + WIRE_LEN) as u8 {
        match decode_exact_msg_field(b, 5) {
            None => None,
            Some((start, stop)) => {
                let payload = slice_subrange(b, start, stop);
                match decode_string_field(payload, 0, 1) {
                    None => None,
                    Some((identifier, p1)) => match decode_string_field(payload, p1, 2) {
                        None => None,
                        Some((action_identifier, p2)) => if p2 == payload.len() {
                            Some(AsyncEvent::NotificationResponse {
                                identifier,
                                action_identifier,
                            })
                        } else {
                            None
                        },
                    },
                }
            },
        }
    } else if first == (6 * 8 + WIRE_LEN) as u8 {
        match decode_exact_msg_field(b, 6) {
            None => None,
            Some((start, stop)) => {
                let payload = slice_subrange(b, start, stop);
                match decode_remote_registration_msg(payload) {
                    None => None,
                    Some(rr) => Some(AsyncEvent::RemoteRegistration(rr)),
                }
            },
        }
    } else {
        None
    }
}

} // verus!
