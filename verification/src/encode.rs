//! Encoding of the wire messages.
//!
//! For each message a spec function gives the exact byte sequence a value
//! encodes to, and an executable encoder is proved to append exactly those
//! bytes.  Encoding is total on in-memory values; the `*_wf` predicates
//! only bound the lengths of unbounded ghost values so that the byte-length
//! varints of pure specifications are meaningful.
//!
//! Field layout (single-byte tags, field numbers below 16):
//! - `Permissions`: alert=1, sound=2, badge=3 (varint bools);
//! - `Trigger`: repeat=1 (varint bool), seconds=2 (64-bit);
//! - `Schedule`: title=1, body=2, category_identifier=3, subtitle=4
//!   (strings), relevance_score=5 (64-bit), thread_identifier=6 (string),
//!   then the optional fields filter_criteria=7 (string), user_data=8
//!   (message of entries, each key=1/value=2), identifier=9 (string),
//!   badge=10 (signed varint), trigger=11 (message);
//! - identifier lists: items=1, repeated, each a message with identifier=1;
//! - `Request`: one of permissions=1, schedule=2, pending=3,
//!   remove_pending=4, remove_delivered=5, remove_all_pending=6,
//!   remove_all_delivered=7, each a length-delimited message;
//! - `Response`: empty, or schedule=2 (message with identifier=1);
//! - `AsyncEvent`: one of permission=1 (granted=1), scheduled=2
//!   (identifier=1, success=2), pending=3 (identifier list),
//!   triggered_while_running=4 (identifier=1), notification_response=5
//!   (identifier=1, action_identifier=2), remote_registration=6 (empty, or
//!   failed=1 with code=1/localized_description=2, or token=2 with
//!   token=1).

use vstd::prelude::*;

verus! {

use vstd::bytes::spec_u64_to_le_bytes;
use crate::codec::{
    WIRE_FIXED64, WIRE_LEN, WIRE_VARINT, append_bytes, bool_bytes, encode_bool, encode_fixed64,
    encode_string, encode_tag, encode_varint, len_delim_bytes, sint32_as_u64, sint32_to_u64,
    str_wf, string_bytes, tag_byte, varint_bytes,
};
use crate::messages::{
    AsyncEvent, AsyncEventV, NotificationId, Permissions, RemoteRegistration,
    RemoteRegistrationV, Request, RequestV, Response, ResponseV, Schedule, ScheduleV, Trigger,
    UserDataEntry, UserDataEntryV,
};

// ---------------------------------------------------------------------------
// fields
// ---------------------------------------------------------------------------

/// A string field: tag, then the length-delimited string.
pub open spec fn string_field_bytes(field: u64, s: Seq<char>) -> Seq<u8> {
    seq![tag_byte(field, WIRE_LEN)] + string_bytes(s)
}

/// An optional string field: absent values contribute no bytes.
pub open spec fn opt_string_field_bytes(field: u64, v: Option<Seq<char>>) -> Seq<u8> {
    match v {
        None => seq![],
        Some(s) => string_field_bytes(field, s),
    }
}

/// A nested-message field: tag, then the length-delimited payload.
pub open spec fn msg_field_bytes(field: u64, payload: Seq<u8>) -> Seq<u8> {
    seq![tag_byte(field, WIRE_LEN)] + len_delim_bytes(payload)
}

/// A bool field: tag, then the varint 0 or 1.
pub open spec fn bool_field_bytes(field: u64, v: bool) -> Seq<u8> {
    seq![tag_byte(field, WIRE_VARINT)] + bool_bytes(v)
}

/// A 64-bit field: tag, then eight little-endian bytes.
pub open spec fn fixed64_field_bytes(field: u64, n: u64) -> Seq<u8> {
    seq![tag_byte(field, WIRE_FIXED64)] + spec_u64_to_le_bytes(n)
}

/// A signed 32-bit field: tag, then the varint of the value's 64-bit
/// two's-complement image.
pub open spec fn sint32_field_bytes(field: u64, v: i32) -> Seq<u8> {
    seq![tag_byte(field, WIRE_VARINT)] + varint_bytes(sint32_as_u64(v))
}

/// Appends `string_field_bytes(field, s@)` to `buf`.
pub fn encode_string_field(buf: &mut Vec<u8>, field: u64, s: &str)
    requires
        1 <= field <= 15,
    ensures
        final(buf)@ == old(buf)@ + string_field_bytes(field, s@),
{
    encode_tag(buf, field, WIRE_LEN);
    encode_string(buf, s);
    assert(final(buf)@ =~= old(buf)@ + string_field_bytes(field, s@));
}

/// Appends `bool_field_bytes(field, v)` to `buf`.
pub fn encode_bool_field(buf: &mut Vec<u8>, field: u64, v: bool)
    requires
        1 <= field <= 15,
    ensures
        final(buf)@ == old(buf)@ + bool_field_bytes(field, v),
{
    encode_tag(buf, field, WIRE_VARINT);
    encode_bool(buf, v);
    assert(final(buf)@ =~= old(buf)@ + bool_field_bytes(field, v));
}

/// Appends `fixed64_field_bytes(field, n)` to `buf`.
pub fn encode_fixed64_field(buf: &mut Vec<u8>, field: u64, n: u64)
    requires
        1 <= field <= 15,
    ensures
        final(buf)@ == old(buf)@ + fixed64_field_bytes(field, n),
{
    encode_tag(buf, field, WIRE_FIXED64);
    encode_fixed64(buf, n);
    assert(final(buf)@ =~= old(buf)@ + fixed64_field_bytes(field, n));
}

/// Appends `sint32_field_bytes(field, v)` to `buf`.
pub fn encode_sint32_field(buf: &mut Vec<u8>, field: u64, v: i32)
    requires
        1 <= field <= 15,
    ensures
        final(buf)@ == old(buf)@ + sint32_field_bytes(field, v),
{
    encode_tag(buf, field, WIRE_VARINT);
    let image = sint32_to_u64(v);
    encode_varint(buf, image);
    assert(final(buf)@ =~= old(buf)@ + sint32_field_bytes(field, v));
}

/// Appends `msg_field_bytes(field, payload@)` to `buf`.
pub fn encode_msg_field(buf: &mut Vec<u8>, field: u64, payload: &Vec<u8>)
    requires
        1 <= field <= 15,
    ensures
        final(buf)@ == old(buf)@ + msg_field_bytes(field, payload@),
{
    encode_tag(buf, field, WIRE_LEN);
    encode_varint(buf, payload.len() as u64);
    append_bytes(buf, payload.as_slice());
    assert(final(buf)@ =~= old(buf)@ + msg_field_bytes(field, payload@));
}

// ---------------------------------------------------------------------------
// permissions
// ---------------------------------------------------------------------------

/// The bytes of a permissions message.
pub open spec fn permissions_bytes(alert: bool, sound: bool, badge: bool) -> Seq<u8> {
    bool_field_bytes(1, alert) + bool_field_bytes(2, sound) + bool_field_bytes(3, badge)
}

/// Appends `permissions_bytes` for `p` to `buf`.
pub fn encode_permissions(buf: &mut Vec<u8>, p: &Permissions)
    ensures
        final(buf)@ == old(buf)@ + permissions_bytes(p.alert, p.sound, p.badge),
{
    encode_bool_field(buf, 1, p.alert);
    encode_bool_field(buf, 2, p.sound);
    encode_bool_field(buf, 3, p.badge);
    assert(final(buf)@ =~= old(buf)@ + permissions_bytes(p.alert, p.sound, p.badge));
}

// ---------------------------------------------------------------------------
// trigger
// ---------------------------------------------------------------------------

/// The bytes of a trigger message.
pub open spec fn trigger_bytes(t: Trigger) -> Seq<u8> {
    bool_field_bytes(1, t.repeat) + fixed64_field_bytes(2, t.seconds_bits)
}

/// Appends `trigger_bytes(t)` to `buf`.
pub fn encode_trigger_payload(buf: &mut Vec<u8>, t: &Trigger)
    ensures
        final(buf)@ == old(buf)@ + trigger_bytes(*t),
{
    encode_bool_field(buf, 1, t.repeat);
    encode_fixed64_field(buf, 2, t.seconds_bits);
    assert(final(buf)@ =~= old(buf)@ + trigger_bytes(*t));
}

// ---------------------------------------------------------------------------
// user data entries
// ---------------------------------------------------------------------------

/// The bytes of one user data entry message.
pub open spec fn entry_msg_bytes(e: UserDataEntryV) -> Seq<u8> {
    string_field_bytes(1, e.key) + string_field_bytes(2, e.value)
}

/// A user data entry whose strings and message fit the length varints.
pub open spec fn entry_wf(e: UserDataEntryV) -> bool {
    str_wf(e.key) && str_wf(e.value) && entry_msg_bytes(e).len() <= u64::MAX
}

/// The bytes of a sequence of user data entries: one message field per
/// entry, in order.
pub open spec fn user_data_bytes(entries: Seq<UserDataEntryV>) -> Seq<u8>
    decreases entries.len(),
{
    if entries.len() == 0 {
        seq![]
    } else {
        msg_field_bytes(1, entry_msg_bytes(entries[0])) + user_data_bytes(entries.drop_first())
    }
}

/// Appends `entry_msg_bytes(e@)` to `buf`.
pub fn encode_entry_payload(buf: &mut Vec<u8>, e: &UserDataEntry)
    ensures
        final(buf)@ == old(buf)@ + entry_msg_bytes(e@),
{
    encode_string_field(buf, 1, self_str(&e.key));
    encode_string_field(buf, 2, self_str(&e.value));
    assert(final(buf)@ =~= old(buf)@ + entry_msg_bytes(e@));
}

/// Borrows a `String` as a `&str` with the same view.
pub fn self_str(s: &String) -> (r: &str)
    ensures
        r@ == s@,
{
    s.as_str()
}

/// Appends the fields of the entries of `entries` from index `i` on.
fn encode_entries_from(buf: &mut Vec<u8>, entries: &Vec<UserDataEntry>, i: usize)
    requires
        i <= entries@.len(),
    ensures
        final(buf)@ == old(buf)@ + user_data_bytes(
            entries@.map_values(|e: UserDataEntry| e@).skip(i as int),
        ),
    decreases entries@.len() - i,
{
    let ghost views = entries@.map_values(|e: UserDataEntry| e@);
    if i < entries.len() {
        let mut payload: Vec<u8> = Vec::new();
        encode_entry_payload(&mut payload, &entries[i]);
        encode_msg_field(buf, 1, &payload);
        encode_entries_from(buf, entries, i + 1);
        proof {
            assert(views.skip(i as int)[0] == views[i as int]);
            assert(views.skip(i as int).drop_first() =~= views.skip(i + 1));
            assert(final(buf)@ =~= old(buf)@ + user_data_bytes(views.skip(i as int)));
        }
    } else {
        assert(views.skip(i as int) =~= Seq::<UserDataEntryV>::empty());
        assert(final(buf)@ =~= old(buf)@ + user_data_bytes(views.skip(i as int)));
    }
}

/// Appends the user data message for `entries` to `buf`.
pub fn encode_user_data_payload(buf: &mut Vec<u8>, entries: &Vec<UserDataEntry>)
    ensures
        final(buf)@ == old(buf)@ + user_data_bytes(entries@.map_values(|e: UserDataEntry| e@)),
{
    encode_entries_from(buf, entries, 0);
    proof {
        let views = entries@.map_values(|e: UserDataEntry| e@);
        assert(views.skip(0) =~= views);
    }
}

// ---------------------------------------------------------------------------
// notification identifier lists
// ---------------------------------------------------------------------------

/// The bytes of a notification identifier message.
pub open spec fn notifid_msg_bytes(s: Seq<char>) -> Seq<u8> {
    string_field_bytes(1, s)
}

/// An identifier whose string and message fit the length varints.
pub open spec fn notifid_wf(s: Seq<char>) -> bool {
    str_wf(s) && notifid_msg_bytes(s).len() <= u64::MAX
}

/// The bytes of a sequence of notification identifiers: one message field
/// per identifier, in order.
pub open spec fn id_list_bytes(ids: Seq<Seq<char>>) -> Seq<u8>
    decreases ids.len(),
{
    if ids.len() == 0 {
        seq![]
    } else {
        msg_field_bytes(1, notifid_msg_bytes(ids[0])) + id_list_bytes(ids.drop_first())
    }
}

/// Appends the fields of the identifiers of `ids` from index `i` on.
fn encode_ids_from(buf: &mut Vec<u8>, ids: &Vec<NotificationId>, i: usize)
    requires
        i <= ids@.len(),
    ensures
        final(buf)@ == old(buf)@ + id_list_bytes(
            ids@.map_values(|n: NotificationId| n@).skip(i as int),
        ),
    decreases ids@.len() - i,
{
    let ghost views = ids@.map_values(|n: NotificationId| n@);
    if i < ids.len() {
        let mut payload: Vec<u8> = Vec::new();
        encode_string_field(&mut payload, 1, self_str(&ids[i].identifier));
        encode_msg_field(buf, 1, &payload);
        encode_ids_from(buf, ids, i + 1);
        proof {
            assert(views.skip(i as int)[0] == views[i as int]);
            assert(views.skip(i as int).drop_first() =~= views.skip(i + 1));
            assert(final(buf)@ =~= old(buf)@ + id_list_bytes(views.skip(i as int)));
        }
    } else {
        assert(views.skip(i as int) =~= Seq::<Seq<char>>::empty());
        assert(final(buf)@ =~= old(buf)@ + id_list_bytes(views.skip(i as int)));
    }
}

/// Appends the identifier list message for `ids` to `buf`.
pub fn encode_id_list_payload(buf: &mut Vec<u8>, ids: &Vec<NotificationId>)
    ensures
        final(buf)@ == old(buf)@ + id_list_bytes(ids@.map_values(|n: NotificationId| n@)),
{
    encode_ids_from(buf, ids, 0);
    proof {
        let views = ids@.map_values(|n: NotificationId| n@);
        assert(views.skip(0) =~= views);
    }
}

// ---------------------------------------------------------------------------
// schedule
// ---------------------------------------------------------------------------

/// The bytes of the six required fields of a schedule message, in field
/// order.
pub open spec fn schedule_required_bytes(v: ScheduleV) -> Seq<u8> {
    string_field_bytes(1, v.title) + string_field_bytes(2, v.body) + string_field_bytes(
        3,
        v.category_identifier,
    ) + string_field_bytes(4, v.subtitle) + fixed64_field_bytes(5, v.relevance_score_bits)
        + string_field_bytes(6, v.thread_identifier)
}

/// The bytes of the optional user data field of a schedule message.
pub open spec fn opt_user_data_bytes(v: ScheduleV) -> Seq<u8> {
    match v.user_data {
        None => seq![],
        Some(entries) => msg_field_bytes(8, user_data_bytes(entries)),
    }
}

/// The bytes of the optional badge field of a schedule message.
pub open spec fn opt_badge_bytes(v: ScheduleV) -> Seq<u8> {
    match v.badge {
        None => seq![],
        Some(c) => sint32_field_bytes(10, c),
    }
}

/// The bytes of the optional trigger field of a schedule message.
pub open spec fn opt_trigger_bytes(v: ScheduleV) -> Seq<u8> {
    match v.trigger {
        None => seq![],
        Some(t) => msg_field_bytes(11, trigger_bytes(t)),
    }
}

/// The bytes of the five optional fields of a schedule message, present
/// ones only, in field order.
pub open spec fn schedule_optional_bytes(v: ScheduleV) -> Seq<u8> {
    opt_string_field_bytes(7, v.filter_criteria) + opt_user_data_bytes(v)
        + opt_string_field_bytes(9, v.identifier) + opt_badge_bytes(v) + opt_trigger_bytes(v)
}

/// The bytes of a schedule message: six required fields in field order,
/// then the optional fields, present ones only, in field order.
pub open spec fn schedule_bytes(v: ScheduleV) -> Seq<u8> {
    schedule_required_bytes(v) + schedule_optional_bytes(v)
}

/// A schedule whose strings, entries and nested messages fit the length
/// varints.
pub open spec fn schedule_wf(v: ScheduleV) -> bool {
    &&& str_wf(v.title)
    &&& str_wf(v.body)
    &&& str_wf(v.category_identifier)
    &&& str_wf(v.subtitle)
    &&& str_wf(v.thread_identifier)
    &&& (v.filter_criteria matches Some(s) ==> str_wf(s))
    &&& (v.user_data matches Some(entries) ==> {
        &&& forall|i: int| 0 <= i < entries.len() ==> entry_wf(#[trigger] entries[i])
        &&& user_data_bytes(entries).len() <= u64::MAX
    })
    &&& (v.identifier matches Some(s) ==> str_wf(s))
    &&& schedule_bytes(v).len() <= u64::MAX
}

/// Appends `schedule_required_bytes(s@)` to `buf`.
fn encode_schedule_required(buf: &mut Vec<u8>, s: &Schedule)
    ensures
        final(buf)@ == old(buf)@ + schedule_required_bytes(s@),
{
    encode_string_field(buf, 1, self_str(&s.title));
    encode_string_field(buf, 2, self_str(&s.body));
    encode_string_field(buf, 3, self_str(&s.category_identifier));
    encode_string_field(buf, 4, self_str(&s.subtitle));
    encode_fixed64_field(buf, 5, s.relevance_score_bits);
    encode_string_field(buf, 6, self_str(&s.thread_identifier));
    assert(final(buf)@ =~= old(buf)@ + schedule_required_bytes(s@));
}

/// Appends `schedule_optional_bytes(s@)` to `buf`.
#[verifier::spinoff_prover]
#[verifier::rlimit(60)]
fn encode_schedule_optional(buf: &mut Vec<u8>, s: &Schedule)
    ensures
        final(buf)@ == old(buf)@ + schedule_optional_bytes(s@),
{
    let ghost start = buf@;
    match &s.filter_criteria {
        Some(fc) => encode_string_field(buf, 7, self_str(fc)),
        None => {},
    }
    let ghost with7 = opt_string_field_bytes(7, s@.filter_criteria);
    assert(buf@ =~= start + with7);
    match &s.user_data {
        Some(entries) => {
            let mut payload: Vec<u8> = Vec::new();
            encode_user_data_payload(&mut payload, entries);
            encode_msg_field(buf, 8, &payload);
        },
        None => {},
    }
    let ghost with8 = with7 + opt_user_data_bytes(s@);
    assert(buf@ =~= start + with8);
    match &s.identifier {
        Some(id) => encode_string_field(buf, 9, self_str(id)),
        None => {},
    }
    let ghost with9 = with8 + opt_string_field_bytes(9, s@.identifier);
    assert(buf@ =~= start + with9);
    match &s.badge {
        Some(c) => encode_sint32_field(buf, 10, *c),
        None => {},
    }
    let ghost with10 = with9 + opt_badge_bytes(s@);
    assert(buf@ =~= start + with10);
    match &s.trigger {
        Some(t) => {
            let mut payload: Vec<u8> = Vec::new();
            encode_trigger_payload(&mut payload, t);
            encode_msg_field(buf, 11, &payload);
        },
        None => {},
    }
    let ghost with11 = with10 + opt_trigger_bytes(s@);
    assert(buf@ =~= start + with11);
    assert(with11 =~= schedule_optional_bytes(s@));
}

/// Appends `schedule_bytes(s@)` to `buf`.
pub fn encode_schedule_payload(buf: &mut Vec<u8>, s: &Schedule)
    ensures
        final(buf)@ == old(buf)@ + schedule_bytes(s@),
{
    encode_schedule_required(buf, s);
    encode_schedule_optional(buf, s);
    assert(final(buf)@ =~= old(buf)@ + schedule_bytes(s@));
}

// ---------------------------------------------------------------------------
// requests
// ---------------------------------------------------------------------------

/// The bytes of a request: the message of its one variant, as a
/// length-delimited field numbered by the variant.
pub open spec fn request_bytes(r: RequestV) -> Seq<u8> {
    match r {
        RequestV::Permissions { alert, sound, badge } => msg_field_bytes(
            1,
            permissions_bytes(alert, sound, badge),
        ),
        RequestV::Schedule(s) => msg_field_bytes(2, schedule_bytes(s)),
        RequestV::Pending => msg_field_bytes(3, seq![]),
        RequestV::RemovePending(ids) => msg_field_bytes(4, id_list_bytes(ids)),
        RequestV::RemoveDelivered(ids) => msg_field_bytes(5, id_list_bytes(ids)),
        RequestV::RemoveAllPending => msg_field_bytes(6, seq![]),
        RequestV::RemoveAllDelivered => msg_field_bytes(7, seq![]),
    }
}

/// A request whose message fits the length varints.
pub open spec fn request_wf(r: RequestV) -> bool {
    match r {
        RequestV::Permissions { .. } => true,
        RequestV::Schedule(s) => schedule_wf(s),
        RequestV::Pending => true,
        RequestV::RemovePending(ids) => id_list_wf(ids),
        RequestV::RemoveDelivered(ids) => id_list_wf(ids),
        RequestV::RemoveAllPending => true,
        RequestV::RemoveAllDelivered => true,
    }
}

/// An identifier list whose identifiers and total bytes fit the length
/// varints.
pub open spec fn id_list_wf(ids: Seq<Seq<char>>) -> bool {
    &&& forall|i: int| 0 <= i < ids.len() ==> notifid_wf(#[trigger] ids[i])
    &&& id_list_bytes(ids).len() <= u64::MAX
}

/// Encodes `r` into a fresh buffer holding exactly `request_bytes(r@)`.
pub fn encode_request_bytes(r: &Request) -> (buf: Vec<u8>)
    ensures
        buf@ == request_bytes(r@),
{
    let mut buf: Vec<u8> = Vec::new();
    let mut payload: Vec<u8> = Vec::new();
    match r {
        Request::Permissions(p) => {
            encode_permissions(&mut payload, p);
            encode_msg_field(&mut buf, 1, &payload);
        },
        Request::Schedule(s) => {
            encode_schedule_payload(&mut payload, s);
            encode_msg_field(&mut buf, 2, &payload);
        },
        Request::Pending => {
            encode_msg_field(&mut buf, 3, &payload);
        },
        Request::RemovePending(ids) => {
            encode_id_list_payload(&mut payload, ids);
            encode_msg_field(&mut buf, 4, &payload);
        },
        Request::RemoveDelivered(ids) => {
            encode_id_list_payload(&mut payload, ids);
            encode_msg_field(&mut buf, 5, &payload);
        },
        Request::RemoveAllPending => {
            encode_msg_field(&mut buf, 6, &payload);
        },
        Request::RemoveAllDelivered => {
            encode_msg_field(&mut buf, 7, &payload);
        },
    }
    assert(buf@ =~= request_bytes(r@));
    buf
}

// ---------------------------------------------------------------------------
// responses
// ---------------------------------------------------------------------------

/// The bytes of a schedule response message.
pub open spec fn schedule_response_bytes(identifier: Seq<char>) -> Seq<u8> {
    string_field_bytes(1, identifier)
}

/// The bytes of a response: nothing for the empty reply, else the message
/// of its variant as a length-delimited field.
pub open spec fn response_bytes(r: ResponseV) -> Seq<u8> {
    match r {
        ResponseV::Empty => seq![],
        ResponseV::Schedule { identifier } => msg_field_bytes(
            2,
            schedule_response_bytes(identifier),
        ),
    }
}

/// A response whose message fits the length varints.
pub open spec fn response_wf(r: ResponseV) -> bool {
    match r {
        ResponseV::Empty => true,
        ResponseV::Schedule { identifier } => str_wf(identifier)
            && schedule_response_bytes(identifier).len() <= u64::MAX,
    }
}

/// Encodes `r` into a fresh buffer holding exactly `response_bytes(r@)`.
pub fn encode_response_bytes(r: &Response) -> (buf: Vec<u8>)
    ensures
        buf@ == response_bytes(r@),
{
    let mut buf: Vec<u8> = Vec::new();
    match r {
        Response::Empty => {},
        Response::Schedule { identifier } => {
            let mut payload: Vec<u8> = Vec::new();
            encode_string_field(&mut payload, 1, self_str(identifier));
            encode_msg_field(&mut buf, 2, &payload);
        },
    }
    assert(buf@ =~= response_bytes(r@));
    buf
}

// ---------------------------------------------------------------------------
// asynchronous events
// ---------------------------------------------------------------------------

/// The bytes of a remote registration message: empty when no result is
/// set, else the message of its result as a length-delimited field.
pub open spec fn remote_registration_bytes(r: RemoteRegistrationV) -> Seq<u8> {
    match r {
        RemoteRegistrationV::Unset => seq![],
        RemoteRegistrationV::Failed { code, localized_description } => msg_field_bytes(
            1,
            sint32_field_bytes(1, code) + string_field_bytes(2, localized_description),
        ),
        RemoteRegistrationV::DeviceToken(token) => msg_field_bytes(
            2,
            string_field_bytes(1, token),
        ),
    }
}

/// The bytes of an asynchronous event: the message of its one variant as a
/// length-delimited field numbered by the variant.
pub open spec fn async_event_bytes(e: AsyncEventV) -> Seq<u8> {
    match e {
        AsyncEventV::Permission { granted } => msg_field_bytes(1, bool_field_bytes(1, granted)),
        AsyncEventV::Scheduled { identifier, success } => msg_field_bytes(
            2,
            string_field_bytes(1, identifier) + bool_field_bytes(2, success),
        ),
        AsyncEventV::Pending { items } => msg_field_bytes(3, id_list_bytes(items)),
        AsyncEventV::TriggeredWhileRunning { identifier } => msg_field_bytes(
            4,
            string_field_bytes(1, identifier),
        ),
        AsyncEventV::NotificationResponse { identifier, action_identifier } => msg_field_bytes(
            5,
            string_field_bytes(1, identifier) + string_field_bytes(2, action_identifier),
        ),
        AsyncEventV::RemoteRegistration(r) => msg_field_bytes(6, remote_registration_bytes(r)),
    }
}

/// An asynchronous event whose strings and messages fit the length
/// varints.
pub open spec fn async_event_wf(e: AsyncEventV) -> bool {
    match e {
        AsyncEventV::Permission { .. } => true,
        AsyncEventV::Scheduled { identifier, success } => str_wf(identifier)
            && (string_field_bytes(1, identifier) + bool_field_bytes(2, success)).len()
            <= u64::MAX,
        AsyncEventV::Pending { items } => id_list_wf(items),
        AsyncEventV::TriggeredWhileRunning { identifier } => str_wf(identifier)
            && string_field_bytes(1, identifier).len() <= u64::MAX,
        AsyncEventV::NotificationResponse { identifier, action_identifier } => {
            &&& str_wf(identifier)
            &&& str_wf(action_identifier)
            &&& (string_field_bytes(1, identifier) + string_field_bytes(
                2,
                action_identifier,
            )).len() <= u64::MAX
        },
        AsyncEventV::RemoteRegistration(r) => match r {
            RemoteRegistrationV::Unset => true,
            RemoteRegistrationV::Failed { localized_description, .. } => {
                &&& str_wf(localized_description)
                &&& remote_registration_bytes(r).len() <= u64::MAX
            },
            RemoteRegistrationV::DeviceToken(token) => {
                &&& str_wf(token)
                &&& remote_registration_bytes(r).len() <= u64::MAX
            },
        },
    }
}

/// Encodes `e` into a fresh buffer holding exactly `async_event_bytes(e@)`.
pub fn encode_async_event_bytes(e: &AsyncEvent) -> (buf: Vec<u8>)
    ensures
        buf@ == async_event_bytes(e@),
{
    let mut buf: Vec<u8> = Vec::new();
    let mut payload: Vec<u8> = Vec::new();
    match e {
        AsyncEvent::Permission { granted } => {
            encode_bool_field(&mut payload, 1, *granted);
            encode_msg_field(&mut buf, 1, &payload);
        },
        AsyncEvent::Scheduled { identifier, success } => {
            encode_string_field(&mut payload, 1, self_str(identifier));
            encode_bool_field(&mut payload, 2, *success);
            encode_msg_field(&mut buf, 2, &payload);
        },
        AsyncEvent::Pending { items } => {
            encode_id_list_payload(&mut payload, items);
            encode_msg_field(&mut buf, 3, &payload);
        },
        AsyncEvent::TriggeredWhileRunning { identifier } => {
            encode_string_field(&mut payload, 1, self_str(identifier));
            encode_msg_field(&mut buf, 4, &payload);
        },
        AsyncEvent::NotificationResponse { identifier, action_identifier } => {
            encode_string_field(&mut payload, 1, self_str(identifier));
            encode_string_field(&mut payload, 2, self_str(action_identifier));
            encode_msg_field(&mut buf, 5, &payload);
        },
        AsyncEvent::RemoteRegistration(r) => {
            match r {
                RemoteRegistration::Unset => {},
                RemoteRegistration::Failed { code, localized_description } => {
                    let mut inner: Vec<u8> = Vec::new();
                    encode_sint32_field(&mut inner, 1, *code);
                    encode_string_field(&mut inner, 2, self_str(localized_description));
                    encode_msg_field(&mut payload, 1, &inner);
                },
                RemoteRegistration::DeviceToken(token) => {
                    let mut inner: Vec<u8> = Vec::new();
                    encode_string_field(&mut inner, 1, self_str(token));
                    encode_msg_field(&mut payload, 2, &inner);
                },
            }
            encode_msg_field(&mut buf, 6, &payload);
        },
    }
    assert(buf@ =~= async_event_bytes(e@));
    buf
}

} // verus!
