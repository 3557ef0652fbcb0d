//! Host-side value construction: notification triggers, the notification
//! request object with its defaults, the conversion onto the wire
//! `Schedule`, and the builders for every synchronous request.
//!
//! The trigger's delay crosses the boundary as a 64-bit IEEE 754 number.
//! This crate never computes on floats; a whole number of seconds is
//! turned into the bits of that number by integer arithmetic alone
//! ([`double_bits_from_u32`]), which is exact for every `u32`.

use vstd::prelude::*;

verus! {

use vstd::arithmetic::power2::{
    pow2, lemma_pow2_adds, lemma_pow2_pos, lemma_pow2_strictly_increases, lemma_pow2_unfold,
    lemma2_to64,
};
use crate::messages::{NotificationId, Request, RequestV, Schedule, Trigger, UserDataEntry};
use crate::plugin::IosNotificationPermissions;

// ---------------------------------------------------------------------------
// whole seconds as IEEE 754 bits
// ---------------------------------------------------------------------------

/// The exponent of the highest power of two not above `n`.
pub open spec fn log2_floor(n: nat) -> nat
    recommends
        n >= 1,
    decreases n,
{
    if n < 2 {
        0
    } else {
        1 + log2_floor(n / 2)
    }
}

/// Only `log2_floor(n)` brackets `n` between powers of two.
pub proof fn lemma_log2_floor_unique(n: nat, k: nat)
    requires
        n >= 1,
        pow2(k) <= n < pow2(k + 1),
    ensures
        log2_floor(n) == k,
    decreases n,
{
    if n < 2 {
        if k >= 1 {
            lemma_pow2_strictly_increases(0, k);
            lemma2_to64();
        }
    } else {
        lemma_pow2_unfold(k + 1);
        if k == 0 {
            lemma2_to64();
            assert(n < pow2(1) == 2);
        } else {
            lemma_pow2_unfold(k);
            assert(pow2(k) == 2 * pow2((k - 1) as nat));
            assert(pow2((k - 1) as nat) <= n / 2) by {
                assert(2 * pow2((k - 1) as nat) <= n);
            }
            assert(n / 2 < pow2(k)) by {
                assert(n <= 2 * pow2(k) - 1);
            }
            lemma_log2_floor_unique(n / 2, (k - 1) as nat);
        }
    }
}

/// The IEEE 754 bits of `n` as a 64-bit floating-point number.  Exact for
/// every `u32`: the exponent is `log2_floor(n)`, the fraction the
/// remaining digits of `n`, left-aligned in the 52 fraction bits.
pub open spec fn spec_double_bits(n: u32) -> u64 {
    if n == 0 {
        0
    } else {
        let k = log2_floor(n as nat);
        (((1023 + k) * pow2(52) + (n - pow2(k)) * pow2((52 - k) as nat)) as u64)
    }
}

/// Computes `spec_double_bits(n)` by integer arithmetic.
pub fn double_bits_from_u32(n: u32) -> (r: u64)
    ensures
        r == spec_double_bits(n),
{
    if n == 0 {
        return 0;
    }
    proof {
        lemma2_to64();
    }
    let mut m: u32 = n;
    let mut k: u64 = 0;
    let mut p: u64 = 1;
    while m >= 2
        invariant
            1 <= m,
            p == pow2(k as nat),
            pow2(k as nat) * m <= n < pow2(k as nat) * (m + 1),
            k <= 31,
            p <= n,
        decreases m,
    {
        proof {
            lemma_pow2_unfold(k as nat + 1);
            lemma_pow2_pos(k as nat);
            assert(pow2(k as nat + 1) * (m / 2) <= pow2(k as nat) * m) by (nonlinear_arith)
                requires
                    pow2(k as nat + 1) == 2 * pow2(k as nat),
                    m >= 2,
                    pow2(k as nat) >= 1,
            ;
            assert(pow2(k as nat) * (m + 1) <= pow2(k as nat + 1) * (m / 2 + 1))
                by (nonlinear_arith)
                requires
                    pow2(k as nat + 1) == 2 * pow2(k as nat),
                    m >= 2,
                    pow2(k as nat) >= 1,
            ;
            if k == 31 {
                assert(pow2(31) * m >= pow2(31) * 2) by (nonlinear_arith)
                    requires
                        m >= 2,
                        pow2(31) >= 1,
                ;
                lemma_pow2_unfold(32);
                lemma2_to64();
                assert(false);
            }
            assert(pow2(k as nat + 1) <= pow2(k as nat + 1) * (m / 2)) by (nonlinear_arith)
                requires
                    m / 2 >= 1,
                    pow2(k as nat + 1) >= 1,
            ;
            lemma_pow2_pos(k as nat + 1);
        }
        m = m / 2;
        k = k + 1;
        p = p * 2;
    }
    proof {
        assert(pow2(k as nat) <= n < pow2(k as nat) * 2);
        lemma_pow2_unfold(k as nat + 1);
        lemma_log2_floor_unique(n as nat, k as nat);
    }
    let frac: u32 = n - (p as u32);
    let shift: u64 = 52 - k;
    let mut q: u64 = 1;
    let mut j: u64 = 0;
    while j < shift
        invariant
            j <= shift,
            shift == 52 - k,
            k <= 31,
            q == pow2(j as nat),
        decreases shift - j,
    {
        proof {
            lemma_pow2_unfold(j as nat + 1);
            if j as nat + 1 < 52 {
                lemma_pow2_strictly_increases(j as nat + 1, 52);
            }
            vstd::arithmetic::power2::lemma2_to64_rest();
            assert(pow2(j as nat + 1) <= pow2(52));
        }
        q = q * 2;
        j = j + 1;
    }
    proof {
        assert(q == pow2((52 - k) as nat));
        lemma_pow2_pos((52 - k) as nat);
        assert(frac < pow2(k as nat));
        assert((frac as nat) * pow2((52 - k) as nat) < pow2(k as nat) * pow2((52 - k) as nat))
            by (nonlinear_arith)
            requires
                (frac as nat) < pow2(k as nat),
                pow2((52 - k) as nat) >= 1,
        ;
        lemma_pow2_adds(k as nat, (52 - k) as nat);
        vstd::arithmetic::power2::lemma2_to64_rest();
        assert((1023 + k) * pow2(52) <= 1054 * pow2(52)) by (nonlinear_arith)
            requires
                k <= 31,
                pow2(52) >= 1,
        ;
    }
    let exponent_part: u64 = (1023 + k) * 0x10000000000000;
    let mantissa: u64 = (frac as u64) * q;
    exponent_part + mantissa
}

// ---------------------------------------------------------------------------
// triggers
// ---------------------------------------------------------------------------

/// When a scheduled notification fires, as the host states it: after a
/// whole number of seconds, once or repeatedly.  The delay is held as the
/// IEEE 754 bits the wire carries.
#[derive(Clone, Copy, Debug, PartialEq, Eq, Structural)]
pub struct IosNotificationTrigger {
    pub repeat: bool,
    pub seconds_bits: u64,
}

impl IosNotificationTrigger {
    /// A trigger that fires once, `seconds` seconds from scheduling.
    pub fn one_shot(seconds: u32) -> (r: Self)
        ensures
            r.repeat == false,
            r.seconds_bits == spec_double_bits(seconds),
    {
        IosNotificationTrigger { repeat: false, seconds_bits: double_bits_from_u32(seconds) }
    }

    /// A trigger that fires `seconds` seconds from scheduling, repeating
    /// if asked to.
    pub fn new(seconds: u32, repeat: bool) -> (r: Self)
        ensures
            r.repeat == repeat,
            r.seconds_bits == spec_double_bits(seconds),
    {
        IosNotificationTrigger { repeat, seconds_bits: double_bits_from_u32(seconds) }
    }
}

// ---------------------------------------------------------------------------
// the notification request object
// ---------------------------------------------------------------------------

/// A notification as the host describes it: a required title, everything
/// else defaulted.  Built by [`IosNotificationRequest::new`] and the
/// field methods, then turned into the wire `Schedule` by `From`.
#[derive(Clone, Debug, PartialEq)]
pub struct IosNotificationRequest {
    pub title: String,
    pub body: String,
    pub category_identifier: String,
    pub subtitle: String,
    /// IEEE 754 bits of the relevance score; 0 is the score 0.0.
    pub relevance_score_bits: u64,
    pub thread_identifier: String,
    pub filter_criteria: Option<String>,
    pub user_data: Option<Vec<UserDataEntry>>,
    pub identifier: Option<String>,
    pub badge: Option<i32>,
    pub trigger: Option<IosNotificationTrigger>,
}

impl IosNotificationRequest {
    /// A request with only a title: every text field empty, the relevance
    /// score zero, and no filter criteria, user data, identifier, badge
    /// or trigger.
    pub fn new(title: String) -> (r: Self)
        ensures
            r.title == title,
            r.body@ == Seq::<char>::empty(),
            r.category_identifier@ == Seq::<char>::empty(),
            r.subtitle@ == Seq::<char>::empty(),
            r.relevance_score_bits == 0,
            r.thread_identifier@ == Seq::<char>::empty(),
            r.filter_criteria is None,
            r.user_data is None,
            r.identifier is None,
            r.badge is None,
            r.trigger is None,
    {
        IosNotificationRequest {
            title,
            body: String::new(),
            category_identifier: String::new(),
            subtitle: String::new(),
            relevance_score_bits: 0,
            thread_identifier: String::new(),
            filter_criteria: None,
            user_data: None,
            identifier: None,
            badge: None,
            trigger: None,
        }
    }

    /// The request with its body replaced.
    pub fn body(self, v: String) -> (r: Self)
        ensures
            r == (IosNotificationRequest { body: v, ..self }),
    {
        IosNotificationRequest { body: v, ..self }
    }

    /// The request with its category identifier replaced.
    pub fn category_identifier(self, v: String) -> (r: Self)
        ensures
            r == (IosNotificationRequest { category_identifier: v, ..self }),
    {
        IosNotificationRequest { category_identifier: v, ..self }
    }

    /// The request with its subtitle replaced.
    pub fn subtitle(self, v: String) -> (r: Self)
        ensures
            r == (IosNotificationRequest { subtitle: v, ..self }),
    {
        IosNotificationRequest { subtitle: v, ..self }
    }

    /// The request with its relevance score replaced, given as IEEE 754
    /// bits.
    pub fn relevance_score_bits(self, v: u64) -> (r: Self)
        ensures
            r == (IosNotificationRequest { relevance_score_bits: v, ..self }),
    {
        IosNotificationRequest { relevance_score_bits: v, ..self }
    }

    /// The request with its thread identifier replaced.
    pub fn thread_identifier(self, v: String) -> (r: Self)
        ensures
            r == (IosNotificationRequest { thread_identifier: v, ..self }),
    {
        IosNotificationRequest { thread_identifier: v, ..self }
    }

    /// The request with filter criteria set.
    pub fn filter_criteria(self, v: String) -> (r: Self)
        ensures
            r == (IosNotificationRequest { filter_criteria: Some(v), ..self }),
    {
        IosNotificationRequest { filter_criteria: Some(v), ..self }
    }

    /// The request with user data set.
    pub fn user_data(self, v: Vec<UserDataEntry>) -> (r: Self)
        ensures
            r == (IosNotificationRequest { user_data: Some(v), ..self }),
    {
        IosNotificationRequest { user_data: Some(v), ..self }
    }

    /// The request with an identifier set.
    pub fn identifier(self, v: String) -> (r: Self)
        ensures
            r == (IosNotificationRequest { identifier: Some(v), ..self }),
    {
        IosNotificationRequest { identifier: Some(v), ..self }
    }

    /// The request with a badge value set.
    pub fn badge(self, v: i32) -> (r: Self)
        ensures
            r == (IosNotificationRequest { badge: Some(v), ..self }),
    {
        IosNotificationRequest { badge: Some(v), ..self }
    }

    /// The request with a trigger set.
    pub fn trigger(self, v: IosNotificationTrigger) -> (r: Self)
        ensures
            r == (IosNotificationRequest { trigger: Some(v), ..self }),
    {
        IosNotificationRequest { trigger: Some(v), ..self }
    }
}

// ---------------------------------------------------------------------------
// conversions onto the wire
// ---------------------------------------------------------------------------

/// The wire form of `v`: every field carried over one to one, the trigger
/// as its wire representation.
pub open spec fn wire_schedule(v: IosNotificationRequest) -> Schedule {
    Schedule {
        title: v.title,
        body: v.body,
        category_identifier: v.category_identifier,
        subtitle: v.subtitle,
        relevance_score_bits: v.relevance_score_bits,
        thread_identifier: v.thread_identifier,
        filter_criteria: v.filter_criteria,
        user_data: v.user_data,
        identifier: v.identifier,
        badge: v.badge,
        trigger: match v.trigger {
            Some(t) => Some(Trigger { repeat: t.repeat, seconds_bits: t.seconds_bits }),
            None => None,
        },
    }
}

impl From<IosNotificationRequest> for Schedule {
    /// The wire form of `v`: every field carried over one to one, the
    /// trigger as its wire representation.
    fn from(v: IosNotificationRequest) -> (r: Schedule) {
        Schedule {
            title: v.title,
            body: v.body,
            category_identifier: v.category_identifier,
            subtitle: v.subtitle,
            relevance_score_bits: v.relevance_score_bits,
            thread_identifier: v.thread_identifier,
            filter_criteria: v.filter_criteria,
            user_data: v.user_data,
            identifier: v.identifier,
            badge: v.badge,
            trigger: match v.trigger {
                Some(t) => Some(Trigger { repeat: t.repeat, seconds_bits: t.seconds_bits }),
                None => None,
            },
        }
    }
}

impl vstd::std_specs::convert::FromSpecImpl<IosNotificationRequest> for Schedule {
    open spec fn obeys_from_spec() -> bool {
        true
    }

    open spec fn from_spec(v: IosNotificationRequest) -> Schedule {
        wire_schedule(v)
    }
}

impl From<String> for NotificationId {
    /// The wire form of one notification identifier.
    fn from(v: String) -> (r: NotificationId) {
        NotificationId { identifier: v }
    }
}

impl vstd::std_specs::convert::FromSpecImpl<String> for NotificationId {
    open spec fn obeys_from_spec() -> bool {
        true
    }

    open spec fn from_spec(v: String) -> NotificationId {
        NotificationId { identifier: v }
    }
}

// ---------------------------------------------------------------------------
// request builders
// ---------------------------------------------------------------------------

/// The request asking the user for the given permissions.
pub fn permissions_request(p: &IosNotificationPermissions) -> (r: Request)
    ensures
        r@ == (RequestV::Permissions { alert: p.alert, sound: p.sound, badge: p.badge }),
{
    Request::Permissions(crate::messages::Permissions {
        alert: p.alert,
        sound: p.sound,
        badge: p.badge,
    })
}

/// The request scheduling `n`.
pub fn schedule_request(n: IosNotificationRequest) -> (r: Request)
    ensures
        r@ == RequestV::Schedule(wire_schedule(n)@),
{
    Request::Schedule(Schedule::from(n))
}

/// The request asking for the list of pending notifications; the list
/// arrives later as an asynchronous event.
pub fn pending_request() -> (r: Request)
    ensures
        r@ == RequestV::Pending,
{
    Request::Pending
}

/// Turns identifiers into their wire form, in order.
fn wire_ids(ids: &Vec<String>) -> (r: Vec<NotificationId>)
    ensures
        r@.map_values(|n: NotificationId| n@) == ids@.map_values(|s: String| s@),
{
    let ghost id_views = ids@.map_values(|s: String| s@);
    let mut items: Vec<NotificationId> = Vec::new();
    let mut i: usize = 0;
    while i < ids.len()
        invariant
            i <= ids@.len(),
            id_views == ids@.map_values(|s: String| s@),
            items@.map_values(|n: NotificationId| n@) =~= id_views.take(i as int),
        decreases ids@.len() - i,
    {
        let id: String = ids[i].clone();
        proof {
            assert(id@ == id_views[i as int]);
        }
        let ghost prev = items@;
        items.push(NotificationId::from(id));
        proof {
            assert(id_views.len() == ids@.len());
            assert(id_views.take(i as int).len() == i);
            assert(prev.map_values(|n: NotificationId| n@).len() == prev.len());
            assert(prev.len() == i);
            assert(items@.map_values(|n: NotificationId| n@) =~= id_views.take(i as int + 1));
        }
        i = i + 1;
    }
    proof {
        assert(id_views.take(ids@.len() as int) =~= id_views);
    }
    items
}

/// The request removing the pending notifications with the given
/// identifiers.
pub fn remove_pending_request(ids: &Vec<String>) -> (r: Request)
    ensures
        r@ == RequestV::RemovePending(ids@.map_values(|s: String| s@)),
{
    Request::RemovePending(wire_ids(ids))
}

/// The request removing the delivered notifications with the given
/// identifiers.
pub fn remove_delivered_request(ids: &Vec<String>) -> (r: Request)
    ensures
        r@ == RequestV::RemoveDelivered(ids@.map_values(|s: String| s@)),
{
    Request::RemoveDelivered(wire_ids(ids))
}

/// The request removing every pending notification.
pub fn remove_all_pending_request() -> (r: Request)
    ensures
        r@ == RequestV::RemoveAllPending,
{
    Request::RemoveAllPending
}

/// The request removing every delivered notification.
pub fn remove_all_delivered_request() -> (r: Request)
    ensures
        r@ == RequestV::RemoveAllDelivered,
{
    Request::RemoveAllDelivered
}

} // verus!
