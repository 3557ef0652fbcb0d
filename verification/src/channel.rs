//! The event sink: the single destination for native-origin events.
//!
//! The sink is a single-assignment slot in front of an ordered queue.  It
//! starts unset; `set_sender` assigns it at most once (first write wins, a
//! later call is a rejected no-op — never a wait); `send_event` appends an
//! event to the queue when the slot is set and drops the event otherwise,
//! without blocking or failing the caller; `drain` hands the host every
//! queued event, in the order they were sent, and empties the queue.
//!
//! The sink is an explicit value, not process-global state: the
//! surrounding application owns one instance for the life of the process
//! and, because the native layer may invoke the callback from a thread of
//! its own at any time, guards it with a mutual-exclusion primitive of the
//! host's choosing.  Everything the lock protects is the plain state
//! machine verified here.

use vstd::prelude::*;

verus! {

use crate::plugin::{IosNotificationEvents, IosNotificationEventsV};

/// The process-wide slot holding the host's event channel, and the channel
/// itself: an ordered queue drained by the host once per tick.
pub struct EventSink {
    sender_set: bool,
    pending: Vec<IosNotificationEvents>,
}

impl EventSink {
    /// Whether a sender has been installed.
    pub closed spec fn installed(&self) -> bool {
        self.sender_set
    }

    /// The queued events, oldest first.
    pub closed spec fn queued(&self) -> Seq<IosNotificationEvents> {
        self.pending@
    }

    /// The views of the queued events, oldest first.
    pub open spec fn queued_views(&self) -> Seq<IosNotificationEventsV> {
        self.queued().map_values(|e: IosNotificationEvents| e@)
    }

    /// A sink as it is at process start: no sender, nothing queued.
    pub fn new() -> (r: Self)
        ensures
            !r.installed(),
            r.queued() == Seq::<IosNotificationEvents>::empty(),
    {
        EventSink { sender_set: false, pending: Vec::new() }
    }

    /// Installs the sender.  The first call wins and returns `true`; any
    /// later call changes nothing and returns `false`, rather than
    /// waiting for a slot that can never free up.
    pub fn set_sender(&mut self) -> (installed_now: bool)
        ensures
            installed_now == !old(self).installed(),
            final(self).installed(),
            final(self).queued() == old(self).queued(),
    {
        if self.sender_set {
            false
        } else {
            self.sender_set = true;
            true
        }
    }

    /// Forwards `e` to the host: queued in arrival order when a sender is
    /// installed, dropped (never blocking, never failing the caller)
    /// otherwise.  Returns whether the event was queued.
    pub fn send_event(&mut self, e: IosNotificationEvents) -> (delivered: bool)
        ensures
            delivered == old(self).installed(),
            final(self).installed() == old(self).installed(),
            old(self).installed() ==> final(self).queued() == old(self).queued().push(e),
            !old(self).installed() ==> *final(self) == *old(self),
    {
        if self.sender_set {
            self.pending.push(e);
            true
        } else {
            false
        }
    }

    /// Hands the host every queued event, oldest first, and empties the
    /// queue: one tick's worth of delivery.
    pub fn drain(&mut self) -> (events: Vec<IosNotificationEvents>)
        ensures
            events@ == old(self).queued(),
            final(self).installed() == old(self).installed(),
            final(self).queued() == Seq::<IosNotificationEvents>::empty(),
    {
        let mut events: Vec<IosNotificationEvents> = Vec::new();
        core::mem::swap(&mut events, &mut self.pending);
        events
    }
}

} // verus!
