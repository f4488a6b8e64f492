//! The fan-out event bus: a bounded ring of recent events with independent
//! per-subscriber cursors.
//!
//! One producer appends; any number of subscribers each hold a `Cursor` and
//! poll at their own pace.  Publishing never waits for subscribers: when the
//! ring is full the oldest entry is overwritten.  A subscriber that fell
//! behind the retained window is told how much it missed, once, and resumes
//! at the oldest retained event.  Waiting for the next event to arrive is a
//! scheduling concern and stays outside the library; this module's `poll`
//! never suspends.

use vstd::prelude::*;

use crate::event::CreateEvent;

verus! {

/// What one poll of a cursor yields.
pub enum PollOutcome {
    /// The next event, in publish order.
    Event(CreateEvent),
    /// The cursor had fallen behind the retained window: this many events
    /// were dropped for this subscriber, whose cursor now stands at the
    /// oldest retained event.
    Lagged(u64),
    /// Nothing new has been published.
    Empty,
}

/// A subscriber's read position: the publish index of the next event it has
/// not yet consumed.
pub struct Cursor {
    pub pos: u64,
}

/// The bus: a bounded ring over the full publish history.
///
/// Its view is the whole history of published events; only the last
/// `cap()` of them are retained for delivery.
pub struct EventBus {
    capacity: usize,
    buf: Vec<CreateEvent>,
    count: u64,
    hist: Ghost<Seq<CreateEvent>>,
}

/// The publish index of the oldest event still retained by a bus whose
/// history has length `hist_len`.
pub open spec fn oldest_retained(hist_len: int, cap: int) -> int {
    if hist_len <= cap {
        0
    } else {
        hist_len - cap
    }
}

impl View for EventBus {
    type V = Seq<CreateEvent>;

    closed spec fn view(&self) -> Seq<CreateEvent> {
        self.hist@
    }
}

impl EventBus {
    /// The ring capacity: how many recent events are retained.
    pub closed spec fn cap(&self) -> int {
        self.capacity as int
    }

    /// The ring holds exactly the last `min(len, cap)` events of the
    /// history, in order.
    pub closed spec fn wf(&self) -> bool {
        &&& self.capacity > 0
        &&& self.count == self.hist@.len()
        &&& self.hist@.len() <= u64::MAX
        &&& self.buf@.len() == self.hist@.len() - oldest_retained(
            self.hist@.len() as int,
            self.cap(),
        )
        &&& forall|i: int|
            0 <= i < self.buf@.len() ==> #[trigger] self.buf@[i] == self.hist@[oldest_retained(
                self.hist@.len() as int,
                self.cap(),
            ) + i]
    }

    /// A fresh bus with the given ring capacity and an empty history.
    pub fn new(capacity: usize) -> (bus: EventBus)
        requires
            capacity > 0,
        ensures
            bus.wf(),
            bus@ == Seq::<CreateEvent>::empty(),
            bus.cap() == capacity,
    {
        EventBus { capacity, buf: Vec::new(), count: 0, hist: Ghost(Seq::empty()) }
    }

    /// How many events have ever been published.
    pub fn published(&self) -> (n: u64)
        requires
            self.wf(),
        ensures
            n == self@.len(),
    {
        self.count
    }

    /// Append one event to the history.  Never waits: when the ring is full
    /// the oldest retained event is overwritten.
    pub fn publish(&mut self, e: CreateEvent)
        requires
            old(self).wf(),
            old(self)@.len() < u64::MAX,
        ensures
            final(self).wf(),
            final(self)@ == old(self)@.push(e),
            final(self).cap() == old(self).cap(),
    {
        let ghost ev = e;
        self.buf.push(e);
        if self.buf.len() > self.capacity {
            self.buf.remove(0);
        }
        self.count = self.count + 1;
        proof {
            self.hist@ = self.hist@.push(ev);
        }
    }

    /// A fresh cursor positioned at "now": it sees only events published
    /// after this call.
    pub fn subscribe(&self) -> (c: Cursor)
        requires
            self.wf(),
        ensures
            c.pos == self@.len(),
    {
        Cursor { pos: self.count }
    }

    /// Advance a cursor by one step.  Yields the next event in publish
    /// order; or one lag signal with the exact number of events this
    /// subscriber missed, leaving the cursor at the oldest retained event;
    /// or nothing when the cursor has consumed the whole history.
    pub fn poll(&self, c: &mut Cursor) -> (r: PollOutcome)
        requires
            self.wf(),
            old(c).pos <= self@.len(),
        ensures
            ({
                let hist = self@;
                let pos = old(c).pos as int;
                let oldest = oldest_retained(hist.len() as int, self.cap());
                if pos == hist.len() {
                    r is Empty && final(c).pos == old(c).pos
                } else if pos < oldest {
                    r == PollOutcome::Lagged((oldest - pos) as u64) && final(c).pos == oldest
                } else {
                    (r matches PollOutcome::Event(e) && e == hist[pos]) && final(c).pos == pos
                        + 1
                }
            }),
    {
        let buflen = self.buf.len();
        let oldest: u64 = self.count - (buflen as u64);
        if c.pos == self.count {
            PollOutcome::Empty
        } else if c.pos < oldest {
            let missed = oldest - c.pos;
            c.pos = oldest;
            PollOutcome::Lagged(missed)
        } else {
            let idx: usize = (c.pos - oldest) as usize;
            let e = self.buf[idx].duplicate();
            c.pos = c.pos + 1;
            PollOutcome::Event(e)
        }
    }
}

// ---------------------------------------------------------------------------
// Laws of delivery.  `drained_events` and `drained_lags` replay `poll`'s
// contract case by case until the cursor reaches the end of the history:
// the events collected and the lag signals counted along the way.
// ---------------------------------------------------------------------------

/// The events a subscriber whose cursor stands at `pos` still receives when
/// it polls until idle, with no further publishes.
pub open spec fn drained_events(hist: Seq<CreateEvent>, cap: int, pos: int) -> Seq<CreateEvent>
    decreases hist.len() - pos,
    when 0 <= pos <= hist.len() && 0 < cap
{
    if pos >= hist.len() {
        Seq::empty()
    } else if pos < oldest_retained(hist.len() as int, cap) {
        drained_events(hist, cap, oldest_retained(hist.len() as int, cap))
    } else {
        seq![hist[pos]] + drained_events(hist, cap, pos + 1)
    }
}

/// How many lag signals that subscriber receives along the way.
pub open spec fn drained_lags(hist: Seq<CreateEvent>, cap: int, pos: int) -> nat
    decreases hist.len() - pos,
    when 0 <= pos <= hist.len() && 0 < cap
{
    if pos >= hist.len() {
        0
    } else if pos < oldest_retained(hist.len() as int, cap) {
        1 + drained_lags(hist, cap, oldest_retained(hist.len() as int, cap))
    } else {
        drained_lags(hist, cap, pos + 1)
    }
}

/// A subscriber that never fell behind the retained window receives, in
/// publish order, exactly every event published after its cursor — and no
/// lag signal.  In particular a subscriber attached before the first of N
/// publishes that keeps up receives exactly those N events in order.
pub proof fn lemma_in_order_no_loss(hist: Seq<CreateEvent>, cap: int, pos: int)
    requires
        0 < cap,
        0 <= pos <= hist.len(),
        oldest_retained(hist.len() as int, cap) <= pos,
    ensures
        drained_events(hist, cap, pos) == hist.subrange(pos, hist.len() as int),
        drained_lags(hist, cap, pos) == 0,
    decreases hist.len() - pos,
{
    if pos < hist.len() {
        lemma_in_order_no_loss(hist, cap, pos + 1);
    }
    assert(drained_events(hist, cap, pos) =~= hist.subrange(pos, hist.len() as int));
}

/// The fan-out guarantee, stated for one subscription: a subscriber
/// attached when the history was `before`, after any further sequence
/// `fresh` of publishes that does not outrun the ring, polls exactly the
/// events of `fresh`, in publish order, with no lag signal.
pub proof fn lemma_subscriber_receives_all(
    before: Seq<CreateEvent>,
    fresh: Seq<CreateEvent>,
    cap: int,
)
    requires
        0 < cap,
        fresh.len() <= cap,
    ensures
        drained_events(before + fresh, cap, before.len() as int) == fresh,
        drained_lags(before + fresh, cap, before.len() as int) == 0,
{
    lemma_in_order_no_loss(before + fresh, cap, before.len() as int);
    assert((before + fresh).subrange(before.len() as int, (before + fresh).len() as int)
        =~= fresh);
}

/// A subscriber that fell behind the retained window receives exactly one
/// lag signal for the gap, then resumes at the oldest retained event and
/// receives every retained event from there on, in order: nothing it
/// already consumed is replayed, and the producer is never held back.
pub proof fn lemma_lag_signalled_once(hist: Seq<CreateEvent>, cap: int, pos: int)
    requires
        0 < cap,
        0 <= pos < oldest_retained(hist.len() as int, cap),
    ensures
        drained_events(hist, cap, pos) == hist.subrange(
            oldest_retained(hist.len() as int, cap),
            hist.len() as int,
        ),
        drained_lags(hist, cap, pos) == 1,
{
    lemma_in_order_no_loss(hist, cap, oldest_retained(hist.len() as int, cap));
}

} // verus!
