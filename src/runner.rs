//! The runner: which notifications from the shared store reach a client.
//!
//! The store hands each client a stream of events; the runner decides, event
//! by event, what the client is told. Subscribing, decoding and calling the
//! client's callbacks happen around it.

use vstd::prelude::*;
use crate::state::AppState;

verus! {

/// An unexpected session failure: the store or the directory failed.
#[derive(Clone, Copy, Debug, PartialEq, Eq, Structural)]
pub enum SessionError {
    Unexpected,
}

/// What reaches a runner: a new state of the store with its version, a fault
/// of the subscription, or the client's own request to stop.
#[derive(Debug)]
pub enum SyncEvent {
    Update(u64, AppState),
    Fault,
    Stop,
}

/// What the runner tells its client for one event.
#[derive(Debug)]
pub enum Notice {
    StateChange(AppState),
    Error(SessionError),
    Silent,
}

/// The shape of an event, as far as the runner's decisions go.
pub enum EventKind {
    Update(u64),
    Fault,
    Stop,
}

/// The shape of a notice: a delivery of the state of a version, an error, or
/// nothing.
pub enum Outcome {
    Deliver(u64),
    Error,
    Silent,
}

/// The runner's state: whether it was stopped, and the version of the last
/// state that it delivered.
pub struct RunnerView {
    pub stopped: bool,
    pub last: Option<u64>,
}

/// The shape of an event.
pub open spec fn kind_of(e: SyncEvent) -> EventKind {
    match e {
        SyncEvent::Update(v, _) => EventKind::Update(v),
        SyncEvent::Fault => EventKind::Fault,
        SyncEvent::Stop => EventKind::Stop,
    }
}

/// Whether a version is newer than the last one delivered.
pub open spec fn is_newer(last: Option<u64>, v: u64) -> bool {
    match last {
        None => true,
        Some(w) => w < v,
    }
}

/// One decision of the runner. A stopped runner stays silent. A running one
/// delivers each state newer than the last it delivered (a replayed or older
/// version is stale and dropped), reports each fault, and keeps listening.
pub open spec fn runner_next(r: RunnerView, e: EventKind) -> (RunnerView, Outcome) {
    if r.stopped {
        (r, Outcome::Silent)
    } else {
        match e {
            EventKind::Update(v) => if is_newer(r.last, v) {
                (RunnerView { stopped: false, last: Some(v) }, Outcome::Deliver(v))
            } else {
                (r, Outcome::Silent)
            },
            EventKind::Fault => (r, Outcome::Error),
            EventKind::Stop => (RunnerView { stopped: true, last: r.last }, Outcome::Silent),
        }
    }
}

/// What the runner tells its client over a run of events.
pub open spec fn outcomes(r: RunnerView, events: Seq<EventKind>) -> Seq<Outcome>
    decreases events.len(),
{
    if events.len() == 0 {
        Seq::empty()
    } else {
        let (r2, o) = runner_next(r, events[0]);
        seq![o] + outcomes(r2, events.drop_first())
    }
}

/// The notice `n` for event `e` is the outcome `o`, carrying the event's state
/// where it is a delivery.
pub open spec fn notice_is(n: Notice, e: SyncEvent, o: Outcome) -> bool {
    match o {
        Outcome::Deliver(_) => e matches SyncEvent::Update(_, s) && n == Notice::StateChange(s),
        Outcome::Error => n == Notice::Error(SessionError::Unexpected),
        Outcome::Silent => n is Silent,
    }
}

/// Every state that a run delivers is newer than the last one delivered before
/// the run began.
pub proof fn lemma_deliveries_newer(r: RunnerView, events: Seq<EventKind>)
    ensures
        forall|i: int|
            0 <= i < outcomes(r, events).len() ==> (#[trigger] outcomes(r, events)[i] matches Outcome::Deliver(v)
                ==> is_newer(r.last, v)),
        outcomes(r, events).len() == events.len(),
    decreases events.len(),
{
    if events.len() > 0 {
        let (r2, o) = runner_next(r, events[0]);
        lemma_deliveries_newer(r2, events.drop_first());
        let rest = outcomes(r2, events.drop_first());
        assert forall|i: int|
            0 <= i < outcomes(r, events).len() implies (#[trigger] outcomes(r, events)[i] matches Outcome::Deliver(v)
            ==> is_newer(r.last, v)) by {
            if i > 0 {
                assert(outcomes(r, events)[i] == rest[i - 1]);
            }
        }
    }
}

/// Delivery is monotonic: once a state has been delivered, no state of an
/// older or equal version is delivered after it.
pub proof fn lemma_delivery_monotonic(r: RunnerView, events: Seq<EventKind>, i: int, j: int)
    requires
        0 <= i < j < events.len(),
        outcomes(r, events)[i] is Deliver,
        outcomes(r, events)[j] is Deliver,
    ensures
        outcomes(r, events)[i]->Deliver_0 < outcomes(r, events)[j]->Deliver_0,
    decreases events.len(),
{
    let (r2, o) = runner_next(r, events[0]);
    let rest = outcomes(r2, events.drop_first());
    lemma_deliveries_newer(r2, events.drop_first());
    assert(outcomes(r, events)[j] == rest[j - 1]);
    if i == 0 {
        assert(r2.last == Some(o->Deliver_0));
        assert(rest[j - 1] matches Outcome::Deliver(v) ==> is_newer(r2.last, v));
    } else {
        assert(outcomes(r, events)[i] == rest[i - 1]);
        lemma_delivery_monotonic(r2, events.drop_first(), i - 1, j - 1);
    }
}

/// A stopped runner tells its client nothing, whatever the store does.
pub proof fn lemma_stopped_is_silent(r: RunnerView, events: Seq<EventKind>)
    requires
        r.stopped,
    ensures
        outcomes(r, events).len() == events.len(),
        forall|i: int| 0 <= i < events.len() ==> #[trigger] outcomes(r, events)[i] is Silent,
    decreases events.len(),
{
    if events.len() > 0 {
        lemma_stopped_is_silent(r, events.drop_first());
        assert forall|i: int| 0 <= i < events.len() implies #[trigger] outcomes(r, events)[i] is Silent by {
            if i > 0 {
                assert(outcomes(r, events)[i] == outcomes(r, events.drop_first())[i - 1]);
            }
        }
    }
}

/// After a stop, no state change and no error reaches the client.
pub proof fn lemma_silent_after_stop(r: RunnerView, events: Seq<EventKind>, k: int)
    requires
        0 <= k < events.len(),
        events[k] is Stop,
    ensures
        forall|i: int| k <= i < events.len() ==> #[trigger] outcomes(r, events)[i] is Silent,
    decreases events.len(),
{
    let (r2, o) = runner_next(r, events[0]);
    let rest = outcomes(r2, events.drop_first());
    lemma_deliveries_newer(r2, events.drop_first());
    if k == 0 {
        lemma_stopped_is_silent(r2, events.drop_first());
    } else {
        lemma_silent_after_stop(r2, events.drop_first(), k - 1);
    }
    assert forall|i: int| k <= i < events.len() implies #[trigger] outcomes(r, events)[i] is Silent by {
        if i > 0 {
            assert(outcomes(r, events)[i] == rest[i - 1]);
        }
    }
}

/// A client's runner.
pub struct Runner {
    stopped: bool,
    last: Option<u64>,
}

impl View for Runner {
    type V = RunnerView;

    closed spec fn view(&self) -> RunnerView {
        RunnerView { stopped: self.stopped, last: self.last }
    }
}

impl Runner {
    /// A runner that has delivered nothing yet.
    pub fn new() -> (r: Runner)
        ensures
            r@ == (RunnerView { stopped: false, last: None }),
    {
        Runner { stopped: false, last: None }
    }

    /// Whether the runner was stopped.
    pub fn is_stopped(&self) -> (r: bool)
        ensures
            r == self@.stopped,
    {
        self.stopped
    }

    /// The version of the last state delivered, if any.
    pub fn last_version(&self) -> (r: Option<u64>)
        ensures
            r == self@.last,
    {
        self.last
    }

    /// Decides what the client is told of one event, and moves on.
    pub fn handle(&mut self, event: SyncEvent) -> (n: Notice)
        ensures
            final(self)@ == runner_next(old(self)@, kind_of(event)).0,
            notice_is(n, event, runner_next(old(self)@, kind_of(event)).1),
    {
        if self.stopped {
            return Notice::Silent;
        }
        match event {
            SyncEvent::Update(v, state) => {
                let newer = match self.last {
                    None => true,
                    Some(w) => w < v,
                };
                if newer {
                    self.last = Some(v);
                    Notice::StateChange(state)
                } else {
                    Notice::Silent
                }
            },
            SyncEvent::Fault => Notice::Error(SessionError::Unexpected),
            SyncEvent::Stop => {
                self.stopped = true;
                Notice::Silent
            },
        }
    }

    /// Stops the runner: from now on it tells its client nothing.
    pub fn stop(&mut self)
        ensures
            final(self)@ == runner_next(old(self)@, EventKind::Stop).0,
            final(self)@.stopped,
    {
        self.stopped = true;
    }
}

} // verus!
