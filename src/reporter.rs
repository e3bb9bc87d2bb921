//! An in-memory subscriber: the events of a run, in the order they were
//! published.
use vstd::prelude::*;

use crate::event::{Event, EventScope, Message, NewCompatibilityCheck};
use crate::toolchain::OwnedToolchainSpec;

verus! {

/// The probe scopes an event adds to a trace: the end it marks and the
/// toolchain of the probe, for a scoped `NewCompatibilityCheck`.
pub open spec fn probe_mark(trace: Seq<(EventScope, OwnedToolchainSpec)>, e: Event) -> Seq<
    (EventScope, OwnedToolchainSpec),
> {
    match e.message {
        Message::NewCompatibilityCheck(c) => match e.scope {
            Some(s) => trace.push((s, c.toolchain)),
            None => trace,
        },
        _ => trace,
    }
}

/// The probe scopes of an event sequence, in order.
pub open spec fn probe_trace(events: Seq<Event>) -> Seq<(EventScope, OwnedToolchainSpec)>
    decreases events.len(),
{
    if events.len() == 0 {
        seq![]
    } else {
        probe_mark(probe_trace(events.drop_last()), events.last())
    }
}

/// How many `MsrvResult` events a sequence holds.
pub open spec fn result_count(events: Seq<Event>) -> nat
    decreases events.len(),
{
    if events.len() == 0 {
        0
    } else {
        result_count(events.drop_last()) + if events.last().message is MsrvResult {
            1nat
        } else {
            0nat
        }
    }
}

/// A trace in which each probe of `probes` has, in order, exactly one Start
/// followed by its End, both carrying the probe's toolchain.
pub open spec fn bracketed(
    trace: Seq<(EventScope, OwnedToolchainSpec)>,
    probes: Seq<OwnedToolchainSpec>,
) -> bool {
    &&& trace.len() == 2 * probes.len()
    &&& forall|k: int|
        0 <= k < probes.len() ==> trace[2 * k] == (EventScope::Start, #[trigger] probes[k])
            && trace[2 * k + 1] == (EventScope::End, probes[k])
}

/// As `bracketed`, but the last probe has started and not yet ended.
pub open spec fn bracket_open(
    trace: Seq<(EventScope, OwnedToolchainSpec)>,
    probes: Seq<OwnedToolchainSpec>,
) -> bool {
    &&& probes.len() > 0
    &&& bracketed(trace.drop_last(), probes.drop_last())
    &&& trace.len() == 2 * probes.len() - 1
    &&& trace.last() == (EventScope::Start, probes.last())
}

/// The events received, in publication order.
pub struct EventLog {
    events: Vec<Event>,
}

impl View for EventLog {
    type V = Seq<Event>;

    closed spec fn view(&self) -> Seq<Event> {
        self.events@
    }
}

impl EventLog {
    pub fn new() -> (r: EventLog)
        ensures
            r@ == Seq::<Event>::empty(),
    {
        EventLog { events: Vec::new() }
    }

    /// Publishes one event: it is received after every earlier one.
    pub fn report_event(&mut self, e: Event)
        ensures
            final(self)@ == old(self)@.push(e),
            probe_trace(final(self)@) == probe_mark(probe_trace(old(self)@), e),
            result_count(final(self)@) == result_count(old(self)@) + if e.message is MsrvResult {
                1nat
            } else {
                0nat
            },
    {
        self.events.push(e);
        proof {
            assert(self.events@.drop_last() =~= old(self)@);
        }
    }

    /// Publishes the start of a scope.
    pub fn start_scope(&mut self, m: Message)
        ensures
            final(self)@ == old(self)@.push(Event { message: m, scope: Some(EventScope::Start) }),
            probe_trace(final(self)@) == probe_mark(
                probe_trace(old(self)@),
                Event { message: m, scope: Some(EventScope::Start) },
            ),
            result_count(final(self)@) == result_count(old(self)@) + if m is MsrvResult {
                1nat
            } else {
                0nat
            },
    {
        self.report_event(Event::scoped(m, EventScope::Start));
    }

    /// Publishes the end of a scope.
    pub fn end_scope(&mut self, m: Message)
        ensures
            final(self)@ == old(self)@.push(Event { message: m, scope: Some(EventScope::End) }),
            probe_trace(final(self)@) == probe_mark(
                probe_trace(old(self)@),
                Event { message: m, scope: Some(EventScope::End) },
            ),
            result_count(final(self)@) == result_count(old(self)@) + if m is MsrvResult {
                1nat
            } else {
                0nat
            },
    {
        self.report_event(Event::scoped(m, EventScope::End));
    }

    /// The events received so far.
    pub fn events(&self) -> (r: &Vec<Event>)
        ensures
            r@ == self@,
    {
        &self.events
    }

    pub fn len(&self) -> (r: usize)
        ensures
            r == self@.len(),
    {
        self.events.len()
    }
}

/// A subscriber sees what was published, in publication order: each
/// publication keeps every earlier event in place and adds one after them.
pub proof fn lemma_publication_order(before: Seq<Event>, e: Event, after: Seq<Event>)
    requires
        after == before.push(e),
    ensures
        after.len() == before.len() + 1,
        after.subrange(0, before.len() as int) == before,
        after.last() == e,
{
    assert(after.subrange(0, before.len() as int) =~= before);
}

/// Opening the scope of a probe on a bracketed trace leaves it open on that
/// probe.
pub proof fn lemma_open_probe(
    events: Seq<Event>,
    probes: Seq<OwnedToolchainSpec>,
    t: OwnedToolchainSpec,
)
    requires
        bracketed(probe_trace(events), probes),
    ensures
        bracket_open(
            probe_trace(
                events.push(
                    Event {
                        message: Message::NewCompatibilityCheck(
                            NewCompatibilityCheck { toolchain: t },
                        ),
                        scope: Some(EventScope::Start),
                    },
                ),
            ),
            probes.push(t),
        ),
{
    let e = Event {
        message: Message::NewCompatibilityCheck(NewCompatibilityCheck { toolchain: t }),
        scope: Some(EventScope::Start),
    };
    assert(events.push(e).drop_last() =~= events);
    let tr = probe_trace(events.push(e));
    assert(tr == probe_trace(events).push((EventScope::Start, t)));
    assert(tr.drop_last() =~= probe_trace(events));
    assert(probes.push(t).drop_last() =~= probes);
}

/// Closing the scope of the open probe leaves the trace bracketed.
pub proof fn lemma_close_probe(events: Seq<Event>, probes: Seq<OwnedToolchainSpec>)
    requires
        bracket_open(probe_trace(events), probes),
    ensures
        bracketed(
            probe_trace(
                events.push(
                    Event {
                        message: Message::NewCompatibilityCheck(
                            NewCompatibilityCheck { toolchain: probes.last() },
                        ),
                        scope: Some(EventScope::End),
                    },
                ),
            ),
            probes,
        ),
{
    let e = Event {
        message: Message::NewCompatibilityCheck(NewCompatibilityCheck { toolchain: probes.last() }),
        scope: Some(EventScope::End),
    };
    assert(events.push(e).drop_last() =~= events);
    let old_tr = probe_trace(events);
    let tr = probe_trace(events.push(e));
    assert(tr == old_tr.push((EventScope::End, probes.last())));
    let n = probes.len() - 1;
    assert forall|k: int| 0 <= k < probes.len() implies tr[2 * k] == (
        EventScope::Start,
        #[trigger] probes[k],
    ) && tr[2 * k + 1] == (EventScope::End, probes[k]) by {
        if k < n {
            assert(probes.drop_last()[k] == probes[k]);
            assert(old_tr.drop_last()[2 * k] == old_tr[2 * k]);
            assert(old_tr.drop_last()[2 * k + 1] == old_tr[2 * k + 1]);
        }
    }
}

} // verus!
