//! The progress counter of one upload. The receiver races a timer against
//! the arrival of body chunks; each thing that happens is an event, and the
//! counter decides what, if anything, is reported to the host.

use vstd::prelude::*;

verus! {

/// How often, in milliseconds, the received count is reported during an upload.
pub const PROGRESS_INTERVAL_MS: u64 = 100;

/// What the receiver of an upload observed next.
#[derive(PartialEq, Eq, Structural, Clone, Copy, Debug)]
pub enum TransferEvent {
    /// The progress timer fired.
    Tick,
    /// A chunk of this many bytes arrived and was written.
    Chunk(usize),
    /// The body ended.
    End,
}

/// The bytes received, whether the body has ended, and the counts reported,
/// after the given events. Nothing counts after the end of the body.
pub open spec fn run(events: Seq<TransferEvent>) -> (nat, bool, Seq<nat>)
    decreases events.len(),
{
    if events.len() == 0 {
        (0, false, Seq::empty())
    } else {
        let (total, finished, reports) = run(events.drop_last());
        if finished {
            (total, finished, reports)
        } else {
            match events.last() {
                TransferEvent::Tick => (total, false, reports.push(total)),
                TransferEvent::Chunk(n) => ((total + n) as nat, false, reports),
                TransferEvent::End => (total, true, reports.push(total)),
            }
        }
    }
}

pub open spec fn received_after(events: Seq<TransferEvent>) -> nat {
    run(events).0
}

pub open spec fn finished_after(events: Seq<TransferEvent>) -> bool {
    run(events).1
}

pub open spec fn reports_after(events: Seq<TransferEvent>) -> Seq<nat> {
    run(events).2
}

/// What one more event reports after `events`: the count so far for the
/// timer and for the end of the body, nothing for a chunk or once ended.
pub open spec fn report_for(events: Seq<TransferEvent>, event: TransferEvent) -> Option<nat> {
    if finished_after(events) {
        None
    } else {
        match event {
            TransferEvent::Chunk(_) => None,
            _ => Some(received_after(events)),
        }
    }
}

/// The counter of one upload; its view is the events it has seen.
pub struct TransferProgress {
    received: u64,
    finished: bool,
    events: Ghost<Seq<TransferEvent>>,
}

impl View for TransferProgress {
    type V = Seq<TransferEvent>;

    closed spec fn view(&self) -> Seq<TransferEvent> {
        self.events@
    }
}

impl TransferProgress {
    #[verifier::type_invariant]
    closed spec fn well_formed(&self) -> bool {
        &&& self.received as nat == received_after(self.events@)
        &&& self.finished == finished_after(self.events@)
    }

    pub fn new() -> (r: Self)
        ensures
            r@ == Seq::<TransferEvent>::empty(),
    {
        TransferProgress { received: 0, finished: false, events: Ghost(Seq::empty()) }
    }

    /// The bytes received so far.
    pub fn received(&self) -> (r: u64)
        ensures
            r == received_after(self@),
    {
        proof {
            use_type_invariant(self);
        }
        self.received
    }

    /// Whether the body has ended.
    pub fn is_finished(&self) -> (r: bool)
        ensures
            r == finished_after(self@),
    {
        proof {
            use_type_invariant(self);
        }
        self.finished
    }

    /// Takes in one event and returns the count to report, if any: the timer
    /// and the end of the body report the count, a chunk advances it.
    pub fn step(&mut self, event: TransferEvent) -> (r: Option<u64>)
        requires
            event matches TransferEvent::Chunk(n) ==> received_after(old(self)@) + n <= u64::MAX,
        ensures
            final(self)@ == old(self)@.push(event),
            match report_for(old(self)@, event) {
                Some(c) => r == Some(c as u64),
                None => r is None,
            },
            received_after(final(self)@) == received_after(old(self)@) + match event {
                TransferEvent::Chunk(n) => if finished_after(old(self)@) {
                    0
                } else {
                    n as int
                },
                _ => 0,
            },
            finished_after(final(self)@) == (finished_after(old(self)@) || event is End),
            reports_after(final(self)@) == match r {
                Some(c) => reports_after(old(self)@).push(c as nat),
                None => reports_after(old(self)@),
            },
    {
        proof {
            use_type_invariant(&*self);
        }
        let ghost after = self.events@.push(event);
        assert(after.drop_last() =~= self.events@);
        if self.finished {
            *self = TransferProgress { received: self.received, finished: true, events: Ghost(after) };
            return None;
        }
        match event {
            TransferEvent::Tick => {
                *self = TransferProgress {
                    received: self.received,
                    finished: false,
                    events: Ghost(after),
                };
                Some(self.received)
            },
            TransferEvent::Chunk(n) => {
                *self = TransferProgress {
                    received: self.received + n as u64,
                    finished: false,
                    events: Ghost(after),
                };
                None
            },
            TransferEvent::End => {
                *self = TransferProgress {
                    received: self.received,
                    finished: true,
                    events: Ghost(after),
                };
                Some(self.received)
            },
        }
    }
}

/// Every count reported is at most the count received so far, and the
/// counts reported never decrease.
pub proof fn lemma_reports_monotone(events: Seq<TransferEvent>)
    ensures
        forall|i: int|
            0 <= i < reports_after(events).len() ==> #[trigger] reports_after(events)[i]
                <= received_after(events),
        forall|i: int, j: int|
            0 <= i <= j < reports_after(events).len() ==> reports_after(events)[i]
                <= reports_after(events)[j],
    decreases events.len(),
{
    if events.len() > 0 {
        let prev = events.drop_last();
        lemma_reports_monotone(prev);
        let before = reports_after(prev);
        let after = reports_after(events);
        assert(received_after(prev) <= received_after(events));
        assert(after == before || after == before.push(received_after(prev)));
        assert forall|i: int| 0 <= i < after.len() implies #[trigger] after[i] <= received_after(
            events,
        ) by {
            if i < before.len() {
                assert(after[i] == before[i]);
            }
        }
        assert forall|i: int, j: int| 0 <= i <= j < after.len() implies after[i] <= after[j] by {
            if j < before.len() {
                assert(after[i] == before[i]);
                assert(after[j] == before[j]);
            } else {
                assert(after[i] <= received_after(prev)) by {
                    if i < before.len() {
                        assert(after[i] == before[i]);
                        assert(before[i] <= received_after(prev));
                    }
                }
            }
        }
    }
}

/// Once the body has ended, the last count reported is the total received.
pub proof fn lemma_final_report(events: Seq<TransferEvent>)
    requires
        finished_after(events),
    ensures
        reports_after(events).len() > 0,
        reports_after(events).last() == received_after(events),
    decreases events.len(),
{
    if events.len() > 0 {
        let prev = events.drop_last();
        if finished_after(prev) {
            lemma_final_report(prev);
        }
    }
}

} // verus!
