//! Runs of the extractor: what a sequence of events leads to, and the output
//! that it produces.
use crate::machine::{Event, Machine};
use crate::model::{Domain, ExtractionOutput};
use crate::unit::{Origin, Outcome, Unit};
use tonic::Status;
use vstd::prelude::*;

verus! {

/// The state that `events` lead to from the start.
pub open spec fn run<D: Domain>(bound: nat, events: Seq<Event<D>>) -> Machine<D>
    decreases events.len(),
{
    if events.len() == 0 {
        Machine::start(bound)
    } else {
        run(bound, events.drop_last()).step(events.last())
    }
}

/// Whether each event was acceptable when it was reported.
pub open spec fn valid<D: Domain>(bound: nat, events: Seq<Event<D>>) -> bool
    decreases events.len(),
{
    events.len() == 0 || (valid(bound, events.drop_last()) && run(
        bound,
        events.drop_last(),
    ).accepts(events.last()))
}

/// A unit together with the outcome that resolved it.
pub struct Resolution<D: Domain> {
    pub unit: Unit<D>,
    pub outcome: Outcome<D>,
}

impl<D: Domain> Resolution<D> {
    /// The output element of this resolution.
    pub open spec fn output(self) -> Result<ExtractionOutput<D>, Status> {
        self.unit.emission(self.outcome)
    }
}

/// The resolutions that `events` brought about, in their order.
pub open spec fn history<D: Domain>(bound: nat, events: Seq<Event<D>>) -> Seq<Resolution<D>>
    decreases events.len(),
{
    if events.len() == 0 {
        Seq::empty()
    } else {
        let earlier = history(bound, events.drop_last());
        match events.last() {
            Event::Resolved { ticket, outcome } => match run(bound, events.drop_last()).unit_at(
                ticket as int,
            ) {
                Some(unit) => earlier.push(Resolution { unit, outcome }),
                None => earlier,
            },
            _ => earlier,
        }
    }
}

/// The output elements of a sequence of resolutions.
pub open spec fn outputs_of<D: Domain>(log: Seq<Resolution<D>>) -> Seq<
    Result<ExtractionOutput<D>, Status>,
> {
    Seq::new(log.len(), |i: int| log[i].output())
}

/// The output sequence of a run: one element for each resolution.
pub open spec fn outputs<D: Domain>(bound: nat, events: Seq<Event<D>>) -> Seq<
    Result<ExtractionOutput<D>, Status>,
> {
    outputs_of(history(bound, events))
}

/// The index of the event that admitted the unit which slot `ticket` holds
/// after `events`, or -1 if the slot is free then.
pub open spec fn admitted_at<D: Domain>(bound: nat, events: Seq<Event<D>>, ticket: int) -> int
    decreases events.len(),
{
    if events.len() == 0 {
        -1
    } else {
        let before = run(bound, events.drop_last());
        if Machine::admitted(events.last()) is Some && before.free_slot() == ticket {
            events.len() - 1
        } else if events.last() matches Event::Resolved { ticket: resolved, .. } && resolved
            == ticket {
            -1
        } else {
            admitted_at(bound, events.drop_last(), ticket)
        }
    }
}

/// How many units of one origin the events admitted.
pub open spec fn admissions<D: Domain>(events: Seq<Event<D>>, origin: Origin) -> nat
    decreases events.len(),
{
    if events.len() == 0 {
        0
    } else {
        admissions(events.drop_last(), origin) + if Machine::admitted(events.last()) matches Some(
            unit,
        ) && unit.origin() == origin {
            1nat
        } else {
            0nat
        }
    }
}

/// How many units of one origin were resolved.
pub open spec fn resolved_of<D: Domain>(log: Seq<Resolution<D>>, origin: Origin) -> nat
    decreases log.len(),
{
    if log.len() == 0 {
        0
    } else {
        resolved_of(log.drop_last(), origin) + if log.last().unit.origin() == origin {
            1nat
        } else {
            0nat
        }
    }
}

/// How often the mark of the end of polling occurs in an output sequence.
pub open spec fn exhausted_count<D: Domain>(
    out: Seq<Result<ExtractionOutput<D>, Status>>,
) -> nat
    decreases out.len(),
{
    if out.len() == 0 {
        0
    } else {
        exhausted_count(out.drop_last()) + if out.last() == Ok::<ExtractionOutput<D>, Status>(
            ExtractionOutput::SourceExhausted,
        ) {
            1nat
        } else {
            0nat
        }
    }
}

/// A valid run stays valid when its later events are left out.
pub proof fn lemma_valid_prefix<D: Domain>(bound: nat, events: Seq<Event<D>>, k: int)
    requires
        valid(bound, events),
        0 <= k <= events.len(),
    ensures
        valid(bound, events.take(k)),
    decreases events.len(),
{
    if k == events.len() {
        assert(events.take(k) =~= events);
    } else {
        assert(events.drop_last().take(k) =~= events.take(k));
        lemma_valid_prefix(bound, events.drop_last(), k);
    }
}

/// A valid run leads to a well-formed state within the bound.
pub proof fn lemma_run_wf<D: Domain>(bound: nat, events: Seq<Event<D>>)
    requires
        bound >= 1,
        valid(bound, events),
    ensures
        run(bound, events).wf(),
        run(bound, events).bound == bound,
        run(bound, events).live() <= bound,
    decreases events.len(),
{
    if events.len() > 0 {
        lemma_run_wf(bound, events.drop_last());
        run(bound, events.drop_last()).lemma_step(events.last(), Origin::Poll);
    }
}

/// The resolutions of a run begin with those of each of its prefixes.
pub proof fn lemma_history_prefix<D: Domain>(bound: nat, events: Seq<Event<D>>, n: int)
    requires
        0 <= n <= events.len(),
    ensures
        history(bound, events.take(n)).len() <= history(bound, events).len(),
        forall|x: int|
            0 <= x < history(bound, events.take(n)).len() ==> history(bound, events)[x]
                == #[trigger] history(bound, events.take(n))[x],
    decreases events.len(),
{
    if n == events.len() {
        assert(events.take(n) =~= events);
    } else {
        assert(events.drop_last().take(n) =~= events.take(n));
        lemma_history_prefix(bound, events.drop_last(), n);
    }
}

/// An accepted resolution adds one entry to the resolutions: the unit that
/// the slot held, with the outcome.
pub proof fn lemma_history_grows<D: Domain>(bound: nat, events: Seq<Event<D>>, k: int)
    requires
        valid(bound, events),
        0 <= k < events.len(),
        events[k] is Resolved,
    ensures
        run(bound, events.take(k)).unit_at(events[k]->ticket as int) is Some,
        history(bound, events.take(k + 1)) == history(bound, events.take(k)).push(
            Resolution {
                unit: run(bound, events.take(k)).unit_at(events[k]->ticket as int)->0,
                outcome: events[k]->outcome,
            },
        ),
{
    lemma_valid_prefix(bound, events, k + 1);
    assert(events.take(k + 1).drop_last() =~= events.take(k));
}

/// One more event adds to the output what it emits, and nothing else.
pub proof fn lemma_outputs_step<D: Domain>(bound: nat, events: Seq<Event<D>>, event: Event<D>)
    ensures
        outputs(bound, events.push(event)) == match run(bound, events).emits(event) {
            Some(output) => outputs(bound, events).push(output),
            None => outputs(bound, events),
        },
{
    assert(events.push(event).drop_last() =~= events);
}

} // verus!
