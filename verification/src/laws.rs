//! What holds of every run of the extractor.
use crate::extractor::Extractor;
use crate::machine::{Action, Event, Machine, Probe, Turn};
use crate::model::{Domain, ExtractionOutput};
use crate::slots::{
    held, lemma_count_bounds, lemma_first_free, lemma_held_positive, lemma_held_sum,
    lemma_held_witness,
};
use crate::trace::{
    admissions, admitted_at, exhausted_count, history, lemma_history_grows, lemma_history_prefix,
    lemma_run_wf, lemma_valid_prefix, outputs, outputs_of, resolved_of, run, valid, Resolution,
};
use crate::unit::{Origin, Outcome, Unit};
use tonic::Status;
use vstd::prelude::*;

verus! {

/// Whether every resolution in `log` pairs a unit with an outcome that
/// answers it.
pub open spec fn answered<D: Domain>(log: Seq<Resolution<D>>) -> bool {
    forall|i: int| 0 <= i < log.len() ==> (#[trigger] log[i]).unit.answered_by(log[i].outcome)
}

/// In a valid run every unit was resolved by an outcome that answers it.
pub proof fn lemma_history_answered<D: Domain>(bound: nat, events: Seq<Event<D>>)
    requires
        valid(bound, events),
    ensures
        answered(history(bound, events)),
    decreases events.len(),
{
    if events.len() > 0 {
        lemma_history_answered(bound, events.drop_last());
    }
}

/// Every admitted unit is either still held or has been resolved, once.
pub proof fn lemma_conservation<D: Domain>(bound: nat, events: Seq<Event<D>>, origin: Origin)
    requires
        bound >= 1,
        valid(bound, events),
    ensures
        resolved_of(history(bound, events), origin) + held(run(bound, events).slots, origin)
            == admissions(events, origin),
    decreases events.len(),
{
    if events.len() > 0 {
        let earlier = events.drop_last();
        let before = run(bound, earlier);
        lemma_conservation(bound, earlier, origin);
        lemma_run_wf(bound, earlier);
        before.lemma_step(events.last(), origin);
        if events.last() is Resolved {
            assert(history(bound, events).drop_last() =~= history(bound, earlier));
        }
    }
}

/// The sentinel is admitted when the poll source ends, and only then.
pub proof fn lemma_sentinel_admitted<D: Domain>(bound: nat, events: Seq<Event<D>>)
    requires
        bound >= 1,
        valid(bound, events),
    ensures
        admissions(events, Origin::Sentinel) == if run(bound, events).poll_open {
            0nat
        } else {
            1nat
        },
    decreases events.len(),
{
    if events.len() > 0 {
        lemma_sentinel_admitted(bound, events.drop_last());
    }
}

/// The mark of the end of polling is the output of the sentinel and of no
/// other unit.
pub proof fn lemma_exhausted_is_sentinel<D: Domain>(log: Seq<Resolution<D>>)
    requires
        answered(log),
    ensures
        exhausted_count(outputs_of(log)) == resolved_of(log, Origin::Sentinel),
        forall|i: int|
            0 <= i < log.len() ==> ((#[trigger] outputs_of(log)[i]) == Ok::<
                ExtractionOutput<D>,
                Status,
            >(ExtractionOutput::SourceExhausted) <==> log[i].unit is Sentinel),
    decreases log.len(),
{
    if log.len() > 0 {
        assert(outputs_of(log).drop_last() =~= outputs_of(log.drop_last()));
        assert(answered(log.drop_last()));
        lemma_exhausted_is_sentinel(log.drop_last());
    }
}

/// The units in flight never exceed the bound: after any number of events of
/// a valid run, no more than `bound` units are unresolved.
pub proof fn law_bounded_concurrency<D: Domain>(bound: nat, events: Seq<Event<D>>, k: int)
    requires
        bound >= 1,
        valid(bound, events),
        0 <= k <= events.len(),
    ensures
        run(bound, events.take(k)).live() <= bound,
{
    lemma_valid_prefix(bound, events, k);
    lemma_run_wf(bound, events.take(k));
}

/// The output of a run holds the mark of the end of polling at most once:
/// not at all while the poll source is open or the sentinel is unresolved,
/// and exactly once from then on. A run that has finished holds it once.
pub proof fn law_exhausted_once<D: Domain>(bound: nat, events: Seq<Event<D>>)
    requires
        bound >= 1,
        valid(bound, events),
    ensures
        exhausted_count(outputs(bound, events)) <= 1,
        exhausted_count(outputs(bound, events)) == 1 <==> !run(bound, events).poll_open && held(
            run(bound, events).slots,
            Origin::Sentinel,
        ) == 0,
        run(bound, events).next_action() == Action::Finished ==> exhausted_count(
            outputs(bound, events),
        ) == 1,
{
    lemma_history_answered(bound, events);
    lemma_exhausted_is_sentinel(history(bound, events));
    lemma_conservation(bound, events, Origin::Sentinel);
    lemma_sentinel_admitted(bound, events);
    lemma_count_bounds(run(bound, events).slots, Origin::Sentinel);
}

/// Each fetch request that the extractor took in yields one output element,
/// never more: the fetch units resolved and those still held make up the
/// requests admitted, so a run that has finished has resolved every one of
/// them. What a fetch unit yields is a completed fetch, a page or a failed
/// fetch, and never an error of the output itself.
pub proof fn law_one_output_per_fetch<D: Domain>(bound: nat, events: Seq<Event<D>>)
    requires
        bound >= 1,
        valid(bound, events),
    ensures
        outputs(bound, events).len() == history(bound, events).len(),
        resolved_of(history(bound, events), Origin::Fetch) + held(
            run(bound, events).slots,
            Origin::Fetch,
        ) == admissions(events, Origin::Fetch),
        run(bound, events).next_action() == Action::Finished ==> resolved_of(
            history(bound, events),
            Origin::Fetch,
        ) == admissions(events, Origin::Fetch),
        forall|i: int|
            0 <= i < history(bound, events).len() && (#[trigger] history(
                bound,
                events,
            )[i]).unit.origin() == Origin::Fetch ==> (outputs(bound, events)[i] matches Ok(element)
                && element.ends_fetch()),
{
    lemma_conservation(bound, events, Origin::Fetch);
    lemma_count_bounds(run(bound, events).slots, Origin::Fetch);
    lemma_history_answered(bound, events);
}

/// The same holds of the polled items and of the sentinel: whatever was
/// admitted is resolved once or still held.
pub proof fn law_one_output_per_unit<D: Domain>(bound: nat, events: Seq<Event<D>>, origin: Origin)
    requires
        bound >= 1,
        valid(bound, events),
    ensures
        resolved_of(history(bound, events), origin) + held(run(bound, events).slots, origin)
            == admissions(events, origin),
        run(bound, events).next_action() == Action::Finished ==> resolved_of(
            history(bound, events),
            origin,
        ) == admissions(events, origin),
{
    lemma_conservation(bound, events, origin);
    lemma_count_bounds(run(bound, events).slots, origin);
}

/// The fetch branch has priority. The poll source is asked only when, in the
/// same round, the fetch source was asked just before and had nothing ready,
/// or once the fetch source has ended.
pub proof fn law_fetch_first<D: Domain>(bound: nat, events: Seq<Event<D>>, j: int)
    requires
        bound >= 1,
        valid(bound, events),
        0 <= j < events.len(),
        events[j] is Poll,
    ensures
        !run(bound, events.take(j)).fetch_open || (j >= 1 && events[j - 1] == Event::<D>::Fetch(
            Probe::Pending,
        )),
{
    lemma_valid_prefix(bound, events, j + 1);
    assert(events.take(j + 1).drop_last() =~= events.take(j));
}

/// Every round starts at the fetch source: after an admission, after a
/// resolution and after a wake-up, the next source to be asked is the fetch
/// source, provided that it is open and a slot is free.
pub proof fn law_round_starts_at_fetch<D: Domain>(state: Machine<D>, event: Event<D>)
    requires
        state.wf(),
        state.accepts(event),
        Machine::admitted(event) is Some || event is Resolved || event is Wake,
    ensures
        state.step(event).turn == Turn::Fetch,
        state.step(event).fetch_open && state.step(event).live() < state.bound ==> state.step(
            event,
        ).next_action() == Action::PullFetch,
{
}

/// How a unit was answered leaves no mark on the extractor: after a failed
/// call the state is what it would be after a successful one, so what comes
/// later is handled alike.
pub proof fn law_outcome_leaves_no_mark<D: Domain>(
    state: Machine<D>,
    ticket: usize,
    first: Outcome<D>,
    second: Outcome<D>,
)
    requires
        state.awaits(ticket as int, first),
        state.awaits(ticket as int, second),
    ensures
        state.step(Event::Resolved { ticket, outcome: first }) == state.step(
            Event::Resolved { ticket, outcome: second },
        ),
{
}

/// Once the poll source has ended it is not asked again, so the sentinel is
/// the last unit that the poll branch admits.
pub proof fn law_sentinel_admitted_last<D: Domain>(bound: nat, events: Seq<Event<D>>, i: int, j: int)
    requires
        bound >= 1,
        valid(bound, events),
        0 <= i < j < events.len(),
        events[i] == Event::<D>::Poll(Probe::Closed),
    ensures
        !(events[j] is Poll),
{
    lemma_poll_stays_closed(bound, events, i, j);
    lemma_valid_prefix(bound, events, j + 1);
    assert(events.take(j + 1).drop_last() =~= events.take(j));
}

/// After the event that ends the poll source, the source stays closed.
pub proof fn lemma_poll_stays_closed<D: Domain>(bound: nat, events: Seq<Event<D>>, i: int, k: int)
    requires
        valid(bound, events),
        0 <= i < k <= events.len(),
        events[i] == Event::<D>::Poll(Probe::Closed),
    ensures
        !run(bound, events.take(k)).poll_open,
    decreases k,
{
    assert(events.take(k).drop_last() =~= events.take(k - 1));
    if k - 1 > i {
        lemma_poll_stays_closed(bound, events, i, k - 1);
    }
}

/// Whether, each time the sentinel was resolved, no unit made of a polled
/// item was unresolved.
pub open spec fn sentinel_resolved_behind_polls<D: Domain>(
    bound: nat,
    events: Seq<Event<D>>,
) -> bool {
    forall|k: int|
        0 <= k < events.len() && (#[trigger] run(bound, events.take(k))).resolved(events[k])
            == Some(Unit::<D>::Sentinel) ==> held(run(bound, events.take(k)).slots, Origin::Poll)
            == 0
}

/// Whether no resolution of a polled item follows a resolution of the
/// sentinel.
pub open spec fn sentinel_follows_polls<D: Domain>(log: Seq<Resolution<D>>) -> bool {
    forall|i: int, j: int|
        0 <= i < j < log.len() && (#[trigger] log[i]).unit is Sentinel ==> (#[trigger] log[j]).unit.origin()
            != Origin::Poll
}

/// A log without a resolved sentinel holds none.
pub proof fn lemma_no_sentinel<D: Domain>(log: Seq<Resolution<D>>)
    requires
        resolved_of(log, Origin::Sentinel) == 0,
    ensures
        forall|i: int| 0 <= i < log.len() ==> !((#[trigger] log[i]).unit is Sentinel),
    decreases log.len(),
{
    if log.len() > 0 {
        lemma_no_sentinel(log.drop_last());
        assert forall|i: int| 0 <= i < log.len() implies !((#[trigger] log[i]).unit is Sentinel) by {
            if i < log.len() - 1 {
                assert(log.drop_last()[i] == log[i]);
            }
        }
    }
}

/// With the sentinel resolved behind the polled items, and as long as that
/// is so, the sentinel's resolution is behind theirs in the log, and once it
/// is there no unit made of a polled item is held.
pub proof fn lemma_sentinel_last<D: Domain>(bound: nat, events: Seq<Event<D>>)
    requires
        bound >= 1,
        valid(bound, events),
        sentinel_resolved_behind_polls(bound, events),
    ensures
        sentinel_follows_polls(history(bound, events)),
        resolved_of(history(bound, events), Origin::Sentinel) > 0 ==> held(
            run(bound, events).slots,
            Origin::Poll,
        ) == 0,
    decreases events.len(),
{
    if events.len() > 0 {
        let earlier = events.drop_last();
        let before = run(bound, earlier);
        let event = events.last();
        assert(sentinel_resolved_behind_polls(bound, earlier)) by {
            assert forall|k: int|
                0 <= k < earlier.len() && (#[trigger] run(bound, earlier.take(k))).resolved(
                    earlier[k],
                ) == Some(Unit::<D>::Sentinel) implies held(
                run(bound, earlier.take(k)).slots,
                Origin::Poll,
            ) == 0 by {
                assert(earlier.take(k) =~= events.take(k));
            }
        }
        lemma_sentinel_last(bound, earlier);
        lemma_run_wf(bound, earlier);
        lemma_conservation(bound, earlier, Origin::Sentinel);
        lemma_sentinel_admitted(bound, earlier);
        before.lemma_step(event, Origin::Poll);
        let log = history(bound, events);
        let old_log = history(bound, earlier);
        match event {
            Event::Resolved { ticket, outcome } => {
                let unit = before.unit_at(ticket as int)->0;
                assert(log.drop_last() =~= old_log);
                if unit is Sentinel {
                    assert(run(bound, events.take(events.len() - 1)).resolved(
                        events[events.len() - 1],
                    ) == Some(Unit::<D>::Sentinel));
                } else if unit.origin() == Origin::Poll {
                    lemma_held_positive(before.slots, ticket as int, Origin::Poll);
                    lemma_no_sentinel(old_log);
                }
            },
            _ => {},
        }
    }
}

/// The mark of the end of polling comes after every output element that was
/// made of a polled item, in every run in which the sentinel was not resolved
/// ahead of a unit made of a polled item. Without that condition the order of
/// the output is the order in which the calls come back, and a polled item
/// whose call is slow comes out behind the mark.
pub proof fn law_exhausted_after_polls<D: Domain>(
    bound: nat,
    events: Seq<Event<D>>,
    i: int,
    j: int,
)
    requires
        bound >= 1,
        valid(bound, events),
        sentinel_resolved_behind_polls(bound, events),
        0 <= i < j < outputs(bound, events).len(),
        outputs(bound, events)[i] == Ok::<ExtractionOutput<D>, Status>(
            ExtractionOutput::SourceExhausted,
        ),
    ensures
        history(bound, events)[j].unit.origin() != Origin::Poll,
{
    lemma_sentinel_last(bound, events);
    lemma_history_answered(bound, events);
    lemma_exhausted_is_sentinel(history(bound, events));
}

/// With a bound of one the condition of [`law_exhausted_after_polls`] always
/// holds: the sentinel is alone while it is unresolved.
pub proof fn law_single_slot_keeps_order<D: Domain>(bound: nat, events: Seq<Event<D>>)
    requires
        bound == 1,
        valid(bound, events),
    ensures
        sentinel_resolved_behind_polls(bound, events),
{
    assert forall|k: int|
        0 <= k < events.len() && (#[trigger] run(bound, events.take(k))).resolved(events[k])
            == Some(Unit::<D>::Sentinel) implies held(
        run(bound, events.take(k)).slots,
        Origin::Poll,
    ) == 0 by {
        let state = run(bound, events.take(k));
        lemma_valid_prefix(bound, events, k);
        lemma_run_wf(bound, events.take(k));
        lemma_held_sum(state.slots);
        let ticket = events[k]->ticket as int;
        lemma_held_positive(state.slots, ticket, Origin::Sentinel);
    }
}

/// A unit that a slot holds stays there until an event resolves that slot.
/// The result is the first such event after `k` and before `n`, or -1 if
/// there is none.
pub proof fn lemma_find_resolution<D: Domain>(
    bound: nat,
    events: Seq<Event<D>>,
    ticket: int,
    unit: Unit<D>,
    k: int,
    n: int,
) -> (j: int)
    requires
        bound >= 1,
        valid(bound, events),
        0 <= k < n <= events.len(),
        run(bound, events.take(k + 1)).unit_at(ticket) == Some(unit),
    ensures
        j == -1 || k < j < n,
        j == -1 ==> run(bound, events.take(n)).unit_at(ticket) == Some(unit),
        j != -1 ==> events[j] is Resolved && events[j]->ticket == ticket && run(
            bound,
            events.take(j),
        ).unit_at(ticket) == Some(unit),
    decreases n,
{
    if n == k + 1 {
        -1
    } else {
        let j = lemma_find_resolution(bound, events, ticket, unit, k, n - 1);
        if j != -1 {
            j
        } else {
            let earlier = events.take(n - 1);
            let before = run(bound, earlier);
            let event = events[n - 1];
            lemma_valid_prefix(bound, events, n);
            lemma_valid_prefix(bound, events, n - 1);
            assert(events.take(n).drop_last() =~= earlier);
            lemma_run_wf(bound, earlier);
            if event is Resolved && event->ticket == ticket {
                n - 1
            } else {
                if Machine::admitted(event) is Some {
                    before.lemma_seat(Machine::admitted(event)->0, Origin::Poll);
                }
                -1
            }
        }
    }
}

/// The condition of [`law_exhausted_after_polls`] leaves out no run that
/// keeps the order and has resolved its polled items: where the sentinel was
/// resolved while a unit made of a polled item was unresolved, that unit's
/// output element comes behind the mark.
pub proof fn law_order_fails_otherwise<D: Domain>(bound: nat, events: Seq<Event<D>>)
    requires
        bound >= 1,
        valid(bound, events),
        held(run(bound, events).slots, Origin::Poll) == 0,
        !sentinel_resolved_behind_polls(bound, events),
    ensures
        !sentinel_follows_polls(history(bound, events)),
{
    let k = choose|k: int|
        0 <= k < events.len() && (#[trigger] run(bound, events.take(k))).resolved(events[k])
            == Some(Unit::<D>::Sentinel) && held(run(bound, events.take(k)).slots, Origin::Poll)
            != 0;
    let state = run(bound, events.take(k));
    let ticket = lemma_held_witness(state.slots, Origin::Poll);
    let unit = state.slots[ticket]->0;
    lemma_valid_prefix(bound, events, k + 1);
    assert(events.take(k + 1).drop_last() =~= events.take(k));
    let j = lemma_find_resolution(bound, events, ticket, unit, k, events.len() as int);
    if j == -1 {
        assert(events.take(events.len() as int) =~= events);
        lemma_held_positive(run(bound, events).slots, ticket, Origin::Poll);
    } else {
        lemma_history_grows(bound, events, k);
        lemma_history_grows(bound, events, j);
        lemma_history_prefix(bound, events, k + 1);
        lemma_history_prefix(bound, events, j + 1);
        assert(events.take(j).take(k + 1) =~= events.take(k + 1));
        lemma_history_prefix(bound, events.take(j), k + 1);
        let a = history(bound, events.take(k)).len() as int;
        let b = history(bound, events.take(j)).len() as int;
        assert(history(bound, events.take(k + 1))[a].unit is Sentinel);
        assert(history(bound, events.take(j + 1))[b].unit == unit);
    }
}

/// Each occupied slot holds the unit of the event that `admitted_at` names,
/// which sat it there, and a free slot has no such event.
pub proof fn lemma_admitted_at<D: Domain>(bound: nat, events: Seq<Event<D>>, ticket: int)
    requires
        bound >= 1,
        valid(bound, events),
    ensures
        -1 <= admitted_at(bound, events, ticket) < events.len(),
        admitted_at(bound, events, ticket) == -1 <==> run(bound, events).unit_at(ticket) is None,
        admitted_at(bound, events, ticket) >= 0 ==> {
            let at = admitted_at(bound, events, ticket);
            &&& Machine::admitted(events[at]) == run(bound, events).unit_at(ticket)
            &&& run(bound, events.take(at)).free_slot() == ticket
        },
    decreases events.len(),
{
    if events.len() > 0 {
        let earlier = events.drop_last();
        let before = run(bound, earlier);
        let event = events.last();
        lemma_admitted_at(bound, earlier, ticket);
        lemma_run_wf(bound, earlier);
        before.lemma_step(event, Origin::Poll);
        let at = admitted_at(bound, events, ticket);
        if Machine::admitted(event) is Some {
            before.lemma_seat(Machine::admitted(event)->0, Origin::Poll);
            lemma_first_free(before.slots, 0);
        }
        if 0 <= at < events.len() - 1 {
            assert(events.take(at) =~= earlier.take(at));
        }
    }
}

/// After a slot was resolved, whatever it holds later was admitted later.
pub proof fn lemma_admitted_after_resolution<D: Domain>(
    bound: nat,
    events: Seq<Event<D>>,
    ticket: int,
    j: int,
    k: int,
)
    requires
        0 <= j < k <= events.len(),
        events[j] matches Event::Resolved { ticket: resolved, .. } && resolved == ticket,
    ensures
        admitted_at(bound, events.take(k), ticket) == -1 || admitted_at(
            bound,
            events.take(k),
            ticket,
        ) > j,
    decreases k,
{
    assert(events.take(k).drop_last() =~= events.take(k - 1));
    if k - 1 > j {
        lemma_admitted_after_resolution(bound, events, ticket, j, k - 1);
    }
}

/// Every output element stems from one admitted input. The unit that an
/// event resolves was admitted by an earlier event, which gave it the ticket
/// that the resolution names; the output element is made of that unit and of
/// the outcome, and the slot is free afterwards.
pub proof fn law_output_traces_to_admission<D: Domain>(
    bound: nat,
    events: Seq<Event<D>>,
    j: int,
)
    requires
        bound >= 1,
        valid(bound, events),
        0 <= j < events.len(),
        events[j] is Resolved,
    ensures
        ({
            let ticket = events[j]->ticket as int;
            let outcome = events[j]->outcome;
            let before = run(bound, events.take(j));
            let at = admitted_at(bound, events.take(j), ticket);
            &&& 0 <= at < j
            &&& run(bound, events.take(at)).free_slot() == ticket
            &&& Machine::admitted(events[at]) matches Some(unit)
            &&& before.unit_at(ticket) == Some(unit)
            &&& before.emits(events[j]) == Some(unit.emission(outcome))
            &&& unit.answered_by(outcome)
            &&& run(bound, events.take(j + 1)).unit_at(ticket) is None
        }),
{
    let ticket = events[j]->ticket as int;
    let earlier = events.take(j);
    lemma_valid_prefix(bound, events, j + 1);
    assert(events.take(j + 1).drop_last() =~= earlier);
    lemma_valid_prefix(bound, events, j);
    lemma_admitted_at(bound, earlier, ticket);
    let at = admitted_at(bound, earlier, ticket);
    assert(earlier.take(at) =~= events.take(at));
}

/// No admitted input yields more than one output element: two resolutions
/// stem from two different admissions.
pub proof fn law_one_resolution_per_admission<D: Domain>(
    bound: nat,
    events: Seq<Event<D>>,
    j: int,
    k: int,
)
    requires
        bound >= 1,
        valid(bound, events),
        0 <= j < k < events.len(),
        events[j] is Resolved,
        events[k] is Resolved,
    ensures
        admitted_at(bound, events.take(j), events[j]->ticket as int) != admitted_at(
            bound,
            events.take(k),
            events[k]->ticket as int,
        ),
{
    law_output_traces_to_admission(bound, events, j);
    law_output_traces_to_admission(bound, events, k);
    if events[j]->ticket == events[k]->ticket {
        lemma_admitted_after_resolution(bound, events, events[j]->ticket as int, j, k);
    }
}

/// Every well-formed extractor stands at the end of a valid run, so the laws
/// of runs hold of it: it holds no more units than its bound, its output
/// holds the mark of the end of polling at most once, and once it has
/// finished the mark is there and every fetch request that it admitted has
/// been resolved.
pub proof fn law_extractor_obeys<D: Domain>(extractor: Extractor<D>)
    requires
        extractor.wf(),
    ensures
        extractor@.live() <= extractor@.bound,
        exhausted_count(extractor.emitted()) <= 1,
        extractor@.next_action() == Action::Finished ==> {
            &&& exhausted_count(extractor.emitted()) == 1
            &&& resolved_of(history(extractor@.bound, extractor.events()), Origin::Fetch)
                == admissions(extractor.events(), Origin::Fetch)
        },
{
    extractor.lemma_reached();
    extractor.lemma_within_bound();
    law_exhausted_once(extractor@.bound, extractor.events());
    law_one_output_per_fetch(extractor@.bound, extractor.events());
}

} // verus!
