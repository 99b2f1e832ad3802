//! The extractor as a transition system: its state, the events that a driver
//! reports, and what each event does. Everything here is specification; the
//! executable extractor is held to it.
use crate::model::{Domain, ExtractionOutput, FetchRequest, PollResponse};
use crate::slots::{
    first_free, held, lemma_count_bounds, lemma_first_free, lemma_held_update,
    lemma_occupied_full, lemma_occupied_update, lemma_push, occupied, weight, weight_of,
};
use crate::unit::{plan_fetch, plan_poll, Call, Origin, Outcome, Unit};
use tonic::Status;
use vstd::prelude::*;

verus! {

/// What a source answered when it was asked for its next item.
pub enum Probe<T> {
    /// An item was ready.
    Ready(T),
    /// Nothing is ready now; more may come.
    Pending,
    /// The source has ended.
    Closed,
}

/// Where a round of admission stands. A round starts at the fetch source,
/// moves on to the poll source only when the fetch source had nothing ready,
/// and parks when neither source had.
#[derive(Clone, Copy, Debug, PartialEq, Eq, Structural)]
pub enum Turn {
    Fetch,
    Poll,
    Parked,
}

/// What the driver is to do next.
#[derive(Clone, Copy, Debug, PartialEq, Eq, Structural)]
pub enum Action {
    /// Ask the fetch source for its next request and report the answer.
    PullFetch,
    /// Ask the poll source for its next item and report the answer.
    PullPoll,
    /// Wait for a unit to finish its call, or for a source to wake up.
    Await,
    /// Both sources have ended and no unit is unresolved: the output ends.
    Finished,
}

/// An event that the driver reports.
pub enum Event<D: Domain> {
    /// The answer of the fetch source.
    Fetch(Probe<FetchRequest<D>>),
    /// The answer of the poll source: an item comes with its permit.
    Poll(Probe<(Result<PollResponse<D>, Status>, D::Permit)>),
    /// The call of the unit in slot `ticket` came back with `outcome`.
    Resolved { ticket: usize, outcome: Outcome<D> },
    /// The driver was woken and starts a new round.
    Wake,
}

/// What the extractor answers to an event.
pub enum Reaction<D: Domain> {
    /// A unit was admitted: its ticket, and the call to make for it.
    Started { ticket: usize, call: Call<D> },
    /// A unit was resolved: its output element.
    Emitted(Result<ExtractionOutput<D>, Status>),
    /// The event was taken note of.
    Noted,
}

/// The state of the extractor.
pub struct Machine<D: Domain> {
    /// How many units may be unresolved at once.
    pub bound: nat,
    /// The unresolved units; a unit's index is its ticket.
    pub slots: Seq<Option<Unit<D>>>,
    /// Whether the fetch source may still produce requests.
    pub fetch_open: bool,
    /// Whether the poll source may still produce items.
    pub poll_open: bool,
    pub turn: Turn,
}

impl<D: Domain> Machine<D> {
    /// The state before any event.
    pub open spec fn start(bound: nat) -> Self {
        Machine {
            bound,
            slots: Seq::empty(),
            fetch_open: true,
            poll_open: true,
            turn: Turn::Fetch,
        }
    }

    pub open spec fn wf(self) -> bool {
        &&& self.bound >= 1
        &&& self.slots.len() <= self.bound
    }

    /// Number of unresolved units.
    pub open spec fn live(self) -> nat {
        occupied(self.slots)
    }

    /// The ticket that the next admitted unit gets.
    pub open spec fn free_slot(self) -> int {
        first_free(self.slots, 0)
    }

    /// The fetch source comes first whenever there is room. The poll source is
    /// asked only in a round in which the fetch source had nothing ready, or
    /// after the fetch source has ended.
    pub open spec fn next_action(self) -> Action {
        if self.live() >= self.bound {
            Action::Await
        } else if self.turn == Turn::Fetch && self.fetch_open {
            Action::PullFetch
        } else if self.turn != Turn::Parked && self.poll_open {
            Action::PullPoll
        } else if self.live() == 0 && !self.fetch_open && !self.poll_open {
            Action::Finished
        } else {
            Action::Await
        }
    }

    /// The unit in slot `ticket`, if there is one.
    pub open spec fn unit_at(self, ticket: int) -> Option<Unit<D>> {
        if 0 <= ticket < self.slots.len() {
            self.slots[ticket]
        } else {
            None
        }
    }

    /// Whether the unit in slot `ticket` is answered by `outcome`.
    pub open spec fn awaits(self, ticket: int, outcome: Outcome<D>) -> bool {
        self.unit_at(ticket) matches Some(unit) && unit.answered_by(outcome)
    }

    /// Puts `unit` into the lowest free slot; the next round starts over at
    /// the fetch source.
    pub open spec fn seat(self, unit: Unit<D>) -> Self {
        let ticket = self.free_slot();
        Machine {
            slots: if ticket < self.slots.len() {
                self.slots.update(ticket, Some(unit))
            } else {
                self.slots.push(Some(unit))
            },
            turn: Turn::Fetch,
            ..self
        }
    }

    /// Whether `event` may be reported in this state.
    pub open spec fn accepts(self, event: Event<D>) -> bool {
        match event {
            Event::Fetch(_) => self.next_action() == Action::PullFetch,
            Event::Poll(_) => self.next_action() == Action::PullPoll,
            Event::Resolved { ticket, outcome } => self.awaits(ticket as int, outcome),
            Event::Wake => true,
        }
    }

    /// The unit that `event` admits, if it admits one. The end of the poll
    /// source admits the sentinel.
    pub open spec fn admitted(event: Event<D>) -> Option<Unit<D>> {
        match event {
            Event::Fetch(Probe::Ready(request)) => Some(plan_fetch(request).0),
            Event::Poll(Probe::Ready((item, permit))) => Some(plan_poll(item, permit).0),
            Event::Poll(Probe::Closed) => Some(Unit::Sentinel),
            _ => None,
        }
    }

    /// The state after `event`.
    pub open spec fn step(self, event: Event<D>) -> Self {
        match event {
            Event::Fetch(Probe::Ready(request)) => self.seat(plan_fetch(request).0),
            Event::Fetch(Probe::Pending) => Machine { turn: Turn::Poll, ..self },
            Event::Fetch(Probe::Closed) => Machine { fetch_open: false, turn: Turn::Poll, ..self },
            Event::Poll(Probe::Ready((item, permit))) => self.seat(plan_poll(item, permit).0),
            Event::Poll(Probe::Pending) => Machine { turn: Turn::Parked, ..self },
            Event::Poll(Probe::Closed) => Machine { poll_open: false, ..self.seat(Unit::Sentinel) },
            Event::Resolved { ticket, outcome } => Machine {
                slots: self.slots.update(ticket as int, None),
                turn: Turn::Fetch,
                ..self
            },
            Event::Wake => Machine { turn: Turn::Fetch, ..self },
        }
    }

    /// What the extractor answers to an event that it accepts.
    pub open spec fn reaction(self, event: Event<D>) -> Reaction<D> {
        match event {
            Event::Fetch(Probe::Ready(request)) => Reaction::Started {
                ticket: self.free_slot() as usize,
                call: plan_fetch(request).1,
            },
            Event::Poll(Probe::Ready((item, permit))) => Reaction::Started {
                ticket: self.free_slot() as usize,
                call: plan_poll(item, permit).1,
            },
            Event::Poll(Probe::Closed) => Reaction::Started {
                ticket: self.free_slot() as usize,
                call: Call::Nothing,
            },
            Event::Resolved { ticket, outcome } => match self.unit_at(ticket as int) {
                Some(unit) => Reaction::Emitted(unit.emission(outcome)),
                None => Reaction::Noted,
            },
            _ => Reaction::Noted,
        }
    }

    /// The unit that `event` resolves, if it resolves one.
    pub open spec fn resolved(self, event: Event<D>) -> Option<Unit<D>> {
        match event {
            Event::Resolved { ticket, outcome } => self.unit_at(ticket as int),
            _ => None,
        }
    }

    /// The output element that `event` yields, if it yields one.
    pub open spec fn emits(self, event: Event<D>) -> Option<Result<ExtractionOutput<D>, Status>> {
        match event {
            Event::Resolved { ticket, outcome } => match self.unit_at(ticket as int) {
                Some(unit) => Some(unit.emission(outcome)),
                None => None,
            },
            _ => None,
        }
    }

    /// Seating a unit where there is room fills one more slot, with that unit.
    pub proof fn lemma_seat(self, unit: Unit<D>, origin: Origin)
        requires
            self.wf(),
            self.live() < self.bound,
        ensures
            self.seat(unit).wf(),
            self.seat(unit).unit_at(self.free_slot()) == Some(unit),
            self.unit_at(self.free_slot()) is None,
            occupied(self.seat(unit).slots) == occupied(self.slots) + 1,
            held(self.seat(unit).slots, origin) == held(self.slots, origin) + weight_of(
                Some(unit),
                origin,
            ),
    {
        let ticket = self.free_slot();
        lemma_first_free(self.slots, 0);
        if ticket < self.slots.len() {
            lemma_occupied_update(self.slots, ticket, Some(unit));
            lemma_held_update(self.slots, ticket, Some(unit), origin);
        } else {
            lemma_occupied_full(self.slots);
            lemma_push(self.slots, Some(unit), origin);
        }
    }

    /// What one accepted event does to the counts: the unit that it admits
    /// comes in, the unit that it resolves goes out, and nothing else changes.
    pub proof fn lemma_step(self, event: Event<D>, origin: Origin)
        requires
            self.wf(),
            self.accepts(event),
        ensures
            self.step(event).wf(),
            self.step(event).bound == self.bound,
            self.step(event).live() <= self.bound,
            occupied(self.step(event).slots) + weight(self.resolved(event)) == occupied(self.slots)
                + weight(Self::admitted(event)),
            held(self.step(event).slots, origin) + weight_of(self.resolved(event), origin) == held(
                self.slots,
                origin,
            ) + weight_of(Self::admitted(event), origin),
    {
        lemma_count_bounds(self.slots, origin);
        match event {
            Event::Fetch(Probe::Ready(request)) => {
                self.lemma_seat(plan_fetch(request).0, origin);
            },
            Event::Poll(Probe::Ready((item, permit))) => {
                self.lemma_seat(plan_poll(item, permit).0, origin);
            },
            Event::Poll(Probe::Closed) => {
                self.lemma_seat(Unit::Sentinel, origin);
            },
            Event::Resolved { ticket, outcome } => {
                lemma_occupied_update(self.slots, ticket as int, None);
                lemma_held_update(self.slots, ticket as int, None, origin);
            },
            _ => {},
        }
        lemma_count_bounds(self.step(event).slots, origin);
    }
}

} // verus!
