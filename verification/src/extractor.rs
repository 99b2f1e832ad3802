//! The executable extractor: the priority merge of the two branches and the
//! bounded set of unresolved units, driven one event at a time.
use crate::machine::{Action, Event, Machine, Probe, Reaction, Turn};
use crate::model::{Domain, ExtractionOutput, FetchRequest, PollResponse};
use crate::slots::{
    first_free, lemma_count_bounds, lemma_occupied_full, lemma_occupied_update, lemma_push,
    occupied,
};
use crate::trace::{lemma_outputs_step, outputs, run, valid};
use crate::unit::{
    fetch_unit, plan_fetch, plan_poll, poll_unit, Call, Origin, Outcome, Unit,
};
use tonic::Status;
use vstd::prelude::*;

verus! {

/// The extractor. It owns the unresolved units and decides what the driver
/// does next; the driver owns the sources and performs the calls.
pub struct Extractor<D: Domain> {
    bound: usize,
    slots: Vec<Option<Unit<D>>>,
    live: usize,
    fetch_open: bool,
    poll_open: bool,
    turn: Turn,
    /// The events accepted so far.
    log: Ghost<Seq<Event<D>>>,
}

impl<D: Domain> View for Extractor<D> {
    type V = Machine<D>;

    closed spec fn view(&self) -> Machine<D> {
        Machine {
            bound: self.bound as nat,
            slots: self.slots@,
            fetch_open: self.fetch_open,
            poll_open: self.poll_open,
            turn: self.turn,
        }
    }
}

impl<D: Domain> Extractor<D> {
    /// The events that the extractor has accepted since it was made.
    pub closed spec fn events(&self) -> Seq<Event<D>> {
        self.log@
    }

    /// The output elements that the extractor has produced since it was made.
    pub open spec fn emitted(&self) -> Seq<Result<ExtractionOutput<D>, Status>> {
        outputs(self@.bound, self.events())
    }

    /// The state is well formed and the count of unresolved units is exact.
    closed spec fn counted(&self) -> bool {
        &&& self@.wf()
        &&& self.live == occupied(self.slots@)
    }

    /// The extractor is in order: its count is exact, and its state is the
    /// one that the events it accepted lead to.
    pub closed spec fn wf(&self) -> bool {
        &&& self.counted()
        &&& valid(self@.bound, self.log@)
        &&& self@ == run(self@.bound, self.log@)
    }

    /// The state of a well-formed extractor is the end of a valid run, so
    /// what holds of every valid run holds of it.
    pub proof fn lemma_reached(&self)
        requires
            self.wf(),
        ensures
            valid(self@.bound, self.events()),
            self@ == run(self@.bound, self.events()),
    {
    }

    /// Takes note of an accepted event that the state already reflects.
    proof fn lemma_logged(before: Self, after: Self, event: Event<D>)
        requires
            before.wf(),
            before@.accepts(event),
            after.counted(),
            after@ == before@.step(event),
            after.log@ == before.log@.push(event),
        ensures
            after.wf(),
            after.emitted() == match before@.emits(event) {
                Some(output) => before.emitted().push(output),
                None => before.emitted(),
            },
    {
        assert(after.log@.drop_last() =~= before.log@);
        before@.lemma_step(event, Origin::Poll);
        lemma_outputs_step(before@.bound, before.log@, event);
    }

    /// A well-formed extractor never holds more units than its bound.
    pub proof fn lemma_within_bound(&self)
        requires
            self.wf(),
        ensures
            self@.wf(),
            self@.live() <= self@.bound,
            self@.bound <= usize::MAX,
    {
        lemma_count_bounds(self.slots@, Origin::Poll);
    }

    /// An extractor for at most `bound` unresolved units, with both sources
    /// open and nothing admitted.
    pub fn new(bound: usize) -> (extractor: Self)
        requires
            bound >= 1,
        ensures
            extractor.wf(),
            extractor@ == Machine::<D>::start(bound as nat),
            extractor.events() == Seq::<Event<D>>::empty(),
    {
        let extractor = Extractor {
            bound,
            slots: Vec::new(),
            live: 0,
            fetch_open: true,
            poll_open: true,
            turn: Turn::Fetch,
            log: Ghost(Seq::empty()),
        };
        extractor
    }

    /// The bound that the extractor was made with.
    pub fn bound(&self) -> (bound: usize)
        ensures
            bound == self@.bound,
    {
        self.bound
    }

    /// Number of unresolved units.
    pub fn in_flight(&self) -> (count: usize)
        requires
            self.wf(),
        ensures
            count == self@.live(),
            count <= self@.bound,
    {
        proof {
            self.lemma_within_bound();
        }
        self.live
    }

    /// What the driver is to do next.
    pub fn next_action(&self) -> (action: Action)
        requires
            self.wf(),
        ensures
            action == self@.next_action(),
    {
        if self.live >= self.bound {
            Action::Await
        } else if self.fetch_open && matches!(self.turn, Turn::Fetch) {
            Action::PullFetch
        } else if self.poll_open && !matches!(self.turn, Turn::Parked) {
            Action::PullPoll
        } else if self.live == 0 && !self.fetch_open && !self.poll_open {
            Action::Finished
        } else {
            Action::Await
        }
    }

    /// Puts `unit` into the lowest free slot and returns the slot.
    fn seat(&mut self, unit: Unit<D>) -> (ticket: usize)
        requires
            old(self).counted(),
            old(self)@.live() < old(self)@.bound,
        ensures
            final(self).counted(),
            final(self)@ == old(self)@.seat(unit),
            final(self)@.live() == old(self)@.live() + 1,
            final(self).log == old(self).log,
            ticket == old(self)@.free_slot(),
    {
        let mut at: usize = 0;
        while at < self.slots.len() && self.slots[at].is_some()
            invariant
                at <= self.slots.len(),
                first_free(self.slots@, 0) == first_free(self.slots@, at as int),
                forall|i: int| 0 <= i < at ==> self.slots@[i] is Some,
            decreases self.slots.len() - at,
        {
            at = at + 1;
        }
        if at < self.slots.len() {
            proof {
                lemma_occupied_update(self.slots@, at as int, Some(unit));
            }
            self.slots[at] = Some(unit);
        } else {
            proof {
                lemma_occupied_full(self.slots@);
                lemma_push(self.slots@, Some(unit), Origin::Poll);
            }
            self.slots.push(Some(unit));
        }
        self.live = self.live + 1;
        self.turn = Turn::Fetch;
        at
    }

    /// Reports the answer of the fetch source. A request that was ready is
    /// admitted: the result is its ticket and the call to make for it.
    pub fn offer_fetch(&mut self, probe: Probe<FetchRequest<D>>) -> (started: Option<
        (usize, Call<D>),
    >)
        requires
            old(self).wf(),
            old(self)@.next_action() == Action::PullFetch,
        ensures
            final(self).wf(),
            final(self)@ == old(self)@.step(Event::Fetch(probe)),
            final(self).events() == old(self).events().push(Event::Fetch(probe)),
            final(self).emitted() == old(self).emitted(),
            final(self)@.live() == old(self)@.live() + if probe is Ready {
                1nat
            } else {
                0nat
            },
            final(self)@.live() <= final(self)@.bound,
            started == match probe {
                Probe::Ready(request) => Some(
                    (old(self)@.free_slot() as usize, plan_fetch(request).1),
                ),
                _ => None,
            },
    {
        let ghost before = *self;
        let started = match probe {
            Probe::Ready(request) => {
                let (unit, call) = fetch_unit(request);
                let ticket = self.seat(unit);
                Some((ticket, call))
            },
            Probe::Pending => {
                self.turn = Turn::Poll;
                None
            },
            Probe::Closed => {
                self.fetch_open = false;
                self.turn = Turn::Poll;
                None
            },
        };
        proof {
            self.log@ = self.log@.push(Event::Fetch(probe));
            Self::lemma_logged(before, *self, Event::Fetch(probe));
        }
        started
    }

    /// Reports the answer of the poll source. An item that was ready is
    /// admitted. When the source has ended, the sentinel is admitted in its
    /// place, once: the poll source is not asked again.
    pub fn offer_poll(
        &mut self,
        probe: Probe<(Result<PollResponse<D>, Status>, D::Permit)>,
    ) -> (started: Option<(usize, Call<D>)>)
        requires
            old(self).wf(),
            old(self)@.next_action() == Action::PullPoll,
        ensures
            final(self).wf(),
            final(self)@ == old(self)@.step(Event::Poll(probe)),
            final(self).events() == old(self).events().push(Event::Poll(probe)),
            final(self).emitted() == old(self).emitted(),
            final(self)@.live() == old(self)@.live() + if probe is Pending {
                0nat
            } else {
                1nat
            },
            final(self)@.live() <= final(self)@.bound,
            started == match probe {
                Probe::Ready((item, permit)) => Some(
                    (old(self)@.free_slot() as usize, plan_poll(item, permit).1),
                ),
                Probe::Pending => None,
                Probe::Closed => Some((old(self)@.free_slot() as usize, Call::Nothing)),
            },
    {
        let ghost before = *self;
        let started = match probe {
            Probe::Ready((item, permit)) => {
                let (unit, call) = poll_unit(item, permit);
                let ticket = self.seat(unit);
                Some((ticket, call))
            },
            Probe::Pending => {
                self.turn = Turn::Parked;
                None
            },
            Probe::Closed => {
                let ticket = self.seat(Unit::Sentinel);
                self.poll_open = false;
                Some((ticket, Call::Nothing))
            },
        };
        proof {
            self.log@ = self.log@.push(Event::Poll(probe));
            Self::lemma_logged(before, *self, Event::Poll(probe));
        }
        started
    }

    /// Whether slot `ticket` holds a unit that `outcome` answers.
    pub fn awaits(&self, ticket: usize, outcome: &Outcome<D>) -> (fits: bool)
        ensures
            fits == self@.awaits(ticket as int, *outcome),
    {
        if ticket < self.slots.len() {
            match &self.slots[ticket] {
                Some(unit) => unit.accepts(outcome),
                None => false,
            }
        } else {
            false
        }
    }

    /// Resolves the unit in slot `ticket` with the outcome of its call and
    /// returns its output element. The slot is free again, and the next round
    /// of admission starts at the fetch source.
    pub fn resolve(&mut self, ticket: usize, outcome: Outcome<D>) -> (output: Result<
        ExtractionOutput<D>,
        Status,
    >)
        requires
            old(self).wf(),
            old(self)@.awaits(ticket as int, outcome),
        ensures
            final(self).wf(),
            final(self)@ == old(self)@.step(Event::Resolved { ticket, outcome }),
            final(self).events() == old(self).events().push(Event::Resolved { ticket, outcome }),
            final(self).emitted() == old(self).emitted().push(output),
            Some(output) == old(self)@.emits(Event::Resolved { ticket, outcome }),
            final(self)@.live() == old(self)@.live() - 1,
            final(self)@.unit_at(ticket as int) is None,
    {
        let ghost before = *self;
        proof {
            lemma_occupied_update(self.slots@, ticket as int, None);
        }
        let unit = self.slots[ticket].take();
        self.live = self.live - 1;
        self.turn = Turn::Fetch;
        proof {
            self.log@ = self.log@.push(Event::Resolved { ticket, outcome });
            Self::lemma_logged(before, *self, Event::Resolved { ticket, outcome });
        }
        unit.unwrap().conclude(outcome)
    }

    /// Starts a new round of admission, at the fetch source.
    pub fn wake(&mut self)
        requires
            old(self).wf(),
        ensures
            final(self).wf(),
            final(self)@ == old(self)@.step(Event::Wake),
            final(self).events() == old(self).events().push(Event::Wake),
            final(self).emitted() == old(self).emitted(),
    {
        let ghost before = *self;
        self.turn = Turn::Fetch;
        proof {
            self.log@ = self.log@.push(Event::Wake);
            Self::lemma_logged(before, *self, Event::Wake);
        }
    }

    /// Takes one event and answers it, or hands it back. An event is accepted
    /// when the extractor has asked for it: the answer of a source after
    /// `next_action` named that source, and the outcome of a call for a
    /// ticket whose unit that outcome answers. A wake-up is always accepted.
    /// An event that is handed back has changed nothing.
    pub fn handle(&mut self, event: Event<D>) -> (reaction: Result<Reaction<D>, Event<D>>)
        requires
            old(self).wf(),
        ensures
            final(self).wf(),
            match reaction {
                Ok(answer) => {
                    &&& old(self)@.accepts(event)
                    &&& final(self)@ == old(self)@.step(event)
                    &&& final(self).events() == old(self).events().push(event)
                    &&& answer == old(self)@.reaction(event)
                    &&& final(self).emitted() == match answer {
                        Reaction::Emitted(output) => old(self).emitted().push(output),
                        _ => old(self).emitted(),
                    }
                },
                Err(refused) => {
                    &&& !old(self)@.accepts(event)
                    &&& refused == event
                    &&& final(self)@ == old(self)@
                    &&& final(self).events() == old(self).events()
                },
            },
    {
        match event {
            Event::Fetch(probe) => {
                if matches!(self.next_action(), Action::PullFetch) {
                    match self.offer_fetch(probe) {
                        Some((ticket, call)) => Ok(Reaction::Started { ticket, call }),
                        None => Ok(Reaction::Noted),
                    }
                } else {
                    Err(Event::Fetch(probe))
                }
            },
            Event::Poll(probe) => {
                if matches!(self.next_action(), Action::PullPoll) {
                    match self.offer_poll(probe) {
                        Some((ticket, call)) => Ok(Reaction::Started { ticket, call }),
                        None => Ok(Reaction::Noted),
                    }
                } else {
                    Err(Event::Poll(probe))
                }
            },
            Event::Resolved { ticket, outcome } => {
                if self.awaits(ticket, &outcome) {
                    Ok(Reaction::Emitted(self.resolve(ticket, outcome)))
                } else {
                    Err(Event::Resolved { ticket, outcome })
                }
            },
            Event::Wake => {
                self.wake();
                Ok(Reaction::Noted)
            },
        }
    }
}

} // verus!
