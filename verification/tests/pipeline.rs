use std::collections::VecDeque;
use std::sync::Arc;

use task_extraction::extractor::Extractor;
use task_extraction::machine::{Action, Event, Probe, Reaction};
use task_extraction::model::{
    CacheMissRequest, Domain, ExtractionOutput, FetchRequest, HistfetchRC, NextPageRequest,
    Paginator, PermittedTask, PollResponse, PreparedWork,
};
use task_extraction::unit::{Call, Outcome};
use tonic::{Code, Status};
use tracing::Span;

struct Stub;

impl Domain for Stub {
    type Payload = String;
    type Work = String;
    type Permit = Arc<()>;
    type Cursor = i64;
    type Update = Vec<i64>;
    type Token = Arc<HistfetchRC>;
}

type Output = Result<ExtractionOutput<Stub>, Status>;
type PollItem = (Result<PollResponse<Stub>, Status>, Arc<()>);

/// Cursor of a paginator whose calls fail.
const BROKEN: i64 = -1;

fn polled(run_id: &str, previous: i64) -> PollItem {
    (
        Ok(PollResponse {
            run_id: run_id.to_string(),
            previous_started_event_id: previous,
            payload: format!("payload of {run_id}"),
        }),
        Arc::new(()),
    )
}

fn task(run_id: &str, cursor: i64) -> PermittedTask<Stub> {
    PermittedTask {
        work: PreparedWork { run_id: run_id.to_string(), work: format!("work of {run_id}") },
        permit: Arc::new(()),
        paginator: Paginator { run_id: run_id.to_string(), cursor },
    }
}

fn full(run_id: &str, cursor: i64, token: &Arc<HistfetchRC>) -> FetchRequest<Stub> {
    FetchRequest::Full(CacheMissRequest { original_task: task(run_id, cursor) }, token.clone())
}

fn page(run_id: &str, cursor: i64, last: i64, token: &Arc<HistfetchRC>) -> FetchRequest<Stub> {
    FetchRequest::NextPage(
        NextPageRequest {
            paginator: Paginator { run_id: run_id.to_string(), cursor },
            last_processed_id: last,
            span: Span::none(),
        },
        token.clone(),
    )
}

/// Stands in for the collaborators: answers each call at once.
fn answer(call: Call<Stub>) -> Outcome<Stub> {
    match call {
        Call::PaginatorFromPoll { payload, previous_started_event_id } => {
            let run_id = payload.trim_start_matches("payload of ").to_string();
            if previous_started_event_id == BROKEN {
                Outcome::FromPoll(Err(Status::not_found("no history")))
            } else {
                Outcome::FromPoll(Ok((
                    Paginator { run_id: run_id.clone(), cursor: previous_started_event_id },
                    PreparedWork { run_id, work: payload },
                )))
            }
        }
        Call::PaginatorFromFetch { request } => {
            if request.original_task.paginator.cursor == BROKEN {
                Outcome::FromFetch(Err(Status::deadline_exceeded("too slow")))
            } else {
                Outcome::FromFetch(Ok(request.original_task))
            }
        }
        Call::NextUpdate { paginator, last_processed_id } => {
            if paginator.cursor == BROKEN {
                Outcome::NextUpdate { paginator, update: Err(Status::unavailable("unavailable")) }
            } else {
                let update = vec![last_processed_id + 1, paginator.cursor];
                Outcome::NextUpdate { paginator, update: Ok(update) }
            }
        }
        Call::Nothing => Outcome::Immediate,
    }
}

/// A driver over sources that are known in advance. A source that has run out
/// has ended if it is marked so, and has nothing ready otherwise.
struct Rig {
    core: Extractor<Stub>,
    fetch: VecDeque<FetchRequest<Stub>>,
    fetch_ends: bool,
    poll: VecDeque<PollItem>,
    poll_ends: bool,
    running: VecDeque<(usize, Call<Stub>)>,
    asked: Vec<&'static str>,
    admitted: Vec<(&'static str, usize)>,
    most_in_flight: usize,
    outputs: Vec<Output>,
}

impl Rig {
    fn new(bound: usize, fetch: Vec<FetchRequest<Stub>>, poll: Vec<PollItem>) -> Rig {
        Rig {
            core: Extractor::new(bound),
            fetch: fetch.into(),
            fetch_ends: true,
            poll: poll.into(),
            poll_ends: true,
            running: VecDeque::new(),
            asked: Vec::new(),
            admitted: Vec::new(),
            most_in_flight: 0,
            outputs: Vec::new(),
        }
    }

    fn probe<T>(queue: &mut VecDeque<T>, ends: bool) -> Probe<T> {
        match queue.pop_front() {
            Some(item) => Probe::Ready(item),
            None if ends => Probe::Closed,
            None => Probe::Pending,
        }
    }

    /// Admits as long as the extractor asks for a source. Returns the action
    /// that stopped the round.
    fn fill(&mut self) -> Action {
        loop {
            let action = self.core.next_action();
            let started = match action {
                Action::PullFetch => {
                    self.asked.push("fetch");
                    let probe = Rig::probe(&mut self.fetch, self.fetch_ends);
                    self.core.offer_fetch(probe).map(|s| ("fetch", s))
                }
                Action::PullPoll => {
                    self.asked.push("poll");
                    let probe = Rig::probe(&mut self.poll, self.poll_ends);
                    self.core.offer_poll(probe).map(|s| ("poll", s))
                }
                Action::Await | Action::Finished => return action,
            };
            if let Some((source, (ticket, call))) = started {
                self.admitted.push((source, ticket));
                self.running.push_back((ticket, call));
            }
            assert!(self.core.in_flight() <= self.core.bound());
            self.most_in_flight = self.most_in_flight.max(self.core.in_flight());
        }
    }

    /// Resolves the unit that is `nth` in the order of admission among those
    /// that are unresolved.
    fn finish(&mut self, nth: usize) {
        let (ticket, call) = self.running.remove(nth).expect("a unit to resolve");
        let outcome = answer(call);
        assert!(self.core.awaits(ticket, &outcome));
        let before = self.core.in_flight();
        self.outputs.push(self.core.resolve(ticket, outcome));
        assert_eq!(self.core.in_flight(), before - 1);
    }

    /// Runs until nothing is left to do, resolving the oldest unit first.
    fn drain(&mut self) -> Action {
        loop {
            self.core.wake();
            let action = self.fill();
            if self.running.is_empty() {
                return action;
            }
            self.finish(0);
        }
    }
}

fn kind(output: &Output) -> String {
    match output {
        Ok(ExtractionOutput::NewTask(task)) => format!("new:{}", task.work.run_id),
        Ok(ExtractionOutput::FetchCompleted(task, _)) => format!("fetched:{}", task.work.run_id),
        Ok(ExtractionOutput::PageReady { paginator, .. }) => format!("page:{}", paginator.run_id),
        Ok(ExtractionOutput::FetchFailed { run_id, err }) => {
            format!("failed:{}:{}", run_id, err.message())
        }
        Ok(ExtractionOutput::SourceExhausted) => "exhausted".to_string(),
        Err(status) => format!("error:{}", status.message()),
    }
}

fn kinds(outputs: &[Output]) -> Vec<String> {
    outputs.iter().map(kind).collect()
}

#[test]
fn one_polled_task_then_exhausted() {
    let mut rig = Rig::new(4, vec![], vec![polled("r1", 5)]);
    let last = rig.drain();
    assert_eq!(last, Action::Finished);
    assert_eq!(kinds(&rig.outputs), vec!["new:r1", "exhausted"]);
    match &rig.outputs[0] {
        Ok(ExtractionOutput::NewTask(task)) => {
            assert_eq!(task.work.run_id, "r1");
            assert_eq!(task.work.work, "payload of r1");
            assert_eq!(task.paginator.run_id, "r1");
            assert_eq!(task.paginator.cursor, 5);
        }
        _ => panic!("expected a new task"),
    }
}

#[test]
fn failed_page_and_exhausted_each_once() {
    let token = Arc::new(HistfetchRC {});
    let mut rig = Rig::new(1, vec![page("r7", BROKEN, 3, &token)], vec![]);
    let last = rig.drain();
    assert_eq!(last, Action::Finished);
    let seen = kinds(&rig.outputs);
    assert_eq!(seen.len(), 2);
    assert_eq!(seen.iter().filter(|k| *k == "exhausted").count(), 1);
    assert_eq!(seen.iter().filter(|k| *k == "failed:r7:unavailable").count(), 1);
    let failed = rig.outputs.iter().find_map(|o| match o {
        Ok(ExtractionOutput::FetchFailed { run_id, err }) => Some((run_id.clone(), err.code())),
        _ => None,
    });
    assert_eq!(failed, Some(("r7".to_string(), Code::Unavailable)));
}

#[test]
fn single_slot_admits_both_fetches_before_the_poll() {
    let token = Arc::new(HistfetchRC {});
    let mut rig = Rig::new(
        1,
        vec![full("f1", 0, &token), page("f2", 9, 4, &token)],
        vec![polled("polled", 1)],
    );
    rig.poll_ends = false;
    rig.fetch_ends = false;
    let last = rig.drain();
    assert_eq!(last, Action::Await);
    assert_eq!(rig.admitted, vec![("fetch", 0), ("fetch", 0), ("poll", 0)]);
    assert_eq!(kinds(&rig.outputs), vec!["fetched:f1", "page:f2", "new:polled"]);
    assert_eq!(rig.most_in_flight, 1);
}

#[test]
fn no_more_than_the_bound_in_flight() {
    let token = Arc::new(HistfetchRC {});
    let polls = vec![polled("a", 1), polled("b", 2), polled("c", 3), polled("d", 4)];
    let fetches = vec![full("x", 0, &token), full("y", 0, &token), full("z", 0, &token)];
    let mut rig = Rig::new(2, fetches, polls);
    rig.core.wake();
    assert_eq!(rig.fill(), Action::Await);
    assert_eq!(rig.core.in_flight(), 2);
    assert_eq!(rig.admitted, vec![("fetch", 0), ("fetch", 1)]);
    assert_eq!(rig.core.next_action(), Action::Await);
    let last = rig.drain();
    assert_eq!(last, Action::Finished);
    assert_eq!(rig.most_in_flight, 2);
    assert_eq!(rig.outputs.len(), 8);
    assert_eq!(rig.core.in_flight(), 0);
}

#[test]
fn a_bound_of_one_keeps_one_unit_at_a_time() {
    let polls = vec![polled("a", 1), polled("b", 2)];
    let mut rig = Rig::new(1, vec![], polls);
    let last = rig.drain();
    assert_eq!(last, Action::Finished);
    assert_eq!(rig.most_in_flight, 1);
    assert_eq!(kinds(&rig.outputs), vec!["new:a", "new:b", "exhausted"]);
}

#[test]
fn fetch_source_is_asked_first_in_every_round() {
    let token = Arc::new(HistfetchRC {});
    let mut rig = Rig::new(4, vec![page("f", 1, 1, &token)], vec![polled("p", 1), polled("q", 2)]);
    rig.fetch_ends = false;
    rig.poll_ends = false;
    rig.core.wake();
    assert_eq!(rig.fill(), Action::Await);
    // Each time the poll source is asked, the fetch source was asked just
    // before and had nothing ready.
    assert_eq!(rig.asked, vec!["fetch", "fetch", "poll", "fetch", "poll", "fetch", "poll"]);
    assert_eq!(rig.admitted, vec![("fetch", 0), ("poll", 1), ("poll", 2)]);
}

#[test]
fn poll_source_is_asked_freely_once_fetching_has_ended() {
    let mut rig = Rig::new(3, vec![], vec![polled("p", 1), polled("q", 2)]);
    rig.poll_ends = false;
    rig.core.wake();
    assert_eq!(rig.fill(), Action::Await);
    assert_eq!(rig.asked, vec!["fetch", "poll", "poll", "poll"]);
}

#[test]
fn dropped_token_does_not_stall_the_pipeline() {
    let token = Arc::new(HistfetchRC {});
    let other = Arc::new(HistfetchRC {});
    let mut rig = Rig::new(
        2,
        vec![full("lost", BROKEN, &token), page("kept", 2, 7, &other)],
        vec![polled("p", 3)],
    );
    assert_eq!(Arc::strong_count(&token), 2);
    let last = rig.drain();
    assert_eq!(last, Action::Finished);
    assert_eq!(
        kinds(&rig.outputs),
        vec!["failed:lost:too slow", "page:kept", "new:p", "exhausted"]
    );
    // The failed fetch let go of its token; the page still holds the other.
    assert_eq!(Arc::strong_count(&token), 1);
    assert_eq!(Arc::strong_count(&other), 2);
    match &rig.outputs[1] {
        Ok(ExtractionOutput::PageReady { token: carried, update, .. }) => {
            assert!(Arc::ptr_eq(carried, &other));
            assert_eq!(update, &vec![8, 2]);
        }
        _ => panic!("expected a page"),
    }
    drop(token);
    rig.outputs.clear();
    assert_eq!(Arc::strong_count(&other), 1);
}

#[test]
fn failed_page_drops_its_token() {
    let token = Arc::new(HistfetchRC {});
    let mut rig = Rig::new(1, vec![page("r", BROKEN, 0, &token)], vec![]);
    rig.drain();
    assert_eq!(Arc::strong_count(&token), 1);
}

#[test]
fn completed_fetch_carries_task_and_token() {
    let token = Arc::new(HistfetchRC {});
    let request = full("r9", 11, &token);
    let permit = match &request {
        FetchRequest::Full(request, _) => request.original_task.permit.clone(),
        _ => panic!("expected a full request"),
    };
    let mut rig = Rig::new(1, vec![request], vec![]);
    rig.drain();
    match &rig.outputs[0] {
        Ok(ExtractionOutput::FetchCompleted(task, carried)) => {
            assert!(Arc::ptr_eq(carried, &token));
            assert!(Arc::ptr_eq(&task.permit, &permit));
            assert_eq!(task.work.run_id, "r9");
            assert_eq!(task.paginator.cursor, 11);
        }
        _ => panic!("expected a completed fetch"),
    }
}

#[test]
fn new_task_carries_the_permit_of_its_poll() {
    let (item, permit) = polled("r", 2);
    let mut rig = Rig::new(1, vec![], vec![(item, permit.clone())]);
    rig.drain();
    match &rig.outputs[0] {
        Ok(ExtractionOutput::NewTask(task)) => assert!(Arc::ptr_eq(&task.permit, &permit)),
        _ => panic!("expected a new task"),
    }
}

#[test]
fn failed_lookup_for_a_poll_releases_the_permit() {
    let (item, permit) = polled("r", BROKEN);
    let mut rig = Rig::new(1, vec![], vec![(item, permit.clone())]);
    let last = rig.drain();
    assert_eq!(last, Action::Finished);
    assert_eq!(kinds(&rig.outputs), vec!["failed:r:no history", "exhausted"]);
    assert_eq!(Arc::strong_count(&permit), 1);
}

#[test]
fn failed_poll_is_passed_on_as_an_error() {
    let permit = Arc::new(());
    let failure: PollItem = (Err(Status::internal("poll broke")), permit.clone());
    let mut rig = Rig::new(2, vec![], vec![failure, polled("next", 1)]);
    let last = rig.drain();
    assert_eq!(last, Action::Finished);
    assert_eq!(kinds(&rig.outputs), vec!["error:poll broke", "new:next", "exhausted"]);
    match &rig.outputs[0] {
        Err(status) => assert_eq!(status.code(), Code::Internal),
        _ => panic!("expected an error"),
    }
    assert_eq!(Arc::strong_count(&permit), 1);
}

#[test]
fn failed_poll_asks_for_no_call() {
    let mut core: Extractor<Stub> = Extractor::new(1);
    assert_eq!(core.next_action(), Action::PullFetch);
    assert!(core.offer_fetch(Probe::Closed).is_none());
    let started = core.offer_poll(Probe::Ready((Err(Status::internal("x")), Arc::new(()))));
    match started {
        Some((0, Call::Nothing)) => {}
        _ => panic!("expected ticket 0 and no call"),
    }
}

#[test]
fn output_follows_the_order_of_completion() {
    let mut rig = Rig::new(2, vec![], vec![polled("slow", 1), polled("fast", 2)]);
    rig.core.wake();
    assert_eq!(rig.fill(), Action::Await);
    rig.finish(1);
    rig.finish(0);
    assert_eq!(kinds(&rig.outputs), vec!["new:fast", "new:slow"]);
    let last = rig.drain();
    assert_eq!(last, Action::Finished);
    assert_eq!(kinds(&rig.outputs), vec!["new:fast", "new:slow", "exhausted"]);
}

#[test]
fn sentinel_may_overtake_a_slow_poll_when_slots_allow() {
    let mut rig = Rig::new(2, vec![], vec![polled("slow", 1)]);
    rig.core.wake();
    assert_eq!(rig.fill(), Action::Await);
    assert_eq!(rig.admitted, vec![("poll", 0), ("poll", 1)]);
    rig.finish(1);
    rig.finish(0);
    assert_eq!(kinds(&rig.outputs), vec!["exhausted", "new:slow"]);
    assert_eq!(rig.core.next_action(), Action::Finished);
}

#[test]
fn exhausted_comes_once_and_last_with_a_single_slot() {
    let token = Arc::new(HistfetchRC {});
    let polls = vec![polled("a", 1), polled("b", BROKEN), polled("c", 3)];
    let mut rig = Rig::new(1, vec![page("f", 1, 1, &token)], polls);
    let last = rig.drain();
    assert_eq!(last, Action::Finished);
    let seen = kinds(&rig.outputs);
    assert_eq!(seen, vec!["page:f", "new:a", "failed:b:no history", "new:c", "exhausted"]);
    assert_eq!(seen.iter().filter(|k| *k == "exhausted").count(), 1);
}

#[test]
fn each_fetch_request_yields_one_element() {
    let token = Arc::new(HistfetchRC {});
    let fetches = vec![
        full("a", 0, &token),
        page("b", 1, 1, &token),
        full("c", BROKEN, &token),
        page("d", BROKEN, 2, &token),
    ];
    let mut rig = Rig::new(3, fetches, vec![]);
    let last = rig.drain();
    assert_eq!(last, Action::Finished);
    let mut seen = kinds(&rig.outputs);
    seen.sort();
    assert_eq!(
        seen,
        vec!["exhausted", "failed:c:too slow", "failed:d:unavailable", "fetched:a", "page:b"]
    );
}

#[test]
fn lowest_free_slot_is_the_next_ticket() {
    let polls = vec![polled("a", 1), polled("b", 2), polled("c", 3), polled("d", 4)];
    let mut rig = Rig::new(3, vec![], polls);
    rig.poll_ends = false;
    rig.core.wake();
    assert_eq!(rig.fill(), Action::Await);
    assert_eq!(rig.admitted, vec![("poll", 0), ("poll", 1), ("poll", 2)]);
    rig.finish(1);
    rig.core.wake();
    assert_eq!(rig.fill(), Action::Await);
    assert_eq!(rig.admitted.last(), Some(&("poll", 1)));
    assert_eq!(rig.core.in_flight(), 3);
}

#[test]
fn awaits_tells_which_outcome_a_slot_takes() {
    let token = Arc::new(HistfetchRC {});
    let mut core: Extractor<Stub> = Extractor::new(4);
    core.offer_fetch(Probe::Ready(page("r", 1, 1, &token)));
    core.offer_fetch(Probe::Ready(full("s", 1, &token)));
    core.offer_fetch(Probe::Closed);
    core.offer_poll(Probe::Ready(polled("t", 1)));
    core.offer_poll(Probe::Closed);
    let page_answer: Outcome<Stub> =
        Outcome::NextUpdate { paginator: Paginator { run_id: "r".into(), cursor: 1 }, update: Ok(vec![]) };
    let fetch_answer: Outcome<Stub> = Outcome::FromFetch(Err(Status::aborted("x")));
    let poll_answer: Outcome<Stub> = Outcome::FromPoll(Err(Status::aborted("x")));
    let nothing: Outcome<Stub> = Outcome::Immediate;
    let answers = [&page_answer, &fetch_answer, &poll_answer, &nothing];
    for ticket in 0..6 {
        for (nth, outcome) in answers.iter().enumerate() {
            assert_eq!(core.awaits(ticket, outcome), ticket == nth, "{ticket} {nth}");
        }
    }
    assert!(matches!(core.resolve(3, nothing), Ok(ExtractionOutput::SourceExhausted)));
    assert!(!core.awaits(3, &Outcome::Immediate));
    assert_eq!(core.in_flight(), 3);
}

#[test]
fn a_new_extractor_starts_at_the_fetch_source() {
    let core: Extractor<Stub> = Extractor::new(7);
    assert_eq!(core.bound(), 7);
    assert_eq!(core.in_flight(), 0);
    assert_eq!(core.next_action(), Action::PullFetch);
}

#[test]
fn parked_until_woken() {
    let mut core: Extractor<Stub> = Extractor::new(2);
    assert!(core.offer_fetch(Probe::Pending).is_none());
    assert_eq!(core.next_action(), Action::PullPoll);
    assert!(core.offer_poll(Probe::Pending).is_none());
    assert_eq!(core.next_action(), Action::Await);
    core.wake();
    assert_eq!(core.next_action(), Action::PullFetch);
}

#[test]
fn open_fetch_source_keeps_the_output_open() {
    let mut core: Extractor<Stub> = Extractor::new(1);
    assert!(core.offer_fetch(Probe::Pending).is_none());
    let started = core.offer_poll(Probe::Closed);
    assert!(matches!(started, Some((0, Call::Nothing))));
    assert!(matches!(core.resolve(0, Outcome::Immediate), Ok(ExtractionOutput::SourceExhausted)));
    assert_eq!(core.next_action(), Action::PullFetch);
    assert!(core.offer_fetch(Probe::Pending).is_none());
    // The poll source has ended and is not asked again.
    assert_eq!(core.next_action(), Action::Await);
    core.wake();
    assert!(core.offer_fetch(Probe::Closed).is_none());
    assert_eq!(core.next_action(), Action::Finished);
}

#[test]
fn page_request_hands_paginator_and_watermark_to_the_call() {
    let token = Arc::new(HistfetchRC {});
    let mut core: Extractor<Stub> = Extractor::new(1);
    match core.offer_fetch(Probe::Ready(page("r", 42, 17, &token))) {
        Some((0, Call::NextUpdate { paginator, last_processed_id })) => {
            assert_eq!(paginator.run_id, "r");
            assert_eq!(paginator.cursor, 42);
            assert_eq!(last_processed_id, 17);
        }
        _ => panic!("expected a page extraction"),
    }
}

#[test]
fn poll_hands_payload_and_watermark_to_the_call() {
    let mut core: Extractor<Stub> = Extractor::new(1);
    core.offer_fetch(Probe::Closed);
    match core.offer_poll(Probe::Ready(polled("r1", 5))) {
        Some((0, Call::PaginatorFromPoll { payload, previous_started_event_id })) => {
            assert_eq!(payload, "payload of r1");
            assert_eq!(previous_started_event_id, 5);
        }
        _ => panic!("expected a paginator construction"),
    }
}

#[test]
fn failed_page_names_the_run_of_the_paginator_handed_back() {
    let token = Arc::new(HistfetchRC {});
    let mut core: Extractor<Stub> = Extractor::new(1);
    core.offer_fetch(Probe::Ready(page("asked", 1, 1, &token)));
    let outcome = Outcome::NextUpdate {
        paginator: Paginator { run_id: "answered".into(), cursor: 1 },
        update: Err(Status::unavailable("unavailable")),
    };
    match core.resolve(0, outcome) {
        Ok(ExtractionOutput::FetchFailed { run_id, err }) => {
            assert_eq!(run_id, "answered");
            assert_eq!(err.code(), Code::Unavailable);
            assert_eq!(err.message(), "unavailable");
        }
        _ => panic!("expected a failed fetch"),
    }
}

#[test]
fn fetch_requests_are_made_from_pairs() {
    let token = Arc::new(HistfetchRC {});
    let request: FetchRequest<Stub> =
        (CacheMissRequest { original_task: task("r", 1) }, token.clone()).into();
    assert!(matches!(request, FetchRequest::Full(_, _)));
    let next = NextPageRequest {
        paginator: Paginator { run_id: "r".into(), cursor: 1 },
        last_processed_id: 3,
        span: Span::none(),
    };
    let request: FetchRequest<Stub> = FetchRequest::from((next, token.clone()));
    match request {
        FetchRequest::NextPage(request, carried) => {
            assert_eq!(request.last_processed_id, 3);
            assert!(Arc::ptr_eq(&carried, &token));
        }
        _ => panic!("expected a page request"),
    }
}

#[test]
fn handle_answers_the_events_that_were_asked_for() {
    let token = Arc::new(HistfetchRC {});
    let mut core: Extractor<Stub> = Extractor::new(2);
    match core.handle(Event::Fetch(Probe::Ready(full("f", 3, &token)))) {
        Ok(Reaction::Started { ticket: 0, call: Call::PaginatorFromFetch { request } }) => {
            assert_eq!(request.original_task.work.run_id, "f");
        }
        _ => panic!("expected a started fetch"),
    }
    assert!(matches!(core.handle(Event::Fetch(Probe::Pending)), Ok(Reaction::Noted)));
    match core.handle(Event::Poll(Probe::Closed)) {
        Ok(Reaction::Started { ticket: 1, call: Call::Nothing }) => {}
        _ => panic!("expected the sentinel"),
    }
    assert_eq!(core.in_flight(), 2);
    match core.handle(Event::Resolved { ticket: 1, outcome: Outcome::Immediate }) {
        Ok(Reaction::Emitted(Ok(ExtractionOutput::SourceExhausted))) => {}
        _ => panic!("expected the end of polling"),
    }
    let failure = Outcome::FromFetch(Err(Status::unavailable("unavailable")));
    match core.handle(Event::Resolved { ticket: 0, outcome: failure }) {
        Ok(Reaction::Emitted(Ok(ExtractionOutput::FetchFailed { run_id, err }))) => {
            assert_eq!(run_id, "f");
            assert_eq!(err.code(), Code::Unavailable);
        }
        _ => panic!("expected a failed fetch"),
    }
    assert!(matches!(core.handle(Event::Wake), Ok(Reaction::Noted)));
    assert!(matches!(core.handle(Event::Fetch(Probe::Closed)), Ok(Reaction::Noted)));
    assert_eq!(core.next_action(), Action::Finished);
    assert_eq!(Arc::strong_count(&token), 1);
}

#[test]
fn handle_hands_back_what_was_not_asked_for() {
    let token = Arc::new(HistfetchRC {});
    let mut core: Extractor<Stub> = Extractor::new(1);
    // The fetch source comes first: the poll source was not asked.
    match core.handle(Event::Poll(Probe::Ready(polled("early", 1)))) {
        Err(Event::Poll(Probe::Ready((Ok(response), _)))) => assert_eq!(response.run_id, "early"),
        _ => panic!("expected the item back"),
    }
    assert_eq!(core.in_flight(), 0);
    assert_eq!(core.next_action(), Action::PullFetch);
    // No unit holds ticket 0 yet.
    assert!(matches!(
        core.handle(Event::Resolved { ticket: 0, outcome: Outcome::Immediate }),
        Err(Event::Resolved { ticket: 0, outcome: Outcome::Immediate })
    ));
    assert!(matches!(
        core.handle(Event::Fetch(Probe::Ready(page("p", 1, 1, &token)))),
        Ok(Reaction::Started { ticket: 0, .. })
    ));
    // The slot is taken: no source is asked, and a request is handed back.
    assert_eq!(core.next_action(), Action::Await);
    match core.handle(Event::Fetch(Probe::Ready(full("late", 1, &token)))) {
        Err(Event::Fetch(Probe::Ready(FetchRequest::Full(request, carried)))) => {
            assert_eq!(request.original_task.work.run_id, "late");
            assert!(Arc::ptr_eq(&carried, &token));
        }
        _ => panic!("expected the request back"),
    }
    assert!(matches!(core.handle(Event::Poll(Probe::Closed)), Err(Event::Poll(Probe::Closed))));
    // An outcome of the wrong kind does not resolve the unit.
    assert!(matches!(
        core.handle(Event::Resolved { ticket: 0, outcome: Outcome::Immediate }),
        Err(Event::Resolved { ticket: 0, .. })
    ));
    assert!(matches!(
        core.handle(Event::Resolved { ticket: 1, outcome: Outcome::Immediate }),
        Err(Event::Resolved { ticket: 1, .. })
    ));
    assert_eq!(core.in_flight(), 1);
    assert_eq!(Arc::strong_count(&token), 2);
}
