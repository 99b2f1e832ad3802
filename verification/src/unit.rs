//! Units of work: what each branch makes of an input, and what a unit yields
//! once its call has been answered.
use crate::model::{
    CacheMissRequest, Domain, ExtractionOutput, FetchRequest, Paginator, PermittedTask,
    PollResponse, PreparedWork,
};
use tonic::Status;
use tracing::Span;
use vstd::prelude::*;

verus! {

/// Where a unit comes from.
#[derive(Clone, Copy, Debug, PartialEq, Eq, Structural)]
pub enum Origin {
    /// A polled item.
    Poll,
    /// The end of the poll source.
    Sentinel,
    /// A fetch request.
    Fetch,
}

/// What an admitted unit holds until it is resolved.
pub enum Unit<D: Domain> {
    /// A polled task whose paginator is being constructed.
    Poll { run_id: String, permit: D::Permit },
    /// A poll that failed before any history was looked up.
    PollFailure { err: Status, permit: D::Permit },
    /// The mark that follows the last polled task.
    Sentinel,
    /// A full fetch in progress.
    FullFetch { run_id: String, token: D::Token },
    /// A page extraction in progress.
    PageFetch { span: Span, token: D::Token },
}

/// The call that the driver makes on behalf of a unit.
pub enum Call<D: Domain> {
    /// Construct a paginator from a poll payload and its watermark.
    PaginatorFromPoll { payload: D::Payload, previous_started_event_id: i64 },
    /// Construct a paginator, and the task with it, from a cache-miss request.
    PaginatorFromFetch { request: CacheMissRequest<D> },
    /// Extract the next update from a paginator, past the given event.
    NextUpdate { paginator: Paginator<D>, last_processed_id: i64 },
    /// No call: the unit is ready as soon as it is admitted.
    Nothing,
}

/// What came back from the call of a unit.
pub enum Outcome<D: Domain> {
    FromPoll(Result<(Paginator<D>, PreparedWork<D>), Status>),
    FromFetch(Result<PermittedTask<D>, Status>),
    /// The paginator is handed back together with what it extracted.
    NextUpdate { paginator: Paginator<D>, update: Result<D::Update, Status> },
    /// The answer to `Call::Nothing`.
    Immediate,
}

/// The unit and the call that the poll branch makes of one polled item.
pub open spec fn plan_poll<D: Domain>(item: Result<PollResponse<D>, Status>, permit: D::Permit) -> (
    Unit<D>,
    Call<D>,
) {
    match item {
        Ok(response) => (
            Unit::Poll { run_id: response.run_id, permit },
            Call::PaginatorFromPoll {
                payload: response.payload,
                previous_started_event_id: response.previous_started_event_id,
            },
        ),
        Err(err) => (Unit::PollFailure { err, permit }, Call::Nothing),
    }
}

/// The unit and the call that the fetch branch makes of one request.
pub open spec fn plan_fetch<D: Domain>(request: FetchRequest<D>) -> (Unit<D>, Call<D>) {
    match request {
        FetchRequest::Full(request, token) => (
            Unit::FullFetch { run_id: request.original_task.work.run_id, token },
            Call::PaginatorFromFetch { request },
        ),
        FetchRequest::NextPage(request, token) => (
            Unit::PageFetch { span: request.span, token },
            Call::NextUpdate {
                paginator: request.paginator,
                last_processed_id: request.last_processed_id,
            },
        ),
    }
}

impl<D: Domain> Call<D> {
    /// Whether `outcome` is an answer to this call.
    pub open spec fn answered_by(self, outcome: Outcome<D>) -> bool {
        match self {
            Call::PaginatorFromPoll { .. } => outcome is FromPoll,
            Call::PaginatorFromFetch { .. } => outcome is FromFetch,
            Call::NextUpdate { .. } => outcome is NextUpdate,
            Call::Nothing => outcome is Immediate,
        }
    }
}

impl<D: Domain> Unit<D> {
    /// Where the unit comes from.
    pub open spec fn origin(self) -> Origin {
        match self {
            Unit::Poll { .. } => Origin::Poll,
            Unit::PollFailure { .. } => Origin::Poll,
            Unit::Sentinel => Origin::Sentinel,
            Unit::FullFetch { .. } => Origin::Fetch,
            Unit::PageFetch { .. } => Origin::Fetch,
        }
    }

    /// Whether `outcome` answers the call that this unit was admitted with.
    pub open spec fn answered_by(self, outcome: Outcome<D>) -> bool {
        match self {
            Unit::Poll { .. } => outcome is FromPoll,
            Unit::PollFailure { .. } => outcome is Immediate,
            Unit::Sentinel => outcome is Immediate,
            Unit::FullFetch { .. } => outcome is FromFetch,
            Unit::PageFetch { .. } => outcome is NextUpdate,
        }
    }

    /// The output element of this unit for an outcome that answers it. A
    /// failed poll is passed on as an error; every other failure is a value.
    pub open spec fn emission(self, outcome: Outcome<D>) -> Result<ExtractionOutput<D>, Status>
        recommends
            self.answered_by(outcome),
    {
        match (self, outcome) {
            (Unit::Poll { run_id, permit }, Outcome::FromPoll(Ok((paginator, work)))) => Ok(
                ExtractionOutput::NewTask(PermittedTask { work, permit, paginator }),
            ),
            (Unit::Poll { run_id, permit }, Outcome::FromPoll(Err(err))) => Ok(
                ExtractionOutput::FetchFailed { run_id, err },
            ),
            (Unit::FullFetch { run_id, token }, Outcome::FromFetch(Ok(task))) => Ok(
                ExtractionOutput::FetchCompleted(task, token),
            ),
            (Unit::FullFetch { run_id, token }, Outcome::FromFetch(Err(err))) => Ok(
                ExtractionOutput::FetchFailed { run_id, err },
            ),
            (Unit::PageFetch { span, token }, Outcome::NextUpdate { paginator, update: Ok(update) }) => Ok(
                ExtractionOutput::PageReady { paginator, update, span, token },
            ),
            (Unit::PageFetch { span, token }, Outcome::NextUpdate { paginator, update: Err(err) }) => Ok(
                ExtractionOutput::FetchFailed { run_id: paginator.run_id, err },
            ),
            (Unit::PollFailure { err, permit }, _) => Err(err),
            _ => Ok(ExtractionOutput::SourceExhausted),
        }
    }

    /// Exec form of [`Unit::answered_by`].
    pub fn accepts(&self, outcome: &Outcome<D>) -> (fits: bool)
        ensures
            fits == self.answered_by(*outcome),
    {
        match self {
            Unit::Poll { .. } => matches!(outcome, Outcome::FromPoll(_)),
            Unit::PollFailure { .. } => matches!(outcome, Outcome::Immediate),
            Unit::Sentinel => matches!(outcome, Outcome::Immediate),
            Unit::FullFetch { .. } => matches!(outcome, Outcome::FromFetch(_)),
            Unit::PageFetch { .. } => matches!(outcome, Outcome::NextUpdate { .. }),
        }
    }

    /// Turns the unit and the outcome of its call into the output element.
    /// On a failure the permit or token that the unit held is dropped.
    pub fn conclude(self, outcome: Outcome<D>) -> (output: Result<ExtractionOutput<D>, Status>)
        requires
            self.answered_by(outcome),
        ensures
            output == self.emission(outcome),
    {
        match self {
            Unit::Poll { run_id, permit } => match outcome {
                Outcome::FromPoll(Ok((paginator, work))) => Ok(
                    ExtractionOutput::NewTask(PermittedTask { work, permit, paginator }),
                ),
                Outcome::FromPoll(Err(err)) => Ok(ExtractionOutput::FetchFailed { run_id, err }),
                _ => Ok(ExtractionOutput::SourceExhausted),
            },
            Unit::PollFailure { err, permit } => Err(err),
            Unit::Sentinel => Ok(ExtractionOutput::SourceExhausted),
            Unit::FullFetch { run_id, token } => match outcome {
                Outcome::FromFetch(Ok(task)) => Ok(ExtractionOutput::FetchCompleted(task, token)),
                Outcome::FromFetch(Err(err)) => Ok(ExtractionOutput::FetchFailed { run_id, err }),
                _ => Ok(ExtractionOutput::SourceExhausted),
            },
            Unit::PageFetch { span, token } => match outcome {
                Outcome::NextUpdate { paginator, update: Ok(update) } => Ok(
                    ExtractionOutput::PageReady { paginator, update, span, token },
                ),
                Outcome::NextUpdate { paginator, update: Err(err) } => Ok(
                    ExtractionOutput::FetchFailed { run_id: paginator.run_id, err },
                ),
                _ => Ok(ExtractionOutput::SourceExhausted),
            },
        }
    }
}

/// The poll branch: one polled item with its permit becomes one unit. A
/// successful poll asks for a paginator; a failed one asks for nothing.
pub fn poll_unit<D: Domain>(item: Result<PollResponse<D>, Status>, permit: D::Permit) -> (planned: (
    Unit<D>,
    Call<D>,
))
    ensures
        planned == plan_poll(item, permit),
{
    match item {
        Ok(response) => (
            Unit::Poll { run_id: response.run_id, permit },
            Call::PaginatorFromPoll {
                payload: response.payload,
                previous_started_event_id: response.previous_started_event_id,
            },
        ),
        Err(err) => (Unit::PollFailure { err, permit }, Call::Nothing),
    }
}

/// The fetch branch: one request becomes one unit that keeps the request's
/// token. A full fetch remembers the run of the task it is for.
pub fn fetch_unit<D: Domain>(request: FetchRequest<D>) -> (planned: (Unit<D>, Call<D>))
    ensures
        planned == plan_fetch(request),
{
    match request {
        FetchRequest::Full(request, token) => {
            let run_id = request.original_task.work.run_id.clone();
            (Unit::FullFetch { run_id, token }, Call::PaginatorFromFetch { request })
        },
        FetchRequest::NextPage(request, token) => (
            Unit::PageFetch { span: request.span, token },
            Call::NextUpdate {
                paginator: request.paginator,
                last_processed_id: request.last_processed_id,
            },
        ),
    }
}

/// A unit is answered by just the outcomes that answer the call it was
/// admitted with: a driver that answers each call in kind resolves each unit.
pub proof fn lemma_call_matches_unit<D: Domain>(
    item: Result<PollResponse<D>, Status>,
    permit: D::Permit,
    request: FetchRequest<D>,
    outcome: Outcome<D>,
)
    ensures
        plan_poll(item, permit).0.answered_by(outcome) == plan_poll(item, permit).1.answered_by(
            outcome,
        ),
        plan_fetch(request).0.answered_by(outcome) == plan_fetch(request).1.answered_by(outcome),
        Unit::<D>::Sentinel.answered_by(outcome) == Call::<D>::Nothing.answered_by(outcome),
{
}

} // verus!
