//! The data that flows through the extractor.
use tonic::Status;
use tracing::Span;
use vstd::prelude::*;
use vstd::std_specs::convert::FromSpecImpl;

verus! {

/// `tonic::Status`, the error of a remote call. The extractor never looks
/// inside one: it is carried from a collaborator's answer to the output.
#[verifier::external_type_specification]
#[verifier::external_body]
pub struct ExStatus(tonic::Status);

/// `tracing::Span`, the tracing context of a page request. It is carried from
/// the request to the page that answers it and never entered here.
#[verifier::external_type_specification]
#[verifier::external_body]
pub struct ExSpan(tracing::Span);

/// Marker of an outstanding history fetch. It is meant to be shared through
/// `Arc`s as the completion token: as long as one of them is alive a fetch is
/// outstanding, and a shutdown must wait.
#[derive(Debug)]
pub struct HistfetchRC {}

/// The types that the collaborators own and the extractor only moves.
pub trait Domain {
    /// What a successful poll carries besides its identifiers.
    type Payload;

    /// Work prepared for application to workflow state.
    type Work;

    /// Admission permit that travels with a polled task; dropping it releases it.
    type Permit;

    /// Position of a paginator in a run's history.
    type Cursor;

    /// A delta of history extracted from a paginator.
    type Update;

    /// Completion token: alive while a fetch is outstanding.
    type Token;
}

/// A validated poll response.
pub struct PollResponse<D: Domain> {
    pub run_id: String,
    pub previous_started_event_id: i64,
    pub payload: D::Payload,
}

/// Handle that pages through the history of one run.
pub struct Paginator<D: Domain> {
    pub run_id: String,
    pub cursor: D::Cursor,
}

/// Work prepared for one run.
pub struct PreparedWork<D: Domain> {
    pub run_id: String,
    pub work: D::Work,
}

/// A task with the permit that admits it and the paginator for later pages.
pub struct PermittedTask<D: Domain> {
    pub work: PreparedWork<D>,
    pub permit: D::Permit,
    pub paginator: Paginator<D>,
}

/// Request for the full history of a task that arrived without it.
pub struct CacheMissRequest<D: Domain> {
    pub original_task: PermittedTask<D>,
}

/// Request for the next page of a history fetch that is already open.
pub struct NextPageRequest<D: Domain> {
    pub paginator: Paginator<D>,
    pub last_processed_id: i64,
    pub span: Span,
}

/// A request to fetch history, with the token that marks it outstanding.
pub enum FetchRequest<D: Domain> {
    Full(CacheMissRequest<D>, D::Token),
    NextPage(NextPageRequest<D>, D::Token),
}

impl<D: Domain> From<(CacheMissRequest<D>, D::Token)> for FetchRequest<D> {
    fn from(pair: (CacheMissRequest<D>, D::Token)) -> (request: Self) {
        FetchRequest::Full(pair.0, pair.1)
    }
}

impl<D: Domain> FromSpecImpl<(CacheMissRequest<D>, D::Token)> for FetchRequest<D> {
    open spec fn obeys_from_spec() -> bool {
        true
    }

    open spec fn from_spec(pair: (CacheMissRequest<D>, D::Token)) -> Self {
        FetchRequest::Full(pair.0, pair.1)
    }
}

impl<D: Domain> From<(NextPageRequest<D>, D::Token)> for FetchRequest<D> {
    fn from(pair: (NextPageRequest<D>, D::Token)) -> (request: Self) {
        FetchRequest::NextPage(pair.0, pair.1)
    }
}

impl<D: Domain> FromSpecImpl<(NextPageRequest<D>, D::Token)> for FetchRequest<D> {
    open spec fn obeys_from_spec() -> bool {
        true
    }

    open spec fn from_spec(pair: (NextPageRequest<D>, D::Token)) -> Self {
        FetchRequest::NextPage(pair.0, pair.1)
    }
}

/// One element of the extractor's output.
pub enum ExtractionOutput<D: Domain> {
    /// A polled task, ready for application.
    NewTask(PermittedTask<D>),
    /// The answer to a full fetch, with the request's token.
    FetchCompleted(PermittedTask<D>, D::Token),
    /// The answer to a page request.
    PageReady { paginator: Paginator<D>, update: D::Update, span: Span, token: D::Token },
    /// History could not be had for a run that is already identified.
    FetchFailed { run_id: String, err: Status },
    /// The poll source will produce nothing more.
    SourceExhausted,
}

impl<D: Domain> ExtractionOutput<D> {
    /// Whether the element is one that ends a fetch request.
    pub open spec fn ends_fetch(self) -> bool {
        self is FetchCompleted || self is PageReady || self is FetchFailed
    }
}

} // verus!
