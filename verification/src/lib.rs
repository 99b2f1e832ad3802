//! Task extraction for a workflow worker, as a verified, synchronous core.
//!
//! Two inputs feed the extractor: polled workflow tasks and requests to fetch
//! execution history. Each accepted input becomes a unit of work that waits
//! for one call to a collaborator (or for nothing at all) and then yields one
//! element of the output. The extractor admits fetch requests ahead of polled
//! tasks and keeps at most a fixed number of units unresolved.
//!
//! Nothing here suspends or performs I/O. A driver owns the sources and the
//! collaborators: it asks [`extractor::Extractor::next_action`] what to do,
//! reports what a source answered, performs the call that an admitted unit
//! asks for, and hands the outcome back to obtain the output element.
pub mod extractor;
pub mod laws;
pub mod machine;
pub mod model;
pub mod slots;
pub mod trace;
pub mod unit;
