//! The ways in which an operation of the recorder can fail.

use vstd::prelude::*;
use vstd::string::*;

verus! {

/// Why the store could not serve a request.
#[derive(Debug)]
pub enum StoreFault {
    /// The database reported an error; its message is kept.
    Backend(String),
    /// A stored value is not laid out as its family demands.
    Malformed,
    /// A lock points at a history row that is not there.
    HistoryNotFound,
    /// The plan to change is not there.
    PlanNotFound,
}

/// Why an operation failed.
#[derive(Debug)]
pub enum RecordError {
    /// The channel already has a recording lock.
    AlreadyRecording,
    /// The channel has no recording lock.
    NotRecording,
    /// The platform could not be asked about the channel.
    ResolverFailure(String),
    /// The capture process ended at once; its output is kept.
    LaunchFailure(String),
    /// The store failed.
    StoreFailure(StoreFault),
    /// No place to save the capture could be made.
    PathFailure(String),
}

impl RecordError {
    /// The database itself failed, so nothing is known of the store's state.
    pub open spec fn is_backend(self) -> bool {
        self matches RecordError::StoreFailure(StoreFault::Backend(_))
    }

    /// Whether the database itself failed, so that nothing is known of the
    /// store's state.
    pub fn database_failed(&self) -> (b: bool)
        ensures
            b == self.is_backend(),
    {
        match self {
            RecordError::StoreFailure(StoreFault::Backend(_)) => true,
            _ => false,
        }
    }

    /// The text of the failure, for callers that report errors as text.
    pub open spec fn spec_message(self) -> Seq<char> {
        match self {
            RecordError::AlreadyRecording => "Already recording"@,
            RecordError::NotRecording => "url is not recording"@,
            RecordError::ResolverFailure(m) => m@,
            RecordError::LaunchFailure(m) => m@,
            RecordError::StoreFailure(StoreFault::Backend(m)) => m@,
            RecordError::StoreFailure(StoreFault::Malformed) => "stored value is malformed"@,
            RecordError::StoreFailure(StoreFault::HistoryNotFound) => "history not found"@,
            RecordError::StoreFailure(StoreFault::PlanNotFound) => "plan not found"@,
            RecordError::PathFailure(m) => m@,
        }
    }

    /// The text of the failure.
    pub fn message(&self) -> (m: String)
        ensures
            m@ == self.spec_message(),
    {
        match self {
            RecordError::AlreadyRecording => String::from_str("Already recording"),
            RecordError::NotRecording => String::from_str("url is not recording"),
            RecordError::ResolverFailure(m) => m.clone(),
            RecordError::LaunchFailure(m) => m.clone(),
            RecordError::StoreFailure(StoreFault::Backend(m)) => m.clone(),
            RecordError::StoreFailure(StoreFault::Malformed) => String::from_str(
                "stored value is malformed",
            ),
            RecordError::StoreFailure(StoreFault::HistoryNotFound) => String::from_str(
                "history not found",
            ),
            RecordError::StoreFailure(StoreFault::PlanNotFound) => String::from_str("plan not found"),
            RecordError::PathFailure(m) => m.clone(),
        }
    }
}

} // verus!
