//! The failures an operation of this crate can end in.

use vstd::prelude::*;

verus! {

/// Why an operation failed. Every operation is all-or-nothing: a caller gets
/// either the complete result or exactly one of these.
#[derive(Debug, PartialEq, Eq)]
pub enum ServiceError {
    /// The request could not be built or could not be sent.
    TransportFailure { reason: String },
    /// A response body lacks an expected field, or holds it in another shape.
    SchemaViolation { field: String },
    /// A listing that must hold at least one entry came back empty.
    EmptyResult,
    /// One unit of a fan-out failed; `cause` is that unit's own failure.
    SubQueryFailure { cause: Box<ServiceError> },
}

/// A [`ServiceError`] as a mathematical value: its texts are sequences of
/// characters.
pub enum ErrorModel {
    TransportFailure { reason: Seq<char> },
    SchemaViolation { field: Seq<char> },
    EmptyResult,
    SubQueryFailure { cause: Box<ErrorModel> },
}

impl ServiceError {
    /// The mathematical value of this error.
    pub open spec fn model(self) -> ErrorModel
        decreases self,
    {
        match self {
            ServiceError::TransportFailure { reason } => ErrorModel::TransportFailure {
                reason: reason@,
            },
            ServiceError::SchemaViolation { field } => ErrorModel::SchemaViolation { field: field@ },
            ServiceError::EmptyResult => ErrorModel::EmptyResult,
            ServiceError::SubQueryFailure { cause } => ErrorModel::SubQueryFailure {
                cause: Box::new(cause.model()),
            },
        }
    }

    /// A transport failure with the given reason.
    pub fn transport(reason: &str) -> (e: ServiceError)
        ensures
            e@ == (ErrorModel::TransportFailure { reason: reason@ }),
    {
        ServiceError::TransportFailure { reason: reason.to_owned() }
    }

    /// A schema violation on the given field.
    pub fn schema(field: &str) -> (e: ServiceError)
        ensures
            e@ == (ErrorModel::SchemaViolation { field: field@ }),
    {
        ServiceError::SchemaViolation { field: field.to_owned() }
    }

    /// This failure as the failure of one unit of a fan-out.
    pub fn in_sub_query(self) -> (e: ServiceError)
        ensures
            e@ == (ErrorModel::SubQueryFailure { cause: Box::new(self@) }),
    {
        ServiceError::SubQueryFailure { cause: Box::new(self) }
    }
}

impl View for ServiceError {
    type V = ErrorModel;

    open spec fn view(&self) -> ErrorModel {
        self.model()
    }
}

} // verus!
