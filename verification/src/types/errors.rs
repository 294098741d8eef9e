//! The failures that a collection run can end in.

use crate::types::datatypes::Datatype;
use crate::types::partitions::Dim;
use vstd::prelude::*;

verus! {

/// The three classes of failure.
#[derive(Clone, Copy, Debug, PartialEq, Eq, Structural)]
pub enum ErrorKind {
    /// A request could not be answered by the source.
    Extraction,
    /// Accumulated columns could not be turned into tables.
    Assembly,
    /// A path, a label or a request list could not be derived.
    Derivation,
}

/// Why a collection run, or the derivation of a path, failed.
#[derive(Clone, Debug, PartialEq, Eq)]
pub enum CollectError {
    /// A request failed in transit to or from the node.
    NetworkFault(String),
    /// The node answered a request with a fault.
    NodeFault(String),
    /// The registry holds no table metadata for a dataset type whose columns
    /// are to be assembled.
    MissingSchema(Datatype),
    /// A populated column's length differs from the row counter.
    RowCountMismatch(Datatype),
    /// A requested dataset type cannot be resolved to table metadata.
    UnknownDatatype(Datatype),
    /// The partition holds no values along a dimension that was asked for.
    MissingDimension(Dim),
}

impl CollectError {
    /// The class a failure belongs to.
    pub open spec fn spec_kind(self) -> ErrorKind {
        match self {
            CollectError::NetworkFault(_) => ErrorKind::Extraction,
            CollectError::NodeFault(_) => ErrorKind::Extraction,
            CollectError::MissingSchema(_) => ErrorKind::Assembly,
            CollectError::RowCountMismatch(_) => ErrorKind::Assembly,
            CollectError::UnknownDatatype(_) => ErrorKind::Derivation,
            CollectError::MissingDimension(_) => ErrorKind::Derivation,
        }
    }

    /// The class a failure belongs to.
    pub fn kind(&self) -> (kind: ErrorKind)
        ensures
            kind == self.spec_kind(),
    {
        match self {
            CollectError::NetworkFault(_) => ErrorKind::Extraction,
            CollectError::NodeFault(_) => ErrorKind::Extraction,
            CollectError::MissingSchema(_) => ErrorKind::Assembly,
            CollectError::RowCountMismatch(_) => ErrorKind::Assembly,
            CollectError::UnknownDatatype(_) => ErrorKind::Derivation,
            CollectError::MissingDimension(_) => ErrorKind::Derivation,
        }
    }
}

} // verus!
