use vstd::prelude::*;

verus! {

/// Typed error, one variant per native status category.
///
/// Every fallible operation of this library reports failure through this
/// closed set; a raw status code read at the foreign boundary is translated
/// by [`error_from_status`] and never inspected anywhere else.
#[derive(Debug, Clone, Copy, PartialEq, Eq, Structural)]
pub enum DnnlError {
    InvalidArguments,
    OutOfMemory,
    Unsupported,
    Unknown,
    InvalidDataType,
    InvalidGraph,
    InvalidGraphOp,
    RuntimeError,
    InvalidShape,
    LastImplReached,
    NotRequired,
    Success,
    InvalidLayout,
    NonNullViolated,
    InvalidQueryOutput,
}

/// Status code reported by a successful native call.
pub const STATUS_SUCCESS: u32 = 0;

/// Status code for an out-of-memory condition.
pub const STATUS_OUT_OF_MEMORY: u32 = 1;

/// Status code for incorrect function arguments.
pub const STATUS_INVALID_ARGUMENTS: u32 = 2;

/// Status code for functionality that is not implemented.
pub const STATUS_UNIMPLEMENTED: u32 = 3;

/// Status code reporting that the last available implementation was reached.
pub const STATUS_LAST_IMPL_REACHED: u32 = 4;

/// Status code for a primitive or engine that failed during execution.
pub const STATUS_RUNTIME_ERROR: u32 = 5;

/// Status code for a query of an element that the primitive does not require.
pub const STATUS_NOT_REQUIRED: u32 = 6;

/// Status code for an ill-formed graph.
pub const STATUS_INVALID_GRAPH: u32 = 7;

/// Status code for a graph operation that breaks its schema.
pub const STATUS_INVALID_GRAPH_OP: u32 = 8;

/// Status code for a shape that cannot be inferred or compiled.
pub const STATUS_INVALID_SHAPE: u32 = 9;

/// Status code for a data type that cannot be inferred or compiled.
pub const STATUS_INVALID_DATA_TYPE: u32 = 10;

/// Meaning of a raw status code as a typed error.
///
/// Codes outside the known range map to `Unknown`; they are never coerced
/// into success.
pub open spec fn spec_error_of_status(status: u32) -> DnnlError {
    if status == STATUS_SUCCESS {
        DnnlError::Success
    } else if status == STATUS_OUT_OF_MEMORY {
        DnnlError::OutOfMemory
    } else if status == STATUS_INVALID_ARGUMENTS {
        DnnlError::InvalidArguments
    } else if status == STATUS_UNIMPLEMENTED {
        DnnlError::Unsupported
    } else if status == STATUS_LAST_IMPL_REACHED {
        DnnlError::LastImplReached
    } else if status == STATUS_RUNTIME_ERROR {
        DnnlError::RuntimeError
    } else if status == STATUS_NOT_REQUIRED {
        DnnlError::NotRequired
    } else if status == STATUS_INVALID_GRAPH {
        DnnlError::InvalidGraph
    } else if status == STATUS_INVALID_GRAPH_OP {
        DnnlError::InvalidGraphOp
    } else if status == STATUS_INVALID_SHAPE {
        DnnlError::InvalidShape
    } else if status == STATUS_INVALID_DATA_TYPE {
        DnnlError::InvalidDataType
    } else {
        DnnlError::Unknown
    }
}

/// Translates a raw native status code into the typed error.
pub fn error_from_status(status: u32) -> (e: DnnlError)
    ensures
        e == spec_error_of_status(status),
{
    if status == STATUS_SUCCESS {
        DnnlError::Success
    } else if status == STATUS_OUT_OF_MEMORY {
        DnnlError::OutOfMemory
    } else if status == STATUS_INVALID_ARGUMENTS {
        DnnlError::InvalidArguments
    } else if status == STATUS_UNIMPLEMENTED {
        DnnlError::Unsupported
    } else if status == STATUS_LAST_IMPL_REACHED {
        DnnlError::LastImplReached
    } else if status == STATUS_RUNTIME_ERROR {
        DnnlError::RuntimeError
    } else if status == STATUS_NOT_REQUIRED {
        DnnlError::NotRequired
    } else if status == STATUS_INVALID_GRAPH {
        DnnlError::InvalidGraph
    } else if status == STATUS_INVALID_GRAPH_OP {
        DnnlError::InvalidGraphOp
    } else if status == STATUS_INVALID_SHAPE {
        DnnlError::InvalidShape
    } else if status == STATUS_INVALID_DATA_TYPE {
        DnnlError::InvalidDataType
    } else {
        DnnlError::Unknown
    }
}

/// True exactly on the success status code.
pub fn status_is_success(status: u32) -> (r: bool)
    ensures
        r == (spec_error_of_status(status) == DnnlError::Success),
{
    status == STATUS_SUCCESS
}

} // verus!
