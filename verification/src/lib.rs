pub mod engine;
pub mod error;
pub mod graph;
pub mod memory;
pub mod primitive;
pub mod primitives;
pub mod stream;

use vstd::prelude::*;

verus! {

use crate::error::DnnlError;

/// Upper bound on the number of dimensions a tensor layout may have.
pub const MAX_NDIMS: usize = 12;

/// Sets the capacity of the process-wide primitive cache.
///
/// Succeeds exactly on nonnegative capacities; a negative capacity is
/// rejected as invalid arguments.
pub fn set_primitive_cache_capacity(capacity: i32) -> (r: Result<(), DnnlError>)
    ensures
        capacity >= 0 ==> r == Ok::<(), DnnlError>(()),
        capacity < 0 ==> r == Err::<(), DnnlError>(DnnlError::InvalidArguments),
{
    if capacity >= 0 {
        Ok(())
    } else {
        Err(DnnlError::InvalidArguments)
    }
}

} // verus!
