//! The ways in which a request against the store can fail.

use vstd::prelude::*;

verus! {

/// Why the store did not carry out a request.
///
/// Domain outcomes such as a duplicate URL, an exceeded star limit or an
/// unknown action are reported as status codes of an ordinary answer, not
/// through this type.
#[derive(Debug, Clone, Copy, PartialEq, Eq, Structural)]
pub enum ServiceError {
    /// The row that the request reads or updates does not exist.
    NotFound,
    /// The store refused the statement: a key that is already present, or a
    /// counter that would leave the range of its column.
    StoreFailure,
}

/// Whether `res` is the failure `error`.
pub open spec fn fails<T>(res: Result<T, ServiceError>, error: ServiceError) -> bool {
    res matches Err(e) && e == error
}

} // verus!
