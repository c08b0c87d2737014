use vstd::prelude::*;

verus! {

/// Failures surfaced by the registry and record operations.
///
/// Every operation either fully applies or fails with one of these and
/// leaves its state untouched. Oracle unavailability is not an error:
/// score derivation falls back to the clock alone.
#[derive(Clone, Copy, Debug, PartialEq, Eq, Structural)]
pub enum Error {
    /// The caller's identity fails a required authorization check.
    Unauthorized,
    /// A record for the given (holder, token) pair already exists.
    AlreadyExists,
    /// No record exists for the given (holder, token) pair.
    NotFound,
    /// The operator registry already holds its maximum number of entries.
    CapacityExceeded,
    /// The token account's ownership facts do not match the expected ones.
    ProvenanceMismatch,
}

} // verus!
