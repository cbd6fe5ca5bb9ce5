use vstd::prelude::*;

verus! {

/// The kinds of failure that the billing core reports.
#[derive(Clone, Copy, Debug, PartialEq, Eq, Structural)]
pub enum BillingError {
    /// An input is outside the accepted range or format.
    Validation,
    /// The addressed permission, session or link does not exist.
    NotFound,
    /// The entity is not in a state that admits the operation.
    InvalidState,
    /// The debit is larger than what is left on the permission.
    InsufficientBalance,
    /// The permission's deadline has passed.
    Expired,
    /// Less was received from the declared sender than the permission asks for
    /// (both in zatoshi).
    PaymentShort { expected: u128, got: u128 },
    /// The chain node failed or answered something unreadable.
    ChainError,
    /// The store refused a write (a uniqueness violation).
    StoreError,
    /// The vendor directory failed or answered something unusable.
    ExternalServiceError,
    /// An arithmetic limit of the engine was reached.
    Internal,
}

} // verus!
