use vstd::prelude::*;

verus! {

/// Why an operation on the ledger was rejected.
///
/// Every error is terminal for the operation that raised it, and the ledger
/// is left exactly as it was before the call.
#[derive(Clone, Copy, Debug, PartialEq, Eq, Structural)]
pub enum DextikError {
    /// The event's parameters are out of range.
    InvalidEventParameters,
    /// No event has the given id.
    EventNotFound,
    /// No ticket has the given id.
    TicketNotFound,
    /// All tickets for this event are sold out.
    SoldOut,
    /// Ticket limit per wallet reached for this event.
    TicketLimitReached,
    /// The caller does not own the ticket.
    NotOwner,
    /// Ticket cannot be resold before holding period ends.
    HoldingPeriodNotMet,
    /// A resale price must be positive.
    InvalidPrice,
    /// A royalty rate above 100%.
    InvalidRoyalty,
    /// The paying party has not made the required funds available.
    InsufficientFunds,
}

} // verus!
