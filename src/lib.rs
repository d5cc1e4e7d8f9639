//! A ticket issuance and resale ledger for events.
//!
//! Organizers register events with a fixed supply and price, buyers mint
//! tickets in a primary sale, and holders resell them on a secondary market
//! under a holding period and an organizer royalty. Every operation is a
//! single state transition on a [`Ledger`]: it either applies all of
//! its effects or returns an error and leaves the ledger unchanged.

mod error;
mod fees;
mod identity;
mod ledger;
mod program;
mod proofs;

pub use error::DextikError;
pub use fees::{royalty_of, split, MAX_ROYALTY_BPS};
pub use identity::{same_identity, Identity};
pub use ledger::{
    count_for, tickets_of, transferred, Event, Ledger, Ticket, TransferRecord, WalletCount,
    HOLDING_PERIOD_SECONDS, MAX_DESCRIPTION_LEN, MAX_NAME_LEN, MAX_VENUE_LEN,
};
pub use program::{
    create_event, event_params_valid, holding_period_met, initialize, mint_error, mint_step,
    mint_ticket, minted_ticket, resale_error, resale_step, resell_ticket, settlement_of,
    CreateEvent, Initialize, MintTicket, ResaleSettlement, ResellTicket,
};
pub use proofs::{lemma_holding_period_gate, lemma_no_double_sale, lemma_no_overselling, successes};
