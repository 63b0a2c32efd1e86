//! A verified wagering ledger for a multi-room roulette pool: the payout
//! table, the solvency guard that admits wagers, the settlement of a round
//! and the ledger of accepted wagers, with the state they act on.

pub mod bet;
pub mod checks;
pub mod close;
pub mod env;
pub mod error;
pub mod execute;
pub mod funds;
pub mod ledger;
pub mod listing;
pub mod msg;
pub mod payout;
pub mod query;
pub mod rand;
pub mod response;
pub mod settings;
pub mod settlement;
pub mod solvency;
pub mod state;
pub mod store;
pub mod text;
