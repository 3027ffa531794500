//! A creator tip jar: supporters escrow token tips for creators, who later
//! withdraw what has accumulated.
//!
//! The contract's ledger state is modelled by [`TipJarContract`]. Each entry
//! point is a verified transition on that state that either refuses the
//! request (leaving the state untouched) or records it and reports the token
//! movement, the authorization and the event that the host has to carry out.

pub mod address;
pub mod contract;
pub mod effects;
pub mod error;
pub mod laws;
pub mod ledger;
pub mod message;

pub use address::Address;
pub use contract::TipJarContract;
pub use effects::{Effects, Event, Holder, TokenTransfer};
pub use error::{Refusal, TipJarError};
pub use ledger::{AccountView, LedgerView, MAX_MESSAGE_LEN, Request};
pub use message::{Metadata, TipNote, TipWithMessage, count_chars};
