//! A fixed-supply fungible-token ledger.
//!
//! The ledger state is an explicit value of type [`AuxanoToken`]: an init
//! flag, the recorded total supply, a balance table keyed by identity, and
//! an allowance table keyed by (owner, spender) pairs. Every operation of
//! the standard token interface (initialize, balance and allowance queries,
//! approve, direct and delegated transfer, the disabled burns, metadata) is
//! a verified function on that state. The host environment that persists
//! the state, certifies callers, supplies the ledger sequence and publishes
//! events stays outside this crate: operations take the current ledger
//! sequence as an argument, are invoked only for certified callers, and
//! return the event to publish rather than publishing it.

pub mod allowances;
pub mod balances;
pub mod token;

pub use token::AuxanoToken;
pub use token::MuxedAddress;
pub use token::TokenError;
pub use token::TransferEvent;
pub use allowances::AllowanceKey;
pub use allowances::AllowanceValue;
