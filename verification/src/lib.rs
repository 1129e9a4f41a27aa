//! Policy layer of a cross-network token: the sets of accounts and transfers
//! that are exempt from the rate limit, the batches that change them, and the
//! conversion of amounts between local and shared decimals.

pub mod amounts;
pub mod errors;
pub mod events;
pub mod instructions;
pub mod keys;
pub mod override_set;
pub mod state;
