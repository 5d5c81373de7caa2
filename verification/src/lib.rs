//! An escrow ledger for over-the-counter exchanges: a party deposits an asset
//! together with the asset it wants in return, and any other party may settle
//! the offer by paying exactly that asset, or the depositor may take the
//! deposit back.

pub mod asset;
pub mod contract;
pub mod error;
pub mod identity;
pub mod laws;
pub mod msg;
pub mod settlement;
pub mod state;
pub mod store;
