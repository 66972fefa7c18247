//! An ownership ledger and marketplace for knights: unique, mintable assets
//! that carry a genetic fingerprint and can be bred into new ones.
//!
//! The registry ([`Pallet`]) answers five operations: minting, transfer,
//! pricing, purchase and breeding. Each either succeeds as a whole and
//! announces an [`Event`], or is refused with an [`Error`] and changes
//! nothing. Its state is an asset store ([`store`]) and an ownership index
//! ([`ownership`]) that are kept in step; [`ledger`] says in mathematical
//! terms what the state is and what every operation does to it, and [`laws`]
//! states what holds of every state that the operations can reach.
//!
//! Two things are left to the caller. The caller's identity arrives already
//! verified, as an account. A purchase is paid for outside: the registry
//! names the payment ([`Pallet::purchase_order`]) and completes the purchase
//! once it is told how the payment went ([`Pallet::buy_knight`]).

pub mod breeding;
pub mod error;
pub mod event;
pub mod genesis;
pub mod hashing;
pub mod knight;
pub mod laws;
pub mod ledger;
pub mod market;
pub mod ordered;
pub mod ownership;
pub mod pallet;
pub mod store;

pub use crate::error::Error;
pub use crate::event::Event;
pub use crate::genesis::GenesisConfig;
pub use crate::knight::Knight;
pub use crate::pallet::Pallet;
