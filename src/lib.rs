//! A record store with referential integrity: an identifier allocator,
//! ordered tables keyed by identifier, and the create / read / update
//! operations of a book-swap service ([`swap`]) and of an NFT marketplace
//! ([`market`]). Every write is checked against the collections first, and
//! either completes or changes nothing. Each store can be exported and
//! restored, so that it survives a restart.
//!
//! The operations are stated as functions on each store's state (for
//! example [`swap::create_user_step`]), and [`laws`] proves what holds of
//! every run of them.

pub mod error;
pub mod format;
pub mod ids;
pub mod laws;
pub mod market;
pub mod swap;
pub mod table;
