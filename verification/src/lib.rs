//! A custody and pairing engine for entangled asset collections.
//!
//! Given an existing collection of unique assets, the engine registers a
//! parallel "entangled" collection, pairs each original asset with a freshly
//! minted mirror asset, and lets the current holder swap atomically between
//! the two representations while the counterpart sits in an escrow vault.
//! A collection may be registered as one-way, in which case a swap into the
//! mirror representation can never be undone; a two-way pair can also be
//! collapsed for good by burning the escrowed original.
//!
//! The engine keeps every record in a keyed registry, mirrors the byte
//! layout of the persisted records in [`codec`], and exposes the derived
//! signing authority and the deterministic record addressing in [`pda`].

pub mod address;
pub mod codec;
pub mod engine;
pub mod errors;
pub mod laws;
pub mod meta;
pub mod model;
pub mod pda;
pub mod state;
