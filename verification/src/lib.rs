//! A registry of uniquely identified, breedable digital assets ("kitties").
//!
//! The crate models the core of an on-chain asset pallet: a monotonic
//! identity allocator, a genetics engine that derives and mixes genomes,
//! an entity registry with an ownership table, a fixed-price marketplace,
//! and a versioned migration engine that rewrites the stored byte layout
//! of entity records when the schema version advances.
//!
//! The host runtime is kept outside: callers are already authenticated
//! identities, the currency service is reached through the [`pallet::Config`]
//! trait, and the per-block randomness seed is handed in as a plain value.

pub mod genetics;
pub mod migrations;
pub mod pallet;
pub mod table;
pub mod types;
