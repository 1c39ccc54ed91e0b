//! The plain data types of the registry: entities, identities, versions,
//! errors and events.

use vstd::prelude::*;

verus! {

/// The unique identifier of an entity, minted once and never reused.
pub type KittyId = u32;

/// An authenticated caller identity, as the host runtime hands it in.
pub type AccountId = u64;

/// A non-negative currency amount.
pub type Balance = u64;

/// An entity of the registry: an opaque 16-byte genome and a
/// caller-supplied 8-byte label. Immutable once stored.
#[derive(Clone, Copy, Debug, PartialEq, Eq)]
pub struct Kitty {
    pub dna: [u8; 16],
    pub name: [u8; 8],
}

/// The persisted schema version tag that gates the byte layout of
/// stored entity records.
#[derive(Clone, Copy, Debug, PartialEq, Eq, Structural)]
pub struct StorageVersion(pub u16);

impl StorageVersion {
    pub fn new(version: u16) -> (v: Self)
        ensures
            v == StorageVersion(version),
    {
        StorageVersion(version)
    }
}

/// The error the currency collaborator reports when it refuses a
/// transfer; it is propagated to the caller unchanged.
#[derive(Clone, Copy, Debug, PartialEq, Eq)]
pub enum PaymentError {
    InsufficientFunds,
}

/// Everything an operation of the registry can fail with.
#[derive(Clone, Copy, Debug, PartialEq, Eq)]
pub enum Error {
    /// The identifier counter is at its maximum; no id can be minted.
    IdentifierExhausted,
    /// The referenced entity does not exist.
    InvalidKittyId,
    /// Breeding was asked for with the same parent twice.
    SameKittyId,
    /// The caller is not the owner of the entity.
    NotKittyOwner,
    /// The buyer already owns the entity.
    AlreadyIsKittyOwner,
    /// The entity is already listed for sale.
    KittyOnSale,
    /// The entity is not listed for sale.
    KittyNotOnSale,
    /// The currency collaborator refused the payment; nothing was written.
    Payment(PaymentError),
}

/// The structured records an operation emits for external observers.
#[derive(Clone, Copy, Debug, PartialEq, Eq)]
pub enum Event {
    KittyCreated { who: AccountId, kitty_id: KittyId, kitty: Kitty },
    KittyBreed { who: AccountId, kitty_id: KittyId, kitty: Kitty },
    KittyTransferred { from: AccountId, to: AccountId, kitty_id: KittyId },
    KittyOnSale { who: AccountId, kitty_id: KittyId, price: Balance },
    KittyBought { who: AccountId, kitty_id: KittyId },
}

} // verus!
