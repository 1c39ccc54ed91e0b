//! The entity registry and its marketplace.
//!
//! All state a registry instance owns sits in one [`Pallet`] value: the
//! identifier counter, the entity, ownership, lineage and listing tables,
//! and the log of emitted events. Every operation is a single sequential
//! state transition: it checks all of its preconditions, then asks the
//! currency collaborator for the one payment it may need, and only after
//! that writes any state, so a failed operation leaves the registry exactly
//! as it was.

use crate::genetics;
use crate::genetics::{crossover_byte, genome_of};
use crate::table::{
    distinct_keys, increasing_keys, lemma_lookup_at, lemma_lookup_none, lemma_lookup_push,
    spec_lookup, table_get, table_remove, table_set,
};
use crate::types::{AccountId, Balance, Error, Event, Kitty, KittyId, PaymentError};
use vstd::prelude::*;

verus! {

/// The services the host runtime configures the registry with. The one the
/// core calls during an operation is the currency collaborator; it is
/// implemented outside this crate, so nothing is assumed about it here.
pub trait Config {
    /// Moves `amount` from `from` to `to`, or refuses the payment and
    /// moves nothing.
    fn transfer(&mut self, from: AccountId, to: AccountId, amount: Balance) -> Result<
        (),
        PaymentError,
    >;
}

/// The registry: the canonical store of entities, owners, lineage and
/// listings, together with the identity allocator's counter.
pub struct Pallet {
    /// The next identifier to be issued; never decreased, never reused.
    pub next_kitty_id: KittyId,
    /// The entity table, append-only, keyed by id in increasing order.
    pub kitties: Vec<(KittyId, Kitty)>,
    /// The ownership table: one entry per stored entity, same key order.
    pub owners: Vec<(KittyId, AccountId)>,
    /// The lineage table: present only for bred entities, immutable.
    pub parents: Vec<(KittyId, (KittyId, KittyId))>,
    /// The active sale listings: present only while an entity is listed.
    pub on_sale: Vec<(KittyId, Balance)>,
    /// The events emitted so far, oldest first.
    pub events: Vec<Event>,
    /// The fixed protocol price charged for creation, breeding and sales.
    pub kitty_price: Balance,
    /// The protocol-owned identity that receives creation and breeding fees.
    pub escrow_account: AccountId,
}

impl Pallet {
    /// The entity stored under an id.
    pub open spec fn spec_kitty(self, kitty_id: KittyId) -> Option<Kitty> {
        spec_lookup(self.kitties@, kitty_id)
    }

    /// The current owner of an entity.
    pub open spec fn spec_owner(self, kitty_id: KittyId) -> Option<AccountId> {
        spec_lookup(self.owners@, kitty_id)
    }

    /// The recorded parents of a bred entity.
    pub open spec fn spec_parents(self, kitty_id: KittyId) -> Option<(KittyId, KittyId)> {
        spec_lookup(self.parents@, kitty_id)
    }

    /// The price an entity is currently listed at, if it is listed.
    pub open spec fn spec_sale(self, kitty_id: KittyId) -> Option<Balance> {
        spec_lookup(self.on_sale@, kitty_id)
    }

    /// The structural invariants of the registry: ids were issued in
    /// increasing order below the counter, every entity has exactly one
    /// owner, and lineage and listings only refer to stored entities.
    pub open spec fn wf(self) -> bool {
        &&& increasing_keys(self.kitties@)
        &&& (forall|j: int|
            0 <= j < self.kitties@.len() ==> (#[trigger] self.kitties@[j]).0 < self.next_kitty_id)
        &&& self.owners@.len() == self.kitties@.len()
        &&& (forall|j: int|
            0 <= j < self.owners@.len() ==> (#[trigger] self.owners@[j]).0 == self.kitties@[j].0)
        &&& increasing_keys(self.parents@)
        &&& (forall|kitty_id: KittyId|
            #[trigger] self.spec_parents(kitty_id) is Some ==> self.spec_kitty(kitty_id) is Some)
        &&& distinct_keys(self.on_sale@)
        &&& (forall|kitty_id: KittyId|
            #[trigger] self.spec_sale(kitty_id) is Some ==> self.spec_kitty(kitty_id) is Some)
    }

    /// Both protocol constants are as they were.
    pub open spec fn same_protocol(self, other: Pallet) -> bool {
        &&& self.kitty_price == other.kitty_price
        &&& self.escrow_account == other.escrow_account
    }

    /// A fresh, empty registry charging `kitty_price` into `escrow_account`.
    pub fn new(kitty_price: Balance, escrow_account: AccountId) -> (p: Pallet)
        ensures
            p.wf(),
            p.next_kitty_id == 0,
            p.kitties@ =~= Seq::<(KittyId, Kitty)>::empty(),
            p.owners@ =~= Seq::<(KittyId, AccountId)>::empty(),
            p.parents@ =~= Seq::<(KittyId, (KittyId, KittyId))>::empty(),
            p.on_sale@ =~= Seq::<(KittyId, Balance)>::empty(),
            p.events@ =~= Seq::<Event>::empty(),
            p.kitty_price == kitty_price,
            p.escrow_account == escrow_account,
    {
        Pallet {
            next_kitty_id: 0,
            kitties: Vec::new(),
            owners: Vec::new(),
            parents: Vec::new(),
            on_sale: Vec::new(),
            events: Vec::new(),
            kitty_price,
            escrow_account,
        }
    }

    /// An entity exists exactly when it has an owner.
    pub proof fn lemma_owner_totality(self, kitty_id: KittyId)
        requires
            self.wf(),
        ensures
            self.spec_owner(kitty_id) is Some <==> self.spec_kitty(kitty_id) is Some,
    {
        lemma_lookup_none(self.owners@, kitty_id);
        lemma_lookup_none(self.kitties@, kitty_id);
        if self.spec_owner(kitty_id) is None {
            assert forall|i: int| 0 <= i < self.kitties@.len() implies self.kitties@[i].0
                != kitty_id by {
                assert(self.owners@[i].0 != kitty_id);
            }
        }
        if self.spec_kitty(kitty_id) is None {
            assert forall|i: int| 0 <= i < self.owners@.len() implies self.owners@[i].0
                != kitty_id by {
                assert(self.kitties@[i].0 != kitty_id);
            }
        }
    }

    /// No two stored entities carry the same id.
    pub proof fn lemma_kitty_ids_unique(self)
        requires
            self.wf(),
        ensures
            forall|i: int, j: int|
                0 <= i < j < self.kitties@.len() ==> self.kitties@[i].0 != self.kitties@[j].0,
    {
    }

    /// An id the counter has not yet reached is bound nowhere.
    pub proof fn lemma_unissued_id_is_fresh(self, kitty_id: KittyId)
        requires
            self.wf(),
            kitty_id >= self.next_kitty_id,
        ensures
            self.spec_kitty(kitty_id) is None,
            self.spec_owner(kitty_id) is None,
            self.spec_parents(kitty_id) is None,
            self.spec_sale(kitty_id) is None,
    {
        lemma_lookup_none(self.kitties@, kitty_id);
        lemma_lookup_none(self.owners@, kitty_id);
        if self.spec_parents(kitty_id) is Some {
            assert(self.spec_kitty(kitty_id) is Some);
        }
        if self.spec_sale(kitty_id) is Some {
            assert(self.spec_kitty(kitty_id) is Some);
        }
    }

    /// Mints the next identifier: hands out the counter's value and
    /// advances the counter by one. Fails, changing nothing, once the
    /// counter has reached the maximum representable id, which is
    /// therefore never issued.
    pub fn get_next_id(&mut self) -> (r: Result<KittyId, Error>)
        ensures
            final(self).kitties == old(self).kitties,
            final(self).owners == old(self).owners,
            final(self).parents == old(self).parents,
            final(self).on_sale == old(self).on_sale,
            final(self).events == old(self).events,
            final(self).same_protocol(*old(self)),
            old(self).next_kitty_id == KittyId::MAX ==> r == Err::<KittyId, Error>(
                Error::IdentifierExhausted,
            ) && *final(self) == *old(self),
            old(self).next_kitty_id < KittyId::MAX ==> r == Ok::<KittyId, Error>(
                old(self).next_kitty_id,
            ) && final(self).next_kitty_id == old(self).next_kitty_id + 1,
    {
        let next_id = self.next_kitty_id;
        match next_id.checked_add(1) {
            Some(advanced) => {
                self.next_kitty_id = advanced;
                Ok(next_id)
            },
            None => Err(Error::IdentifierExhausted),
        }
    }

    /// The precondition check of `create`: an id must still be mintable.
    pub open spec fn create_check(self) -> Result<(), Error> {
        if self.next_kitty_id == KittyId::MAX {
            Err(Error::IdentifierExhausted)
        } else {
            Ok(())
        }
    }

    /// The precondition check of `breed`, in the order the checks are made:
    /// two distinct, existing parents and a mintable id.
    pub open spec fn breed_check(self, kitty_id_1: KittyId, kitty_id_2: KittyId) -> Result<
        (),
        Error,
    > {
        if kitty_id_1 == kitty_id_2 {
            Err(Error::SameKittyId)
        } else if self.spec_kitty(kitty_id_1) is None {
            Err(Error::InvalidKittyId)
        } else if self.spec_kitty(kitty_id_2) is None {
            Err(Error::InvalidKittyId)
        } else if self.next_kitty_id == KittyId::MAX {
            Err(Error::IdentifierExhausted)
        } else {
            Ok(())
        }
    }

    /// The precondition check of `transfer`: the entity exists and the
    /// caller owns it.
    pub open spec fn transfer_check(self, who: AccountId, kitty_id: KittyId) -> Result<(), Error> {
        if self.spec_kitty(kitty_id) is None {
            Err(Error::InvalidKittyId)
        } else if self.spec_owner(kitty_id) != Some(who) {
            Err(Error::NotKittyOwner)
        } else {
            Ok(())
        }
    }

    /// The precondition check of `sale`: the entity exists, the caller owns
    /// it, and it is not already listed.
    pub open spec fn sale_check(self, who: AccountId, kitty_id: KittyId) -> Result<(), Error> {
        if self.spec_kitty(kitty_id) is None {
            Err(Error::InvalidKittyId)
        } else if self.spec_owner(kitty_id) != Some(who) {
            Err(Error::NotKittyOwner)
        } else if self.spec_sale(kitty_id) is Some {
            Err(Error::KittyOnSale)
        } else {
            Ok(())
        }
    }

    /// The precondition check of `buy`: the entity exists, the caller does
    /// not own it already, and it is listed.
    pub open spec fn buy_check(self, who: AccountId, kitty_id: KittyId) -> Result<(), Error> {
        if self.spec_kitty(kitty_id) is None {
            Err(Error::InvalidKittyId)
        } else if self.spec_owner(kitty_id) == Some(who) {
            Err(Error::AlreadyIsKittyOwner)
        } else if self.spec_sale(kitty_id) is None {
            Err(Error::KittyNotOnSale)
        } else {
            Ok(())
        }
    }

    /// Reassigns ownership of an existing entity to `recipient`. Only the
    /// current owner may transfer, no value changes hands, and an active
    /// listing, if any, deliberately stays in place.
    pub fn transfer(&mut self, who: AccountId, recipient: AccountId, kitty_id: KittyId) -> (r:
        Result<(), Error>)
        requires
            old(self).wf(),
        ensures
            final(self).wf(),
            r == old(self).transfer_check(who, kitty_id),
            r is Err ==> *final(self) == *old(self),
            r is Ok ==> {
                &&& final(self).spec_owner(kitty_id) == Some(recipient)
                &&& (forall|id2: KittyId|
                    id2 != kitty_id ==> final(self).spec_owner(id2) == old(self).spec_owner(id2))
                &&& final(self).kitties == old(self).kitties
                &&& final(self).parents == old(self).parents
                &&& final(self).on_sale == old(self).on_sale
                &&& final(self).next_kitty_id == old(self).next_kitty_id
                &&& final(self).same_protocol(*old(self))
                &&& final(self).events@ == old(self).events@.push(
                    Event::KittyTransferred { from: who, to: recipient, kitty_id },
                )
            },
    {
        if table_get(&self.kitties, kitty_id).is_none() {
            return Err(Error::InvalidKittyId);
        }
        let owner = self.owner_of_existing(kitty_id);
        if owner != who {
            return Err(Error::NotKittyOwner);
        }
        proof {
            assert(increasing_keys(self.owners@));
        }
        table_set(&mut self.owners, kitty_id, recipient);
        self.events.push(Event::KittyTransferred { from: who, to: recipient, kitty_id });
        proof {
            assert forall|id2: KittyId| self.spec_parents(id2) is Some implies self.spec_kitty(
                id2,
            ) is Some by {
                assert(self.spec_parents(id2) == old(self).spec_parents(id2));
                assert(self.spec_kitty(id2) == old(self).spec_kitty(id2));
            }
            assert forall|id2: KittyId| self.spec_sale(id2) is Some implies self.spec_kitty(
                id2,
            ) is Some by {
                assert(self.spec_sale(id2) == old(self).spec_sale(id2));
                assert(self.spec_kitty(id2) == old(self).spec_kitty(id2));
            }
        }
        Ok(())
    }

    /// Lists an entity its caller owns for sale at the fixed protocol
    /// price. An entity carries at most one active listing.
    pub fn sale(&mut self, who: AccountId, kitty_id: KittyId) -> (r: Result<(), Error>)
        requires
            old(self).wf(),
        ensures
            final(self).wf(),
            r == old(self).sale_check(who, kitty_id),
            r is Err ==> *final(self) == *old(self),
            r is Ok ==> {
                &&& final(self).spec_sale(kitty_id) == Some(old(self).kitty_price)
                &&& (forall|id2: KittyId|
                    id2 != kitty_id ==> final(self).spec_sale(id2) == old(self).spec_sale(id2))
                &&& final(self).kitties == old(self).kitties
                &&& final(self).owners == old(self).owners
                &&& final(self).parents == old(self).parents
                &&& final(self).next_kitty_id == old(self).next_kitty_id
                &&& final(self).same_protocol(*old(self))
                &&& final(self).events@ == old(self).events@.push(
                    Event::KittyOnSale { who, kitty_id, price: old(self).kitty_price },
                )
            },
    {
        if table_get(&self.kitties, kitty_id).is_none() {
            return Err(Error::InvalidKittyId);
        }
        let owner = self.owner_of_existing(kitty_id);
        if owner != who {
            return Err(Error::NotKittyOwner);
        }
        if table_get(&self.on_sale, kitty_id).is_some() {
            return Err(Error::KittyOnSale);
        }
        let price = self.kitty_price;
        let ghost old_sale = self.on_sale@;
        self.on_sale.push((kitty_id, price));
        proof {
            lemma_lookup_none(old_sale, kitty_id);
            assert forall|id2: KittyId|
                spec_lookup(self.on_sale@, id2) == if id2 == kitty_id {
                    Some(price)
                } else {
                    spec_lookup(old_sale, id2)
                } by {
                lemma_lookup_push(old_sale, kitty_id, price, id2);
            }
            assert forall|a: int, b: int|
                0 <= a < b < self.on_sale@.len() implies self.on_sale@[a].0
                != self.on_sale@[b].0 by {
                if b == old_sale.len() {
                    assert(self.on_sale@[a] == old_sale[a]);
                } else {
                    assert(self.on_sale@[a] == old_sale[a] && self.on_sale@[b] == old_sale[b]);
                }
            }
        }
        self.events.push(Event::KittyOnSale { who, kitty_id, price });
        proof {
            assert forall|id2: KittyId| self.spec_parents(id2) is Some implies self.spec_kitty(
                id2,
            ) is Some by {
                assert(self.spec_parents(id2) == old(self).spec_parents(id2));
                assert(self.spec_kitty(id2) == old(self).spec_kitty(id2));
            }
            assert forall|id2: KittyId| self.spec_sale(id2) is Some implies self.spec_kitty(
                id2,
            ) is Some by {
                assert(self.spec_kitty(id2) == old(self).spec_kitty(id2));
                if id2 == kitty_id {
                    assert(old(self).spec_kitty(kitty_id) is Some);
                } else {
                    assert(self.spec_sale(id2) == spec_lookup(old_sale, id2));
                    assert(old(self).spec_sale(id2) is Some);
                }
            }
        }
        Ok(())
    }

    /// Creates a brand-new entity for `who`, with no lineage: mints the
    /// next id, derives a pseudo-random genome from the host's randomness
    /// seed, and charges the fixed creation price into the escrow identity
    /// through the currency collaborator. Nothing is written unless the
    /// payment succeeds; a failed operation leaves the registry unchanged.
    pub fn create<C: Config>(
        &mut self,
        cfg: &mut C,
        who: AccountId,
        name: [u8; 8],
        seed: &[u8; 32],
        extrinsic_index: Option<u32>,
    ) -> (r: Result<KittyId, Error>)
        requires
            old(self).wf(),
        ensures
            final(self).wf(),
            final(self).same_protocol(*old(self)),
            r is Err ==> *final(self) == *old(self),
            old(self).create_check() is Err ==> r == Err::<KittyId, Error>(
                old(self).create_check()->Err_0,
            ),
            old(self).create_check() is Ok && r is Err ==> (r->Err_0 matches Error::Payment(_)),
            r is Ok ==> ({
                let kitty_id = r->Ok_0;
                &&& old(self).create_check() is Ok
                &&& kitty_id == old(self).next_kitty_id
                &&& old(self).spec_kitty(kitty_id) is None
                &&& final(self).next_kitty_id == old(self).next_kitty_id + 1
                &&& final(self).spec_kitty(kitty_id) is Some
                &&& final(self).spec_kitty(kitty_id)->Some_0.name == name
                &&& final(self).spec_kitty(kitty_id)->Some_0.dna@ == genome_of(
                    seed@,
                    who,
                    extrinsic_index,
                )
                &&& (forall|id2: KittyId|
                    id2 != kitty_id ==> final(self).spec_kitty(id2) == old(self).spec_kitty(id2))
                &&& final(self).spec_owner(kitty_id) == Some(who)
                &&& (forall|id2: KittyId|
                    id2 != kitty_id ==> final(self).spec_owner(id2) == old(self).spec_owner(id2))
                &&& final(self).spec_parents(kitty_id) is None
                &&& final(self).parents == old(self).parents
                &&& final(self).on_sale == old(self).on_sale
                &&& final(self).kitties@ == old(self).kitties@.push(
                    (kitty_id, final(self).spec_kitty(kitty_id)->Some_0),
                )
                &&& final(self).events@ == old(self).events@.push(
                    (Event::KittyCreated {
                        who,
                        kitty_id,
                        kitty: final(self).spec_kitty(kitty_id)->Some_0,
                    }),
                )
            }),
    {
        let kitty_id = match self.get_next_id() {
            Ok(minted) => minted,
            Err(e) => {
                return Err(e);
            },
        };
        let dna = genetics::random_value(seed, who, extrinsic_index);
        let kitty = Kitty { dna, name };
        let escrow = self.escrow_account;
        let price = self.kitty_price;
        match cfg.transfer(who, escrow, price) {
            Ok(()) => {},
            Err(payment_error) => {
                // the registry is transactional: a refused payment aborts the
                // whole operation, so the counter advance is undone with it
                self.next_kitty_id = kitty_id;
                return Err(Error::Payment(payment_error));
            },
        }
        self.kitties.push((kitty_id, kitty));
        self.owners.push((kitty_id, who));
        self.events.push(Event::KittyCreated { who, kitty_id, kitty });
        proof {
            old(self).lemma_unissued_id_is_fresh(kitty_id);
            Self::lemma_store_new_entity(*old(self), *self, kitty_id, kitty, who, None);
        }
        Ok(kitty_id)
    }

    /// Breeds a new entity for `who` from two distinct existing parents:
    /// mints the next id, derives a pseudo-random selector genome and mixes
    /// the parents' genomes under it, charges the fixed breeding price into
    /// the escrow identity, and records the lineage. Nothing is written
    /// unless the payment succeeds.
    pub fn breed<C: Config>(
        &mut self,
        cfg: &mut C,
        who: AccountId,
        kitty_id_1: KittyId,
        kitty_id_2: KittyId,
        name: [u8; 8],
        seed: &[u8; 32],
        extrinsic_index: Option<u32>,
    ) -> (r: Result<KittyId, Error>)
        requires
            old(self).wf(),
        ensures
            final(self).wf(),
            final(self).same_protocol(*old(self)),
            r is Err ==> *final(self) == *old(self),
            old(self).breed_check(kitty_id_1, kitty_id_2) is Err ==> r == Err::<KittyId, Error>(
                old(self).breed_check(kitty_id_1, kitty_id_2)->Err_0,
            ),
            old(self).breed_check(kitty_id_1, kitty_id_2) is Ok && r is Err ==> (r->Err_0 matches Error::Payment(
                _,
            )),
            r is Ok ==> ({
                let kitty_id = r->Ok_0;
                let parent_1 = old(self).spec_kitty(kitty_id_1)->Some_0;
                let parent_2 = old(self).spec_kitty(kitty_id_2)->Some_0;
                let selector = genome_of(seed@, who, extrinsic_index);
                &&& old(self).breed_check(kitty_id_1, kitty_id_2) is Ok
                &&& kitty_id == old(self).next_kitty_id
                &&& old(self).spec_kitty(kitty_id) is None
                &&& final(self).next_kitty_id == old(self).next_kitty_id + 1
                &&& final(self).spec_kitty(kitty_id) is Some
                &&& final(self).spec_kitty(kitty_id)->Some_0.name == name
                &&& (forall|i: int|
                    0 <= i < 16 ==> final(self).spec_kitty(kitty_id)->Some_0.dna@[i]
                        == crossover_byte(parent_1.dna@[i], parent_2.dna@[i], selector[i]))
                &&& (forall|id2: KittyId|
                    id2 != kitty_id ==> final(self).spec_kitty(id2) == old(self).spec_kitty(id2))
                &&& final(self).spec_owner(kitty_id) == Some(who)
                &&& (forall|id2: KittyId|
                    id2 != kitty_id ==> final(self).spec_owner(id2) == old(self).spec_owner(id2))
                &&& final(self).spec_parents(kitty_id) == Some((kitty_id_1, kitty_id_2))
                &&& (forall|id2: KittyId|
                    id2 != kitty_id ==> final(self).spec_parents(id2) == old(self).spec_parents(
                        id2,
                    ))
                &&& final(self).parents@ == old(self).parents@.push(
                    (kitty_id, (kitty_id_1, kitty_id_2)),
                )
                &&& final(self).on_sale == old(self).on_sale
                &&& final(self).events@ == old(self).events@.push(
                    (Event::KittyBreed {
                        who,
                        kitty_id,
                        kitty: final(self).spec_kitty(kitty_id)->Some_0,
                    }),
                )
            }),
    {
        if kitty_id_1 == kitty_id_2 {
            return Err(Error::SameKittyId);
        }
        let kitty_1 = match table_get(&self.kitties, kitty_id_1) {
            Some(found) => found,
            None => {
                return Err(Error::InvalidKittyId);
            },
        };
        let kitty_2 = match table_get(&self.kitties, kitty_id_2) {
            Some(found) => found,
            None => {
                return Err(Error::InvalidKittyId);
            },
        };
        let kitty_id = match self.get_next_id() {
            Ok(minted) => minted,
            Err(e) => {
                return Err(e);
            },
        };
        let selector = genetics::random_value(seed, who, extrinsic_index);
        let dna = genetics::crossover(&kitty_1.dna, &kitty_2.dna, &selector);
        let kitty = Kitty { dna, name };
        let escrow = self.escrow_account;
        let price = self.kitty_price;
        match cfg.transfer(who, escrow, price) {
            Ok(()) => {},
            Err(payment_error) => {
                // undo the counter advance: a refused payment aborts the
                // whole operation
                self.next_kitty_id = kitty_id;
                return Err(Error::Payment(payment_error));
            },
        }
        self.kitties.push((kitty_id, kitty));
        self.owners.push((kitty_id, who));
        self.parents.push((kitty_id, (kitty_id_1, kitty_id_2)));
        self.events.push(Event::KittyBreed { who, kitty_id, kitty });
        proof {
            old(self).lemma_unissued_id_is_fresh(kitty_id);
            Self::lemma_store_new_entity(
                *old(self),
                *self,
                kitty_id,
                kitty,
                who,
                Some((kitty_id_1, kitty_id_2)),
            );
        }
        Ok(kitty_id)
    }

    /// Buys a listed entity from its current owner at the listed price,
    /// paid through the currency collaborator. On success the listing is
    /// cleared and ownership moves to the buyer; if the payment is refused
    /// nothing changes.
    pub fn buy<C: Config>(&mut self, cfg: &mut C, who: AccountId, kitty_id: KittyId) -> (r: Result<
        (),
        Error,
    >)
        requires
            old(self).wf(),
        ensures
            final(self).wf(),
            r is Err ==> *final(self) == *old(self),
            old(self).buy_check(who, kitty_id) is Err ==> r == Err::<(), Error>(
                old(self).buy_check(who, kitty_id)->Err_0,
            ),
            old(self).buy_check(who, kitty_id) is Ok && r is Err ==> (r->Err_0 matches Error::Payment(
                _,
            )),
            r is Ok ==> {
                &&& old(self).buy_check(who, kitty_id) is Ok
                &&& final(self).spec_owner(kitty_id) == Some(who)
                &&& (forall|id2: KittyId|
                    id2 != kitty_id ==> final(self).spec_owner(id2) == old(self).spec_owner(id2))
                &&& final(self).spec_sale(kitty_id) is None
                &&& (forall|id2: KittyId|
                    id2 != kitty_id ==> final(self).spec_sale(id2) == old(self).spec_sale(id2))
                &&& final(self).kitties == old(self).kitties
                &&& final(self).parents == old(self).parents
                &&& final(self).next_kitty_id == old(self).next_kitty_id
                &&& final(self).same_protocol(*old(self))
                &&& final(self).events@ == old(self).events@.push(
                    (Event::KittyBought { who, kitty_id }),
                )
            },
    {
        if table_get(&self.kitties, kitty_id).is_none() {
            return Err(Error::InvalidKittyId);
        }
        let owner = self.owner_of_existing(kitty_id);
        if owner == who {
            return Err(Error::AlreadyIsKittyOwner);
        }
        let price = match table_get(&self.on_sale, kitty_id) {
            Some(listed) => listed,
            None => {
                return Err(Error::KittyNotOnSale);
            },
        };
        match cfg.transfer(who, owner, price) {
            Ok(()) => {},
            Err(payment_error) => {
                return Err(Error::Payment(payment_error));
            },
        }
        proof {
            assert(increasing_keys(self.owners@));
        }
        table_set(&mut self.owners, kitty_id, who);
        table_remove(&mut self.on_sale, kitty_id);
        self.events.push(Event::KittyBought { who, kitty_id });
        proof {
            assert forall|id2: KittyId| self.spec_parents(id2) is Some implies self.spec_kitty(
                id2,
            ) is Some by {
                assert(self.spec_parents(id2) == old(self).spec_parents(id2));
                assert(self.spec_kitty(id2) == old(self).spec_kitty(id2));
            }
            assert forall|id2: KittyId| self.spec_sale(id2) is Some implies self.spec_kitty(
                id2,
            ) is Some by {
                assert(self.spec_kitty(id2) == old(self).spec_kitty(id2));
                assert(id2 != kitty_id && old(self).spec_sale(id2) is Some);
            }
        }
        Ok(())
    }

    /// Appending a freshly minted entity, its owner and (for a bred entity)
    /// its lineage preserves the registry invariants and changes no other
    /// binding.
    proof fn lemma_store_new_entity(
        pre: Pallet,
        post: Pallet,
        kitty_id: KittyId,
        kitty: Kitty,
        who: AccountId,
        lineage: Option<(KittyId, KittyId)>,
    )
        requires
            pre.wf(),
            kitty_id == pre.next_kitty_id,
            kitty_id < KittyId::MAX,
            post.next_kitty_id == kitty_id + 1,
            post.kitties@ == pre.kitties@.push((kitty_id, kitty)),
            post.owners@ == pre.owners@.push((kitty_id, who)),
            lineage is Some ==> post.parents@ == pre.parents@.push((kitty_id, lineage->Some_0)),
            lineage is None ==> post.parents@ == pre.parents@,
            post.on_sale@ == pre.on_sale@,
        ensures
            post.wf(),
            post.spec_kitty(kitty_id) == Some(kitty),
            forall|id2: KittyId| id2 != kitty_id ==> post.spec_kitty(id2) == pre.spec_kitty(id2),
            post.spec_owner(kitty_id) == Some(who),
            forall|id2: KittyId| id2 != kitty_id ==> post.spec_owner(id2) == pre.spec_owner(id2),
            post.spec_parents(kitty_id) == lineage,
            forall|id2: KittyId|
                id2 != kitty_id ==> post.spec_parents(id2) == pre.spec_parents(id2),
            forall|id2: KittyId| post.spec_sale(id2) == pre.spec_sale(id2),
    {
        pre.lemma_unissued_id_is_fresh(kitty_id);
        assert forall|id2: KittyId|
            post.spec_kitty(id2) == if id2 == kitty_id {
                Some(kitty)
            } else {
                pre.spec_kitty(id2)
            } by {
            lemma_lookup_push(pre.kitties@, kitty_id, kitty, id2);
        }
        assert forall|id2: KittyId|
            post.spec_owner(id2) == if id2 == kitty_id {
                Some(who)
            } else {
                pre.spec_owner(id2)
            } by {
            lemma_lookup_push(pre.owners@, kitty_id, who, id2);
        }
        if lineage is Some {
            assert forall|id2: KittyId|
                post.spec_parents(id2) == if id2 == kitty_id {
                    lineage
                } else {
                    pre.spec_parents(id2)
                } by {
                lemma_lookup_push(pre.parents@, kitty_id, lineage->Some_0, id2);
            }
        }
        // every table keyed below the fresh id stays strictly increasing
        assert forall|a: int, b: int|
            0 <= a < b < post.kitties@.len() implies post.kitties@[a].0 < post.kitties@[b].0 by {
            if b < pre.kitties@.len() {
                assert(post.kitties@[a] == pre.kitties@[a] && post.kitties@[b] == pre.kitties@[b]);
            } else {
                assert(post.kitties@[a] == pre.kitties@[a]);
                assert(pre.kitties@[a].0 < pre.next_kitty_id);
            }
        }
        assert forall|j: int|
            0 <= j < pre.parents@.len() implies (#[trigger] pre.parents@[j]).0
            < pre.next_kitty_id by {
            lemma_lookup_at(pre.parents@, pre.parents@[j].0, j);
            assert(pre.spec_parents(pre.parents@[j].0) is Some);
            lemma_lookup_none(pre.kitties@, pre.parents@[j].0);
            let i = choose|i: int|
                0 <= i < pre.kitties@.len() && pre.kitties@[i].0 == pre.parents@[j].0;
            assert(pre.kitties@[i].0 < pre.next_kitty_id);
        }
        if lineage is Some {
            assert forall|a: int, b: int|
                0 <= a < b < post.parents@.len() implies post.parents@[a].0
                < post.parents@[b].0 by {
                if b < pre.parents@.len() {
                    assert(post.parents@[a] == pre.parents@[a] && post.parents@[b]
                        == pre.parents@[b]);
                } else {
                    assert(post.parents@[a] == pre.parents@[a]);
                }
            }
        }
        assert forall|id2: KittyId| post.spec_parents(id2) is Some implies post.spec_kitty(
            id2,
        ) is Some by {
            if id2 != kitty_id {
                assert(pre.spec_parents(id2) is Some);
            }
        }
        assert forall|id2: KittyId| post.spec_sale(id2) is Some implies post.spec_kitty(
            id2,
        ) is Some by {
            assert(post.spec_sale(id2) == pre.spec_sale(id2));
            if post.spec_sale(id2) is Some {
                assert(pre.spec_kitty(id2) is Some);
            }
        }
        assert(distinct_keys(post.on_sale@) == distinct_keys(pre.on_sale@));
    }

    /// The next identifier the allocator will issue.
    pub fn next_kitty_id(&self) -> (r: KittyId)
        ensures
            r == self.next_kitty_id,
    {
        self.next_kitty_id
    }

    /// The entity stored under an id, if any.
    pub fn kitties(&self, kitty_id: KittyId) -> (r: Option<Kitty>)
        ensures
            r == self.spec_kitty(kitty_id),
    {
        table_get(&self.kitties, kitty_id)
    }

    /// The current owner of an entity, if the entity exists.
    pub fn kitty_owner(&self, kitty_id: KittyId) -> (r: Option<AccountId>)
        ensures
            r == self.spec_owner(kitty_id),
    {
        table_get(&self.owners, kitty_id)
    }

    /// The recorded parents of an entity; absent for created entities.
    pub fn kitty_parents(&self, kitty_id: KittyId) -> (r: Option<(KittyId, KittyId)>)
        ensures
            r == self.spec_parents(kitty_id),
    {
        table_get(&self.parents, kitty_id)
    }

    /// The price an entity is listed at, while it is listed.
    pub fn kitty_on_sale(&self, kitty_id: KittyId) -> (r: Option<Balance>)
        ensures
            r == self.spec_sale(kitty_id),
    {
        table_get(&self.on_sale, kitty_id)
    }

    /// The protocol-owned escrow identity that collects the fixed fees.
    pub fn get_account_id(&self) -> (r: AccountId)
        ensures
            r == self.escrow_account,
    {
        self.escrow_account
    }

    /// The owner of an existing entity; the ownership table is total on
    /// stored entities.
    fn owner_of_existing(&self, kitty_id: KittyId) -> (owner: AccountId)
        requires
            self.wf(),
            self.spec_kitty(kitty_id) is Some,
        ensures
            self.spec_owner(kitty_id) == Some(owner),
    {
        proof {
            self.lemma_owner_totality(kitty_id);
        }
        table_get(&self.owners, kitty_id).unwrap()
    }
}

} // verus!
