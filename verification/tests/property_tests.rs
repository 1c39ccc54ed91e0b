use kitties::genetics::{crossover, random_value};
use kitties::pallet::{Config, Pallet};
use kitties::types::{Error, PaymentError};
use std::collections::HashMap;

const NAME: [u8; 8] = *b"mittens!";
const ESCROW_ACCOUNT: u64 = 100;

/// A currency collaborator for tests: plain balances, refusing a transfer
/// that the sender cannot cover. Accounts it has never seen hold 0.
struct TestLedger {
    balances: HashMap<u64, u64>,
}

impl TestLedger {
    fn new(balances: &[(u64, u64)]) -> TestLedger {
        TestLedger { balances: balances.iter().copied().collect() }
    }

    fn balance(&self, account: u64) -> u64 {
        self.balances.get(&account).copied().unwrap_or(0)
    }
}

impl Config for TestLedger {
    fn transfer(&mut self, from: u64, to: u64, amount: u64) -> Result<(), PaymentError> {
        let from_balance = self.balance(from);
        if from_balance < amount {
            return Err(PaymentError::InsufficientFunds);
        }
        let to_balance = self.balance(to);
        self.balances.insert(from, from_balance - amount);
        self.balances.insert(to, to_balance + amount);
        Ok(())
    }
}

/// A currency collaborator that refuses every payment.
struct RefusingLedger;

impl Config for RefusingLedger {
    fn transfer(&mut self, _from: u64, _to: u64, _amount: u64) -> Result<(), PaymentError> {
        Err(PaymentError::InsufficientFunds)
    }
}

#[test]
fn crossover_matches_formula() {
    let a = [0xFFu8; 16];
    let b = [0x0Fu8; 16];
    let sel = [0xAAu8; 16];
    let mixed = crossover(&a, &b, &sel);
    // (0xFF & 0xAA) | (0x0F & !0xAA) == 0xAA | 0x05 == 0xAF
    assert_eq!(mixed, [0xAFu8; 16]);

    let a = *b"0123456789abcdef";
    let b = *b"fedcba9876543210";
    let mut sel = [0u8; 16];
    for (i, byte) in sel.iter_mut().enumerate() {
        *byte = (i as u8).wrapping_mul(37);
    }
    let mixed = crossover(&a, &b, &sel);
    for i in 0..16 {
        assert_eq!(mixed[i], (a[i] & sel[i]) | (b[i] & !sel[i]));
    }
}

#[test]
fn genome_derivation_is_deterministic_and_hashes() {
    let seed = [42u8; 32];
    let first = random_value(&seed, 7, Some(3));
    let second = random_value(&seed, 7, Some(3));
    assert_eq!(first, second);
    // the digest really ran: the genome is not a prefix of its input
    let seed_prefix: [u8; 16] = seed[0..16].try_into().unwrap();
    assert_ne!(first, seed_prefix);
    // any input changes the genome
    assert_ne!(first, random_value(&seed, 8, Some(3)));
    assert_ne!(first, random_value(&seed, 7, Some(4)));
    assert_ne!(first, random_value(&seed, 7, None));
    assert_ne!(first, random_value(&[43u8; 32], 7, Some(3)));
}

#[test]
fn ids_are_unique_and_counter_counts_allocations() {
    let mut pallet = Pallet::new(0, ESCROW_ACCOUNT);
    let mut ledger = TestLedger::new(&[(1, 10), (2, 10)]);
    let seed = [7u8; 32];
    let first = pallet.create(&mut ledger, 1, NAME, &seed, Some(0)).unwrap();
    let second = pallet.create(&mut ledger, 2, NAME, &seed, Some(1)).unwrap();
    let third = pallet.breed(&mut ledger, 1, first, second, NAME, &seed, Some(2)).unwrap();
    assert_eq!(first, 0);
    assert_eq!(second, 1);
    assert_eq!(third, 2);
    assert_eq!(pallet.next_kitty_id(), 3);
}

#[test]
fn exhausted_counter_fails_create_and_breed_without_changes() {
    let mut pallet = Pallet::new(0, ESCROW_ACCOUNT);
    let mut ledger = TestLedger::new(&[(1, 10)]);
    let seed = [7u8; 32];
    let first = pallet.create(&mut ledger, 1, NAME, &seed, Some(0)).unwrap();
    let second = pallet.create(&mut ledger, 1, NAME, &seed, Some(1)).unwrap();
    pallet.next_kitty_id = u32::MAX;
    assert_eq!(
        pallet.create(&mut ledger, 1, NAME, &seed, Some(2)),
        Err(Error::IdentifierExhausted)
    );
    assert_eq!(
        pallet.breed(&mut ledger, 1, first, second, NAME, &seed, Some(3)),
        Err(Error::IdentifierExhausted)
    );
    assert_eq!(pallet.next_kitty_id(), u32::MAX);
    assert_eq!(pallet.kitties.len(), 2);
}

#[test]
fn new_entity_is_owned_by_its_caller() {
    let mut pallet = Pallet::new(0, ESCROW_ACCOUNT);
    let mut ledger = TestLedger::new(&[(5, 10), (6, 10)]);
    let seed = [9u8; 32];
    let created = pallet.create(&mut ledger, 5, NAME, &seed, Some(0)).unwrap();
    assert_eq!(pallet.kitty_owner(created), Some(5));
    let sibling = pallet.create(&mut ledger, 6, NAME, &seed, Some(1)).unwrap();
    let bred = pallet.breed(&mut ledger, 6, created, sibling, NAME, &seed, Some(2)).unwrap();
    assert_eq!(pallet.kitty_owner(bred), Some(6));
}

#[test]
fn transfer_by_non_owner_changes_nothing() {
    let mut pallet = Pallet::new(0, ESCROW_ACCOUNT);
    let mut ledger = TestLedger::new(&[(1, 10)]);
    let seed = [7u8; 32];
    let kitty_id = pallet.create(&mut ledger, 1, NAME, &seed, Some(0)).unwrap();
    assert_eq!(pallet.transfer(2, 3, kitty_id), Err(Error::NotKittyOwner));
    assert_eq!(pallet.kitty_owner(kitty_id), Some(1));
    assert_eq!(pallet.transfer(1, 1, 9999), Err(Error::InvalidKittyId));
}

#[test]
fn marketplace_round_trip_moves_listing_owner_and_balance() {
    let price = 25;
    let mut pallet = Pallet::new(price, ESCROW_ACCOUNT);
    let mut ledger = TestLedger::new(&[(1, 100), (2, 100), (3, 100)]);
    let seed = [7u8; 32];
    let kitty_id = pallet.create(&mut ledger, 1, NAME, &seed, Some(0)).unwrap();
    assert_eq!(ledger.balance(1), 75);
    assert_eq!(ledger.balance(ESCROW_ACCOUNT), 25);
    assert!(pallet.sale(1, kitty_id).is_ok());
    assert_eq!(pallet.kitty_on_sale(kitty_id), Some(price));
    assert!(pallet.buy(&mut ledger, 2, kitty_id).is_ok());
    assert_eq!(pallet.kitty_on_sale(kitty_id), None);
    assert_eq!(pallet.kitty_owner(kitty_id), Some(2));
    assert_eq!(ledger.balance(2), 75);
    assert_eq!(ledger.balance(1), 100);
    assert_eq!(pallet.buy(&mut ledger, 3, kitty_id), Err(Error::KittyNotOnSale));
}

#[test]
fn owner_cannot_buy_own_entity_listed_or_not() {
    let mut pallet = Pallet::new(0, ESCROW_ACCOUNT);
    let mut ledger = TestLedger::new(&[(1, 10)]);
    let seed = [7u8; 32];
    let kitty_id = pallet.create(&mut ledger, 1, NAME, &seed, Some(0)).unwrap();
    assert_eq!(pallet.buy(&mut ledger, 1, kitty_id), Err(Error::AlreadyIsKittyOwner));
    assert!(pallet.sale(1, kitty_id).is_ok());
    assert_eq!(pallet.buy(&mut ledger, 1, kitty_id), Err(Error::AlreadyIsKittyOwner));
    assert_eq!(pallet.kitty_owner(kitty_id), Some(1));
    assert_eq!(pallet.kitty_on_sale(kitty_id), Some(0));
}

#[test]
fn refused_payment_rolls_back_create_and_buy() {
    let price = 25;
    let mut pallet = Pallet::new(price, ESCROW_ACCOUNT);
    let mut refusing = RefusingLedger;
    let seed = [7u8; 32];
    assert_eq!(
        pallet.create(&mut refusing, 1, NAME, &seed, Some(0)),
        Err(Error::Payment(PaymentError::InsufficientFunds))
    );
    assert_eq!(pallet.next_kitty_id(), 0);
    assert_eq!(pallet.kitties.len(), 0);
    assert_eq!(pallet.events.len(), 0);

    let mut ledger = TestLedger::new(&[(1, 100)]);
    let kitty_id = pallet.create(&mut ledger, 1, NAME, &seed, Some(0)).unwrap();
    assert!(pallet.sale(1, kitty_id).is_ok());
    assert_eq!(
        pallet.buy(&mut refusing, 2, kitty_id),
        Err(Error::Payment(PaymentError::InsufficientFunds))
    );
    assert_eq!(pallet.kitty_owner(kitty_id), Some(1));
    assert_eq!(pallet.kitty_on_sale(kitty_id), Some(price));

    let kitty_count = pallet.kitties.len();
    assert_eq!(
        pallet.breed(&mut refusing, 1, kitty_id, 9999, NAME, &seed, Some(1)),
        Err(Error::InvalidKittyId)
    );
    assert_eq!(pallet.kitties.len(), kitty_count);
}

#[test]
fn allocator_mints_in_order_and_stops_at_the_maximum() {
    let mut pallet = Pallet::new(0, ESCROW_ACCOUNT);
    assert_eq!(pallet.get_next_id(), Ok(0));
    assert_eq!(pallet.get_next_id(), Ok(1));
    assert_eq!(pallet.next_kitty_id(), 2);
    pallet.next_kitty_id = u32::MAX;
    assert_eq!(pallet.get_next_id(), Err(Error::IdentifierExhausted));
    assert_eq!(pallet.next_kitty_id(), u32::MAX);
}

#[test]
fn listing_survives_transfer_to_new_owner() {
    // a transfer deliberately leaves an active listing in place: the
    // listing is tied to the entity, not to the owner who made it
    let price = 5;
    let mut pallet = Pallet::new(price, ESCROW_ACCOUNT);
    let mut ledger = TestLedger::new(&[(1, 100), (2, 100)]);
    let seed = [7u8; 32];
    let kitty_id = pallet.create(&mut ledger, 1, NAME, &seed, Some(0)).unwrap();
    assert!(pallet.sale(1, kitty_id).is_ok());
    assert!(pallet.transfer(1, 2, kitty_id).is_ok());
    assert_eq!(pallet.kitty_on_sale(kitty_id), Some(price));
}
