use kitties::pallet::{Config, Pallet};
use kitties::types::{Error, Event, PaymentError, StorageVersion};
use std::collections::HashMap;

const DEFAULT_KITTY_NAME: [u8; 8] = *b"abcdefgh";
const ESCROW_ACCOUNT: u64 = 100;

/// A currency collaborator for tests: plain balances, refusing a transfer
/// that the sender cannot cover. Accounts it has never seen hold 0.
struct TestLedger {
    balances: HashMap<u64, u64>,
}

impl TestLedger {
    fn new(balances: &[(u64, u64)]) -> TestLedger {
        TestLedger { balances: balances.iter().copied().collect() }
    }

    fn balance(&self, account: u64) -> u64 {
        self.balances.get(&account).copied().unwrap_or(0)
    }
}

impl Config for TestLedger {
    fn transfer(&mut self, from: u64, to: u64, amount: u64) -> Result<(), PaymentError> {
        let from_balance = self.balance(from);
        if from_balance < amount {
            return Err(PaymentError::InsufficientFunds);
        }
        let to_balance = self.balance(to);
        self.balances.insert(from, from_balance - amount);
        self.balances.insert(to, to_balance + amount);
        Ok(())
    }
}

#[test]
fn create_kitty_works() {
    let mut pallet = Pallet::new(0, ESCROW_ACCOUNT);
    let mut ledger = TestLedger::new(&[(1, 10)]);
    let seed = [7u8; 32];
    let kitty_id = 0;
    let account_id = 1;
    assert_eq!(pallet.next_kitty_id(), kitty_id);
    assert!(pallet.create(&mut ledger, account_id, DEFAULT_KITTY_NAME, &seed, Some(0)).is_ok());
    assert_eq!(pallet.next_kitty_id(), kitty_id + 1);
    assert_eq!(pallet.kitties(kitty_id).is_some(), true);
    assert_eq!(
        pallet.events.last().copied(),
        Some(Event::KittyCreated {
            who: account_id,
            kitty_id,
            kitty: pallet.kitties(kitty_id).unwrap(),
        })
    );
    assert_eq!(pallet.kitty_owner(kitty_id), Some(account_id));
    assert_eq!(pallet.kitty_parents(kitty_id), None);
    pallet.next_kitty_id = u32::MAX;
    assert_eq!(
        pallet.create(&mut ledger, account_id, DEFAULT_KITTY_NAME, &seed, Some(1)),
        Err(Error::IdentifierExhausted)
    );
    assert_eq!(pallet.next_kitty_id(), u32::MAX);
}

#[test]
fn breed_kitty_works() {
    let mut pallet = Pallet::new(0, ESCROW_ACCOUNT);
    let mut ledger = TestLedger::new(&[(1, 10)]);
    let seed = [7u8; 32];
    let kitty_id = 0;
    let account_id = 1;
    assert!(pallet.create(&mut ledger, account_id, DEFAULT_KITTY_NAME, &seed, Some(0)).is_ok());
    assert!(pallet.create(&mut ledger, account_id, DEFAULT_KITTY_NAME, &seed, Some(1)).is_ok());
    assert_eq!(pallet.next_kitty_id(), kitty_id + 1 + 1);
    assert!(pallet
        .breed(&mut ledger, account_id, kitty_id, kitty_id + 1, DEFAULT_KITTY_NAME, &seed, Some(2))
        .is_ok());

    let breed_kitty_id = 2;
    assert_eq!(
        pallet.events.last().copied(),
        Some(Event::KittyBreed {
            who: account_id,
            kitty_id: breed_kitty_id,
            kitty: pallet.kitties(breed_kitty_id).unwrap(),
        })
    );
    assert_eq!(pallet.kitty_owner(breed_kitty_id), Some(account_id));
    assert_eq!(pallet.kitty_parents(breed_kitty_id), Some((kitty_id, kitty_id + 1)));
    assert_eq!(
        pallet.breed(&mut ledger, account_id, kitty_id, kitty_id, DEFAULT_KITTY_NAME, &seed, Some(3)),
        Err(Error::SameKittyId)
    );
    assert_eq!(
        pallet.breed(&mut ledger, account_id, 1, 9999, DEFAULT_KITTY_NAME, &seed, Some(4)),
        Err(Error::InvalidKittyId)
    );
}

#[test]
fn transfer_kitty_works() {
    let mut pallet = Pallet::new(0, ESCROW_ACCOUNT);
    let mut ledger = TestLedger::new(&[(1, 10)]);
    let seed = [7u8; 32];
    let kitty_id = 0;
    let account_id = 1;
    let recipient = 2;
    assert_eq!(pallet.next_kitty_id(), kitty_id);
    assert!(pallet.create(&mut ledger, account_id, DEFAULT_KITTY_NAME, &seed, Some(0)).is_ok());
    assert_eq!(pallet.kitty_owner(kitty_id), Some(account_id));
    assert!(pallet.transfer(account_id, recipient, kitty_id).is_ok());
    assert_eq!(
        pallet.events.last().copied(),
        Some(Event::KittyTransferred { from: account_id, to: recipient, kitty_id })
    );
    assert_eq!(pallet.kitty_owner(kitty_id), Some(recipient));
    assert_eq!(pallet.transfer(9999, recipient, kitty_id), Err(Error::NotKittyOwner));
    assert_eq!(pallet.kitty_owner(kitty_id), Some(recipient));
}

#[test]
fn check_version_works() {
    let v0_1 = StorageVersion::new(0);
    let v1 = StorageVersion::new(1);
    let v0_2 = StorageVersion::new(0);
    assert_eq!(v0_1, v0_2);
    assert_ne!(v0_1, v1);
}

#[test]
fn sale_kitty_works() {
    let mut pallet = Pallet::new(0, ESCROW_ACCOUNT);
    let mut ledger = TestLedger::new(&[(1, 10)]);
    let seed = [7u8; 32];
    let kitty_id = 0;
    let account_id = 1;
    let price = 0;
    assert_eq!(pallet.next_kitty_id(), kitty_id);
    assert!(pallet.create(&mut ledger, account_id, DEFAULT_KITTY_NAME, &seed, Some(0)).is_ok());
    assert_eq!(pallet.kitty_owner(kitty_id), Some(account_id));

    assert!(pallet.sale(account_id, kitty_id).is_ok());

    assert_eq!(
        pallet.events.last().copied(),
        Some(Event::KittyOnSale { who: account_id, kitty_id, price })
    );
    assert_eq!(pallet.kitty_on_sale(kitty_id), Some(price));
    assert_eq!(pallet.sale(account_id, kitty_id), Err(Error::KittyOnSale));
}

#[test]
fn buy_kitty_works() {
    let mut pallet = Pallet::new(0, ESCROW_ACCOUNT);
    let mut ledger = TestLedger::new(&[(1, 10), (2, 10)]);
    let seed = [7u8; 32];
    let kitty_id = 0;
    let account_id_seller = 1;
    let account_id_buyer = 2;
    let price = 0;
    assert_eq!(pallet.next_kitty_id(), kitty_id);
    assert!(pallet
        .create(&mut ledger, account_id_seller, DEFAULT_KITTY_NAME, &seed, Some(0))
        .is_ok());
    assert_eq!(pallet.kitty_owner(kitty_id), Some(account_id_seller));

    assert_eq!(
        pallet.buy(&mut ledger, account_id_seller, kitty_id),
        Err(Error::AlreadyIsKittyOwner)
    );

    assert_eq!(pallet.buy(&mut ledger, account_id_buyer, kitty_id), Err(Error::KittyNotOnSale));

    assert!(pallet.sale(account_id_seller, kitty_id).is_ok());

    assert_eq!(
        pallet.events.last().copied(),
        Some(Event::KittyOnSale { who: account_id_seller, kitty_id, price })
    );

    assert_eq!(pallet.kitty_on_sale(kitty_id), Some(price));

    assert!(pallet.buy(&mut ledger, account_id_buyer, kitty_id).is_ok());
    assert_eq!(
        pallet.events.last().copied(),
        Some(Event::KittyBought { who: account_id_buyer, kitty_id })
    );

    assert_eq!(pallet.kitty_owner(kitty_id), Some(account_id_buyer));
}
