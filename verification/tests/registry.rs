use std::collections::HashMap;

use knights::error::Error;
use knights::event::Event;
use knights::genesis::GenesisConfig;
use knights::market::{ExistenceRequirement, PaymentOrder, PurchaseError};
use knights::pallet::Pallet;

/// The failures of the currency ledger that stands in for the real one.
#[derive(Debug, PartialEq, Eq)]
enum BalancesError {
    InsufficientBalance,
    KeepAlive,
}

/// A currency ledger for the tests: free balances, and a minimum that an
/// account must keep when a payment asks for it.
struct Balances {
    free: HashMap<u64, u128>,
    existential_deposit: u128,
}

impl Balances {
    fn new() -> Balances {
        Balances { free: HashMap::new(), existential_deposit: 1 }
    }

    fn make_free_balance_be(&mut self, who: &u64, value: u128) {
        self.free.insert(*who, value);
    }

    fn free_balance(&self, who: &u64) -> u128 {
        self.free.get(who).copied().unwrap_or(0)
    }

    fn transfer(&mut self, order: &PaymentOrder) -> Result<(), BalancesError> {
        let left = self
            .free_balance(&order.from)
            .checked_sub(order.amount)
            .ok_or(BalancesError::InsufficientBalance)?;
        if order.existence == ExistenceRequirement::KeepAlive && left < self.existential_deposit {
            return Err(BalancesError::KeepAlive);
        }
        let gained = self.free_balance(&order.to) + order.amount;
        self.free.insert(order.from, left);
        self.free.insert(order.to, gained);
        Ok(())
    }
}

fn new_test_ext() -> Pallet {
    GenesisConfig { thing: 42, knights: vec![] }.build()
}

/// A purchase as a caller runs it: ask what is to be paid, pay, complete.
fn buy_knight(
    knights: &mut Pallet,
    balances: &mut Balances,
    buyer: u64,
    knight_id: u64,
) -> Result<Event, PurchaseError<BalancesError>> {
    let order = knights.purchase_order(buyer, knight_id).map_err(PurchaseError::Refused)?;
    let payment = balances.transfer(&order);
    knights.buy_knight(buyer, knight_id, payment)
}

#[test]
fn can_create_knight() {
    let mut knights = new_test_ext();
    let name = "Danny the Brave";
    assert!(knights.create_knight(1, name.as_bytes().to_vec()).is_ok());

    let k = knights.knights(1).unwrap();

    assert_eq!(k.name, name.as_bytes().to_vec());

    let knight_ids = knights.owner_to_knights(1);
    assert_eq!(knight_ids.len(), 1);

    let owner_knight_count = knights.owner_to_knight_count(1);
    assert_eq!(owner_knight_count, 1);
}

#[test]
fn can_buy_knight() {
    let mut knights = new_test_ext();
    let mut balances = Balances::new();
    assert!(knights.create_knight(1, "Sir Rowan".as_bytes().to_vec()).is_ok());

    balances.make_free_balance_be(&2, 50);

    assert_eq!(balances.free_balance(&1), 0);
    assert_eq!(balances.free_balance(&2), 50);

    knights.set_price(1, 1, 20).unwrap();
    buy_knight(&mut knights, &mut balances, 2, 1).unwrap();

    assert_eq!(balances.free_balance(&1), 20);
    assert_eq!(balances.free_balance(&2), 30);

    assert_eq!(knights.knight_to_owner(1).unwrap(), 2);
}

#[test]
fn knight_price_returns_to_zero_after_purchase() {
    let mut knights = new_test_ext();
    let mut balances = Balances::new();
    assert!(knights.create_knight(1, "Sir Bentley".as_bytes().to_vec()).is_ok());

    assert!(knights.set_price(1, 1, 10).is_ok());

    balances.make_free_balance_be(&2, 50);

    assert!(buy_knight(&mut knights, &mut balances, 2, 1).is_ok());
    assert_eq!(knights.knights(1).unwrap().price, 0);
}

#[test]
fn cannot_buy_knight_with_insufficient_funds() {
    let mut knights = new_test_ext();
    let mut balances = Balances::new();
    assert!(knights.create_knight(1, "Sir Rowan".as_bytes().to_vec()).is_ok());

    knights.set_price(1, 1, 10).unwrap();

    balances.make_free_balance_be(&2, 5);

    assert_eq!(
        buy_knight(&mut knights, &mut balances, 2, 1),
        Err(PurchaseError::Payment(BalancesError::InsufficientBalance)),
    );

    assert_eq!(knights.knight_to_owner(1), Some(1));
    assert_eq!(knights.knights(1).unwrap().price, 10);
    assert_eq!(knights.owner_to_knights(1), vec![1]);
    assert_eq!(knights.owner_to_knights(2), Vec::<u64>::new());
    assert_eq!(balances.free_balance(&1), 0);
    assert_eq!(balances.free_balance(&2), 5);
}

#[test]
fn can_set_price_for_knight() {
    let mut knights = new_test_ext();
    assert!(knights.create_knight(1, "Sir Rowan".as_bytes().to_vec()).is_ok());

    knights.set_price(1, 1, 100).expect("cannot set price");
    let sir_rowan = knights.knights(1).unwrap();
    assert_eq!(sir_rowan.price, 100);

    knights.set_price(1, 1, 0).expect("cannot set price");
    let sir_rowan = knights.knights(1).unwrap();
    assert_eq!(sir_rowan.price, 0);
}

#[test]
fn non_owner_cannot_set_price_for_knight() {
    let mut knights = new_test_ext();
    assert!(knights.create_knight(1, "Sir Cedric".as_bytes().to_vec()).is_ok());

    assert_eq!(knights.set_price(10000, 1, 200), Err(Error::NotRightfulOwner));
    assert_eq!(knights.set_price(1000, 1, 200), Err(Error::NotRightfulOwner));

    assert_eq!(knights.knights(1).unwrap().price, 0);
    assert_eq!(knights.knight_to_owner(1), Some(1));
}

#[test]
fn can_get_knight_count() {
    let mut knights = new_test_ext();
    assert!(knights.create_knight(1, "Evan the Great".as_bytes().to_vec()).is_ok());

    assert!(knights.create_knight(1, "Christian the Fearless".as_bytes().to_vec()).is_ok());

    assert_eq!(knights.knight_count(), 2);
}

#[test]
fn can_get_knights_owner() {
    let mut knights = new_test_ext();
    assert!(knights.create_knight(1, "Evan the Bold".as_bytes().to_vec()).is_ok());

    assert!(knights.create_knight(1, "Daniel the Courageous".as_bytes().to_vec()).is_ok());

    assert_eq!(knights.knight_to_owner(1).unwrap(), 1);
    assert_eq!(knights.knight_to_owner(2).unwrap(), 1);
}

#[test]
fn can_get_owners_knights() {
    let mut pallet = new_test_ext();
    assert!(pallet.create_knight(1, "Sir Christian".as_bytes().to_vec()).is_ok());

    assert!(pallet.create_knight(1, "Sir Daniel".as_bytes().to_vec()).is_ok());

    assert!(pallet.create_knight(1, "Sir Evan".as_bytes().to_vec()).is_ok());

    let knights = pallet.owner_to_knights(1);

    assert_eq!(knights.len(), 3);

    let sir_christian_id = knights.get(0).unwrap();
    assert_eq!(sir_christian_id, &1);
    let sir_christian = pallet.knights(*sir_christian_id).unwrap();
    assert_eq!(sir_christian.name, "Sir Christian".as_bytes().to_vec());

    let sir_daniel_id = knights.get(1).unwrap();
    assert_eq!(sir_daniel_id, &2);
    let sir_daniel = pallet.knights(*sir_daniel_id).unwrap();
    assert_eq!(sir_daniel.name, "Sir Daniel".as_bytes().to_vec());

    let sir_evan_id = knights.get(2).unwrap();
    assert_eq!(sir_evan_id, &3);
    let sir_evan = pallet.knights(*sir_evan_id).unwrap();
    assert_eq!(sir_evan.name, "Sir Evan".as_bytes().to_vec());
}

#[test]
fn knight_has_unique_id_even_with_identical_names_and_owners() {
    let mut knights = new_test_ext();
    assert!(knights.create_knight(1, "Sir Evan".as_bytes().to_vec()).is_ok());

    assert!(knights.create_knight(1, "Sir Evan".as_bytes().to_vec()).is_ok());

    let sir_evan1 = knights.knights(1).unwrap();
    let sir_evan2 = knights.knights(2).unwrap();

    assert_ne!(sir_evan1.id, sir_evan2.id);
    assert_ne!(sir_evan1.dna, sir_evan2.dna);
}

#[test]
fn can_transfer_knight() {
    let mut knights = new_test_ext();
    assert!(knights.create_knight(1, "Beric the Briton".as_bytes().to_vec()).is_ok());

    assert!(knights.create_knight(1, "Sir Rowan of Chessington".as_bytes().to_vec()).is_ok());

    assert_eq!(knights.knight_to_owner(1).unwrap(), 1);
    assert_eq!(knights.owner_to_knights(1).len(), 2);
    assert_eq!(knights.owner_to_knights(2).len(), 0);
    assert_eq!(knights.owner_to_knight_count(2), 0);

    assert_eq!(knights.knight_to_owner(1).unwrap(), 1);
    assert_eq!(knights.owner_to_knights(1).len(), 2);
    assert_eq!(knights.owner_to_knights(2).len(), 0);

    knights.transfer_knight(1, 1, 2).unwrap();

    assert_eq!(knights.knight_to_owner(1).unwrap(), 2);
    assert_eq!(knights.owner_to_knights(1).len(), 1);
    assert_eq!(knights.owner_to_knights(2).len(), 1);
    assert_eq!(knights.owner_to_knight_count(2), 1);
}

#[test]
fn non_owner_cannot_transfer_knight() {
    let mut knights = new_test_ext();
    assert!(knights.create_knight(1, "Alfred the Great".as_bytes().to_vec()).is_ok());

    assert_eq!(knights.transfer_knight(2, 1, 2), Err(Error::NotRightfulOwner));

    assert_eq!(knights.knight_to_owner(1), Some(1));
    assert_eq!(knights.owner_to_knights(1), vec![1]);
    assert_eq!(knights.owner_to_knights(2), Vec::<u64>::new());
}

#[test]
fn cannot_transfer_non_existant_knight() {
    let mut knights = new_test_ext();
    assert_eq!(knights.transfer_knight(1, 1, 2), Err(Error::KnightNotFound));
}

#[test]
fn minting_announces_the_id_and_the_owner() {
    let mut knights = new_test_ext();
    assert_eq!(
        knights.create_knight(1, "Sir Rowan".as_bytes().to_vec()),
        Ok(Event::KnightCreated(1, 1)),
    );
    assert_eq!(knights.thing(), 42);
    assert_eq!(knights.knight_count(), 1);
    assert_eq!(knights.knight_to_owner(1), Some(1));
    assert_eq!(knights.owner_to_knights(1), vec![1]);
    assert_eq!(knights.owner_to_knight_count(1), 1);
    let knight = knights.knights(1).unwrap();
    assert_eq!(knight.id, 1);
    assert_eq!(knight.wealth, 0);
    assert_eq!(knight.price, 0);
    assert_eq!(knight.gen, 0);
    assert!(knights.knights(2).is_none());
    assert_eq!(knights.knight_to_owner(2), None);
}

#[test]
fn fingerprint_is_the_digest_of_id_and_owner() {
    let mut knights = Pallet::new();
    knights.create_knight(1, "Sir Evan".as_bytes().to_vec()).unwrap();
    knights.create_knight(1, "Sir Evan".as_bytes().to_vec()).unwrap();
    assert_eq!(
        knights.knights(1).unwrap().dna,
        [146, 214, 40, 117, 20, 27, 72, 25, 232, 204, 175, 194, 112, 244, 140, 100],
    );
    assert_eq!(
        knights.knights(2).unwrap().dna,
        [140, 13, 102, 251, 6, 80, 102, 240, 254, 55, 26, 190, 70, 11, 254, 231],
    );

    let mut others = Pallet::new();
    others.create_knight(7, "Sir Evan".as_bytes().to_vec()).unwrap();
    assert_eq!(
        others.knights(1).unwrap().dna,
        [66, 153, 73, 247, 173, 160, 113, 179, 203, 137, 66, 58, 23, 231, 142, 69],
    );
}

#[test]
fn purchase_moves_the_knight_and_announces_the_transfer() {
    let mut knights = new_test_ext();
    let mut balances = Balances::new();
    knights.create_knight(1, "Sir Rowan".as_bytes().to_vec()).unwrap();
    knights.create_knight(1, "Sir Bentley".as_bytes().to_vec()).unwrap();
    balances.make_free_balance_be(&2, 50);
    assert_eq!(knights.set_price(1, 1, 20), Ok(Event::KnightPriceSet(1, 20)));

    assert_eq!(
        knights.purchase_order(2, 1),
        Ok(PaymentOrder {
            from: 2,
            to: 1,
            amount: 20,
            existence: ExistenceRequirement::KeepAlive
        }),
    );
    assert_eq!(
        buy_knight(&mut knights, &mut balances, 2, 1),
        Ok(Event::KnightTransferred(1, 1, 2)),
    );

    assert_eq!(knights.knight_to_owner(1), Some(2));
    assert_eq!(knights.knight_to_owner(2), Some(1));
    assert_eq!(knights.owner_to_knights(1), vec![2]);
    assert_eq!(knights.owner_to_knights(2), vec![1]);
    assert_eq!(knights.owner_to_knight_count(1), 1);
    assert_eq!(knights.owner_to_knight_count(2), 1);
    assert_eq!(knights.knights(1).unwrap().price, 0);
    assert_eq!(knights.knight_count(), 2);

    // The price is back at zero: the old owner cannot buy it back unasked.
    assert_eq!(
        buy_knight(&mut knights, &mut balances, 1, 1),
        Err(PurchaseError::Refused(Error::NotForSale)),
    );
}

#[test]
fn purchase_is_refused_before_anything_is_paid() {
    let mut knights = new_test_ext();
    knights.create_knight(1, "Sir Rowan".as_bytes().to_vec()).unwrap();

    assert_eq!(knights.purchase_order(2, 9), Err(Error::KnightNotFound));
    assert_eq!(knights.purchase_order(2, 1), Err(Error::NotForSale));
    knights.set_price(1, 1, 10).unwrap();
    assert_eq!(knights.purchase_order(1, 1), Err(Error::AlreadyOwned));

    // Whatever the currency ledger is said to have answered, a purchase that
    // the registry refuses stays refused and changes nothing.
    let paid: Result<(), BalancesError> = Ok(());
    assert_eq!(knights.buy_knight(1, 1, paid), Err(PurchaseError::Refused(Error::AlreadyOwned)));
    let paid: Result<(), BalancesError> = Ok(());
    assert_eq!(knights.buy_knight(2, 9, paid), Err(PurchaseError::Refused(Error::KnightNotFound)));
    let failed: Result<(), BalancesError> = Err(BalancesError::KeepAlive);
    assert_eq!(
        knights.buy_knight(2, 9, failed),
        Err(PurchaseError::Refused(Error::KnightNotFound)),
    );
    assert_eq!(knights.knight_to_owner(1), Some(1));
    assert_eq!(knights.knights(1).unwrap().price, 10);
}

#[test]
fn failed_payment_is_handed_on_and_changes_nothing() {
    let mut knights = new_test_ext();
    let mut balances = Balances::new();
    knights.create_knight(1, "Sir Rowan".as_bytes().to_vec()).unwrap();
    knights.set_price(1, 1, 10).unwrap();
    balances.make_free_balance_be(&2, 10);

    // Paying the whole balance would not leave the account alive.
    assert_eq!(
        buy_knight(&mut knights, &mut balances, 2, 1),
        Err(PurchaseError::Payment(BalancesError::KeepAlive)),
    );
    assert_eq!(knights.knight_to_owner(1), Some(1));
    assert_eq!(knights.knights(1).unwrap().price, 10);
    assert_eq!(balances.free_balance(&2), 10);
}

#[test]
fn transfer_to_oneself_is_refused() {
    let mut knights = new_test_ext();
    knights.create_knight(1, "Sir Rowan".as_bytes().to_vec()).unwrap();
    assert_eq!(knights.transfer_knight(1, 1, 1), Err(Error::KnightAlreadyExists));
    assert_eq!(knights.owner_to_knights(1), vec![1]);
    assert_eq!(knights.owner_to_knight_count(1), 1);
}

#[test]
fn transfer_announces_and_keeps_lists_in_ascending_order() {
    let mut knights = new_test_ext();
    knights.create_knight(1, "a".as_bytes().to_vec()).unwrap();
    knights.create_knight(2, "b".as_bytes().to_vec()).unwrap();
    knights.create_knight(1, "c".as_bytes().to_vec()).unwrap();
    knights.create_knight(2, "d".as_bytes().to_vec()).unwrap();
    assert_eq!(knights.owner_to_knights(1), vec![1, 3]);
    assert_eq!(knights.owner_to_knights(2), vec![2, 4]);

    assert_eq!(knights.transfer_knight(1, 3, 2), Ok(Event::KnightTransferred(3, 1, 2)));
    assert_eq!(knights.owner_to_knights(1), vec![1]);
    assert_eq!(knights.owner_to_knights(2), vec![2, 3, 4]);

    // A list that a knight came into from elsewhere can still give it up.
    assert_eq!(knights.transfer_knight(2, 2, 1), Ok(Event::KnightTransferred(2, 2, 1)));
    assert_eq!(knights.transfer_knight(2, 3, 1), Ok(Event::KnightTransferred(3, 2, 1)));
    assert_eq!(knights.owner_to_knights(1), vec![1, 2, 3]);
    assert_eq!(knights.owner_to_knights(2), vec![4]);
    assert_eq!(knights.owner_to_knight_count(1), 3);
    assert_eq!(knights.owner_to_knight_count(2), 1);
    for id in 1..=4u64 {
        let owner = knights.knight_to_owner(id).unwrap();
        assert!(knights.owner_to_knights(owner).contains(&id));
    }
}

#[test]
fn set_price_on_a_missing_knight_is_refused() {
    let mut knights = new_test_ext();
    assert_eq!(knights.set_price(1, 1, 5), Err(Error::KnightNotFound));
}

#[test]
fn mint_takes_the_fingerprint_it_is_given() {
    let mut knights = Pallet::new();
    assert_eq!(knights.mint(3, vec![1, 2, 3], [9; 16], 4), Ok(1));
    assert_eq!(knights.mint(3, vec![], [8; 16], 0), Ok(2));
    let first = knights.knights(1).unwrap();
    assert_eq!(first.id, 1);
    assert_eq!(first.dna, [9; 16]);
    assert_eq!(first.name, vec![1, 2, 3]);
    assert_eq!(first.gen, 4);
    assert_eq!(first.price, 0);
    assert_eq!(first.wealth, 0);
    assert_eq!(knights.owner_to_knights(3), vec![1, 2]);
    assert_eq!(knights.knight_count(), 2);
}

/// Every minted knight has an owner whose list holds it, every list is in
/// ascending order and holds only its owner's knights, and every count is
/// the length of its list.
fn agree(knights: &Pallet, accounts: &[u64]) {
    for id in 1..=knights.knight_count() {
        let owner = knights.knight_to_owner(id).unwrap();
        assert!(knights.owner_to_knights(owner).contains(&id));
        assert_eq!(knights.knights(id).unwrap().id, id);
    }
    assert_eq!(knights.knight_to_owner(0), None);
    assert_eq!(knights.knight_to_owner(knights.knight_count() + 1), None);
    let mut held_in_all: u64 = 0;
    for account in accounts {
        let held = knights.owner_to_knights(*account);
        assert_eq!(knights.owner_to_knight_count(*account), held.len() as u64);
        assert!(held.windows(2).all(|pair| pair[0] < pair[1]));
        for id in &held {
            assert_eq!(knights.knight_to_owner(*id), Some(*account));
        }
        held_in_all += held.len() as u64;
    }
    assert_eq!(held_in_all, knights.knight_count());
}

#[test]
fn both_directions_and_counts_agree_after_every_operation() {
    let accounts = [1, 2, 3];
    let mut knights = new_test_ext();
    let mut balances = Balances::new();
    balances.make_free_balance_be(&3, 100);
    agree(&knights, &accounts);
    knights.create_knight(1, vec![1]).unwrap();
    agree(&knights, &accounts);
    knights.create_knight(2, vec![2]).unwrap();
    agree(&knights, &accounts);
    knights.create_knight(1, vec![3]).unwrap();
    agree(&knights, &accounts);
    knights.transfer_knight(1, 1, 2).unwrap();
    agree(&knights, &accounts);
    knights.transfer_knight(2, 2, 3).unwrap();
    agree(&knights, &accounts);
    knights.set_price(2, 1, 40).unwrap();
    agree(&knights, &accounts);
    buy_knight(&mut knights, &mut balances, 3, 1).unwrap();
    agree(&knights, &accounts);
    knights.breed(1, vec![4], 1, 3).unwrap();
    agree(&knights, &accounts);
    assert!(knights.transfer_knight(1, 1, 2).is_err());
    agree(&knights, &accounts);
    assert!(buy_knight(&mut knights, &mut balances, 1, 2).is_err());
    agree(&knights, &accounts);
    assert_eq!(knights.owner_to_knights(1), vec![3, 4]);
    assert_eq!(knights.owner_to_knights(2), Vec::<u64>::new());
    assert_eq!(knights.owner_to_knights(3), vec![1, 2]);
}
