use anchor_lang::prelude::Rent;
use record_ledger::address::Address;
use record_ledger::error::Error;
use record_ledger::store::{Ledger, MAX_RECORD_SIZE, TAG_LEN};

const TAG: [u8; 8] = [1, 2, 3, 4, 5, 6, 7, 8];
const OTHER_TAG: [u8; 8] = [1, 2, 3, 4, 5, 6, 7, 9];

fn who(n: u8) -> Address {
    Address::new([n; 32])
}

#[test]
fn a_new_ledger_holds_nothing() {
    let ledger = Ledger::new(3480);
    assert_eq!(ledger.price(), 3480);
    assert_eq!(ledger.supply(), 0);
    assert_eq!(ledger.balance(&who(1)), 0);
    assert!(ledger.record(&who(1)).is_none());
}

#[test]
fn mint_pays_new_lamports() {
    let mut ledger = Ledger::new(0);
    assert_eq!(ledger.mint(&who(1), 50), Ok(()));
    assert_eq!(ledger.mint(&who(2), 7), Ok(()));
    assert_eq!(ledger.mint(&who(1), 1), Ok(()));
    assert_eq!(ledger.balance(&who(1)), 51);
    assert_eq!(ledger.balance(&who(2)), 7);
    assert_eq!(ledger.balance(&who(3)), 0);
    assert_eq!(ledger.supply(), 58);
}

#[test]
fn mint_stops_at_the_largest_supply() {
    let mut ledger = Ledger::new(0);
    assert_eq!(ledger.mint(&who(1), u64::MAX - 1), Ok(()));
    assert_eq!(ledger.mint(&who(2), 2), Err(Error::SupplyExceeded));
    assert_eq!(ledger.balance(&who(2)), 0);
    assert_eq!(ledger.supply(), u64::MAX - 1);
    assert_eq!(ledger.mint(&who(2), 1), Ok(()));
    assert_eq!(ledger.supply(), u64::MAX);
    assert_eq!(ledger.mint(&who(2), 0), Ok(()));
    assert_eq!(ledger.mint(&who(1), 1), Err(Error::SupplyExceeded));
}

#[test]
fn transfer_moves_lamports() {
    let mut ledger = Ledger::new(0);
    ledger.mint(&who(1), 50).unwrap();
    assert_eq!(ledger.transfer(&who(1), &who(2), 20, &who(1)), Ok(()));
    assert_eq!(ledger.balance(&who(1)), 30);
    assert_eq!(ledger.balance(&who(2)), 20);
    assert_eq!(ledger.transfer(&who(1), &who(2), 30, &who(1)), Ok(()));
    assert_eq!(ledger.balance(&who(1)), 0);
    assert_eq!(ledger.balance(&who(2)), 50);
    assert_eq!(ledger.supply(), 50);
}

#[test]
fn transfer_of_more_than_is_held_changes_nothing() {
    let mut ledger = Ledger::new(0);
    ledger.mint(&who(1), 50).unwrap();
    assert_eq!(ledger.transfer(&who(1), &who(2), 51, &who(1)), Err(Error::InsufficientBalance));
    assert_eq!(ledger.transfer(&who(3), &who(2), 1, &who(3)), Err(Error::InsufficientBalance));
    assert_eq!(ledger.balance(&who(1)), 50);
    assert_eq!(ledger.balance(&who(2)), 0);
    assert_eq!(ledger.supply(), 50);
}

#[test]
fn transfer_to_oneself_and_of_nothing_changes_nothing() {
    let mut ledger = Ledger::new(0);
    ledger.mint(&who(1), 50).unwrap();
    assert_eq!(ledger.transfer(&who(1), &who(1), 50, &who(1)), Ok(()));
    assert_eq!(ledger.transfer(&who(3), &who(4), 0, &who(3)), Ok(()));
    assert_eq!(ledger.transfer(&who(1), &who(1), 51, &who(1)), Err(Error::InsufficientBalance));
    assert_eq!(ledger.balance(&who(1)), 50);
    assert_eq!(ledger.supply(), 50);
}

#[test]
fn transfer_can_fill_a_balance_to_the_top() {
    let mut ledger = Ledger::new(0);
    ledger.mint(&who(1), u64::MAX - 5).unwrap();
    ledger.mint(&who(2), 5).unwrap();
    assert_eq!(ledger.transfer(&who(2), &who(1), 5, &who(2)), Ok(()));
    assert_eq!(ledger.balance(&who(1)), u64::MAX);
    assert_eq!(ledger.balance(&who(2)), 0);
}

#[test]
fn create_charges_the_maintenance_balance() {
    let mut ledger = Ledger::new(3480);
    ledger.mint(&who(1), 1_000_000).unwrap();
    assert_eq!(ledger.create(&who(5), &who(7), &who(1), 9, &TAG), Ok(953_520));
    assert_eq!(ledger.balance(&who(1)), 1_000_000 - 953_520);
    assert_eq!(ledger.balance(&who(5)), 953_520);
    assert_eq!(ledger.supply(), 1_000_000);
    let record = ledger.record(&who(5)).unwrap();
    assert_eq!(record.owner, who(7));
    assert_eq!(record.authority, who(1));
    assert_eq!(record.data, vec![1, 2, 3, 4, 5, 6, 7, 8, 0]);
}

#[test]
fn create_charges_what_the_platform_schedule_asks() {
    for size in [8usize, 9, 74, 577, 10_000, MAX_RECORD_SIZE] {
        let mut ledger = Ledger::new(3480);
        ledger.mint(&who(1), u64::MAX).unwrap();
        let cost = ledger.create(&who(5), &who(7), &who(1), size, &TAG).unwrap();
        assert_eq!(cost, Rent::default().minimum_balance(size));
        assert_eq!(cost, 2 * (128 + size as u64) * 3480);
        assert_ne!(cost, size as u64);
        assert_eq!(ledger.record(&who(5)).unwrap().data.len(), size);
    }
    let mut ledger = Ledger::new(5);
    ledger.mint(&who(1), 10_000).unwrap();
    assert_eq!(ledger.create(&who(5), &who(7), &who(1), 72, &TAG), Ok(2000));
}

#[test]
fn create_is_free_where_bytes_cost_nothing() {
    let mut ledger = Ledger::new(0);
    assert_eq!(ledger.create(&who(5), &who(7), &who(1), 577, &TAG), Ok(0));
    assert_eq!(ledger.balance(&who(5)), 0);
    let data = &ledger.record(&who(5)).unwrap().data;
    assert_eq!(data.len(), 577);
    assert_eq!(&data[..8], &TAG[..]);
    assert!(data[8..].iter().all(|b| *b == 0));
}

#[test]
fn create_at_an_occupied_address_always_fails() {
    let mut ledger = Ledger::new(3480);
    ledger.mint(&who(1), 5_000_000).unwrap();
    ledger.create(&who(5), &who(7), &who(1), 9, &TAG).unwrap();
    let before = ledger.balance(&who(1));
    assert_eq!(ledger.create(&who(5), &who(7), &who(1), 9, &TAG), Err(Error::AlreadyExists));
    assert_eq!(ledger.create(&who(5), &who(8), &who(2), 100, &OTHER_TAG), Err(Error::AlreadyExists));
    assert_eq!(ledger.create(&who(5), &who(7), &who(1), 0, &TAG), Err(Error::AlreadyExists));
    assert_eq!(
        ledger.create_with(&who(5), &who(7), &who(1), 9, &TAG, &[1]),
        Err(Error::AlreadyExists)
    );
    assert_eq!(
        ledger.create_with(&who(5), &who(7), &who(1), 9, &TAG, &[1, 2, 3]),
        Err(Error::AlreadyExists)
    );
    assert_eq!(ledger.balance(&who(1)), before);
    assert_eq!(ledger.record(&who(5)).unwrap().data, vec![1, 2, 3, 4, 5, 6, 7, 8, 0]);
}

#[test]
fn create_rejects_sizes_it_cannot_hold_or_price() {
    let mut ledger = Ledger::new(3480);
    ledger.mint(&who(1), u64::MAX).unwrap();
    assert_eq!(TAG_LEN, 8);
    assert_eq!(ledger.create(&who(5), &who(7), &who(1), 7, &TAG), Err(Error::InvalidSize));
    assert_eq!(
        ledger.create(&who(5), &who(7), &who(1), MAX_RECORD_SIZE + 1, &TAG),
        Err(Error::InvalidSize)
    );
    assert!(ledger.record(&who(5)).is_none());
    let mut dear = Ledger::new(1 << 46);
    dear.mint(&who(1), u64::MAX).unwrap();
    assert_eq!(dear.create(&who(5), &who(7), &who(1), 0, &TAG), Err(Error::InvalidSize));
    assert_eq!(dear.create(&who(5), &who(7), &who(1), 9, &TAG), Err(Error::InvalidSize));
    let mut edge = Ledger::new(1 << 45);
    edge.mint(&who(1), u64::MAX).unwrap();
    assert_eq!(edge.create(&who(5), &who(7), &who(1), 128, &TAG), Ok(1 << 54));
    assert_eq!(edge.create(&who(6), &who(7), &who(1), 129, &TAG), Err(Error::InvalidSize));
}

#[test]
fn create_needs_a_payer_who_can_pay() {
    let mut ledger = Ledger::new(3480);
    ledger.mint(&who(1), 953_519).unwrap();
    assert_eq!(ledger.create(&who(5), &who(7), &who(1), 9, &TAG), Err(Error::InsufficientBalance));
    assert_eq!(ledger.balance(&who(1)), 953_519);
    assert!(ledger.record(&who(5)).is_none());
    ledger.mint(&who(1), 1).unwrap();
    assert_eq!(ledger.create(&who(5), &who(7), &who(1), 9, &TAG), Ok(953_520));
    assert_eq!(ledger.balance(&who(1)), 0);
}

#[test]
fn create_keeps_what_the_address_held() {
    let mut ledger = Ledger::new(3480);
    ledger.mint(&who(1), 1_000_000).unwrap();
    ledger.mint(&who(5), 11).unwrap();
    assert_eq!(ledger.create(&who(5), &who(7), &who(1), 9, &TAG), Ok(953_520));
    assert_eq!(ledger.balance(&who(5)), 953_531);
}

#[test]
fn create_with_writes_the_payload() {
    let mut ledger = Ledger::new(3480);
    ledger.mint(&who(1), 1_000_000).unwrap();
    assert_eq!(ledger.create_with(&who(5), &who(7), &who(1), 12, &TAG, &[9, 9]), Ok(974_400));
    assert_eq!(ledger.record(&who(5)).unwrap().data, vec![1, 2, 3, 4, 5, 6, 7, 8, 9, 9, 0, 0]);
    assert_eq!(
        ledger.create_with(&who(6), &who(7), &who(1), 9, &TAG, &[9, 9]),
        Err(Error::InvalidSize)
    );
    assert_eq!(
        ledger.create_with(&who(6), &who(7), &who(1), 7, &TAG, &[]),
        Err(Error::InvalidSize)
    );
    assert_eq!(
        ledger.create_with(&who(6), &who(7), &who(1), 10, &TAG, &[9, 9]),
        Err(Error::InsufficientBalance)
    );
    assert!(ledger.record(&who(6)).is_none());
}

#[test]
fn read_gives_the_bytes_behind_the_tag() {
    let mut ledger = Ledger::new(0);
    ledger.create_with(&who(5), &who(7), &who(1), 11, &TAG, &[4, 5]).unwrap();
    assert_eq!(ledger.read(&who(5), &TAG), Ok(vec![4, 5, 0]));
    assert_eq!(ledger.read(&who(5), &OTHER_TAG), Err(Error::LayoutMismatch));
    assert_eq!(ledger.read(&who(6), &TAG), Err(Error::NotFound));
    ledger.mint(&who(6), 5).unwrap();
    assert_eq!(ledger.read(&who(6), &TAG), Err(Error::NotFound));
}

#[test]
fn read_owned_asks_for_the_owner() {
    let mut ledger = Ledger::new(0);
    ledger.create_with(&who(5), &who(7), &who(1), 11, &TAG, &[4, 5]).unwrap();
    assert_eq!(ledger.read_owned(&who(5), &who(7), &TAG), Ok(vec![4, 5, 0]));
    assert_eq!(ledger.read_owned(&who(5), &who(1), &TAG), Err(Error::Unauthorized));
    assert_eq!(ledger.read_owned(&who(5), &who(1), &OTHER_TAG), Err(Error::LayoutMismatch));
    assert_eq!(ledger.read_owned(&who(6), &who(7), &TAG), Err(Error::NotFound));
}

#[test]
fn write_replaces_the_bytes_behind_the_tag() {
    let mut ledger = Ledger::new(0);
    ledger.create(&who(5), &who(7), &who(1), 12, &TAG).unwrap();
    assert_eq!(ledger.write(&who(5), &who(7), &TAG, &[9, 8, 7, 6]), Ok(()));
    assert_eq!(ledger.record(&who(5)).unwrap().data, vec![1, 2, 3, 4, 5, 6, 7, 8, 9, 8, 7, 6]);
    assert_eq!(ledger.write(&who(5), &who(7), &TAG, &[1, 2]), Ok(()));
    assert_eq!(ledger.record(&who(5)).unwrap().data, vec![1, 2, 3, 4, 5, 6, 7, 8, 1, 2, 7, 6]);
    assert_eq!(ledger.write(&who(5), &who(7), &TAG, &[]), Ok(()));
    assert_eq!(ledger.read(&who(5), &TAG), Ok(vec![1, 2, 7, 6]));
    assert_eq!(ledger.record(&who(5)).unwrap().owner, who(7));
    assert_eq!(ledger.record(&who(5)).unwrap().authority, who(1));
}

#[test]
fn write_fails_without_changing_the_record() {
    let mut ledger = Ledger::new(0);
    ledger.create_with(&who(5), &who(7), &who(1), 10, &TAG, &[4, 5]).unwrap();
    assert_eq!(ledger.write(&who(6), &who(7), &TAG, &[1]), Err(Error::NotFound));
    assert_eq!(ledger.write(&who(5), &who(7), &OTHER_TAG, &[1]), Err(Error::LayoutMismatch));
    assert_eq!(ledger.write(&who(5), &who(1), &TAG, &[1]), Err(Error::Unauthorized));
    assert_eq!(ledger.write(&who(5), &who(7), &TAG, &[1, 2, 3]), Err(Error::InvalidSize));
    assert_eq!(ledger.read(&who(5), &TAG), Ok(vec![4, 5]));
}

#[test]
fn close_refunds_the_whole_balance() {
    let mut ledger = Ledger::new(3480);
    ledger.mint(&who(1), 1_000_000).unwrap();
    ledger.create(&who(5), &who(7), &who(1), 9, &TAG).unwrap();
    ledger.mint(&who(5), 80).unwrap();
    assert_eq!(ledger.close(&who(5), &who(1), &who(2)), Ok(953_600));
    assert_eq!(ledger.balance(&who(5)), 0);
    assert_eq!(ledger.balance(&who(2)), 953_600);
    assert_eq!(ledger.balance(&who(1)), 1_000_000 - 953_520);
    assert!(ledger.record(&who(5)).is_none());
    assert_eq!(ledger.supply(), 1_000_080);
    assert_eq!(ledger.read(&who(5), &TAG), Err(Error::NotFound));
    assert_eq!(ledger.close(&who(5), &who(1), &who(2)), Err(Error::NotFound));
    assert_eq!(ledger.create(&who(5), &who(7), &who(2), 9, &TAG), Ok(953_520));
}

#[test]
fn close_is_for_the_closing_authority_alone() {
    let mut ledger = Ledger::new(3480);
    ledger.mint(&who(1), 1_000_000).unwrap();
    ledger.create(&who(5), &who(7), &who(1), 9, &TAG).unwrap();
    assert_eq!(ledger.close(&who(5), &who(2), &who(2)), Err(Error::Unauthorized));
    assert_eq!(ledger.close(&who(5), &who(7), &who(1)), Err(Error::Unauthorized));
    assert_eq!(ledger.balance(&who(5)), 953_520);
    assert_eq!(ledger.balance(&who(2)), 0);
    assert!(ledger.record(&who(5)).is_some());
    assert_eq!(ledger.close(&who(6), &who(1), &who(1)), Err(Error::NotFound));
}

#[test]
fn close_can_refund_to_the_address_itself() {
    let mut ledger = Ledger::new(3480);
    ledger.mint(&who(1), 1_000_000).unwrap();
    ledger.create(&who(5), &who(7), &who(1), 9, &TAG).unwrap();
    assert_eq!(ledger.close(&who(5), &who(1), &who(5)), Ok(953_520));
    assert_eq!(ledger.balance(&who(5)), 953_520);
    assert!(ledger.record(&who(5)).is_none());
}

#[test]
fn transfer_is_for_the_one_who_holds_the_lamports() {
    let mut ledger = Ledger::new(0);
    ledger.mint(&who(1), 50).unwrap();
    assert_eq!(ledger.transfer(&who(1), &who(2), 20, &who(2)), Err(Error::Unauthorized));
    assert_eq!(ledger.transfer(&who(1), &who(2), 51, &who(2)), Err(Error::Unauthorized));
    assert_eq!(ledger.transfer(&who(1), &who(2), 0, &who(3)), Err(Error::Unauthorized));
    assert_eq!(ledger.balance(&who(1)), 50);
    assert_eq!(ledger.balance(&who(2)), 0);
}

#[test]
fn transfer_from_a_record_is_for_its_owner() {
    let mut ledger = Ledger::new(0);
    ledger.create(&who(5), &who(7), &who(1), 9, &TAG).unwrap();
    ledger.mint(&who(5), 50).unwrap();
    assert_eq!(ledger.transfer(&who(5), &who(2), 20, &who(5)), Err(Error::Unauthorized));
    assert_eq!(ledger.transfer(&who(5), &who(2), 20, &who(1)), Err(Error::Unauthorized));
    assert_eq!(ledger.balance(&who(5)), 50);
    assert_eq!(ledger.transfer(&who(5), &who(2), 20, &who(7)), Ok(()));
    assert_eq!(ledger.balance(&who(5)), 30);
    assert_eq!(ledger.balance(&who(2)), 20);
    assert_eq!(ledger.transfer(&who(5), &who(2), 31, &who(7)), Err(Error::InsufficientBalance));
    // Anyone may pay into a record.
    assert_eq!(ledger.transfer(&who(2), &who(5), 20, &who(2)), Ok(()));
    assert_eq!(ledger.balance(&who(5)), 50);
}
