use anchor_lang::prelude::Pubkey;
use record_ledger::address::{content_hash, verify_address, Address};
use record_ledger::coinflip::vault_seeds;
use record_ledger::error::Error;

const PROGRAM: [u8; 32] = [
    209, 0, 141, 89, 250, 11, 205, 123, 82, 46, 231, 8, 132, 94, 81, 206, 173, 140, 190, 110, 28,
    112, 157, 158, 200, 181, 133, 190, 91, 146, 225, 97,
];

const VAULT: [u8; 32] = [
    195, 58, 201, 178, 221, 170, 73, 182, 238, 218, 193, 3, 41, 4, 182, 163, 50, 230, 215, 40, 211,
    229, 113, 46, 17, 55, 104, 146, 232, 189, 170, 90,
];

#[test]
fn derive_gives_the_known_vault_address() {
    let found = record_ledger::address::derive(&vault_seeds(), &Address::new(PROGRAM));
    assert_eq!(found, Some((Address::new(VAULT), 255)));
}

#[test]
fn derive_agrees_with_the_platform_search() {
    let program = [7u8; 32];
    let seeds: Vec<Vec<u8>> = vec![b"vault".to_vec(), vec![1, 2, 3], vec![]];
    let (address, bump) = Pubkey::find_program_address(
        &[b"vault", &[1, 2, 3], &[]],
        &Pubkey::new_from_array(program),
    );
    let found = record_ledger::address::derive(&seeds, &Address::new(program));
    assert_eq!(found, Some((Address::new(address.to_bytes()), bump)));
}

#[test]
fn derive_is_deterministic() {
    let seeds: Vec<Vec<u8>> = vec![b"COMMENT_SEED".to_vec(), vec![1u8; 32], vec![9u8; 32]];
    let owner = Address::new([7u8; 32]);
    let first = record_ledger::address::derive(&seeds, &owner);
    let second = record_ledger::address::derive(&seeds.clone(), &Address::new([7u8; 32]));
    assert!(first.is_some());
    assert_eq!(first, second);
}

#[test]
fn derive_depends_on_seeds_and_owner() {
    let owner = Address::new([7u8; 32]);
    let one = record_ledger::address::derive(&vec![vec![1u8]], &owner).unwrap();
    let two = record_ledger::address::derive(&vec![vec![2u8]], &owner).unwrap();
    let other = record_ledger::address::derive(&vec![vec![1u8]], &Address::new([8u8; 32])).unwrap();
    assert_ne!(one.0, two.0);
    assert_ne!(one.0, other.0);
    assert_ne!(one.0, owner);
}

#[test]
fn derive_takes_fifteen_parts_and_no_more() {
    let owner = Address::new([7u8; 32]);
    let fifteen: Vec<Vec<u8>> = vec![vec![5u8; 32]; 15];
    let sixteen: Vec<Vec<u8>> = vec![vec![5u8; 32]; 16];
    let parts: Vec<&[u8]> = fifteen.iter().map(|p| p.as_slice()).collect();
    let expected = Pubkey::try_find_program_address(&parts, &Pubkey::new_from_array([7u8; 32]))
        .map(|(a, b)| (Address::new(a.to_bytes()), b));
    assert!(expected.is_some());
    assert_eq!(record_ledger::address::derive(&fifteen, &owner), expected);
    assert_eq!(record_ledger::address::derive(&sixteen, &owner), None);
}

#[test]
fn derive_rejects_a_part_of_thirty_three_bytes() {
    let owner = Address::new([7u8; 32]);
    assert!(record_ledger::address::derive(&vec![vec![0u8; 32]], &owner).is_some());
    assert_eq!(record_ledger::address::derive(&vec![vec![0u8; 33]], &owner), None);
}

#[test]
fn derive_of_no_parts_finds_an_address() {
    let owner = Address::new([7u8; 32]);
    let (address, bump) = Pubkey::find_program_address(&[], &Pubkey::new_from_array([7u8; 32]));
    assert_eq!(
        record_ledger::address::derive(&Vec::new(), &owner),
        Some((Address::new(address.to_bytes()), bump))
    );
}

#[test]
fn content_hash_is_sha256() {
    assert_eq!(
        content_hash(b"hi"),
        vec![
            143, 67, 67, 70, 100, 143, 107, 150, 223, 137, 221, 169, 1, 197, 23, 107, 16, 166, 216,
            57, 97, 221, 60, 26, 200, 139, 89, 178, 220, 50, 122, 164
        ]
    );
    assert_eq!(
        content_hash(b""),
        vec![
            227, 176, 196, 66, 152, 252, 28, 20, 154, 251, 244, 200, 153, 111, 185, 36, 39, 174,
            65, 228, 100, 155, 147, 76, 164, 149, 153, 27, 120, 82, 184, 85
        ]
    );
}

#[test]
fn verify_address_accepts_the_derived_address() {
    let a = Address::new([3u8; 32]);
    assert_eq!(verify_address(&a, Some((Address::new([3u8; 32]), 254))), Ok(254));
}

#[test]
fn verify_address_rejects_another_address() {
    let a = Address::new([3u8; 32]);
    let mut near = [3u8; 32];
    near[31] = 4;
    assert_eq!(
        verify_address(&a, Some((Address::new(near), 254))),
        Err(Error::AddressMismatch)
    );
}

#[test]
fn verify_address_fails_where_nothing_was_derived() {
    let a = Address::new([3u8; 32]);
    assert_eq!(verify_address(&a, None), Err(Error::NoViableAddress));
}

#[test]
fn same_compares_all_bytes() {
    let a = Address::new([3u8; 32]);
    let mut first = [3u8; 32];
    first[0] = 0;
    let mut last = [3u8; 32];
    last[31] = 0;
    assert!(a.same(&Address::new([3u8; 32])));
    assert!(!a.same(&Address::new(first)));
    assert!(!a.same(&Address::new(last)));
}

#[test]
fn to_vec_copies_the_bytes() {
    let mut bytes = [0u8; 32];
    for i in 0..32 {
        bytes[i] = i as u8;
    }
    let v = Address::new(bytes).to_vec();
    assert_eq!(v, bytes.to_vec());
}
