use anchor_lang::prelude::Pubkey;
use one_profile::address::{
    find_authority_record_address, find_data_record_address, is_derived, Address, ALL_SCOPES,
};

fn key(n: u8) -> Address {
    Address { bytes: [n; 32] }
}

#[test]
fn addresses_compare_by_their_bytes() {
    let a = key(9);
    let mut other = [9u8; 32];
    assert!(a == Address { bytes: other });
    other[31] = 8;
    assert!(a != Address { bytes: other });
    other[31] = 9;
    other[0] = 10;
    assert!(a != Address { bytes: other });
}

#[test]
fn data_record_address_is_the_program_address_of_its_seeds() {
    let user = key(1);
    let program = key(7);
    let found = find_data_record_address(&user, "blog", &program);
    let (expected, bump) = Pubkey::find_program_address(
        &[&[1u8; 32], b"data", b"blog"],
        &Pubkey::new_from_array([7u8; 32]),
    );
    let (address, found_bump) = found.unwrap();
    assert_eq!(address.bytes, expected.to_bytes());
    assert_eq!(found_bump, bump);
    assert_ne!(address.bytes, user.bytes);
    assert_ne!(address.bytes, program.bytes);
}

#[test]
fn authority_record_address_is_the_program_address_of_its_seeds() {
    let user = key(1);
    let delegate = key(2);
    let program = key(7);
    let found = find_authority_record_address(&user, &delegate, "blog", &program);
    let (expected, bump) = Pubkey::find_program_address(
        &[&[1u8; 32], b"authorities", &[2u8; 32], b"blog"],
        &Pubkey::new_from_array([7u8; 32]),
    );
    let (address, found_bump) = found.unwrap();
    assert_eq!(address.bytes, expected.to_bytes());
    assert_eq!(found_bump, bump);
}

#[test]
fn the_scope_for_all_namespaces_is_the_word_all() {
    assert_eq!(ALL_SCOPES, "all");
    let user = key(1);
    let delegate = key(2);
    let program = key(7);
    let found = find_authority_record_address(&user, &delegate, ALL_SCOPES, &program);
    let (expected, _) = Pubkey::find_program_address(
        &[&[1u8; 32], b"authorities", &[2u8; 32], b"all"],
        &Pubkey::new_from_array([7u8; 32]),
    );
    assert_eq!(found.unwrap().0.bytes, expected.to_bytes());
}

#[test]
fn derivation_is_repeatable() {
    let user = key(3);
    let program = key(7);
    let first = find_data_record_address(&user, "notes", &program).unwrap();
    let second = find_data_record_address(&user, "notes", &program).unwrap();
    assert!(first.0 == second.0);
    assert_eq!(first.1, second.1);
}

#[test]
fn every_seed_moves_the_address() {
    let program = key(7);
    let base = find_authority_record_address(&key(1), &key(2), "blog", &program).unwrap().0;
    let other_user = find_authority_record_address(&key(3), &key(2), "blog", &program).unwrap().0;
    let other_delegate =
        find_authority_record_address(&key(1), &key(3), "blog", &program).unwrap().0;
    let other_scope = find_authority_record_address(&key(1), &key(2), "mail", &program).unwrap().0;
    let other_program =
        find_authority_record_address(&key(1), &key(2), "blog", &key(8)).unwrap().0;
    let swapped = find_authority_record_address(&key(2), &key(1), "blog", &program).unwrap().0;
    assert!(base != other_user);
    assert!(base != other_delegate);
    assert!(base != other_scope);
    assert!(base != other_program);
    assert!(base != swapped);
    let data = find_data_record_address(&key(1), "blog", &program).unwrap().0;
    assert!(base != data);
}

#[test]
fn a_namespace_of_32_bytes_has_an_address_and_one_of_33_has_none() {
    let user = key(1);
    let program = key(7);
    let fits = "a".repeat(32);
    let too_long = "a".repeat(33);
    assert!(find_data_record_address(&user, &fits, &program).is_some());
    assert!(find_data_record_address(&user, &too_long, &program).is_none());
    assert!(find_authority_record_address(&user, &key(2), &fits, &program).is_some());
    assert!(find_authority_record_address(&user, &key(2), &too_long, &program).is_none());
}

#[test]
fn the_length_of_a_seed_is_counted_in_bytes() {
    let user = key(1);
    let program = key(7);
    // 16 characters of two bytes each fit, 17 do not.
    let fits = "é".repeat(16);
    let too_long = "é".repeat(17);
    let found = find_data_record_address(&user, &fits, &program).unwrap().0;
    let (expected, _) = Pubkey::find_program_address(
        &[&[1u8; 32], b"data", fits.as_bytes()],
        &Pubkey::new_from_array([7u8; 32]),
    );
    assert_eq!(found.bytes, expected.to_bytes());
    assert!(find_data_record_address(&user, &too_long, &program).is_none());
}

#[test]
fn the_empty_namespace_has_an_address() {
    let found = find_data_record_address(&key(1), "", &key(7)).unwrap().0;
    let (expected, _) = Pubkey::find_program_address(
        &[&[1u8; 32], b"data", b""],
        &Pubkey::new_from_array([7u8; 32]),
    );
    assert_eq!(found.bytes, expected.to_bytes());
}

#[test]
fn is_derived_compares_the_address_and_ignores_the_bump() {
    let address = key(5);
    assert!(is_derived(&Some((address, 255)), &address));
    assert!(is_derived(&Some((address, 0)), &key(5)));
    assert!(!is_derived(&Some((address, 255)), &key(6)));
    assert!(!is_derived(&None, &address));
}
