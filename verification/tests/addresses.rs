use anchor_lang::prelude::Pubkey;
use voting_dapp::address::{derive_address, find_ballot_address, find_poll_address};
use voting_dapp::Address;

fn id(byte: u8) -> Address {
    Address { bytes: [byte; 32] }
}

fn key(a: &Address) -> Pubkey {
    Pubkey::new_from_array(a.bytes)
}

#[test]
fn poll_address_is_the_runtime_derivation() {
    let program = id(7);
    for poll_id in [0u64, 1, 258, u64::MAX] {
        let (expected, _) =
            Pubkey::find_program_address(&[b"poll", &poll_id.to_le_bytes()], &key(&program));
        let found = find_poll_address(&program, poll_id).unwrap();
        assert_eq!(found.bytes, expected.to_bytes());
        assert_ne!(found, program);
    }
}

#[test]
fn ballot_address_is_the_runtime_derivation() {
    let program = id(7);
    let poll = find_poll_address(&program, 1).unwrap();
    let voter = id(2);
    let (expected, _) = Pubkey::find_program_address(
        &[b"vote", key(&poll).as_ref(), key(&voter).as_ref()],
        &key(&program),
    );
    let found = find_ballot_address(&program, &poll, &voter).unwrap();
    assert_eq!(found.bytes, expected.to_bytes());
    assert_ne!(found, poll);
    assert_ne!(found, voter);
}

#[test]
fn derivation_is_repeatable_and_tells_keys_apart() {
    let program = id(7);
    assert_eq!(find_poll_address(&program, 1), find_poll_address(&program, 1));
    assert_ne!(find_poll_address(&program, 1), find_poll_address(&program, 2));
    assert_ne!(find_poll_address(&program, 1), find_poll_address(&id(8), 1));
    let poll = find_poll_address(&program, 1).unwrap();
    assert_eq!(
        find_ballot_address(&program, &poll, &id(2)),
        find_ballot_address(&program, &poll, &id(2))
    );
    assert_ne!(
        find_ballot_address(&program, &poll, &id(2)),
        find_ballot_address(&program, &poll, &id(3))
    );
    assert_ne!(
        find_ballot_address(&program, &poll, &id(2)),
        find_ballot_address(&program, &id(2), &poll)
    );
}

#[test]
fn derive_address_takes_any_seeds() {
    let program = id(7);
    let seeds = vec![b"poll".to_vec(), 1u64.to_le_bytes().to_vec()];
    assert_eq!(derive_address(&seeds, &program), find_poll_address(&program, 1));
    let (expected, _) = Pubkey::find_program_address(&[], &key(&program));
    assert_eq!(derive_address(&Vec::new(), &program).unwrap().bytes, expected.to_bytes());
}

#[test]
fn derive_address_gives_none_for_seeds_out_of_bounds() {
    let program = id(7);
    let too_many: Vec<Vec<u8>> = vec![vec![1u8]; 16];
    assert_eq!(derive_address(&too_many, &program), None);
    let too_long: Vec<Vec<u8>> = vec![vec![1u8; 33]];
    assert_eq!(derive_address(&too_long, &program), None);
    let at_the_limit: Vec<Vec<u8>> = vec![vec![1u8; 32]; 15];
    assert!(derive_address(&at_the_limit, &program).is_some());
}

#[test]
fn same_compares_all_bytes() {
    let a = id(1);
    let mut b = id(1);
    assert!(a.same(&b));
    b.bytes[31] = 2;
    assert!(!a.same(&b));
    assert!(!b.same(&a));
    b.bytes[31] = 1;
    b.bytes[0] = 0;
    assert!(!a.same(&b));
}

#[test]
fn to_vec_keeps_order_and_length() {
    let mut a = id(0);
    for i in 0u8..32 {
        a.bytes[usize::from(i)] = i;
    }
    let bytes = a.to_vec();
    assert_eq!(bytes.len(), 32);
    assert_eq!(bytes, (0u8..32).collect::<Vec<u8>>());
}
