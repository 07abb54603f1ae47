use anchor_lang::prelude::Pubkey;
use entangler::address::Address;
use entangler::pda::{
    authority_address, collection_address, collection_entry_address, collection_mint_address,
    entangled_mint_address, entangled_pair_address, state_address,
};

fn addr(w0: u64, w1: u64, w2: u64, w3: u64) -> Address {
    Address::new(w0, w1, w2, w3)
}

fn to_pubkey(a: &Address) -> Pubkey {
    let v = a.to_bytes();
    let mut b = [0u8; 32];
    b.copy_from_slice(&v);
    Pubkey::new_from_array(b)
}

fn expect_pda(seeds: &[&[u8]], program: &Address) -> (Address, u8) {
    let (k, bump) = Pubkey::try_find_program_address(seeds, &to_pubkey(program))
        .expect("derivation should succeed for these seeds");
    (Address::from_bytes(&k.to_bytes()), bump)
}

#[test]
fn authority_matches_ledger_derivation() {
    let program = addr(7, 11, 13, 17);
    let (a, bump) = authority_address(&program).unwrap();
    let (expected, expected_bump) = expect_pda(&[b"authority"], &program);
    assert_eq!(a, expected);
    assert_eq!(bump, expected_bump);
    // The derivation is not the identity on its input.
    assert_ne!(a, program);
}

#[test]
fn authority_is_deterministic() {
    let program = addr(1, 2, 3, 4);
    let first = authority_address(&program).unwrap();
    let second = authority_address(&program).unwrap();
    assert_eq!(first, second);
}

#[test]
fn labels_give_distinct_addresses() {
    let program = addr(5, 6, 7, 8);
    let a = authority_address(&program).unwrap().0;
    let s = state_address(&program).unwrap().0;
    assert_ne!(a, s);
    let (expected_state, _) = expect_pda(&[b"state"], &program);
    assert_eq!(s, expected_state);
}

#[test]
fn collection_addresses_keyed_by_id() {
    let program = addr(9, 9, 9, 9);
    let id1 = addr(1, 0, 0, 0);
    let id2 = addr(2, 0, 0, 0);
    let c1 = collection_address(&program, &id1).unwrap();
    let c2 = collection_address(&program, &id2).unwrap();
    assert_ne!(c1.0, c2.0);
    let expected = expect_pda(&[b"collection", &id1.to_bytes()], &program);
    assert_eq!(c1.0, expected.0);
    assert_eq!(c1.1, expected.1);
    let m1 = collection_mint_address(&program, &id1).unwrap();
    let expected_mint = expect_pda(&[b"collection-mint", &id1.to_bytes()], &program);
    assert_eq!(m1.0, expected_mint.0);
}

#[test]
fn entry_address_keyed_by_key() {
    let program = addr(3, 1, 4, 1);
    let key = "my_key".as_bytes().to_vec();
    let e = collection_entry_address(&program, &key).unwrap();
    let expected = expect_pda(&[b"collection-entry", b"my_key"], &program);
    assert_eq!(e.0, expected.0);
    assert_eq!(e.1, expected.1);
    let other = collection_entry_address(&program, &"other_key".as_bytes().to_vec()).unwrap();
    assert_ne!(e.0, other.0);
}

#[test]
fn pair_addresses_match_ledger_derivation() {
    let program = addr(2, 7, 1, 8);
    let id = addr(1, 1, 1, 1);
    let original = addr(2, 2, 2, 2);
    let mint = entangled_mint_address(&program, &id, &original).unwrap();
    let expected_mint = expect_pda(
        &[b"entanglement-mint", &id.to_bytes(), &original.to_bytes()],
        &program,
    );
    assert_eq!(mint.0, expected_mint.0);
    assert_eq!(mint.1, expected_mint.1);
    let pair = entangled_pair_address(&program, &mint.0).unwrap();
    let expected_pair = expect_pda(&[b"entanglement-pair", &mint.0.to_bytes()], &program);
    assert_eq!(pair.0, expected_pair.0);
    assert_eq!(pair.1, expected_pair.1);
}
