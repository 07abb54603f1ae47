use entangler::address::Address;
use entangler::codec::{
    decode_collection_entry, decode_entangled_collection, decode_entangled_pair,
    decode_entangler_state, encode_collection_entry, encode_entangled_collection,
    encode_entangled_pair, encode_entangler_state,
};
use entangler::state::{
    CollectionEntry, EntangledCollection, EntangledPair, EntanglerState, COLLECTION_ENTRY_LEN,
    ENTANGLED_COLLECTION_LEN, ENTANGLED_PAIR_LEN, ENTANGLER_STATE_LEN,
};

fn addr(w0: u64, w1: u64, w2: u64, w3: u64) -> Address {
    Address::new(w0, w1, w2, w3)
}

#[test]
fn entangler_state_exact_bytes() {
    let s = EntanglerState {
        admin: addr(1, 0, 0, 0),
        earner: addr(2, 0, 0, 0),
        fee_mint: addr(3, 0, 0, 0),
        price: 258,
    };
    let v = encode_entangler_state(&s);
    assert_eq!(v.len(), ENTANGLER_STATE_LEN);
    let mut expected = vec![1u8, 0, 0, 0, 0, 0, 0, 0];
    expected.push(1);
    expected.extend(std::iter::repeat(0u8).take(31));
    expected.push(2);
    expected.extend(std::iter::repeat(0u8).take(31));
    expected.push(3);
    expected.extend(std::iter::repeat(0u8).take(31));
    // 258 = 0x0102 little-endian.
    expected.extend([2u8, 1, 0, 0, 0, 0, 0, 0]);
    assert_eq!(v, expected);
}

#[test]
fn entangler_state_round_trip() {
    let s = EntanglerState {
        admin: addr(u64::MAX, 7, 0, 1),
        earner: addr(5, 6, 7, 8),
        fee_mint: addr(9, 10, 11, 12),
        price: u64::MAX,
    };
    let v = encode_entangler_state(&s);
    assert_eq!(decode_entangler_state(&v), Some(s));
}

#[test]
fn entangler_state_decode_rejects_bad_images() {
    let s = EntanglerState {
        admin: addr(1, 2, 3, 4),
        earner: addr(5, 6, 7, 8),
        fee_mint: addr(9, 10, 11, 12),
        price: 4,
    };
    let v = encode_entangler_state(&s);
    // Truncated image.
    assert_eq!(decode_entangler_state(&v[..v.len() - 1]), None);
    // Wrong record-kind prefix.
    let mut w = v.clone();
    w[0] = 9;
    assert_eq!(decode_entangler_state(&w), None);
    // Dirty prefix padding.
    let mut w = v.clone();
    w[5] = 1;
    assert_eq!(decode_entangler_state(&w), None);
}

#[test]
fn entangled_collection_exact_bytes_and_round_trip() {
    let c = EntangledCollection {
        id: addr(4, 0, 0, 0),
        original_collection_mint: addr(5, 0, 0, 0),
        entangled_collection_mint: addr(6, 0, 0, 0),
        royalties: 500,
        one_way: true,
    };
    let v = encode_entangled_collection(&c);
    assert_eq!(v.len(), ENTANGLED_COLLECTION_LEN);
    assert_eq!(v[0], 2);
    assert_eq!(v[8], 4);
    assert_eq!(v[40], 5);
    assert_eq!(v[72], 6);
    // 500 = 0x01F4 little-endian.
    assert_eq!(v[104], 0xF4);
    assert_eq!(v[105], 0x01);
    assert_eq!(v[106], 1);
    assert_eq!(decode_entangled_collection(&v), Some(c));
}

#[test]
fn entangled_collection_two_way_flag_round_trip() {
    let c = EntangledCollection {
        id: addr(1, 2, 3, 4),
        original_collection_mint: addr(5, 6, 7, 8),
        entangled_collection_mint: addr(9, 10, 11, 12),
        royalties: 0,
        one_way: false,
    };
    let v = encode_entangled_collection(&c);
    assert_eq!(v[106], 0);
    assert_eq!(decode_entangled_collection(&v), Some(c));
    // Any flag byte other than 0 or 1 is refused.
    let mut w = v.clone();
    w[106] = 2;
    assert_eq!(decode_entangled_collection(&w), None);
}

#[test]
fn entangled_pair_exact_bytes_and_round_trip() {
    let p = EntangledPair {
        original_mint: addr(7, 0, 0, 0),
        entangled_mint: addr(8, 0, 0, 0),
    };
    let v = encode_entangled_pair(&p);
    assert_eq!(v.len(), ENTANGLED_PAIR_LEN);
    assert_eq!(v[0], 4);
    assert_eq!(v[8], 7);
    assert_eq!(v[40], 8);
    assert_eq!(decode_entangled_pair(&v), Some(p));
    // A pair image is not a collection image.
    assert_eq!(decode_entangled_collection(&v), None);
}

#[test]
fn collection_entry_exact_bytes_and_round_trip() {
    let e = CollectionEntry {
        id: addr(9, 0, 0, 0),
        key: "abc".as_bytes().to_vec(),
    };
    let v = encode_collection_entry(&e);
    assert_eq!(v.len(), 47);
    assert!(v.len() <= COLLECTION_ENTRY_LEN);
    assert_eq!(v[0], 3);
    assert_eq!(v[8], 9);
    // Key length 3, little-endian over 4 bytes, then the key itself.
    assert_eq!(&v[40..44], &[3, 0, 0, 0]);
    assert_eq!(&v[44..], "abc".as_bytes());
    let d = decode_collection_entry(&v).unwrap();
    assert_eq!(d.id, e.id);
    assert_eq!(d.key, e.key);
}

#[test]
fn collection_entry_empty_and_max_keys() {
    let e = CollectionEntry { id: addr(1, 2, 3, 4), key: Vec::new() };
    let v = encode_collection_entry(&e);
    assert_eq!(v.len(), 44);
    let d = decode_collection_entry(&v).unwrap();
    assert_eq!(d.key, Vec::<u8>::new());

    let e = CollectionEntry { id: addr(1, 2, 3, 4), key: vec![b'z'; 32] };
    let v = encode_collection_entry(&e);
    assert_eq!(v.len(), COLLECTION_ENTRY_LEN);
    let d = decode_collection_entry(&v).unwrap();
    assert_eq!(d.key, vec![b'z'; 32]);
}

#[test]
fn collection_entry_decode_rejects_bad_length_prefix() {
    let e = CollectionEntry {
        id: addr(9, 0, 0, 0),
        key: "abcd".as_bytes().to_vec(),
    };
    let mut v = encode_collection_entry(&e);
    // Length prefix does not match the actual key length.
    v[40] = 5;
    assert!(decode_collection_entry(&v).is_none());
    // A key longer than the maximum is refused even when consistent.
    let long = CollectionEntry { id: addr(9, 0, 0, 0), key: vec![b'a'; 32] };
    let mut w = encode_collection_entry(&long);
    w[40] = 33;
    w.push(b'a');
    assert!(decode_collection_entry(&w).is_none());
}

#[test]
fn address_bytes_round_trip() {
    let a = addr(0x0102030405060708, 9, 10, u64::MAX);
    let b = a.to_bytes();
    assert_eq!(b.len(), 32);
    // Little-endian within each word.
    assert_eq!(b[0], 8);
    assert_eq!(b[7], 1);
    assert_eq!(Address::from_bytes(&b), a);
}
