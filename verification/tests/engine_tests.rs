use entangler::address::Address;
use entangler::engine::Entangler;
use entangler::errors::EntangleError;
use entangler::meta::{CollectionLink, Creator, TokenMetadata};
use entangler::state::check_key;

fn addr(n: u64) -> Address {
    Address::new(n, 0, 0, 0)
}

fn plain_metadata(name: &str, symbol: &str, uri: &str) -> TokenMetadata {
    TokenMetadata {
        name: name.as_bytes().to_vec(),
        symbol: symbol.as_bytes().to_vec(),
        uri: uri.as_bytes().to_vec(),
        seller_fee_basis_points: 0,
        creators: Vec::new(),
        collection: None,
    }
}

fn member_metadata(name: &str, collection_mint: Address) -> TokenMetadata {
    TokenMetadata {
        name: name.as_bytes().to_vec(),
        symbol: "SYM".as_bytes().to_vec(),
        uri: "uri://asset".as_bytes().to_vec(),
        seller_fee_basis_points: 0,
        creators: Vec::new(),
        collection: Some(CollectionLink { key: collection_mint, verified: true }),
    }
}

const AUTHORITY: u64 = 900;
const ORIG_COL: u64 = 10;
const MIRROR_COL: u64 = 11;
const CREATOR: u64 = 12;
const C1: u64 = 1;
const A1: u64 = 21;
const M1: u64 = 22;
const USER: u64 = 33;

fn engine_with_collection(one_way: bool) -> Entangler {
    let mut e = Entangler::new(addr(AUTHORITY));
    e.write_metadata(addr(ORIG_COL), plain_metadata("Originals", "ORG", "uri://col"))
        .unwrap();
    e.create_collection(addr(C1), addr(ORIG_COL), addr(MIRROR_COL), addr(CREATOR), 500, one_way)
        .unwrap();
    e.write_metadata(addr(A1), member_metadata("Asset One", addr(ORIG_COL)))
        .unwrap();
    e
}

#[test]
fn scenario_register_pair_swap_lock() {
    // Register collection C1 with royalty_bps = 500, one_way = false.
    let mut e = engine_with_collection(false);
    let col = e.collection(addr(C1)).unwrap();
    assert_eq!(col.id, addr(C1));
    assert_eq!(col.original_collection_mint, addr(ORIG_COL));
    assert_eq!(col.entangled_collection_mint, addr(MIRROR_COL));
    assert_eq!(col.royalties, 500);
    assert!(!col.one_way);

    // Initialize the pair for A1: mirror M1 is minted straight to the vault.
    let pair = e
        .initialize_pair(addr(C1), addr(A1), addr(M1), addr(USER))
        .unwrap();
    assert_eq!(pair.original_mint, addr(A1));
    assert_eq!(pair.entangled_mint, addr(M1));
    let p = e.pair_state(addr(A1)).unwrap();
    assert_eq!(p.holder, addr(USER));
    assert_eq!(p.user_original, 1);
    assert_eq!(p.user_mirror, 0);
    assert_eq!(p.vault_original, 0);
    assert_eq!(p.vault_mirror, 1);

    // entangle(A1): the caller now holds 1 unit of M1, the vault holds A1.
    e.entangle(addr(USER), addr(A1)).unwrap();
    let p = e.pair_state(addr(A1)).unwrap();
    assert_eq!(p.user_original, 0);
    assert_eq!(p.user_mirror, 1);
    assert_eq!(p.vault_original, 1);
    assert_eq!(p.vault_mirror, 0);

    // disentangle(A1): the caller holds A1 again, the vault holds M1.
    e.disentangle(addr(USER), addr(A1)).unwrap();
    let p = e.pair_state(addr(A1)).unwrap();
    assert_eq!(p.holder, addr(USER));
    assert_eq!(p.user_original, 1);
    assert_eq!(p.user_mirror, 0);
    assert_eq!(p.vault_original, 0);
    assert_eq!(p.vault_mirror, 1);

    // entangle again, then lock: A1's escrowed unit is burned, the pair
    // record is closed and the caller keeps M1 with no further redemption.
    e.entangle(addr(USER), addr(A1)).unwrap();
    e.burn_original(addr(USER), addr(A1)).unwrap();
    assert!(e.pair_state(addr(A1)).is_none());
    assert!(e.read_metadata(addr(A1)).is_none());
    assert_eq!(
        e.entangle(addr(USER), addr(A1)),
        Err(EntangleError::ResourceUnavailable)
    );
    assert_eq!(
        e.disentangle(addr(USER), addr(A1)),
        Err(EntangleError::ResourceUnavailable)
    );
    assert_eq!(
        e.burn_original(addr(USER), addr(A1)),
        Err(EntangleError::ResourceUnavailable)
    );
}

#[test]
fn round_trip_restores_custody_exactly() {
    let mut e = engine_with_collection(false);
    e.initialize_pair(addr(C1), addr(A1), addr(M1), addr(USER))
        .unwrap();
    let before = e.pair_state(addr(A1)).unwrap();
    e.entangle(addr(USER), addr(A1)).unwrap();
    e.disentangle(addr(USER), addr(A1)).unwrap();
    let after = e.pair_state(addr(A1)).unwrap();
    assert_eq!(before, after);
}

#[test]
fn duplicate_collection_rejected() {
    let mut e = engine_with_collection(false);
    // A second registration under the same id fails even with other
    // arguments, and the record keeps its first contents.
    let r = e.create_collection(addr(C1), addr(ORIG_COL), addr(77), addr(78), 100, true);
    assert_eq!(r, Err(EntangleError::DuplicateInitialization));
    let col = e.collection(addr(C1)).unwrap();
    assert_eq!(col.entangled_collection_mint, addr(MIRROR_COL));
    assert_eq!(col.royalties, 500);
    assert!(!col.one_way);
}

#[test]
fn duplicate_pair_rejected() {
    let mut e = engine_with_collection(false);
    e.initialize_pair(addr(C1), addr(A1), addr(M1), addr(USER))
        .unwrap();
    let before = e.pair_state(addr(A1)).unwrap();
    // The second initialization fails whatever the other arguments are,
    // and the pair record and vault state are unchanged.
    let r = e.initialize_pair(addr(C1), addr(A1), addr(88), addr(89));
    assert_eq!(r, Err(EntangleError::DuplicateInitialization));
    assert_eq!(e.pair_state(addr(A1)).unwrap(), before);
}

#[test]
fn duplicate_mirror_mint_rejected() {
    let mut e = engine_with_collection(false);
    e.initialize_pair(addr(C1), addr(A1), addr(M1), addr(USER))
        .unwrap();
    // A second original may not reuse an existing mirror mint.
    let a2: u64 = 55;
    e.write_metadata(addr(a2), member_metadata("Asset Two", addr(ORIG_COL)))
        .unwrap();
    let r = e.initialize_pair(addr(C1), addr(a2), addr(M1), addr(USER));
    assert_eq!(r, Err(EntangleError::DuplicateInitialization));
}

#[test]
fn one_way_collection_blocks_disentangle() {
    let mut e = engine_with_collection(true);
    e.initialize_pair(addr(C1), addr(A1), addr(M1), addr(USER))
        .unwrap();
    // Regardless of custody state: before the first swap...
    assert_eq!(
        e.disentangle(addr(USER), addr(A1)),
        Err(EntangleError::IrreversibleCollection)
    );
    // ... after it ...
    e.entangle(addr(USER), addr(A1)).unwrap();
    assert_eq!(
        e.disentangle(addr(USER), addr(A1)),
        Err(EntangleError::IrreversibleCollection)
    );
    // ... and whoever calls.
    assert_eq!(
        e.disentangle(addr(77), addr(A1)),
        Err(EntangleError::IrreversibleCollection)
    );
    // Locking is offered on two-way collections only.
    assert_eq!(
        e.burn_original(addr(USER), addr(A1)),
        Err(EntangleError::IrreversibleCollection)
    );
}

#[test]
fn membership_mismatch_rejected() {
    let mut e = engine_with_collection(false);
    // An asset whose recorded collection is not the original collection.
    let stray: u64 = 60;
    e.write_metadata(addr(stray), member_metadata("Stray", addr(61)))
        .unwrap();
    assert_eq!(
        e.initialize_pair(addr(C1), addr(stray), addr(62), addr(USER)),
        Err(EntangleError::MembershipMismatch)
    );
    // An asset with no recorded collection at all.
    let loose: u64 = 63;
    e.write_metadata(addr(loose), plain_metadata("Loose", "L", "uri://l"))
        .unwrap();
    assert_eq!(
        e.initialize_pair(addr(C1), addr(loose), addr(64), addr(USER)),
        Err(EntangleError::MembershipMismatch)
    );
}

#[test]
fn missing_resources_rejected() {
    let mut e = Entangler::new(addr(AUTHORITY));
    // Registering a collection whose original has no readable metadata.
    assert_eq!(
        e.create_collection(addr(C1), addr(ORIG_COL), addr(MIRROR_COL), addr(CREATOR), 500, false),
        Err(EntangleError::ResourceUnavailable)
    );
    // Initializing a pair under an unregistered collection.
    assert_eq!(
        e.initialize_pair(addr(C1), addr(A1), addr(M1), addr(USER)),
        Err(EntangleError::ResourceUnavailable)
    );
    // Initializing a pair whose original has no readable metadata.
    e.write_metadata(addr(ORIG_COL), plain_metadata("Originals", "ORG", "uri://col"))
        .unwrap();
    e.create_collection(addr(C1), addr(ORIG_COL), addr(MIRROR_COL), addr(CREATOR), 500, false)
        .unwrap();
    assert_eq!(
        e.initialize_pair(addr(C1), addr(A1), addr(M1), addr(USER)),
        Err(EntangleError::ResourceUnavailable)
    );
    // Swapping an asset that has no pair.
    assert_eq!(
        e.entangle(addr(USER), addr(A1)),
        Err(EntangleError::ResourceUnavailable)
    );
}

#[test]
fn mirror_mint_must_be_fresh() {
    let mut e = engine_with_collection(false);
    // The mirror collection mint already carries metadata, so it cannot be
    // reused as a fresh mirror collection for another registration.
    let r = e.create_collection(addr(2), addr(ORIG_COL), addr(MIRROR_COL), addr(CREATOR), 1, false);
    assert_eq!(r, Err(EntangleError::DuplicateInitialization));
    // Nor can it serve as the mirror mint of a pair.
    let r = e.initialize_pair(addr(C1), addr(A1), addr(MIRROR_COL), addr(USER));
    assert_eq!(r, Err(EntangleError::DuplicateInitialization));
}

#[test]
fn entangle_requires_custody() {
    let mut e = engine_with_collection(false);
    e.initialize_pair(addr(C1), addr(A1), addr(M1), addr(USER))
        .unwrap();
    // A caller who does not hold the original unit cannot entangle.
    assert_eq!(
        e.entangle(addr(77), addr(A1)),
        Err(EntangleError::AuthorizationError)
    );
    // Disentangle before any entanglement: the caller holds no mirror.
    assert_eq!(
        e.disentangle(addr(USER), addr(A1)),
        Err(EntangleError::AuthorizationError)
    );
    e.entangle(addr(USER), addr(A1)).unwrap();
    // A second entangle finds the caller without the original unit.
    assert_eq!(
        e.entangle(addr(USER), addr(A1)),
        Err(EntangleError::AuthorizationError)
    );
    // Locking requires holding the mirror unit.
    assert_eq!(
        e.burn_original(addr(77), addr(A1)),
        Err(EntangleError::AuthorizationError)
    );
}

#[test]
fn mirror_metadata_cloned_from_original() {
    let mut e = engine_with_collection(false);
    let col_meta = e.read_metadata(addr(MIRROR_COL)).unwrap();
    assert_eq!(col_meta.name, "Originals".as_bytes().to_vec());
    assert_eq!(col_meta.symbol, "ORG".as_bytes().to_vec());
    assert_eq!(col_meta.uri, "uri://col".as_bytes().to_vec());
    assert_eq!(col_meta.seller_fee_basis_points, 500);
    assert_eq!(col_meta.creators.len(), 2);
    assert_eq!(
        col_meta.creators[0],
        Creator { address: addr(AUTHORITY), verified: true, share: 0 }
    );
    assert_eq!(
        col_meta.creators[1],
        Creator { address: addr(CREATOR), verified: false, share: 100 }
    );
    assert!(col_meta.collection.is_none());

    e.initialize_pair(addr(C1), addr(A1), addr(M1), addr(USER))
        .unwrap();
    let m = e.read_metadata(addr(M1)).unwrap();
    assert_eq!(m.name, "Asset One".as_bytes().to_vec());
    assert_eq!(m.seller_fee_basis_points, 500);
    assert_eq!(m.creators.len(), 2);
    assert_eq!(
        m.creators[0],
        Creator { address: addr(AUTHORITY), verified: false, share: 0 }
    );
    // The royalty recipient is read from the mirror collection's creator
    // list, not taken from the caller.
    assert_eq!(m.creators[1].address, addr(CREATOR));
    assert_eq!(
        m.collection,
        Some(CollectionLink { key: addr(MIRROR_COL), verified: true })
    );
}

#[test]
fn set_entangler_state_admin_rules() {
    let mut e = Entangler::new(addr(AUTHORITY));
    // Anyone may configure while nothing is set.
    e.set_entangler_state(addr(1), addr(2), addr(3), addr(4), 10)
        .unwrap();
    let st = e.entangler_state().unwrap();
    assert_eq!(st.admin, addr(2));
    assert_eq!(st.earner, addr(3));
    assert_eq!(st.fee_mint, addr(4));
    assert_eq!(st.price, 10);
    // Only the admin may reconfigure.
    assert_eq!(
        e.set_entangler_state(addr(5), addr(5), addr(5), addr(5), 11),
        Err(EntangleError::AuthorizationError)
    );
    e.set_entangler_state(addr(2), Address::zero(), addr(6), addr(7), 12)
        .unwrap();
    // An all-zero admin opens configuration to anyone again.
    e.set_entangler_state(addr(8), addr(8), addr(8), addr(8), 13)
        .unwrap();
    assert_eq!(e.entangler_state().unwrap().admin, addr(8));
}

#[test]
fn collection_entry_fee_and_uniqueness() {
    let mut e = engine_with_collection(false);
    let key = "my_collection_1".as_bytes().to_vec();
    assert!(check_key(&key));
    // Without the admin state the fee cannot be charged.
    assert_eq!(
        e.create_collection_entry(addr(C1), key.clone()),
        Err(EntangleError::ResourceUnavailable)
    );
    e.set_entangler_state(addr(1), addr(1), addr(2), addr(3), 42)
        .unwrap();
    // An unknown collection cannot be referenced.
    assert_eq!(
        e.create_collection_entry(addr(99), key.clone()),
        Err(EntangleError::ResourceUnavailable)
    );
    // The configured price is returned as the fee owed.
    assert_eq!(e.create_collection_entry(addr(C1), key.clone()), Ok(42));
    assert_eq!(e.collection_entry(&key), Some(addr(C1)));
    // The same key cannot be registered twice.
    assert_eq!(
        e.create_collection_entry(addr(C1), key.clone()),
        Err(EntangleError::DuplicateInitialization)
    );
}

#[test]
fn collection_entry_key_of_max_size() {
    let mut e = engine_with_collection(false);
    e.set_entangler_state(addr(1), addr(1), addr(2), addr(3), 7)
        .unwrap();
    let key = vec![b'a'; 32];
    assert!(check_key(&key));
    assert_eq!(e.create_collection_entry(addr(C1), key.clone()), Ok(7));
    assert_eq!(e.collection_entry(&key), Some(addr(C1)));
}

#[test]
fn check_key_rejects_bad_keys() {
    assert!(check_key(&"abc_XYZ_019".as_bytes().to_vec()));
    assert!(!check_key(&vec![b'a'; 33]));
    assert!(!check_key(&"with space".as_bytes().to_vec()));
    assert!(!check_key(&"dash-ed".as_bytes().to_vec()));
    assert!(check_key(&Vec::new()));
}

#[test]
fn duplicate_metadata_write_rejected() {
    let mut e = Entangler::new(addr(AUTHORITY));
    e.write_metadata(addr(1), plain_metadata("A", "A", "a")).unwrap();
    assert_eq!(
        e.write_metadata(addr(1), plain_metadata("B", "B", "b")),
        Err(EntangleError::DuplicateInitialization)
    );
    let m = e.read_metadata(addr(1)).unwrap();
    assert_eq!(m.name, "A".as_bytes().to_vec());
}

#[test]
fn error_descriptions_are_distinct() {
    let kinds = [
        EntangleError::DuplicateInitialization,
        EntangleError::MembershipMismatch,
        EntangleError::AuthorizationError,
        EntangleError::IrreversibleCollection,
        EntangleError::StateInconsistency,
        EntangleError::ResourceUnavailable,
    ];
    for i in 0..kinds.len() {
        assert!(!kinds[i].describe().is_empty());
        for j in 0..i {
            assert_ne!(kinds[i].describe(), kinds[j].describe());
        }
    }
}
