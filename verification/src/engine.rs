use crate::address::Address;
use crate::errors::EntangleError;
use crate::meta::{copy_bytes, CollectionLink, Creator, MetaEntry, TokenMetadata};
use crate::model::{
    find_collection, find_entry, find_meta, find_pair, lemma_create_collection_entry_wf,
    lemma_create_collection_wf, lemma_disentangle_wf, lemma_entangle_wf,
    lemma_find_collection_char, lemma_find_collection_is, lemma_find_entry_char,
    lemma_find_entry_is, lemma_find_meta_char, lemma_find_meta_is, lemma_find_pair_char,
    lemma_find_pair_is, lemma_initialize_pair_wf, lemma_burn_original_wf,
    lemma_set_entangler_state_wf, lemma_write_metadata_wf, EntanglerModel, PairState,
};
use crate::state::{valid_key, CollectionEntry, EntangledCollection, EntangledPair, EntanglerState};
use vstd::prelude::*;

verus! {

/// The custody engine: the registries of collections, pairs and lookup
/// entries, the vault slots of every live pair, the admin configuration and
/// the modeled external metadata registry, all keyed deterministically.
///
/// Every operation is a single all-or-nothing step: it either applies its
/// whole effect or returns an error and leaves the state untouched, exactly
/// as the corresponding transition of [`EntanglerModel`] says.
pub struct Entangler {
    authority: Address,
    state: Option<EntanglerState>,
    collections: Vec<EntangledCollection>,
    entries: Vec<CollectionEntry>,
    pairs: Vec<PairState>,
    metadata: Vec<MetaEntry>,
}

impl View for Entangler {
    type V = EntanglerModel;

    closed spec fn view(&self) -> EntanglerModel {
        EntanglerModel {
            authority: self.authority,
            state: self.state,
            collections: self.collections@,
            entries: self.entries@.map_values(|e: CollectionEntry| e@),
            pairs: self.pairs@,
            metadata: self.metadata@.map_values(|e: MetaEntry| e@),
        }
    }
}

impl Entangler {
    /// A fresh engine whose vault operations will be signed by `authority`,
    /// the derived signing identity.
    pub fn new(authority: Address) -> (r: Entangler)
        ensures
            r@ == EntanglerModel::init(authority),
            r@.wf(),
    {
        let r = Entangler {
            authority,
            state: None,
            collections: Vec::new(),
            entries: Vec::new(),
            pairs: Vec::new(),
            metadata: Vec::new(),
        };
        proof {
            assert(r@ =~= EntanglerModel::init(authority));
        }
        r
    }

    /// The derived authority this engine signs with.
    pub fn authority(&self) -> (r: Address)
        ensures
            r == self@.authority,
    {
        self.authority
    }

    /// The admin configuration, if one was set.
    pub fn entangler_state(&self) -> (r: Option<EntanglerState>)
        ensures
            r == self@.state,
    {
        self.state
    }

    /// The index of the collection registered under `id`.
    fn find_collection_index(&self, id: Address) -> (r: Option<usize>)
        ensures
            match r {
                Some(i) => find_collection(self@.collections, id) == Some(i as int),
                None => find_collection(self@.collections, id) is None,
            },
    {
        let mut i: usize = 0;
        while i < self.collections.len()
            invariant
                i <= self.collections@.len(),
                forall|j: int| 0 <= j < i ==> self.collections@[j].id != id,
            decreases self.collections@.len() - i,
        {
            if self.collections[i].id == id {
                proof {
                    lemma_find_collection_is(self@.collections, id, i as int);
                }
                return Some(i);
            }
            i = i + 1;
        }
        proof {
            lemma_find_collection_char(self@.collections, id);
            if let Some(k) = find_collection(self@.collections, id) {
                assert(self@.collections[k].id == id);
                assert(false);
            }
        }
        None
    }

    /// The index of the pair initialized for `original_mint`.
    fn find_pair_index(&self, original_mint: Address) -> (r: Option<usize>)
        ensures
            match r {
                Some(i) => find_pair(self@.pairs, original_mint) == Some(i as int),
                None => find_pair(self@.pairs, original_mint) is None,
            },
    {
        let mut i: usize = 0;
        while i < self.pairs.len()
            invariant
                i <= self.pairs@.len(),
                forall|j: int| 0 <= j < i ==> self.pairs@[j].pair.original_mint != original_mint,
            decreases self.pairs@.len() - i,
        {
            if self.pairs[i].pair.original_mint == original_mint {
                proof {
                    lemma_find_pair_is(self@.pairs, original_mint, i as int);
                }
                return Some(i);
            }
            i = i + 1;
        }
        proof {
            lemma_find_pair_char(self@.pairs, original_mint);
            if let Some(k) = find_pair(self@.pairs, original_mint) {
                assert(self@.pairs[k].pair.original_mint == original_mint);
                assert(false);
            }
        }
        None
    }

    /// The index of the metadata record describing `asset`.
    fn find_meta_index(&self, asset: Address) -> (r: Option<usize>)
        ensures
            match r {
                Some(i) => find_meta(self@.metadata, asset) == Some(i as int),
                None => find_meta(self@.metadata, asset) is None,
            },
    {
        let mut i: usize = 0;
        while i < self.metadata.len()
            invariant
                i <= self.metadata@.len(),
                forall|j: int| 0 <= j < i ==> self.metadata@[j]@.asset != asset,
            decreases self.metadata@.len() - i,
        {
            if self.metadata[i].asset == asset {
                proof {
                    lemma_find_meta_is(self@.metadata, asset, i as int);
                }
                return Some(i);
            }
            i = i + 1;
        }
        proof {
            lemma_find_meta_char(self@.metadata, asset);
            if let Some(k) = find_meta(self@.metadata, asset) {
                assert(self@.metadata[k].asset == asset);
                assert(false);
            }
        }
        None
    }

    /// The index of the lookup entry stored under `key`.
    fn find_entry_index(&self, key: &Vec<u8>) -> (r: Option<usize>)
        ensures
            match r {
                Some(i) => find_entry(self@.entries, key@) == Some(i as int),
                None => find_entry(self@.entries, key@) is None,
            },
    {
        let mut i: usize = 0;
        while i < self.entries.len()
            invariant
                i <= self.entries@.len(),
                forall|j: int| 0 <= j < i ==> self.entries@[j]@.key != key@,
            decreases self.entries@.len() - i,
        {
            if eq_bytes(&self.entries[i].key, key) {
                proof {
                    lemma_find_entry_is(self@.entries, key@, i as int);
                }
                return Some(i);
            }
            i = i + 1;
        }
        proof {
            lemma_find_entry_char(self@.entries, key@);
            if let Some(k) = find_entry(self@.entries, key@) {
                assert(self@.entries[k].key == key@);
                assert(false);
            }
        }
        None
    }

    /// The collection registered under `id`, if any.
    pub fn collection(&self, id: Address) -> (r: Option<EntangledCollection>)
        ensures
            r == self@.collection_of(id),
    {
        match self.find_collection_index(id) {
            Some(i) => {
                proof {
                    lemma_find_collection_char(self@.collections, id);
                }
                Some(self.collections[i])
            },
            None => None,
        }
    }

    /// The custody state of the pair initialized for `original_mint`, if
    /// any.
    pub fn pair_state(&self, original_mint: Address) -> (r: Option<PairState>)
        ensures
            r == self@.pair_of(original_mint),
    {
        match self.find_pair_index(original_mint) {
            Some(i) => {
                proof {
                    lemma_find_pair_char(self@.pairs, original_mint);
                }
                Some(self.pairs[i])
            },
            None => None,
        }
    }

    /// The collection id a lookup key resolves to, if the key was
    /// registered.
    pub fn collection_entry(&self, key: &Vec<u8>) -> (r: Option<Address>)
        ensures
            match find_entry(self@.entries, key@) {
                Some(i) => r == Some(self@.entries[i].id),
                None => r is None,
            },
    {
        match self.find_entry_index(key) {
            Some(i) => {
                proof {
                    lemma_find_entry_char(self@.entries, key@);
                }
                Some(self.entries[i].id)
            },
            None => None,
        }
    }

    /// The metadata recorded for `asset`, if any: the read half of the
    /// modeled external metadata registry.
    pub fn read_metadata(&self, asset: Address) -> (r: Option<TokenMetadata>)
        ensures
            match r {
                Some(d) => self@.meta_of(asset) == Some(d@),
                None => self@.meta_of(asset) is None,
            },
    {
        match self.find_meta_index(asset) {
            Some(i) => {
                proof {
                    lemma_find_meta_char(self@.metadata, asset);
                }
                Some(self.metadata[i].metadata.duplicate())
            },
            None => None,
        }
    }

    /// Records metadata for an asset the engine has not seen yet: the write
    /// half of the modeled external metadata registry, and the way
    /// pre-existing original assets become visible to the engine.
    pub fn write_metadata(&mut self, asset: Address, data: TokenMetadata) -> (r: Result<
        (),
        EntangleError,
    >)
        requires
            old(self)@.wf(),
        ensures
            final(self)@ == old(self)@.write_metadata_spec(asset, data@).0,
            r == old(self)@.write_metadata_spec(asset, data@).1,
            final(self)@.wf(),
    {
        proof {
            lemma_write_metadata_wf(old(self)@, asset, data@);
        }
        let ghost m = self@;
        match self.find_meta_index(asset) {
            Some(_) => Err(EntangleError::DuplicateInitialization),
            None => {
                self.metadata.push(MetaEntry { asset, metadata: data });
                proof {
                    assert(self@ =~= m.write_metadata_spec(asset, data@).0);
                }
                Ok(())
            },
        }
    }

    /// Sets or updates the admin configuration. Allowed for the current
    /// admin, and for anyone while no admin is set (no configuration yet,
    /// or an all-zero admin).
    pub fn set_entangler_state(
        &mut self,
        caller: Address,
        admin: Address,
        earner: Address,
        fee_mint: Address,
        price: u64,
    ) -> (r: Result<(), EntangleError>)
        requires
            old(self)@.wf(),
        ensures
            final(self)@ == old(self)@.set_entangler_state_spec(
                caller,
                admin,
                earner,
                fee_mint,
                price,
            ).0,
            r == old(self)@.set_entangler_state_spec(caller, admin, earner, fee_mint, price).1,
            final(self)@.wf(),
    {
        proof {
            lemma_set_entangler_state_wf(old(self)@, caller, admin, earner, fee_mint, price);
        }
        let ghost m = self@;
        let allowed = match &self.state {
            None => true,
            Some(st) => caller == st.admin || st.admin == Address::zero(),
        };
        if !allowed {
            Err(EntangleError::AuthorizationError)
        } else {
            self.state = Some(EntanglerState { admin, earner, fee_mint, price });
            proof {
                assert(self@ =~= m.set_entangler_state_spec(caller, admin, earner, fee_mint, price).0);
            }
            Ok(())
        }
    }
    /// Registers a collection under `id`: mints one unit of the mirror
    /// collection asset `entangled_collection_mint` into a holding account
    /// of the royalty recipient `creator`, clones the original collection's
    /// descriptive metadata onto it with the chosen royalty rate, and
    /// creates the collection record. A second registration under the same
    /// `id` fails with `DuplicateInitialization` rather than overwrite.
    pub fn create_collection(
        &mut self,
        id: Address,
        original_collection_mint: Address,
        entangled_collection_mint: Address,
        creator: Address,
        royalties: u16,
        one_way: bool,
    ) -> (r: Result<EntangledCollection, EntangleError>)
        requires
            old(self)@.wf(),
        ensures
            final(self)@ == old(self)@.create_collection_spec(
                id,
                original_collection_mint,
                entangled_collection_mint,
                creator,
                royalties,
                one_way,
            ).0,
            r == old(self)@.create_collection_spec(
                id,
                original_collection_mint,
                entangled_collection_mint,
                creator,
                royalties,
                one_way,
            ).1,
            final(self)@.wf(),
    {
        proof {
            lemma_create_collection_wf(
                old(self)@,
                id,
                original_collection_mint,
                entangled_collection_mint,
                creator,
                royalties,
                one_way,
            );
        }
        let ghost m = self@;
        if self.find_collection_index(id).is_some() {
            return Err(EntangleError::DuplicateInitialization);
        }
        let oi = match self.find_meta_index(original_collection_mint) {
            None => {
                return Err(EntangleError::ResourceUnavailable);
            },
            Some(oi) => oi,
        };
        proof {
            lemma_find_meta_char(m.metadata, original_collection_mint);
        }
        if self.find_meta_index(entangled_collection_mint).is_some() {
            return Err(EntangleError::DuplicateInitialization);
        }
        let rec = EntangledCollection {
            id,
            original_collection_mint,
            entangled_collection_mint,
            royalties,
            one_way,
        };
        let mut creators: Vec<Creator> = Vec::new();
        creators.push(Creator { address: self.authority, verified: true, share: 0 });
        creators.push(Creator { address: creator, verified: false, share: 100 });
        proof {
            assert(creators@ =~= seq![
                Creator { address: m.authority, verified: true, share: 0 },
                Creator { address: creator, verified: false, share: 100 },
            ]);
        }
        let mirror = TokenMetadata {
            name: copy_bytes(&self.metadata[oi].metadata.name),
            symbol: copy_bytes(&self.metadata[oi].metadata.symbol),
            uri: copy_bytes(&self.metadata[oi].metadata.uri),
            seller_fee_basis_points: royalties,
            creators,
            collection: None,
        };
        self.collections.push(rec);
        self.metadata.push(MetaEntry { asset: entangled_collection_mint, metadata: mirror });
        proof {
            assert(self@ =~= m.create_collection_spec(
                id,
                original_collection_mint,
                entangled_collection_mint,
                creator,
                royalties,
                one_way,
            ).0);
        }
        Ok(rec)
    }

    /// Registers a lookup entry mapping `key` to the collection `id` and
    /// returns the fee owed for it, which the host transfers from the
    /// caller to the configured earner in the configured fee mint.
    pub fn create_collection_entry(&mut self, id: Address, key: Vec<u8>) -> (r: Result<
        u64,
        EntangleError,
    >)
        requires
            old(self)@.wf(),
            valid_key(key@),
        ensures
            final(self)@ == old(self)@.create_collection_entry_spec(id, key@).0,
            r == old(self)@.create_collection_entry_spec(id, key@).1,
            final(self)@.wf(),
    {
        proof {
            lemma_create_collection_entry_wf(old(self)@, id, key@);
        }
        let ghost m = self@;
        let price = match &self.state {
            None => {
                return Err(EntangleError::ResourceUnavailable);
            },
            Some(st) => st.price,
        };
        if self.find_collection_index(id).is_none() {
            return Err(EntangleError::ResourceUnavailable);
        }
        if self.find_entry_index(&key).is_some() {
            return Err(EntangleError::DuplicateInitialization);
        }
        let ghost key_bytes = key@;
        self.entries.push(CollectionEntry { id, key });
        proof {
            assert(self@ =~= m.create_collection_entry_spec(id, key_bytes).0);
        }
        Ok(price)
    }

    /// Initializes the pair for `original_mint` under the collection `id`:
    /// checks the asset's recorded membership in the original collection,
    /// mints one unit of the fresh mirror asset `entangled_mint` straight
    /// into the vault's mirror-side escrow slot, clones the original's
    /// descriptive metadata onto the mirror with a verified membership in
    /// the mirror collection, and creates the pair record. `holder` is the
    /// wallet currently holding the original asset's unit; afterwards it
    /// still does, and a first `entangle` will swap it for the mirror.
    pub fn initialize_pair(
        &mut self,
        id: Address,
        original_mint: Address,
        entangled_mint: Address,
        holder: Address,
    ) -> (r: Result<EntangledPair, EntangleError>)
        requires
            old(self)@.wf(),
        ensures
            final(self)@ == old(self)@.initialize_pair_spec(
                id,
                original_mint,
                entangled_mint,
                holder,
            ).0,
            r == old(self)@.initialize_pair_spec(id, original_mint, entangled_mint, holder).1,
            final(self)@.wf(),
    {
        proof {
            lemma_initialize_pair_wf(old(self)@, id, original_mint, entangled_mint, holder);
        }
        let ghost m = self@;
        if self.find_pair_index(original_mint).is_some() {
            return Err(EntangleError::DuplicateInitialization);
        }
        let ci = match self.find_collection_index(id) {
            None => {
                return Err(EntangleError::ResourceUnavailable);
            },
            Some(ci) => ci,
        };
        proof {
            lemma_find_collection_char(m.collections, id);
        }
        let col = self.collections[ci];
        let oi = match self.find_meta_index(original_mint) {
            None => {
                return Err(EntangleError::ResourceUnavailable);
            },
            Some(oi) => oi,
        };
        proof {
            lemma_find_meta_char(m.metadata, original_mint);
        }
        let l = match self.metadata[oi].metadata.collection {
            None => {
                return Err(EntangleError::MembershipMismatch);
            },
            Some(l) => l,
        };
        if l.key != col.original_collection_mint {
            return Err(EntangleError::MembershipMismatch);
        }
        if self.find_meta_index(entangled_mint).is_some() {
            return Err(EntangleError::DuplicateInitialization);
        }
        let cmi = match self.find_meta_index(col.entangled_collection_mint) {
            None => {
                return Err(EntangleError::ResourceUnavailable);
            },
            Some(cmi) => cmi,
        };
        proof {
            lemma_find_meta_char(m.metadata, col.entangled_collection_mint);
        }
        if self.metadata[cmi].metadata.creators.len() < 2 {
            return Err(EntangleError::ResourceUnavailable);
        }
        let creator = self.metadata[cmi].metadata.creators[1].address;
        let mut creators: Vec<Creator> = Vec::new();
        creators.push(Creator { address: self.authority, verified: false, share: 0 });
        creators.push(Creator { address: creator, verified: false, share: 100 });
        proof {
            assert(creators@ =~= seq![
                Creator { address: m.authority, verified: false, share: 0 },
                Creator { address: creator, verified: false, share: 100 },
            ]);
        }
        let mirror = TokenMetadata {
            name: copy_bytes(&self.metadata[oi].metadata.name),
            symbol: copy_bytes(&self.metadata[oi].metadata.symbol),
            uri: copy_bytes(&self.metadata[oi].metadata.uri),
            seller_fee_basis_points: col.royalties,
            creators,
            collection: Some(
                CollectionLink { key: col.entangled_collection_mint, verified: true },
            ),
        };
        let pair = EntangledPair { original_mint, entangled_mint };
        let ps = PairState {
            collection_id: id,
            pair,
            holder,
            user_original: 1,
            user_mirror: 0,
            vault_original: 0,
            vault_mirror: 1,
        };
        self.pairs.push(ps);
        self.metadata.push(MetaEntry { asset: entangled_mint, metadata: mirror });
        proof {
            assert(self@ =~= m.initialize_pair_spec(id, original_mint, entangled_mint, holder).0);
        }
        Ok(pair)
    }

    /// Swaps the original into escrow and releases the escrowed mirror:
    /// moves 1 unit of the original asset from the caller into the vault's
    /// original-side slot, then, signing as the derived authority, moves
    /// the pre-escrowed mirror unit to the caller. Fails if the caller does
    /// not hold exactly 1 unit of the original, or if the vault's
    /// mirror-side slot does not hold exactly 1 unit.
    pub fn entangle(&mut self, caller: Address, original_mint: Address) -> (r: Result<
        (),
        EntangleError,
    >)
        requires
            old(self)@.wf(),
        ensures
            final(self)@ == old(self)@.entangle_spec(caller, original_mint).0,
            r == old(self)@.entangle_spec(caller, original_mint).1,
            final(self)@.wf(),
    {
        proof {
            lemma_entangle_wf(old(self)@, caller, original_mint);
        }
        let ghost m = self@;
        match self.find_pair_index(original_mint) {
            None => Err(EntangleError::ResourceUnavailable),
            Some(i) => {
                proof {
                    lemma_find_pair_char(m.pairs, original_mint);
                }
                let p = self.pairs[i];
                if caller != p.holder || p.user_original != 1 {
                    Err(EntangleError::AuthorizationError)
                } else if p.vault_mirror != 1 {
                    Err(EntangleError::StateInconsistency)
                } else {
                    let q = PairState {
                        user_original: 0,
                        vault_original: 1,
                        user_mirror: 1,
                        vault_mirror: 0,
                        ..p
                    };
                    self.pairs[i] = q;
                    proof {
                        assert(self@ =~= m.entangle_spec(caller, original_mint).0);
                    }
                    Ok(())
                }
            },
        }
    }

    /// Swaps the mirror back into escrow and releases the escrowed
    /// original, signing as the derived authority. Valid only on a two-way
    /// collection; on a one-way collection it fails with
    /// `IrreversibleCollection` regardless of custody state.
    pub fn disentangle(&mut self, caller: Address, original_mint: Address) -> (r: Result<
        (),
        EntangleError,
    >)
        requires
            old(self)@.wf(),
        ensures
            final(self)@ == old(self)@.disentangle_spec(caller, original_mint).0,
            r == old(self)@.disentangle_spec(caller, original_mint).1,
            final(self)@.wf(),
    {
        proof {
            lemma_disentangle_wf(old(self)@, caller, original_mint);
        }
        let ghost m = self@;
        match self.find_pair_index(original_mint) {
            None => Err(EntangleError::ResourceUnavailable),
            Some(i) => {
                proof {
                    lemma_find_pair_char(m.pairs, original_mint);
                }
                let p = self.pairs[i];
                match self.find_collection_index(p.collection_id) {
                    None => Err(EntangleError::StateInconsistency),
                    Some(ci) => {
                        proof {
                            lemma_find_collection_char(m.collections, p.collection_id);
                        }
                        let col = self.collections[ci];
                        if col.one_way {
                            Err(EntangleError::IrreversibleCollection)
                        } else if caller != p.holder || p.user_mirror != 1 {
                            Err(EntangleError::AuthorizationError)
                        } else if p.vault_original != 1 {
                            Err(EntangleError::StateInconsistency)
                        } else {
                            let q = PairState {
                                user_original: 1,
                                vault_original: 0,
                                user_mirror: 0,
                                vault_mirror: 1,
                                ..p
                            };
                            self.pairs[i] = q;
                            proof {
                                assert(self@ =~= m.disentangle_spec(caller, original_mint).0);
                            }
                            Ok(())
                        }
                    },
                }
            },
        }
    }

    /// Permanently collapses the pair of `original_mint`: burns the
    /// escrowed original unit, signing as the derived authority, erases the
    /// asset's metadata and closes the pair record. The caller keeps the
    /// mirror for good; nothing can redeem it again. Offered only on
    /// two-way collections, whose reversibility it forecloses for this one
    /// pair.
    pub fn burn_original(&mut self, caller: Address, original_mint: Address) -> (r: Result<
        (),
        EntangleError,
    >)
        requires
            old(self)@.wf(),
        ensures
            final(self)@ == old(self)@.burn_original_spec(caller, original_mint).0,
            r == old(self)@.burn_original_spec(caller, original_mint).1,
            final(self)@.wf(),
    {
        proof {
            lemma_burn_original_wf(old(self)@, caller, original_mint);
        }
        let ghost m = self@;
        match self.find_pair_index(original_mint) {
            None => Err(EntangleError::ResourceUnavailable),
            Some(i) => {
                proof {
                    lemma_find_pair_char(m.pairs, original_mint);
                }
                let p = self.pairs[i];
                match self.find_collection_index(p.collection_id) {
                    None => Err(EntangleError::StateInconsistency),
                    Some(ci) => {
                        proof {
                            lemma_find_collection_char(m.collections, p.collection_id);
                        }
                        let col = self.collections[ci];
                        if col.one_way {
                            Err(EntangleError::IrreversibleCollection)
                        } else if caller != p.holder || p.user_mirror != 1 {
                            Err(EntangleError::AuthorizationError)
                        } else if p.vault_original != 1 {
                            Err(EntangleError::StateInconsistency)
                        } else {
                            self.pairs.remove(i);
                            match self.find_meta_index(original_mint) {
                                Some(j) => {
                                    proof {
                                        lemma_find_meta_char(m.metadata, original_mint);
                                    }
                                    self.metadata.remove(j);
                                },
                                None => {},
                            }
                            proof {
                                assert(self@ =~= m.burn_original_spec(caller, original_mint).0);
                            }
                            Ok(())
                        }
                    },
                }
            },
        }
    }
}

/// Whether two byte vectors hold the same bytes.
pub fn eq_bytes(a: &Vec<u8>, b: &Vec<u8>) -> (r: bool)
    ensures
        r == (a@ == b@),
{
    if a.len() != b.len() {
        return false;
    }
    let mut i: usize = 0;
    while i < a.len()
        invariant
            i <= a@.len(),
            a@.len() == b@.len(),
            forall|j: int| 0 <= j < i ==> a@[j] == b@[j],
        decreases a@.len() - i,
    {
        if a[i] != b[i] {
            return false;
        }
        i = i + 1;
    }
    proof {
        assert(a@ =~= b@);
    }
    true
}

} // verus!
