use crate::address::Address;
use crate::errors::EntangleError;
use crate::meta::{CollectionLink, Creator, MetaEntryModel, TokenMetadataModel};
use crate::state::{CollectionEntryModel, EntangledCollection, EntangledPair, EntanglerState};
use vstd::prelude::*;

verus! {

/// The live custody state of one pair: the record itself, the collection it
/// belongs to, the wallet currently holding the circulating representation,
/// and the unit counts of the user side and the two vault escrow slots.
#[derive(Clone, Copy, PartialEq, Eq, Structural, Debug)]
pub struct PairState {
    /// The collection under which the pair was initialized.
    pub collection_id: Address,
    /// The persisted pair record.
    pub pair: EntangledPair,
    /// The wallet holding whichever representation is in circulation.
    pub holder: Address,
    /// Units of the original asset held by the user side.
    pub user_original: u64,
    /// Units of the mirror asset held by the user side.
    pub user_mirror: u64,
    /// Units of the original asset parked in the vault's original-side slot.
    pub vault_original: u64,
    /// Units of the mirror asset parked in the vault's mirror-side slot.
    pub vault_mirror: u64,
}

impl PairState {
    /// The core custody invariant of a live pair: exactly one unit of each
    /// representation exists, and the user holds the original exactly when
    /// the vault escrows the mirror.
    pub open spec fn custody_ok(self) -> bool {
        &&& self.user_original + self.vault_original == 1
        &&& self.user_mirror + self.vault_mirror == 1
        &&& (self.user_original == 1 <==> self.vault_mirror == 1)
    }

    /// The custody state right after initialization: the holder keeps the
    /// original, the freshly minted mirror sits in escrow.
    pub open spec fn holds_original(self) -> bool {
        self.user_original == 1 && self.vault_mirror == 1 && self.user_mirror == 0
            && self.vault_original == 0
    }

    /// The custody state after a swap: the holder keeps the mirror, the
    /// original sits in escrow.
    pub open spec fn holds_mirror(self) -> bool {
        self.user_mirror == 1 && self.vault_original == 1 && self.user_original == 0
            && self.vault_mirror == 0
    }
}

/// The mathematical state of the whole engine: the derived authority, the
/// admin configuration, the four keyed registries and the modeled external
/// metadata registry.
#[verifier::ext_equal]
pub struct EntanglerModel {
    pub authority: Address,
    pub state: Option<EntanglerState>,
    pub collections: Seq<EntangledCollection>,
    pub entries: Seq<CollectionEntryModel>,
    pub pairs: Seq<PairState>,
    pub metadata: Seq<MetaEntryModel>,
}

/// The index of the collection registered under `id`, scanning from the
/// front.
pub open spec fn find_collection(cs: Seq<EntangledCollection>, id: Address) -> Option<int>
    decreases cs.len(),
{
    if cs.len() == 0 {
        None
    } else if cs[0].id == id {
        Some(0int)
    } else {
        match find_collection(cs.drop_first(), id) {
            Some(i) => Some(i + 1),
            None => None,
        }
    }
}

/// The index of the pair initialized for `original_mint`.
pub open spec fn find_pair(ps: Seq<PairState>, original_mint: Address) -> Option<int>
    decreases ps.len(),
{
    if ps.len() == 0 {
        None
    } else if ps[0].pair.original_mint == original_mint {
        Some(0int)
    } else {
        match find_pair(ps.drop_first(), original_mint) {
            Some(i) => Some(i + 1),
            None => None,
        }
    }
}

/// The index of the lookup entry stored under `key`.
pub open spec fn find_entry(es: Seq<CollectionEntryModel>, key: Seq<u8>) -> Option<int>
    decreases es.len(),
{
    if es.len() == 0 {
        None
    } else if es[0].key == key {
        Some(0int)
    } else {
        match find_entry(es.drop_first(), key) {
            Some(i) => Some(i + 1),
            None => None,
        }
    }
}

/// The index of the metadata record describing `asset`.
pub open spec fn find_meta(ms: Seq<MetaEntryModel>, asset: Address) -> Option<int>
    decreases ms.len(),
{
    if ms.len() == 0 {
        None
    } else if ms[0].asset == asset {
        Some(0int)
    } else {
        match find_meta(ms.drop_first(), asset) {
            Some(i) => Some(i + 1),
            None => None,
        }
    }
}

impl EntanglerModel {
    /// Well-formedness: each registry is keyed uniquely, every pair keeps
    /// the custody invariant, and every pair's collection is registered.
    pub open spec fn wf(self) -> bool {
        &&& forall|i: int, j: int|
            0 <= i < j < self.collections.len() ==> self.collections[i].id != self.collections[j].id
        &&& forall|i: int, j: int|
            0 <= i < j < self.pairs.len() ==> self.pairs[i].pair.original_mint
                != self.pairs[j].pair.original_mint
        &&& forall|i: int, j: int|
            0 <= i < j < self.entries.len() ==> self.entries[i].key != self.entries[j].key
        &&& forall|i: int, j: int|
            0 <= i < j < self.metadata.len() ==> self.metadata[i].asset != self.metadata[j].asset
        &&& forall|i: int| 0 <= i < self.pairs.len() ==> self.pairs[i].custody_ok()
        &&& forall|i: int|
            0 <= i < self.pairs.len() ==> find_collection(
                self.collections,
                self.pairs[i].collection_id,
            ).is_some()
    }

    /// The empty engine, before any registration.
    pub open spec fn init(authority: Address) -> EntanglerModel {
        EntanglerModel {
            authority,
            state: None,
            collections: Seq::empty(),
            entries: Seq::empty(),
            pairs: Seq::empty(),
            metadata: Seq::empty(),
        }
    }

    /// The collection registered under `id`, if any.
    pub open spec fn collection_of(self, id: Address) -> Option<EntangledCollection> {
        match find_collection(self.collections, id) {
            Some(i) => Some(self.collections[i]),
            None => None,
        }
    }

    /// The custody state of the pair initialized for `original_mint`, if
    /// any.
    pub open spec fn pair_of(self, original_mint: Address) -> Option<PairState> {
        match find_pair(self.pairs, original_mint) {
            Some(i) => Some(self.pairs[i]),
            None => None,
        }
    }

    /// The metadata recorded for `asset`, if any.
    pub open spec fn meta_of(self, asset: Address) -> Option<TokenMetadataModel> {
        match find_meta(self.metadata, asset) {
            Some(i) => Some(self.metadata[i].metadata),
            None => None,
        }
    }

    /// Configures or reconfigures the admin state. Allowed for the current
    /// admin, and for anyone while no admin is set (no state yet, or an
    /// all-zero admin).
    pub open spec fn set_entangler_state_spec(
        self,
        caller: Address,
        admin: Address,
        earner: Address,
        fee_mint: Address,
        price: u64,
    ) -> (EntanglerModel, Result<(), EntangleError>) {
        match self.state {
            Some(st) => if caller != st.admin && st.admin != Address::spec_zero() {
                (self, Err(EntangleError::AuthorizationError))
            } else {
                (
                    EntanglerModel {
                        state: Some(EntanglerState { admin, earner, fee_mint, price }),
                        ..self
                    },
                    Ok(()),
                )
            },
            None => (
                EntanglerModel {
                    state: Some(EntanglerState { admin, earner, fee_mint, price }),
                    ..self
                },
                Ok(()),
            ),
        }
    }

    /// Records metadata for an asset that does not carry any yet. This is
    /// the write half of the external metadata registry the engine models;
    /// it is how pre-existing original assets become visible to it.
    pub open spec fn write_metadata_spec(self, asset: Address, data: TokenMetadataModel) -> (
        EntanglerModel,
        Result<(), EntangleError>,
    ) {
        if find_meta(self.metadata, asset).is_some() {
            (self, Err(EntangleError::DuplicateInitialization))
        } else {
            (
                EntanglerModel {
                    metadata: self.metadata.push(MetaEntryModel { asset, metadata: data }),
                    ..self
                },
                Ok(()),
            )
        }
    }

    /// The metadata minted onto a mirror collection asset: the original's
    /// descriptive fields, the caller-chosen royalty rate, and a creator
    /// list crediting the derived authority and the royalty recipient.
    pub open spec fn mirror_collection_metadata(
        self,
        original: TokenMetadataModel,
        creator: Address,
        royalties: u16,
    ) -> TokenMetadataModel {
        TokenMetadataModel {
            name: original.name,
            symbol: original.symbol,
            uri: original.uri,
            seller_fee_basis_points: royalties,
            creators: seq![
                Creator { address: self.authority, verified: true, share: 0 },
                Creator { address: creator, verified: false, share: 100 },
            ],
            collection: None,
        }
    }

    /// Registers a collection: mints the mirror collection asset, clones
    /// the original collection's descriptive metadata onto it, and creates
    /// the collection record.
    pub open spec fn create_collection_spec(
        self,
        id: Address,
        original_collection_mint: Address,
        entangled_collection_mint: Address,
        creator: Address,
        royalties: u16,
        one_way: bool,
    ) -> (EntanglerModel, Result<EntangledCollection, EntangleError>) {
        if find_collection(self.collections, id).is_some() {
            (self, Err(EntangleError::DuplicateInitialization))
        } else {
            match self.meta_of(original_collection_mint) {
                None => (self, Err(EntangleError::ResourceUnavailable)),
                Some(original) => if find_meta(self.metadata, entangled_collection_mint).is_some() {
                    (self, Err(EntangleError::DuplicateInitialization))
                } else {
                    let rec = EntangledCollection {
                        id,
                        original_collection_mint,
                        entangled_collection_mint,
                        royalties,
                        one_way,
                    };
                    (
                        EntanglerModel {
                            collections: self.collections.push(rec),
                            metadata: self.metadata.push(
                                MetaEntryModel {
                                    asset: entangled_collection_mint,
                                    metadata: self.mirror_collection_metadata(
                                        original,
                                        creator,
                                        royalties,
                                    ),
                                },
                            ),
                            ..self
                        },
                        Ok(rec),
                    )
                },
            }
        }
    }

    /// Registers a lookup entry under `key` and charges the configured fee,
    /// which the host pays from the caller to the configured earner. The
    /// returned value is that fee.
    pub open spec fn create_collection_entry_spec(self, id: Address, key: Seq<u8>) -> (
        EntanglerModel,
        Result<u64, EntangleError>,
    ) {
        match self.state {
            None => (self, Err(EntangleError::ResourceUnavailable)),
            Some(st) => if find_collection(self.collections, id).is_none() {
                (self, Err(EntangleError::ResourceUnavailable))
            } else if find_entry(self.entries, key).is_some() {
                (self, Err(EntangleError::DuplicateInitialization))
            } else {
                (
                    EntanglerModel {
                        entries: self.entries.push(CollectionEntryModel { id, key }),
                        ..self
                    },
                    Ok(st.price),
                )
            },
        }
    }

    /// The metadata minted onto a pair's mirror asset: the original asset's
    /// descriptive fields, the collection's royalty rate, a creator list
    /// crediting the derived authority and the collection's registered
    /// royalty recipient, and a verified membership in the mirror
    /// collection.
    pub open spec fn mirror_pair_metadata(
        self,
        original: TokenMetadataModel,
        col: EntangledCollection,
        creator: Address,
    ) -> TokenMetadataModel {
        TokenMetadataModel {
            name: original.name,
            symbol: original.symbol,
            uri: original.uri,
            seller_fee_basis_points: col.royalties,
            creators: seq![
                Creator { address: self.authority, verified: false, share: 0 },
                Creator { address: creator, verified: false, share: 100 },
            ],
            collection: Some(
                CollectionLink { key: col.entangled_collection_mint, verified: true },
            ),
        }
    }

    /// Initializes the pair for one original asset under a registered
    /// collection: checks the asset's recorded membership in the original
    /// collection, mints one unit of a fresh mirror asset straight into the
    /// vault's mirror-side escrow slot, and creates the pair record.
    /// `holder` is the wallet currently holding the original asset's unit.
    pub open spec fn initialize_pair_spec(
        self,
        id: Address,
        original_mint: Address,
        entangled_mint: Address,
        holder: Address,
    ) -> (EntanglerModel, Result<EntangledPair, EntangleError>) {
        if find_pair(self.pairs, original_mint).is_some() {
            (self, Err(EntangleError::DuplicateInitialization))
        } else {
            match self.collection_of(id) {
                None => (self, Err(EntangleError::ResourceUnavailable)),
                Some(col) => match self.meta_of(original_mint) {
                    None => (self, Err(EntangleError::ResourceUnavailable)),
                    Some(original) => match original.collection {
                        None => (self, Err(EntangleError::MembershipMismatch)),
                        Some(link) => if link.key != col.original_collection_mint {
                            (self, Err(EntangleError::MembershipMismatch))
                        } else if find_meta(self.metadata, entangled_mint).is_some() {
                            (self, Err(EntangleError::DuplicateInitialization))
                        } else {
                            match self.meta_of(col.entangled_collection_mint) {
                                None => (self, Err(EntangleError::ResourceUnavailable)),
                                Some(col_meta) => if col_meta.creators.len() < 2 {
                                    (self, Err(EntangleError::ResourceUnavailable))
                                } else {
                                    let creator = col_meta.creators[1].address;
                                    let pair = EntangledPair { original_mint, entangled_mint };
                                    let ps = PairState {
                                        collection_id: id,
                                        pair,
                                        holder,
                                        user_original: 1,
                                        user_mirror: 0,
                                        vault_original: 0,
                                        vault_mirror: 1,
                                    };
                                    (
                                        EntanglerModel {
                                            pairs: self.pairs.push(ps),
                                            metadata: self.metadata.push(
                                                MetaEntryModel {
                                                    asset: entangled_mint,
                                                    metadata: self.mirror_pair_metadata(
                                                        original,
                                                        col,
                                                        creator,
                                                    ),
                                                },
                                            ),
                                            ..self
                                        },
                                        Ok(pair),
                                    )
                                },
                            }
                        },
                    },
                },
            }
        }
    }

    /// Swaps the original into escrow and releases the escrowed mirror to
    /// the caller. Valid only while the caller holds the original unit.
    pub open spec fn entangle_spec(self, caller: Address, original_mint: Address) -> (
        EntanglerModel,
        Result<(), EntangleError>,
    ) {
        match find_pair(self.pairs, original_mint) {
            None => (self, Err(EntangleError::ResourceUnavailable)),
            Some(i) => {
                let p = self.pairs[i];
                if caller != p.holder || p.user_original != 1 {
                    (self, Err(EntangleError::AuthorizationError))
                } else if p.vault_mirror != 1 {
                    (self, Err(EntangleError::StateInconsistency))
                } else {
                    let q = PairState {
                        user_original: 0,
                        vault_original: 1,
                        user_mirror: 1,
                        vault_mirror: 0,
                        ..p
                    };
                    (EntanglerModel { pairs: self.pairs.update(i, q), ..self }, Ok(()))
                }
            },
        }
    }

    /// Swaps the mirror back into escrow and releases the escrowed original
    /// to the caller. Valid only on a two-way collection, and only while
    /// the caller holds the mirror unit.
    pub open spec fn disentangle_spec(self, caller: Address, original_mint: Address) -> (
        EntanglerModel,
        Result<(), EntangleError>,
    ) {
        match find_pair(self.pairs, original_mint) {
            None => (self, Err(EntangleError::ResourceUnavailable)),
            Some(i) => {
                let p = self.pairs[i];
                match self.collection_of(p.collection_id) {
                    None => (self, Err(EntangleError::StateInconsistency)),
                    Some(col) => if col.one_way {
                        (self, Err(EntangleError::IrreversibleCollection))
                    } else if caller != p.holder || p.user_mirror != 1 {
                        (self, Err(EntangleError::AuthorizationError))
                    } else if p.vault_original != 1 {
                        (self, Err(EntangleError::StateInconsistency))
                    } else {
                        let q = PairState {
                            user_original: 1,
                            vault_original: 0,
                            user_mirror: 0,
                            vault_mirror: 1,
                            ..p
                        };
                        (EntanglerModel { pairs: self.pairs.update(i, q), ..self }, Ok(()))
                    },
                }
            },
        }
    }

    /// Permanently collapses a pair: burns the escrowed original asset,
    /// erasing it and its metadata, and closes the pair record. The caller
    /// keeps the mirror for good. Offered only on two-way collections,
    /// which this operation forecloses for one specific pair.
    pub open spec fn burn_original_spec(self, caller: Address, original_mint: Address) -> (
        EntanglerModel,
        Result<(), EntangleError>,
    ) {
        match find_pair(self.pairs, original_mint) {
            None => (self, Err(EntangleError::ResourceUnavailable)),
            Some(i) => {
                let p = self.pairs[i];
                match self.collection_of(p.collection_id) {
                    None => (self, Err(EntangleError::StateInconsistency)),
                    Some(col) => if col.one_way {
                        (self, Err(EntangleError::IrreversibleCollection))
                    } else if caller != p.holder || p.user_mirror != 1 {
                        (self, Err(EntangleError::AuthorizationError))
                    } else if p.vault_original != 1 {
                        (self, Err(EntangleError::StateInconsistency))
                    } else {
                        let trimmed = self.pairs.remove(i);
                        let meta = match find_meta(self.metadata, original_mint) {
                            Some(j) => self.metadata.remove(j),
                            None => self.metadata,
                        };
                        (EntanglerModel { pairs: trimmed, metadata: meta, ..self }, Ok(()))
                    },
                }
            },
        }
    }
}

/// What [`find_collection`] returns: the first index whose record carries
/// `id`, or `None` when no record does.
pub proof fn lemma_find_collection_char(cs: Seq<EntangledCollection>, id: Address)
    ensures
        match find_collection(cs, id) {
            Some(i) => 0 <= i < cs.len() && cs[i].id == id && (forall|j: int|
                0 <= j < i ==> cs[j].id != id),
            None => forall|j: int| 0 <= j < cs.len() ==> cs[j].id != id,
        },
    decreases cs.len(),
{
    if cs.len() > 0 && cs[0].id != id {
        let tail = cs.drop_first();
        lemma_find_collection_char(tail, id);
        match find_collection(tail, id) {
            Some(i) => {
                assert(tail[i] == cs[i + 1]);
                assert forall|j: int| 0 <= j < i + 1 implies cs[j].id != id by {
                    if j > 0 {
                        assert(tail[j - 1] == cs[j]);
                    }
                }
            },
            None => {
                assert forall|j: int| 0 <= j < cs.len() implies cs[j].id != id by {
                    if j > 0 {
                        assert(tail[j - 1] == cs[j]);
                    }
                }
            },
        }
    }
}

/// The converse: a first match at `i` pins `find_collection` to `Some(i)`.
pub proof fn lemma_find_collection_is(cs: Seq<EntangledCollection>, id: Address, i: int)
    requires
        0 <= i < cs.len(),
        cs[i].id == id,
        forall|j: int| 0 <= j < i ==> cs[j].id != id,
    ensures
        find_collection(cs, id) == Some(i),
{
    lemma_find_collection_char(cs, id);
    match find_collection(cs, id) {
        Some(k) => {
            if k < i {
                assert(cs[k].id != id);
            } else if k > i {
                assert(cs[i].id != id);
            }
        },
        None => {
            assert(cs[i].id != id);
        },
    }
}

/// Appending a record does not disturb an existing match, and serves a new
/// `id` at the end.
pub proof fn lemma_find_collection_push(cs: Seq<EntangledCollection>, id: Address, c: EntangledCollection)
    ensures
        find_collection(cs.push(c), id) == (match find_collection(cs, id) {
            Some(i) => Some(i),
            None => if c.id == id {
                Some(cs.len() as int)
            } else {
                None
            },
        }),
{
    lemma_find_collection_char(cs, id);
    match find_collection(cs, id) {
        Some(i) => {
            lemma_find_collection_is(cs.push(c), id, i);
        },
        None => {
            if c.id == id {
                lemma_find_collection_is(cs.push(c), id, cs.len() as int);
            } else {
                lemma_find_collection_char(cs.push(c), id);
                if let Some(k) = find_collection(cs.push(c), id) {
                    assert(cs.push(c)[k].id == id);
                    assert(false);
                }
            }
        },
    }
}

/// What [`find_pair`] returns: the first index whose pair wraps
/// `original_mint`, or `None` when no pair does.
pub proof fn lemma_find_pair_char(ps: Seq<PairState>, original_mint: Address)
    ensures
        match find_pair(ps, original_mint) {
            Some(i) => 0 <= i < ps.len() && ps[i].pair.original_mint == original_mint && (forall|
                j: int,
            |
                0 <= j < i ==> ps[j].pair.original_mint != original_mint),
            None => forall|j: int| 0 <= j < ps.len() ==> ps[j].pair.original_mint != original_mint,
        },
    decreases ps.len(),
{
    if ps.len() > 0 && ps[0].pair.original_mint != original_mint {
        let tail = ps.drop_first();
        lemma_find_pair_char(tail, original_mint);
        match find_pair(tail, original_mint) {
            Some(i) => {
                assert(tail[i] == ps[i + 1]);
                assert forall|j: int| 0 <= j < i + 1 implies ps[j].pair.original_mint
                    != original_mint by {
                    if j > 0 {
                        assert(tail[j - 1] == ps[j]);
                    }
                }
            },
            None => {
                assert forall|j: int| 0 <= j < ps.len() implies ps[j].pair.original_mint
                    != original_mint by {
                    if j > 0 {
                        assert(tail[j - 1] == ps[j]);
                    }
                }
            },
        }
    }
}

/// The converse: a first match at `i` pins `find_pair` to `Some(i)`.
pub proof fn lemma_find_pair_is(ps: Seq<PairState>, original_mint: Address, i: int)
    requires
        0 <= i < ps.len(),
        ps[i].pair.original_mint == original_mint,
        forall|j: int| 0 <= j < i ==> ps[j].pair.original_mint != original_mint,
    ensures
        find_pair(ps, original_mint) == Some(i),
{
    lemma_find_pair_char(ps, original_mint);
    match find_pair(ps, original_mint) {
        Some(k) => {
            if k < i {
                assert(ps[k].pair.original_mint != original_mint);
            } else if k > i {
                assert(ps[i].pair.original_mint != original_mint);
            }
        },
        None => {
            assert(ps[i].pair.original_mint != original_mint);
        },
    }
}

/// Appending a pair does not disturb an existing match, and serves a new
/// mint at the end.
pub proof fn lemma_find_pair_push(ps: Seq<PairState>, original_mint: Address, p: PairState)
    ensures
        find_pair(ps.push(p), original_mint) == (match find_pair(ps, original_mint) {
            Some(i) => Some(i),
            None => if p.pair.original_mint == original_mint {
                Some(ps.len() as int)
            } else {
                None
            },
        }),
{
    lemma_find_pair_char(ps, original_mint);
    match find_pair(ps, original_mint) {
        Some(i) => {
            lemma_find_pair_is(ps.push(p), original_mint, i);
        },
        None => {
            if p.pair.original_mint == original_mint {
                lemma_find_pair_is(ps.push(p), original_mint, ps.len() as int);
            } else {
                lemma_find_pair_char(ps.push(p), original_mint);
                if let Some(k) = find_pair(ps.push(p), original_mint) {
                    assert(ps.push(p)[k].pair.original_mint == original_mint);
                    assert(false);
                }
            }
        },
    }
}

/// Replacing the matched pair with one wrapping the same mint keeps the
/// match in place.
pub proof fn lemma_find_pair_update(ps: Seq<PairState>, original_mint: Address, i: int, q: PairState)
    requires
        find_pair(ps, original_mint) == Some(i),
        q.pair.original_mint == ps[i].pair.original_mint,
    ensures
        find_pair(ps.update(i, q), original_mint) == Some(i),
{
    lemma_find_pair_char(ps, original_mint);
    lemma_find_pair_is(ps.update(i, q), original_mint, i);
}

/// Removing the only pair of a mint leaves no pair of that mint, when the
/// registry is keyed uniquely.
pub proof fn lemma_find_pair_remove(ps: Seq<PairState>, original_mint: Address, i: int)
    requires
        find_pair(ps, original_mint) == Some(i),
        forall|a: int, b: int|
            0 <= a < b < ps.len() ==> ps[a].pair.original_mint != ps[b].pair.original_mint,
    ensures
        find_pair(ps.remove(i), original_mint) == None::<int>,
{
    lemma_find_pair_char(ps, original_mint);
    lemma_find_pair_char(ps.remove(i), original_mint);
    if let Some(k) = find_pair(ps.remove(i), original_mint) {
        assert(ps.remove(i)[k].pair.original_mint == original_mint);
        if k < i {
            assert(ps.remove(i)[k] == ps[k]);
        } else {
            assert(ps.remove(i)[k] == ps[k + 1]);
        }
        assert(false);
    }
}

/// Removing the only metadata record of an asset leaves no record of that
/// asset, when the registry is keyed uniquely.
pub proof fn lemma_find_meta_remove(ms: Seq<MetaEntryModel>, asset: Address, i: int)
    requires
        find_meta(ms, asset) == Some(i),
        forall|a: int, b: int| 0 <= a < b < ms.len() ==> ms[a].asset != ms[b].asset,
    ensures
        find_meta(ms.remove(i), asset) == None::<int>,
{
    lemma_find_meta_char(ms, asset);
    lemma_find_meta_char(ms.remove(i), asset);
    if let Some(k) = find_meta(ms.remove(i), asset) {
        assert(ms.remove(i)[k].asset == asset);
        if k < i {
            assert(ms.remove(i)[k] == ms[k]);
        } else {
            assert(ms.remove(i)[k] == ms[k + 1]);
        }
        assert(false);
    }
}

/// What [`find_entry`] returns: the first index stored under `key`, or
/// `None` when no entry is.
pub proof fn lemma_find_entry_char(es: Seq<CollectionEntryModel>, key: Seq<u8>)
    ensures
        match find_entry(es, key) {
            Some(i) => 0 <= i < es.len() && es[i].key == key && (forall|j: int|
                0 <= j < i ==> es[j].key != key),
            None => forall|j: int| 0 <= j < es.len() ==> es[j].key != key,
        },
    decreases es.len(),
{
    if es.len() > 0 && es[0].key != key {
        let tail = es.drop_first();
        lemma_find_entry_char(tail, key);
        match find_entry(tail, key) {
            Some(i) => {
                assert(tail[i] == es[i + 1]);
                assert forall|j: int| 0 <= j < i + 1 implies es[j].key != key by {
                    if j > 0 {
                        assert(tail[j - 1] == es[j]);
                    }
                }
            },
            None => {
                assert forall|j: int| 0 <= j < es.len() implies es[j].key != key by {
                    if j > 0 {
                        assert(tail[j - 1] == es[j]);
                    }
                }
            },
        }
    }
}

/// The converse: a first match at `i` pins `find_entry` to `Some(i)`.
pub proof fn lemma_find_entry_is(es: Seq<CollectionEntryModel>, key: Seq<u8>, i: int)
    requires
        0 <= i < es.len(),
        es[i].key == key,
        forall|j: int| 0 <= j < i ==> es[j].key != key,
    ensures
        find_entry(es, key) == Some(i),
{
    lemma_find_entry_char(es, key);
    match find_entry(es, key) {
        Some(k) => {
            if k < i {
                assert(es[k].key != key);
            } else if k > i {
                assert(es[i].key != key);
            }
        },
        None => {
            assert(es[i].key != key);
        },
    }
}

/// What [`find_meta`] returns: the first index describing `asset`, or
/// `None` when no record does.
pub proof fn lemma_find_meta_char(ms: Seq<MetaEntryModel>, asset: Address)
    ensures
        match find_meta(ms, asset) {
            Some(i) => 0 <= i < ms.len() && ms[i].asset == asset && (forall|j: int|
                0 <= j < i ==> ms[j].asset != asset),
            None => forall|j: int| 0 <= j < ms.len() ==> ms[j].asset != asset,
        },
    decreases ms.len(),
{
    if ms.len() > 0 && ms[0].asset != asset {
        let tail = ms.drop_first();
        lemma_find_meta_char(tail, asset);
        match find_meta(tail, asset) {
            Some(i) => {
                assert(tail[i] == ms[i + 1]);
                assert forall|j: int| 0 <= j < i + 1 implies ms[j].asset != asset by {
                    if j > 0 {
                        assert(tail[j - 1] == ms[j]);
                    }
                }
            },
            None => {
                assert forall|j: int| 0 <= j < ms.len() implies ms[j].asset != asset by {
                    if j > 0 {
                        assert(tail[j - 1] == ms[j]);
                    }
                }
            },
        }
    }
}

/// The converse: a first match at `i` pins `find_meta` to `Some(i)`.
pub proof fn lemma_find_meta_is(ms: Seq<MetaEntryModel>, asset: Address, i: int)
    requires
        0 <= i < ms.len(),
        ms[i].asset == asset,
        forall|j: int| 0 <= j < i ==> ms[j].asset != asset,
    ensures
        find_meta(ms, asset) == Some(i),
{
    lemma_find_meta_char(ms, asset);
    match find_meta(ms, asset) {
        Some(k) => {
            if k < i {
                assert(ms[k].asset != asset);
            } else if k > i {
                assert(ms[i].asset != asset);
            }
        },
        None => {
            assert(ms[i].asset != asset);
        },
    }
}

/// Reconfiguring the admin state preserves well-formedness: it touches no
/// registry.
pub proof fn lemma_set_entangler_state_wf(
    m: EntanglerModel,
    caller: Address,
    admin: Address,
    earner: Address,
    fee_mint: Address,
    price: u64,
)
    requires
        m.wf(),
    ensures
        m.set_entangler_state_spec(caller, admin, earner, fee_mint, price).0.wf(),
{
}

/// Recording metadata for a fresh asset preserves well-formedness.
pub proof fn lemma_write_metadata_wf(m: EntanglerModel, asset: Address, data: TokenMetadataModel)
    requires
        m.wf(),
    ensures
        m.write_metadata_spec(asset, data).0.wf(),
{
    if find_meta(m.metadata, asset).is_none() {
        lemma_find_meta_char(m.metadata, asset);
        let ms = m.write_metadata_spec(asset, data).0.metadata;
        assert forall|i: int, j: int| 0 <= i < j < ms.len() implies ms[i].asset != ms[j].asset by {
            if j < m.metadata.len() {
                assert(ms[i] == m.metadata[i] && ms[j] == m.metadata[j]);
            } else {
                assert(ms[i] == m.metadata[i] && ms[j].asset == asset);
            }
        }
    }
}

/// Registering a collection preserves well-formedness: the new id and the
/// mirror collection mint are fresh, and existing pairs still find their
/// collections after the append.
pub proof fn lemma_create_collection_wf(
    m: EntanglerModel,
    id: Address,
    original_collection_mint: Address,
    entangled_collection_mint: Address,
    creator: Address,
    royalties: u16,
    one_way: bool,
)
    requires
        m.wf(),
    ensures
        m.create_collection_spec(
            id,
            original_collection_mint,
            entangled_collection_mint,
            creator,
            royalties,
            one_way,
        ).0.wf(),
{
    let t = m.create_collection_spec(
        id,
        original_collection_mint,
        entangled_collection_mint,
        creator,
        royalties,
        one_way,
    );
    if t.1.is_ok() {
        lemma_find_collection_char(m.collections, id);
        lemma_find_meta_char(m.metadata, entangled_collection_mint);
        let cs = t.0.collections;
        assert forall|i: int, j: int| 0 <= i < j < cs.len() implies cs[i].id != cs[j].id by {
            if j < m.collections.len() {
                assert(cs[i] == m.collections[i] && cs[j] == m.collections[j]);
            } else {
                assert(cs[i] == m.collections[i] && cs[j].id == id);
            }
        }
        let ms = t.0.metadata;
        assert forall|i: int, j: int| 0 <= i < j < ms.len() implies ms[i].asset != ms[j].asset by {
            if j < m.metadata.len() {
                assert(ms[i] == m.metadata[i] && ms[j] == m.metadata[j]);
            } else {
                assert(ms[i] == m.metadata[i] && ms[j].asset == entangled_collection_mint);
            }
        }
        assert forall|i: int| 0 <= i < t.0.pairs.len() implies find_collection(
            cs,
            t.0.pairs[i].collection_id,
        ).is_some() by {
            lemma_find_collection_push(m.collections, m.pairs[i].collection_id, cs.last());
        }
    }
}

/// Registering a lookup entry preserves well-formedness: the key is fresh.
pub proof fn lemma_create_collection_entry_wf(m: EntanglerModel, id: Address, key: Seq<u8>)
    requires
        m.wf(),
    ensures
        m.create_collection_entry_spec(id, key).0.wf(),
{
    let t = m.create_collection_entry_spec(id, key);
    if t.1.is_ok() {
        lemma_find_entry_char(m.entries, key);
        let es = t.0.entries;
        assert forall|i: int, j: int| 0 <= i < j < es.len() implies es[i].key != es[j].key by {
            if j < m.entries.len() {
                assert(es[i] == m.entries[i] && es[j] == m.entries[j]);
            } else {
                assert(es[i] == m.entries[i] && es[j].key == key);
            }
        }
    }
}

/// Initializing a pair preserves well-formedness: the original is not yet
/// paired, the mirror mint is fresh, the new pair starts in the
/// user-holds-original custody state, and its collection is registered.
pub proof fn lemma_initialize_pair_wf(
    m: EntanglerModel,
    id: Address,
    original_mint: Address,
    entangled_mint: Address,
    holder: Address,
)
    requires
        m.wf(),
    ensures
        m.initialize_pair_spec(id, original_mint, entangled_mint, holder).0.wf(),
{
    let t = m.initialize_pair_spec(id, original_mint, entangled_mint, holder);
    if t.1.is_ok() {
        lemma_find_pair_char(m.pairs, original_mint);
        lemma_find_meta_char(m.metadata, entangled_mint);
        let ps = t.0.pairs;
        assert forall|i: int, j: int| 0 <= i < j < ps.len() implies ps[i].pair.original_mint
            != ps[j].pair.original_mint by {
            if j < m.pairs.len() {
                assert(ps[i] == m.pairs[i] && ps[j] == m.pairs[j]);
            } else {
                assert(ps[i] == m.pairs[i] && ps[j].pair.original_mint == original_mint);
            }
        }
        let ms = t.0.metadata;
        assert forall|i: int, j: int| 0 <= i < j < ms.len() implies ms[i].asset != ms[j].asset by {
            if j < m.metadata.len() {
                assert(ms[i] == m.metadata[i] && ms[j] == m.metadata[j]);
            } else {
                assert(ms[i] == m.metadata[i] && ms[j].asset == entangled_mint);
            }
        }
        assert forall|i: int| 0 <= i < ps.len() implies ps[i].custody_ok() by {
            if i < m.pairs.len() {
                assert(ps[i] == m.pairs[i]);
            }
        }
        assert forall|i: int| 0 <= i < ps.len() implies find_collection(
            t.0.collections,
            ps[i].collection_id,
        ).is_some() by {
            if i < m.pairs.len() {
                assert(ps[i] == m.pairs[i]);
            }
        }
    }
}

/// A swap into the mirror representation preserves well-formedness: it only
/// moves the two units of one pair between the user side and the vault.
pub proof fn lemma_entangle_wf(m: EntanglerModel, caller: Address, original_mint: Address)
    requires
        m.wf(),
    ensures
        m.entangle_spec(caller, original_mint).0.wf(),
{
    let t = m.entangle_spec(caller, original_mint);
    if t.1.is_ok() {
        let i = find_pair(m.pairs, original_mint)->Some_0;
        lemma_find_pair_char(m.pairs, original_mint);
        let ps = t.0.pairs;
        assert(forall|j: int| 0 <= j < ps.len() && j != i ==> ps[j] == m.pairs[j]);
        assert(ps[i].pair == m.pairs[i].pair && ps[i].collection_id == m.pairs[i].collection_id);
        assert(ps[i].custody_ok());
    }
}

/// A swap back into the original representation preserves well-formedness.
pub proof fn lemma_disentangle_wf(m: EntanglerModel, caller: Address, original_mint: Address)
    requires
        m.wf(),
    ensures
        m.disentangle_spec(caller, original_mint).0.wf(),
{
    let t = m.disentangle_spec(caller, original_mint);
    if t.1.is_ok() {
        let i = find_pair(m.pairs, original_mint)->Some_0;
        lemma_find_pair_char(m.pairs, original_mint);
        let ps = t.0.pairs;
        assert(forall|j: int| 0 <= j < ps.len() && j != i ==> ps[j] == m.pairs[j]);
        assert(ps[i].pair == m.pairs[i].pair && ps[i].collection_id == m.pairs[i].collection_id);
        assert(ps[i].custody_ok());
    }
}

/// Burning the escrowed original preserves well-formedness: removing a pair
/// and a metadata record cannot introduce a duplicate key or break another
/// pair's custody.
pub proof fn lemma_burn_original_wf(m: EntanglerModel, caller: Address, original_mint: Address)
    requires
        m.wf(),
    ensures
        m.burn_original_spec(caller, original_mint).0.wf(),
{
    let t = m.burn_original_spec(caller, original_mint);
    if t.1.is_ok() {
        let i = find_pair(m.pairs, original_mint)->Some_0;
        lemma_find_pair_char(m.pairs, original_mint);
        let ps = t.0.pairs;
        assert forall|a: int, b: int| 0 <= a < b < ps.len() implies ps[a].pair.original_mint
            != ps[b].pair.original_mint by {
            assert(ps[a] == if a < i {
                m.pairs[a]
            } else {
                m.pairs[a + 1]
            });
            assert(ps[b] == if b < i {
                m.pairs[b]
            } else {
                m.pairs[b + 1]
            });
        }
        assert forall|a: int| 0 <= a < ps.len() implies ps[a].custody_ok() && find_collection(
            t.0.collections,
            ps[a].collection_id,
        ).is_some() by {
            assert(ps[a] == if a < i {
                m.pairs[a]
            } else {
                m.pairs[a + 1]
            });
        }
        let ms = t.0.metadata;
        match find_meta(m.metadata, original_mint) {
            Some(k) => {
                lemma_find_meta_char(m.metadata, original_mint);
                assert forall|a: int, b: int| 0 <= a < b < ms.len() implies ms[a].asset
                    != ms[b].asset by {
                    assert(ms[a] == if a < k {
                        m.metadata[a]
                    } else {
                        m.metadata[a + 1]
                    });
                    assert(ms[b] == if b < k {
                        m.metadata[b]
                    } else {
                        m.metadata[b + 1]
                    });
                }
            },
            None => {},
        }
    }
}

} // verus!
