use crate::address::Address;
use crate::errors::EntangleError;
use crate::model::{
    find_pair, lemma_find_collection_char, lemma_find_meta_char, lemma_find_meta_remove,
    lemma_find_pair_char, lemma_find_pair_push, lemma_find_pair_remove, lemma_find_pair_update,
    EntanglerModel,
};
use vstd::prelude::*;

verus! {

/// Exclusive custody. In every well-formed engine state — and every state
/// an [`crate::engine::Entangler`] can reach is well-formed — each pair
/// that has been initialized and not yet locked satisfies: exactly one of
/// {user holds the original, vault holds the original} is true, exactly one
/// of {user holds the mirror, vault holds the mirror} is true, and the user
/// holds the original exactly when the vault escrows the mirror.
pub proof fn lemma_custody_exclusive(m: EntanglerModel, original_mint: Address)
    requires
        m.wf(),
        m.pair_of(original_mint) is Some,
    ensures
        ({
            let p = m.pair_of(original_mint)->Some_0;
            &&& p.user_original + p.vault_original == 1
            &&& p.user_mirror + p.vault_mirror == 1
            &&& (p.user_original == 1 <==> p.vault_original == 0)
            &&& (p.user_mirror == 1 <==> p.vault_mirror == 0)
            &&& (p.user_original == 1 <==> p.vault_mirror == 1)
            &&& (p.user_original == 1 <==> p.user_mirror == 0)
            &&& p.holds_original() || p.holds_mirror()
            &&& !(p.holds_original() && p.holds_mirror())
        }),
{
    lemma_find_pair_char(m.pairs, original_mint);
}

/// Round trip. When `entangle` succeeds on a pair whose collection is
/// two-way, a `disentangle` by the same caller succeeds and restores the
/// whole engine state bit for bit: the same holder owns the same original
/// unit and the vault escrows the same mirror unit again.
pub proof fn lemma_entangle_round_trip(m: EntanglerModel, caller: Address, original_mint: Address)
    requires
        m.wf(),
        m.entangle_spec(caller, original_mint).1 is Ok,
        ({
            let p = m.pair_of(original_mint)->Some_0;
            match m.collection_of(p.collection_id) {
                Some(col) => !col.one_way,
                None => false,
            }
        }),
    ensures
        ({
            let m1 = m.entangle_spec(caller, original_mint).0;
            &&& m1.disentangle_spec(caller, original_mint).1 == Ok::<(), EntangleError>(())
            &&& m1.disentangle_spec(caller, original_mint).0 == m
        }),
{
    let i = find_pair(m.pairs, original_mint)->Some_0;
    lemma_find_pair_char(m.pairs, original_mint);
    let p = m.pairs[i];
    let m1 = m.entangle_spec(caller, original_mint).0;
    let q = m1.pairs[i];
    lemma_find_pair_update(m.pairs, original_mint, i, q);
    lemma_find_collection_char(m.collections, p.collection_id);
    assert(m1.collection_of(q.collection_id) == m.collection_of(p.collection_id));
    let m2 = m1.disentangle_spec(caller, original_mint).0;
    assert(m2.pairs[i] == p);
    assert(m2.pairs =~= m.pairs);
    assert(m2 =~= m);
}

/// Uniqueness of initialization. Once `initialize_pair` has succeeded for
/// an original asset, any second initialization for the same asset — under
/// any collection, mirror mint or holder — fails with
/// `DuplicateInitialization` and leaves the registries and vault state
/// unchanged.
pub proof fn lemma_duplicate_pair_rejected(
    m: EntanglerModel,
    id1: Address,
    mint1: Address,
    holder1: Address,
    id2: Address,
    mint2: Address,
    holder2: Address,
    original_mint: Address,
)
    requires
        m.wf(),
        m.initialize_pair_spec(id1, original_mint, mint1, holder1).1 is Ok,
    ensures
        ({
            let m1 = m.initialize_pair_spec(id1, original_mint, mint1, holder1).0;
            &&& m1.initialize_pair_spec(id2, original_mint, mint2, holder2).1 == Err::<
                crate::state::EntangledPair,
                EntangleError,
            >(EntangleError::DuplicateInitialization)
            &&& m1.initialize_pair_spec(id2, original_mint, mint2, holder2).0 == m1
        }),
{
    let m1 = m.initialize_pair_spec(id1, original_mint, mint1, holder1).0;
    let ps = m1.pairs.last();
    lemma_find_pair_push(m.pairs, original_mint, ps);
}

/// One-way enforcement. On a collection registered with `one_way = true`,
/// every `disentangle` call on one of its pairs fails with
/// `IrreversibleCollection`, whatever the custody state and whoever calls,
/// and changes nothing.
pub proof fn lemma_one_way_enforced(m: EntanglerModel, caller: Address, original_mint: Address)
    requires
        m.wf(),
        m.pair_of(original_mint) is Some,
        ({
            let p = m.pair_of(original_mint)->Some_0;
            match m.collection_of(p.collection_id) {
                Some(col) => col.one_way,
                None => false,
            }
        }),
    ensures
        m.disentangle_spec(caller, original_mint).1 == Err::<(), EntangleError>(
            EntangleError::IrreversibleCollection,
        ),
        m.disentangle_spec(caller, original_mint).0 == m,
{
}

/// Swaps move custody, not records. A successful `entangle` or
/// `disentangle` leaves the pair record, its collection and its holder
/// untouched, changes no other pair, and touches no registry besides the
/// custody slots of this one pair.
pub proof fn lemma_swap_preserves_records(m: EntanglerModel, caller: Address, original_mint: Address)
    requires
        m.wf(),
    ensures
        ({
            let m1 = m.entangle_spec(caller, original_mint).0;
            &&& m1.collections == m.collections
            &&& m1.entries == m.entries
            &&& m1.metadata == m.metadata
            &&& m1.state == m.state
            &&& m1.pairs.len() == m.pairs.len()
            &&& forall|j: int|
                0 <= j < m.pairs.len() ==> #[trigger] m1.pairs[j].pair == m.pairs[j].pair
                    && m1.pairs[j].holder == m.pairs[j].holder && m1.pairs[j].collection_id
                    == m.pairs[j].collection_id
        }),
        ({
            let m2 = m.disentangle_spec(caller, original_mint).0;
            &&& m2.collections == m.collections
            &&& m2.entries == m.entries
            &&& m2.metadata == m.metadata
            &&& m2.state == m.state
            &&& m2.pairs.len() == m.pairs.len()
            &&& forall|j: int|
                0 <= j < m.pairs.len() ==> #[trigger] m2.pairs[j].pair == m.pairs[j].pair
                    && m2.pairs[j].holder == m.pairs[j].holder && m2.pairs[j].collection_id
                    == m.pairs[j].collection_id
        }),
{
    lemma_find_pair_char(m.pairs, original_mint);
}

/// Lock finality. After `burn_original` succeeds, the pair record is
/// closed and the original asset is gone — no metadata record describes it
/// any more — and every further `entangle`, `disentangle` or
/// `burn_original` on that pair fails with `ResourceUnavailable`, leaving
/// the state unchanged: the caller keeps the mirror permanently, with no
/// further redemption possible.
pub proof fn lemma_lock_finality(
    m: EntanglerModel,
    caller: Address,
    original_mint: Address,
    later_caller: Address,
)
    requires
        m.wf(),
        m.burn_original_spec(caller, original_mint).1 is Ok,
    ensures
        ({
            let m1 = m.burn_original_spec(caller, original_mint).0;
            &&& m1.pair_of(original_mint) is None
            &&& m1.meta_of(original_mint) is None
            &&& m1.entangle_spec(later_caller, original_mint).1 == Err::<(), EntangleError>(
                EntangleError::ResourceUnavailable,
            )
            &&& m1.entangle_spec(later_caller, original_mint).0 == m1
            &&& m1.disentangle_spec(later_caller, original_mint).1 == Err::<(), EntangleError>(
                EntangleError::ResourceUnavailable,
            )
            &&& m1.disentangle_spec(later_caller, original_mint).0 == m1
            &&& m1.burn_original_spec(later_caller, original_mint).1 == Err::<(), EntangleError>(
                EntangleError::ResourceUnavailable,
            )
            &&& m1.burn_original_spec(later_caller, original_mint).0 == m1
        }),
{
    let i = find_pair(m.pairs, original_mint)->Some_0;
    lemma_find_pair_remove(m.pairs, original_mint, i);
    match crate::model::find_meta(m.metadata, original_mint) {
        Some(j) => {
            lemma_find_meta_remove(m.metadata, original_mint, j);
        },
        None => {
            lemma_find_meta_char(m.metadata, original_mint);
        },
    }
}

} // verus!
