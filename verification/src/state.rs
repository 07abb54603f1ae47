use crate::address::Address;
use vstd::prelude::*;

verus! {

/// The byte budget of a persisted [`EntanglerState`] record: the 8-byte
/// record-kind prefix, three addresses and the price.
pub const ENTANGLER_STATE_LEN: usize = 8 + 3 * 32 + 8;

/// The byte budget of a persisted [`EntangledCollection`] record.
pub const ENTANGLED_COLLECTION_LEN: usize = 8 + 3 * 32 + 2 + 1;

/// The byte budget of a persisted [`CollectionEntry`] record: the prefix,
/// the collection id and the length-prefixed key.
pub const COLLECTION_ENTRY_LEN: usize = 8 + 32 + 4 + MAX_KEY_SIZE;

/// The byte budget of a persisted [`EntangledPair`] record.
pub const ENTANGLED_PAIR_LEN: usize = 8 + 2 * 32;

/// The longest collection entry key, in bytes.
pub const MAX_KEY_SIZE: usize = 32;

/// The global configuration of the entangler: who administers it, who earns
/// the entry fee, in which asset the fee is paid and at which price.
#[derive(Clone, Copy, PartialEq, Eq, Structural, Debug)]
pub struct EntanglerState {
    /// The admin of the entangler.
    pub admin: Address,
    /// The account earning the fee.
    pub earner: Address,
    /// The fee mint.
    pub fee_mint: Address,
    /// The cost to create an entry.
    pub price: u64,
}

/// A registered collection: the scope under which pairs are initialized.
/// At most one record exists per `id`; a second registration attempt fails
/// rather than overwrite.
#[derive(Clone, Copy, PartialEq, Eq, Structural, Debug)]
pub struct EntangledCollection {
    /// The id of the entanglement.
    pub id: Address,
    /// The original collection mint.
    pub original_collection_mint: Address,
    /// The collection mint of the entangled tokens.
    pub entangled_collection_mint: Address,
    /// Collection royalties, in basis points.
    pub royalties: u16,
    /// Whether it is impossible to disentangle.
    pub one_way: bool,
}

/// A lookup entry mapping a human-readable key to a collection id.
#[derive(Clone, Debug)]
pub struct CollectionEntry {
    /// The id of the entanglement.
    pub id: Address,
    /// The collection key: at most [`MAX_KEY_SIZE`] bytes, each an ASCII
    /// letter, digit or underscore.
    pub key: Vec<u8>,
}

/// The mathematical value of a [`CollectionEntry`].
pub struct CollectionEntryModel {
    pub id: Address,
    pub key: Seq<u8>,
}

impl View for CollectionEntry {
    type V = CollectionEntryModel;

    open spec fn view(&self) -> CollectionEntryModel {
        CollectionEntryModel { id: self.id, key: self.key@ }
    }
}

/// Whether a byte may appear in a collection entry key: the ASCII codes of
/// 'a'..'z', 'A'..'Z', '0'..'9' and '_'.
pub open spec fn is_key_byte(b: u8) -> bool {
    (97 <= b && b <= 122) || (65 <= b && b <= 90) || (48 <= b && b <= 57) || b == 95
}

/// Whether a byte sequence is a well-formed collection entry key.
pub open spec fn valid_key(key: Seq<u8>) -> bool {
    key.len() <= MAX_KEY_SIZE && forall|i: int| 0 <= i < key.len() ==> is_key_byte(key[i])
}

/// Checks that `key` is a well-formed collection entry key.
pub fn check_key(key: &Vec<u8>) -> (r: bool)
    ensures
        r == valid_key(key@),
{
    if key.len() > MAX_KEY_SIZE {
        return false;
    }
    let mut i: usize = 0;
    while i < key.len()
        invariant
            i <= key@.len(),
            key@.len() <= MAX_KEY_SIZE,
            forall|j: int| 0 <= j < i ==> is_key_byte(key@[j]),
        decreases key@.len() - i,
    {
        let b = key[i];
        if !((97 <= b && b <= 122) || (65 <= b && b <= 90) || (48 <= b && b <= 57) || b == 95) {
            return false;
        }
        i = i + 1;
    }
    true
}

/// The record pairing one original asset with its minted mirror asset.
/// At most one pair exists per original asset.
#[derive(Clone, Copy, PartialEq, Eq, Structural, Debug)]
pub struct EntangledPair {
    /// The original mint.
    pub original_mint: Address,
    /// The mint of the entangled token.
    pub entangled_mint: Address,
}

} // verus!
