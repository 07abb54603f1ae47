use crate::address::{
    lemma_address_bytes_round_trip, Address,
};
use crate::state::{
    valid_key, CollectionEntry, CollectionEntryModel, EntangledCollection, EntangledPair,
    EntanglerState, COLLECTION_ENTRY_LEN, ENTANGLED_COLLECTION_LEN, ENTANGLED_PAIR_LEN,
    ENTANGLER_STATE_LEN, MAX_KEY_SIZE,
};
use vstd::bytes::{
    lemma_auto_spec_u32_to_from_le_bytes, lemma_auto_spec_u64_to_from_le_bytes,
    lemma_auto_spec_u16_to_from_le_bytes, spec_u16_from_le_bytes, spec_u16_to_le_bytes,
    spec_u32_from_le_bytes, spec_u32_to_le_bytes, spec_u64_from_le_bytes, spec_u64_to_le_bytes,
    u16_from_le_bytes, u16_to_le_bytes, u32_from_le_bytes, u32_to_le_bytes, u64_from_le_bytes,
    u64_to_le_bytes,
};
use vstd::prelude::*;
use vstd::slice::{slice_subrange, slice_to_vec};

verus! {

/// The 8-byte record-kind prefix: the kind's tag byte followed by seven
/// zero bytes.
pub open spec fn tag_seq(t: u8) -> Seq<u8> {
    seq![t, 0u8, 0u8, 0u8, 0u8, 0u8, 0u8, 0u8]
}

/// The record-kind tag of an [`EntanglerState`] record.
pub const STATE_TAG: u8 = 1;

/// The record-kind tag of an [`EntangledCollection`] record.
pub const COLLECTION_TAG: u8 = 2;

/// The record-kind tag of a [`CollectionEntry`] record.
pub const ENTRY_TAG: u8 = 3;

/// The record-kind tag of an [`EntangledPair`] record.
pub const PAIR_TAG: u8 = 4;

/// Appends the 8-byte record-kind prefix for tag `t`.
fn push_tag(v: &mut Vec<u8>, t: u8)
    ensures
        final(v)@ == old(v)@ + tag_seq(t),
{
    v.push(t);
    v.push(0);
    v.push(0);
    v.push(0);
    v.push(0);
    v.push(0);
    v.push(0);
    v.push(0);
    proof {
        assert(v@ =~= old(v)@ + tag_seq(t));
    }
}

/// Whether the first 8 bytes of `b` are the record-kind prefix for `t`.
fn read_tag_matches(b: &[u8], t: u8) -> (r: bool)
    requires
        b@.len() >= 8,
    ensures
        r == (b@.subrange(0, 8) == tag_seq(t)),
{
    let r = b[0] == t && b[1] == 0 && b[2] == 0 && b[3] == 0 && b[4] == 0 && b[5] == 0 && b[6] == 0
        && b[7] == 0;
    proof {
        if r {
            assert(b@.subrange(0, 8) =~= tag_seq(t));
        } else {
            if b@.subrange(0, 8) == tag_seq(t) {
                assert(forall|k: int| 0 <= k < 8 ==> b@.subrange(0, 8)[k] == b@[k]);
                assert(b@[0] == t && b@[1] == 0 && b@[2] == 0 && b@[3] == 0 && b@[4] == 0 && b@[5]
                    == 0 && b@[6] == 0 && b@[7] == 0);
            }
        }
    }
    r
}

/// The byte layout of a persisted [`EntanglerState`] record: the prefix,
/// then `admin`, `earner` and `fee_mint` as 32 bytes each, then `price` in
/// 8 little-endian bytes.
pub open spec fn spec_encode_entangler_state(s: EntanglerState) -> Seq<u8> {
    tag_seq(STATE_TAG) + s.admin.bytes() + s.earner.bytes() + s.fee_mint.bytes()
        + spec_u64_to_le_bytes(s.price)
}

/// The record read back from a byte image, if the image is exactly a
/// well-formed [`EntanglerState`] layout.
pub open spec fn spec_decode_entangler_state(b: Seq<u8>) -> Option<EntanglerState> {
    if b.len() == ENTANGLER_STATE_LEN && b.subrange(0, 8) == tag_seq(STATE_TAG) {
        Some(
            EntanglerState {
                admin: Address::spec_from_bytes(b.subrange(8, 40)),
                earner: Address::spec_from_bytes(b.subrange(40, 72)),
                fee_mint: Address::spec_from_bytes(b.subrange(72, 104)),
                price: spec_u64_from_le_bytes(b.subrange(104, 112)),
            },
        )
    } else {
        None
    }
}

/// Writes the byte image of an [`EntanglerState`] record.
pub fn encode_entangler_state(s: &EntanglerState) -> (v: Vec<u8>)
    ensures
        v@ == spec_encode_entangler_state(*s),
        v@.len() == ENTANGLER_STATE_LEN,
{
    proof {
        lemma_auto_spec_u64_to_from_le_bytes();
        lemma_address_bytes_round_trip(s.admin);
        lemma_address_bytes_round_trip(s.earner);
        lemma_address_bytes_round_trip(s.fee_mint);
    }
    let mut v: Vec<u8> = Vec::new();
    push_tag(&mut v, STATE_TAG);
    let mut b = s.admin.to_bytes();
    v.append(&mut b);
    let mut b = s.earner.to_bytes();
    v.append(&mut b);
    let mut b = s.fee_mint.to_bytes();
    v.append(&mut b);
    let mut b = u64_to_le_bytes(s.price);
    v.append(&mut b);
    proof {
        assert(v@ =~= spec_encode_entangler_state(*s));
    }
    v
}

/// Reads an [`EntanglerState`] record back from a byte image.
pub fn decode_entangler_state(b: &[u8]) -> (r: Option<EntanglerState>)
    ensures
        r == spec_decode_entangler_state(b@),
{
    if b.len() != ENTANGLER_STATE_LEN {
        return None;
    }
    if !read_tag_matches(b, STATE_TAG) {
        return None;
    }
    let admin = Address::from_bytes(slice_subrange(b, 8, 40));
    let earner = Address::from_bytes(slice_subrange(b, 40, 72));
    let fee_mint = Address::from_bytes(slice_subrange(b, 72, 104));
    let price = u64_from_le_bytes(slice_subrange(b, 104, 112));
    Some(EntanglerState { admin, earner, fee_mint, price })
}

/// Reading back the byte image of an [`EntanglerState`] record gives the
/// record.
pub proof fn lemma_entangler_state_round_trip(s: EntanglerState)
    ensures
        spec_decode_entangler_state(spec_encode_entangler_state(s)) == Some(s),
{
    lemma_auto_spec_u64_to_from_le_bytes();
    lemma_address_bytes_round_trip(s.admin);
    lemma_address_bytes_round_trip(s.earner);
    lemma_address_bytes_round_trip(s.fee_mint);
    let e = spec_encode_entangler_state(s);
    assert(e.subrange(0, 8) =~= tag_seq(STATE_TAG));
    assert(e.subrange(8, 40) =~= s.admin.bytes());
    assert(e.subrange(40, 72) =~= s.earner.bytes());
    assert(e.subrange(72, 104) =~= s.fee_mint.bytes());
    assert(e.subrange(104, 112) =~= spec_u64_to_le_bytes(s.price));
}

/// The byte layout of a persisted [`EntangledCollection`] record: the
/// prefix, the three addresses, `royalties` in 2 little-endian bytes and
/// `one_way` as one byte, 1 for true and 0 for false.
pub open spec fn spec_encode_entangled_collection(c: EntangledCollection) -> Seq<u8> {
    tag_seq(COLLECTION_TAG) + c.id.bytes() + c.original_collection_mint.bytes()
        + c.entangled_collection_mint.bytes() + spec_u16_to_le_bytes(c.royalties) + seq![
        if c.one_way {
            1u8
        } else {
            0u8
        },
    ]
}

/// The record read back from a byte image, if the image is exactly a
/// well-formed [`EntangledCollection`] layout.
pub open spec fn spec_decode_entangled_collection(b: Seq<u8>) -> Option<EntangledCollection> {
    if b.len() == ENTANGLED_COLLECTION_LEN && b.subrange(0, 8) == tag_seq(COLLECTION_TAG) && (b[106]
        == 0 || b[106] == 1) {
        Some(
            EntangledCollection {
                id: Address::spec_from_bytes(b.subrange(8, 40)),
                original_collection_mint: Address::spec_from_bytes(b.subrange(40, 72)),
                entangled_collection_mint: Address::spec_from_bytes(b.subrange(72, 104)),
                royalties: spec_u16_from_le_bytes(b.subrange(104, 106)),
                one_way: b[106] == 1,
            },
        )
    } else {
        None
    }
}

/// Writes the byte image of an [`EntangledCollection`] record.
pub fn encode_entangled_collection(c: &EntangledCollection) -> (v: Vec<u8>)
    ensures
        v@ == spec_encode_entangled_collection(*c),
        v@.len() == ENTANGLED_COLLECTION_LEN,
{
    proof {
        lemma_auto_spec_u16_to_from_le_bytes();
        lemma_address_bytes_round_trip(c.id);
        lemma_address_bytes_round_trip(c.original_collection_mint);
        lemma_address_bytes_round_trip(c.entangled_collection_mint);
    }
    let mut v: Vec<u8> = Vec::new();
    push_tag(&mut v, COLLECTION_TAG);
    let mut b = c.id.to_bytes();
    v.append(&mut b);
    let mut b = c.original_collection_mint.to_bytes();
    v.append(&mut b);
    let mut b = c.entangled_collection_mint.to_bytes();
    v.append(&mut b);
    let mut b = u16_to_le_bytes(c.royalties);
    v.append(&mut b);
    v.push(if c.one_way {
        1
    } else {
        0
    });
    proof {
        assert(v@ =~= spec_encode_entangled_collection(*c));
    }
    v
}

/// Reads an [`EntangledCollection`] record back from a byte image.
pub fn decode_entangled_collection(b: &[u8]) -> (r: Option<EntangledCollection>)
    ensures
        r == spec_decode_entangled_collection(b@),
{
    if b.len() != ENTANGLED_COLLECTION_LEN {
        return None;
    }
    if !read_tag_matches(b, COLLECTION_TAG) {
        return None;
    }
    let flag = b[106];
    if flag != 0 && flag != 1 {
        return None;
    }
    let id = Address::from_bytes(slice_subrange(b, 8, 40));
    let original_collection_mint = Address::from_bytes(slice_subrange(b, 40, 72));
    let entangled_collection_mint = Address::from_bytes(slice_subrange(b, 72, 104));
    let royalties = u16_from_le_bytes(slice_subrange(b, 104, 106));
    Some(
        EntangledCollection {
            id,
            original_collection_mint,
            entangled_collection_mint,
            royalties,
            one_way: flag == 1,
        },
    )
}

/// Reading back the byte image of an [`EntangledCollection`] record gives
/// the record.
pub proof fn lemma_entangled_collection_round_trip(c: EntangledCollection)
    ensures
        spec_decode_entangled_collection(spec_encode_entangled_collection(c)) == Some(c),
{
    lemma_auto_spec_u16_to_from_le_bytes();
    lemma_address_bytes_round_trip(c.id);
    lemma_address_bytes_round_trip(c.original_collection_mint);
    lemma_address_bytes_round_trip(c.entangled_collection_mint);
    let e = spec_encode_entangled_collection(c);
    assert(e.subrange(0, 8) =~= tag_seq(COLLECTION_TAG));
    assert(e.subrange(8, 40) =~= c.id.bytes());
    assert(e.subrange(40, 72) =~= c.original_collection_mint.bytes());
    assert(e.subrange(72, 104) =~= c.entangled_collection_mint.bytes());
    assert(e.subrange(104, 106) =~= spec_u16_to_le_bytes(c.royalties));
    assert(e[106] == if c.one_way {
        1u8
    } else {
        0u8
    });
}

/// The byte layout of a persisted [`EntangledPair`] record: the prefix and
/// the two addresses.
pub open spec fn spec_encode_entangled_pair(p: EntangledPair) -> Seq<u8> {
    tag_seq(PAIR_TAG) + p.original_mint.bytes() + p.entangled_mint.bytes()
}

/// The record read back from a byte image, if the image is exactly a
/// well-formed [`EntangledPair`] layout.
pub open spec fn spec_decode_entangled_pair(b: Seq<u8>) -> Option<EntangledPair> {
    if b.len() == ENTANGLED_PAIR_LEN && b.subrange(0, 8) == tag_seq(PAIR_TAG) {
        Some(
            EntangledPair {
                original_mint: Address::spec_from_bytes(b.subrange(8, 40)),
                entangled_mint: Address::spec_from_bytes(b.subrange(40, 72)),
            },
        )
    } else {
        None
    }
}

/// Writes the byte image of an [`EntangledPair`] record.
pub fn encode_entangled_pair(p: &EntangledPair) -> (v: Vec<u8>)
    ensures
        v@ == spec_encode_entangled_pair(*p),
        v@.len() == ENTANGLED_PAIR_LEN,
{
    proof {
        lemma_address_bytes_round_trip(p.original_mint);
        lemma_address_bytes_round_trip(p.entangled_mint);
    }
    let mut v: Vec<u8> = Vec::new();
    push_tag(&mut v, PAIR_TAG);
    let mut b = p.original_mint.to_bytes();
    v.append(&mut b);
    let mut b = p.entangled_mint.to_bytes();
    v.append(&mut b);
    proof {
        assert(v@ =~= spec_encode_entangled_pair(*p));
    }
    v
}

/// Reads an [`EntangledPair`] record back from a byte image.
pub fn decode_entangled_pair(b: &[u8]) -> (r: Option<EntangledPair>)
    ensures
        r == spec_decode_entangled_pair(b@),
{
    if b.len() != ENTANGLED_PAIR_LEN {
        return None;
    }
    if !read_tag_matches(b, PAIR_TAG) {
        return None;
    }
    let original_mint = Address::from_bytes(slice_subrange(b, 8, 40));
    let entangled_mint = Address::from_bytes(slice_subrange(b, 40, 72));
    Some(EntangledPair { original_mint, entangled_mint })
}

/// Reading back the byte image of an [`EntangledPair`] record gives the
/// record.
pub proof fn lemma_entangled_pair_round_trip(p: EntangledPair)
    ensures
        spec_decode_entangled_pair(spec_encode_entangled_pair(p)) == Some(p),
{
    lemma_address_bytes_round_trip(p.original_mint);
    lemma_address_bytes_round_trip(p.entangled_mint);
    let e = spec_encode_entangled_pair(p);
    assert(e.subrange(0, 8) =~= tag_seq(PAIR_TAG));
    assert(e.subrange(8, 40) =~= p.original_mint.bytes());
    assert(e.subrange(40, 72) =~= p.entangled_mint.bytes());
}

/// Every byte image that decodes as an [`EntanglerState`] record is the
/// encoding of that record: the layout has one image per record.
pub proof fn lemma_entangler_state_canonical(b: Seq<u8>)
    requires
        spec_decode_entangler_state(b) is Some,
    ensures
        spec_encode_entangler_state(spec_decode_entangler_state(b)->Some_0) == b,
{
    lemma_auto_spec_u64_to_from_le_bytes();
    crate::address::lemma_address_from_bytes_round_trip(b.subrange(8, 40));
    crate::address::lemma_address_from_bytes_round_trip(b.subrange(40, 72));
    crate::address::lemma_address_from_bytes_round_trip(b.subrange(72, 104));
    let s = spec_decode_entangler_state(b)->Some_0;
    assert(spec_encode_entangler_state(s) =~= b);
}

/// Every byte image that decodes as an [`EntangledPair`] record is the
/// encoding of that record.
pub proof fn lemma_entangled_pair_canonical(b: Seq<u8>)
    requires
        spec_decode_entangled_pair(b) is Some,
    ensures
        spec_encode_entangled_pair(spec_decode_entangled_pair(b)->Some_0) == b,
{
    crate::address::lemma_address_from_bytes_round_trip(b.subrange(8, 40));
    crate::address::lemma_address_from_bytes_round_trip(b.subrange(40, 72));
    let p = spec_decode_entangled_pair(b)->Some_0;
    assert(spec_encode_entangled_pair(p) =~= b);
}

/// Every byte image that decodes as an [`EntangledCollection`] record is
/// the encoding of that record.
pub proof fn lemma_entangled_collection_canonical(b: Seq<u8>)
    requires
        spec_decode_entangled_collection(b) is Some,
    ensures
        spec_encode_entangled_collection(spec_decode_entangled_collection(b)->Some_0) == b,
{
    lemma_auto_spec_u16_to_from_le_bytes();
    crate::address::lemma_address_from_bytes_round_trip(b.subrange(8, 40));
    crate::address::lemma_address_from_bytes_round_trip(b.subrange(40, 72));
    crate::address::lemma_address_from_bytes_round_trip(b.subrange(72, 104));
    let c = spec_decode_entangled_collection(b)->Some_0;
    assert(spec_encode_entangled_collection(c) =~= b);
}

/// The byte layout of a persisted [`CollectionEntry`] record: the prefix,
/// the collection id, the key's length in 4 little-endian bytes, then the
/// key itself.
pub open spec fn spec_encode_collection_entry(e: CollectionEntryModel) -> Seq<u8> {
    tag_seq(ENTRY_TAG) + e.id.bytes() + spec_u32_to_le_bytes(e.key.len() as u32) + e.key
}

/// The record read back from a byte image, if the image is exactly a
/// well-formed [`CollectionEntry`] layout with a key of at most
/// [`MAX_KEY_SIZE`] bytes.
pub open spec fn spec_decode_collection_entry(b: Seq<u8>) -> Option<CollectionEntryModel> {
    if b.len() >= 44 && b.subrange(0, 8) == tag_seq(ENTRY_TAG) && spec_u32_from_le_bytes(
        b.subrange(40, 44),
    ) as int == b.len() - 44 && b.len() - 44 <= MAX_KEY_SIZE {
        Some(
            CollectionEntryModel {
                id: Address::spec_from_bytes(b.subrange(8, 40)),
                key: b.subrange(44, b.len() as int),
            },
        )
    } else {
        None
    }
}

/// Writes the byte image of a [`CollectionEntry`] record.
pub fn encode_collection_entry(e: &CollectionEntry) -> (v: Vec<u8>)
    requires
        e@.key.len() <= MAX_KEY_SIZE,
    ensures
        v@ == spec_encode_collection_entry(e@),
        v@.len() == 44 + e@.key.len(),
        v@.len() <= COLLECTION_ENTRY_LEN,
{
    proof {
        lemma_auto_spec_u32_to_from_le_bytes();
        lemma_address_bytes_round_trip(e.id);
    }
    let mut v: Vec<u8> = Vec::new();
    push_tag(&mut v, ENTRY_TAG);
    let mut b = e.id.to_bytes();
    v.append(&mut b);
    let mut b = u32_to_le_bytes(e.key.len() as u32);
    v.append(&mut b);
    let mut b = slice_to_vec(e.key.as_slice());
    v.append(&mut b);
    proof {
        assert(v@ =~= spec_encode_collection_entry(e@));
    }
    v
}

/// Reads a [`CollectionEntry`] record back from a byte image.
pub fn decode_collection_entry(b: &[u8]) -> (r: Option<CollectionEntry>)
    ensures
        match r {
            Some(e) => spec_decode_collection_entry(b@) == Some(e@),
            None => spec_decode_collection_entry(b@) is None,
        },
{
    if b.len() < 44 {
        return None;
    }
    if !read_tag_matches(b, ENTRY_TAG) {
        return None;
    }
    let klen = u32_from_le_bytes(slice_subrange(b, 40, 44));
    proof {
        lemma_auto_spec_u32_to_from_le_bytes();
    }
    if !(klen as usize == b.len() - 44) || b.len() - 44 > MAX_KEY_SIZE {
        return None;
    }
    let id = Address::from_bytes(slice_subrange(b, 8, 40));
    let key = slice_to_vec(slice_subrange(b, 44, b.len()));
    Some(CollectionEntry { id, key })
}

/// Reading back the byte image of a [`CollectionEntry`] record gives the
/// record, for every well-formed key.
pub proof fn lemma_collection_entry_round_trip(e: CollectionEntryModel)
    requires
        valid_key(e.key),
    ensures
        spec_decode_collection_entry(spec_encode_collection_entry(e)) == Some(e),
{
    lemma_auto_spec_u32_to_from_le_bytes();
    lemma_address_bytes_round_trip(e.id);
    let b = spec_encode_collection_entry(e);
    assert(b.len() == 44 + e.key.len());
    assert(b.subrange(0, 8) =~= tag_seq(ENTRY_TAG));
    assert(b.subrange(8, 40) =~= e.id.bytes());
    assert(b.subrange(40, 44) =~= spec_u32_to_le_bytes(e.key.len() as u32));
    assert(b.subrange(44, b.len() as int) =~= e.key);
}

/// Every byte image that decodes as a [`CollectionEntry`] record is the
/// encoding of that record.
pub proof fn lemma_collection_entry_canonical(b: Seq<u8>)
    requires
        spec_decode_collection_entry(b) is Some,
    ensures
        spec_encode_collection_entry(spec_decode_collection_entry(b)->Some_0) == b,
{
    lemma_auto_spec_u32_to_from_le_bytes();
    crate::address::lemma_address_from_bytes_round_trip(b.subrange(8, 40));
    let e = spec_decode_collection_entry(b)->Some_0;
    assert(spec_u32_to_le_bytes(e.key.len() as u32) =~= b.subrange(40, 44));
    assert(spec_encode_collection_entry(e) =~= b);
}

} // verus!
