use crate::address::Address;
use vstd::prelude::*;

verus! {

/// One entry of an asset's creator list.
#[derive(Clone, Copy, PartialEq, Eq, Structural, Debug)]
pub struct Creator {
    pub address: Address,
    /// Whether the creator has confirmed the listing.
    pub verified: bool,
    /// The creator's royalty share, in percent.
    pub share: u8,
}

/// An asset's recorded collection membership.
#[derive(Clone, Copy, PartialEq, Eq, Structural, Debug)]
pub struct CollectionLink {
    /// The collection asset the owner claims membership in.
    pub key: Address,
    /// Whether the collection's authority has confirmed the membership.
    pub verified: bool,
}

/// The descriptive metadata recorded for one asset, as the external
/// metadata registry stores it.
#[derive(Clone, Debug)]
pub struct TokenMetadata {
    pub name: Vec<u8>,
    pub symbol: Vec<u8>,
    pub uri: Vec<u8>,
    /// The royalty rate, in basis points.
    pub seller_fee_basis_points: u16,
    pub creators: Vec<Creator>,
    pub collection: Option<CollectionLink>,
}

/// The mathematical value of a [`TokenMetadata`].
pub struct TokenMetadataModel {
    pub name: Seq<u8>,
    pub symbol: Seq<u8>,
    pub uri: Seq<u8>,
    pub seller_fee_basis_points: u16,
    pub creators: Seq<Creator>,
    pub collection: Option<CollectionLink>,
}

impl View for TokenMetadata {
    type V = TokenMetadataModel;

    open spec fn view(&self) -> TokenMetadataModel {
        TokenMetadataModel {
            name: self.name@,
            symbol: self.symbol@,
            uri: self.uri@,
            seller_fee_basis_points: self.seller_fee_basis_points,
            creators: self.creators@,
            collection: self.collection,
        }
    }
}

/// Copies a byte vector.
pub fn copy_bytes(v: &Vec<u8>) -> (r: Vec<u8>)
    ensures
        r@ == v@,
{
    let mut r: Vec<u8> = Vec::new();
    let mut i: usize = 0;
    while i < v.len()
        invariant
            i <= v@.len(),
            r@ == v@.subrange(0, i as int),
        decreases v@.len() - i,
    {
        r.push(v[i]);
        proof {
            assert(r@ =~= v@.subrange(0, i + 1));
        }
        i = i + 1;
    }
    proof {
        assert(r@ =~= v@);
    }
    r
}

/// Copies a creator list.
pub fn copy_creators(v: &Vec<Creator>) -> (r: Vec<Creator>)
    ensures
        r@ == v@,
{
    let mut r: Vec<Creator> = Vec::new();
    let mut i: usize = 0;
    while i < v.len()
        invariant
            i <= v@.len(),
            r@ == v@.subrange(0, i as int),
        decreases v@.len() - i,
    {
        r.push(v[i]);
        proof {
            assert(r@ =~= v@.subrange(0, i + 1));
        }
        i = i + 1;
    }
    proof {
        assert(r@ =~= v@);
    }
    r
}

impl TokenMetadata {
    /// An equal, independently owned copy of this metadata record.
    pub fn duplicate(&self) -> (r: TokenMetadata)
        ensures
            r@ == self@,
    {
        TokenMetadata {
            name: copy_bytes(&self.name),
            symbol: copy_bytes(&self.symbol),
            uri: copy_bytes(&self.uri),
            seller_fee_basis_points: self.seller_fee_basis_points,
            creators: copy_creators(&self.creators),
            collection: self.collection,
        }
    }
}

/// One record of the modeled metadata registry: the asset it describes and
/// the metadata stored for it.
#[derive(Clone, Debug)]
pub struct MetaEntry {
    pub asset: Address,
    pub metadata: TokenMetadata,
}

/// The mathematical value of a [`MetaEntry`].
pub struct MetaEntryModel {
    pub asset: Address,
    pub metadata: TokenMetadataModel,
}

impl View for MetaEntry {
    type V = MetaEntryModel;

    open spec fn view(&self) -> MetaEntryModel {
        MetaEntryModel { asset: self.asset, metadata: self.metadata@ }
    }
}

} // verus!
