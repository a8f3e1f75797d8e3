//! Tokens and their metadata. A token's id is immutable once assigned, its
//! owner changes only through `transfer`, and its metadata changes only
//! through the scheduled updater.

use vstd::prelude::*;
use crate::principal::Principal;

verus! {

/// Metadata of a single token. `media` is the ordered list of media
/// references; `current_media_index` points at the one currently displayed.
pub struct TokenMetadata {
    pub name: String,
    pub description: String,
    pub current_media_index: u64,
    pub media: Vec<String>,
    pub reference: String,
}

/// Field-for-field equality of metadata, comparing the media list by its
/// contents.
pub open spec fn meta_like(a: TokenMetadata, b: TokenMetadata) -> bool {
    &&& a.name == b.name
    &&& a.description == b.description
    &&& a.current_media_index == b.current_media_index
    &&& a.media@ == b.media@
    &&& a.reference == b.reference
}

/// Field-for-field equality of tokens.
pub open spec fn nft_like(a: NFT, b: NFT) -> bool {
    a.id == b.id && a.owner == b.owner && meta_like(a.metadata, b.metadata)
}

impl TokenMetadata {
    /// The metadata invariant: whenever there is any media at all, the active
    /// index stays inside the list.
    pub open spec fn wf(self) -> bool {
        self.media@.len() > 0 ==> self.current_media_index < self.media@.len()
    }

    /// An exact copy, built field by field.
    pub fn duplicate(&self) -> (r: TokenMetadata)
        ensures
            meta_like(r, *self),
    {
        TokenMetadata {
            name: self.name.clone(),
            description: self.description.clone(),
            current_media_index: self.current_media_index,
            media: copy_strings(&self.media),
            reference: self.reference.clone(),
        }
    }
}

/// A single token of the ledger.
pub struct NFT {
    pub id: u64,
    pub owner: Principal,
    pub metadata: TokenMetadata,
}

impl NFT {
    /// An exact copy, built field by field.
    pub fn duplicate(&self) -> (r: NFT)
        ensures
            nft_like(r, *self),
    {
        NFT { id: self.id, owner: self.owner, metadata: self.metadata.duplicate() }
    }
}

/// Copies a list of strings element by element.
pub fn copy_strings(v: &Vec<String>) -> (r: Vec<String>)
    ensures
        r@ == v@,
{
    let mut r: Vec<String> = Vec::new();
    let mut i: usize = 0;
    while i < v.len()
        invariant
            i <= v@.len(),
            r@ =~= v@.subrange(0, i as int),
        decreases v@.len() - i,
    {
        r.push(v[i].clone());
        i = i + 1;
    }
    proof {
        assert(r@ =~= v@);
    }
    r
}

/// Copies a list of ids element by element.
pub fn copy_ids(v: &Vec<u64>) -> (r: Vec<u64>)
    ensures
        r@ == v@,
{
    let mut r: Vec<u64> = Vec::new();
    let mut i: usize = 0;
    while i < v.len()
        invariant
            i <= v@.len(),
            r@ =~= v@.subrange(0, i as int),
        decreases v@.len() - i,
    {
        r.push(v[i]);
        i = i + 1;
    }
    proof {
        assert(r@ =~= v@);
    }
    r
}

} // verus!
