//! The two record kinds kept in the registry, with their declared field
//! bounds. Text fields are bounded byte strings; identities are 32-byte
//! keys; a record also stores the disambiguator byte that made its derived
//! address valid.

use crate::ids::Identity;
use vstd::prelude::*;

verus! {

/// Longest allowed studio or player name, in bytes.
pub const MAX_NAME_LEN: usize = 32;

/// Longest allowed studio symbol, in bytes.
pub const MAX_SYMBOL_LEN: usize = 32;

/// Longest allowed metadata URI, in bytes.
pub const MAX_URI_LEN: usize = 200;

/// Longest allowed player username, in bytes.
pub const MAX_USERNAME_LEN: usize = 64;

/// Most collection references a studio record may list.
pub const MAX_NFT_COLLECTIONS: usize = 5;

/// A game-studio registry record.
#[derive(Debug)]
pub struct GameRegistryMetadata {
    /// Studio name, at most `MAX_NAME_LEN` bytes.
    pub name: Vec<u8>,
    /// Short studio symbol, at most `MAX_SYMBOL_LEN` bytes.
    pub symbol: Vec<u8>,
    /// Metadata URI, at most `MAX_URI_LEN` bytes.
    pub uri: Vec<u8>,
    /// The only identity permitted to mutate this record.
    pub authority: Identity,
    /// Associated fungible-token ledger; zero when unset.
    pub native_token: Identity,
    /// Collection identities, at most `MAX_NFT_COLLECTIONS` of them.
    pub nft_collection: Vec<Identity>,
    /// The disambiguator byte of this record's derived address.
    pub bump: u8,
}

/// The mathematical value of a game-studio record.
pub ghost struct StudioView {
    pub name: Seq<u8>,
    pub symbol: Seq<u8>,
    pub uri: Seq<u8>,
    pub authority: Identity,
    pub native_token: Identity,
    pub nft_collection: Seq<Identity>,
    pub bump: u8,
}

impl View for GameRegistryMetadata {
    type V = StudioView;

    open spec fn view(&self) -> StudioView {
        StudioView {
            name: self.name@,
            symbol: self.symbol@,
            uri: self.uri@,
            authority: self.authority,
            native_token: self.native_token,
            nft_collection: self.nft_collection@,
            bump: self.bump,
        }
    }
}

/// Whether a studio record respects the declared field bounds.
pub open spec fn studio_wf(r: StudioView) -> bool {
    &&& r.name.len() <= MAX_NAME_LEN
    &&& r.symbol.len() <= MAX_SYMBOL_LEN
    &&& r.uri.len() <= MAX_URI_LEN
    &&& r.nft_collection.len() <= MAX_NFT_COLLECTIONS
}

/// A player registry record.
#[derive(Debug)]
pub struct PlayerAccount {
    /// The owning identity, the only one permitted to mutate this record.
    pub authority: Identity,
    /// Player username, at most `MAX_USERNAME_LEN` bytes.
    pub username: Vec<u8>,
    /// Ledger timestamp at creation; non-zero exactly when created.
    pub created_at: u64,
    /// Metadata URI, at most `MAX_URI_LEN` bytes.
    pub uri: Vec<u8>,
    /// The disambiguator byte of this record's derived address.
    pub bump: u8,
}

/// The mathematical value of a player record.
pub ghost struct PlayerView {
    pub authority: Identity,
    pub username: Seq<u8>,
    pub created_at: u64,
    pub uri: Seq<u8>,
    pub bump: u8,
}

impl View for PlayerAccount {
    type V = PlayerView;

    open spec fn view(&self) -> PlayerView {
        PlayerView {
            authority: self.authority,
            username: self.username@,
            created_at: self.created_at,
            uri: self.uri@,
            bump: self.bump,
        }
    }
}

/// Whether a player record respects the declared field bounds.
pub open spec fn player_wf(r: PlayerView) -> bool {
    &&& r.username.len() <= MAX_USERNAME_LEN
    &&& r.uri.len() <= MAX_URI_LEN
}

fn filler(len: usize) -> (r: Vec<u8>)
    ensures
        r@ == Seq::new(len as nat, |i: int| 0x78u8),
{
    let mut v: Vec<u8> = Vec::new();
    let mut k: usize = 0;
    while k < len
        invariant
            k <= len,
            v@ == Seq::new(k as nat, |i: int| 0x78u8),
        decreases len - k,
    {
        v.push(0x78);
        k = k + 1;
        assert(v@ =~= Seq::new(k as nat, |i: int| 0x78u8));
    }
    v
}

impl GameRegistryMetadata {
    /// A record in which every bounded field has its maximal length, so its
    /// encoding is as long as any valid studio record's.
    pub fn max_size() -> (r: GameRegistryMetadata)
        ensures
            studio_wf(r@),
            r@.name.len() == MAX_NAME_LEN,
            r@.symbol.len() == MAX_SYMBOL_LEN,
            r@.uri.len() == MAX_URI_LEN,
            r@.nft_collection.len() == MAX_NFT_COLLECTIONS,
    {
        let mut coll: Vec<Identity> = Vec::new();
        let mut k: usize = 0;
        while k < MAX_NFT_COLLECTIONS
            invariant
                k <= MAX_NFT_COLLECTIONS,
                coll@.len() == k,
            decreases MAX_NFT_COLLECTIONS - k,
        {
            coll.push(Identity::zero());
            k = k + 1;
        }
        GameRegistryMetadata {
            name: filler(MAX_NAME_LEN),
            symbol: filler(MAX_SYMBOL_LEN),
            uri: filler(MAX_URI_LEN),
            authority: Identity::zero(),
            native_token: Identity::zero(),
            nft_collection: coll,
            bump: 0,
        }
    }
}

} // verus!
