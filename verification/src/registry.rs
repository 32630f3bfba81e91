//! The game-studio store: creation and authority-gated, sentinel-based
//! partial update of studio records, each fixed by a functional model of
//! the whole atomic unit. A failing call leaves the ledger untouched.

use crate::codec::{
    decode_studio, dec_studio, encode_studio_account, studio_account_bytes,
};
use crate::errors::RegistryError;
use crate::ids::Identity;
use crate::ledger::{
    lemma_lookup_account_none, lemma_lookup_account_push, lemma_store_account_at, lookup_account,
    store_account, Account, AccountView, Ledger, LedgerView,
};
use crate::pda::{find_registry_pda, pda_id, registry_seeds};
use crate::records::{
    studio_wf, GameRegistryMetadata, StudioView, MAX_NAME_LEN, MAX_NFT_COLLECTIONS,
    MAX_SYMBOL_LEN, MAX_URI_LEN,
};
use vstd::prelude::*;

verus! {

/// What one `create_game_studio` call does to the ledger: the next ledger
/// state and the result the caller sees.
pub open spec fn create_studio_model(
    l: LedgerView,
    payer: Identity,
    payer_signed: bool,
    record_addr: Identity,
    seed_key: Identity,
    name: Seq<u8>,
    symbol: Seq<u8>,
    uri: Seq<u8>,
    authority: Identity,
    native_token: Identity,
    nft_collection: Seq<Identity>,
) -> (LedgerView, Result<Identity, RegistryError>) {
    if !payer_signed {
        (l, Err(RegistryError::MissingSignature))
    } else if authority != payer {
        (l, Err(RegistryError::Unauthorized))
    } else if name.len() > MAX_NAME_LEN || symbol.len() > MAX_SYMBOL_LEN || uri.len()
        > MAX_URI_LEN || nft_collection.len() > MAX_NFT_COLLECTIONS {
        (l, Err(RegistryError::InvalidArgument))
    } else {
        match pda_id(registry_seeds(seed_key), l.program_id) {
            None => (l, Err(RegistryError::InvalidAddress)),
            Some((addr, bump)) => if addr != record_addr {
                (l, Err(RegistryError::InvalidAddress))
            } else {
                let rec = StudioView {
                    name,
                    symbol,
                    uri,
                    authority,
                    native_token,
                    nft_collection,
                    bump,
                };
                let buf = studio_account_bytes(rec);
                match lookup_account(l.accounts, addr) {
                    Some(d) => if d.len() > 0 {
                        (l, Err(RegistryError::AlreadyExists))
                    } else {
                        (
                            LedgerView { accounts: store_account(l.accounts, addr, buf), ..l },
                            Ok(addr),
                        )
                    },
                    None => (
                        LedgerView {
                            accounts: l.accounts.push(AccountView { address: addr, data: buf }),
                            ..l
                        },
                        Ok(addr),
                    ),
                }
            },
        }
    }
}

/// A studio record after a sentinel-based partial update: an empty byte
/// string or a zero identity or an empty list leaves the stored field as it
/// was; any other supplied value replaces it. The authority, the creation
/// disambiguator and the record kind never change.
pub open spec fn apply_studio_update(
    old_rec: StudioView,
    name: Seq<u8>,
    symbol: Seq<u8>,
    uri: Seq<u8>,
    native_token: Identity,
    nft_collection: Seq<Identity>,
) -> StudioView {
    StudioView {
        name: if name.len() > 0 {
            name
        } else {
            old_rec.name
        },
        symbol: if symbol.len() > 0 {
            symbol
        } else {
            old_rec.symbol
        },
        uri: if uri.len() > 0 {
            uri
        } else {
            old_rec.uri
        },
        authority: old_rec.authority,
        native_token: if native_token != Identity::spec_zero() {
            native_token
        } else {
            old_rec.native_token
        },
        nft_collection: if nft_collection.len() > 0 {
            nft_collection
        } else {
            old_rec.nft_collection
        },
        bump: old_rec.bump,
    }
}

/// What one `update_game_studio` call does to the ledger.
pub open spec fn update_studio_model(
    l: LedgerView,
    payer: Identity,
    payer_signed: bool,
    record_addr: Identity,
    seed_key: Identity,
    name: Seq<u8>,
    symbol: Seq<u8>,
    uri: Seq<u8>,
    native_token: Identity,
    nft_collection: Seq<Identity>,
) -> (LedgerView, Result<(), RegistryError>) {
    if !payer_signed {
        (l, Err(RegistryError::MissingSignature))
    } else {
        match pda_id(registry_seeds(seed_key), l.program_id) {
            None => (l, Err(RegistryError::InvalidAddress)),
            Some((addr, bump)) => if addr != record_addr {
                (l, Err(RegistryError::InvalidAddress))
            } else {
                match lookup_account(l.accounts, addr) {
                    None => (l, Err(RegistryError::Uninitialized)),
                    Some(d) => if d.len() == 0 {
                        (l, Err(RegistryError::Uninitialized))
                    } else {
                        match dec_studio(d) {
                            None => (l, Err(RegistryError::DataCorrupt)),
                            Some(old_rec) => if payer != old_rec.authority {
                                (l, Err(RegistryError::Unauthorized))
                            } else if name.len() > MAX_NAME_LEN || symbol.len() > MAX_SYMBOL_LEN
                                || uri.len() > MAX_URI_LEN || nft_collection.len()
                                > MAX_NFT_COLLECTIONS {
                                (l, Err(RegistryError::InvalidArgument))
                            } else {
                                let new_rec = apply_studio_update(
                                    old_rec,
                                    name,
                                    symbol,
                                    uri,
                                    native_token,
                                    nft_collection,
                                );
                                (
                                    LedgerView {
                                        accounts: store_account(
                                            l.accounts,
                                            addr,
                                            studio_account_bytes(new_rec),
                                        ),
                                        ..l
                                    },
                                    Ok(()),
                                )
                            },
                        }
                    },
                }
            },
        }
    }
}

/// Creates a game-studio record. Derives the record address from the
/// "registry" namespace and `seed_key`, refuses a populated target, and
/// writes the encoded record into a buffer sized to the maximal encoding.
/// The supplied authority must be the signing payer, who becomes the
/// record's authority.
pub fn create_game_studio(
    l: &mut Ledger,
    payer: Identity,
    payer_signed: bool,
    record_addr: Identity,
    seed_key: Identity,
    name: Vec<u8>,
    symbol: Vec<u8>,
    uri: Vec<u8>,
    authority: Identity,
    native_token: Identity,
    nft_collection: Vec<Identity>,
) -> (r: Result<Identity, RegistryError>)
    requires
        old(l)@.wf(),
    ensures
        final(l)@.wf(),
        (final(l)@, r) == create_studio_model(
            old(l)@,
            payer,
            payer_signed,
            record_addr,
            seed_key,
            name@,
            symbol@,
            uri@,
            authority,
            native_token,
            nft_collection@,
        ),
{
    if !payer_signed {
        return Err(RegistryError::MissingSignature);
    }
    if authority != payer {
        return Err(RegistryError::Unauthorized);
    }
    if name.len() > MAX_NAME_LEN || symbol.len() > MAX_SYMBOL_LEN || uri.len() > MAX_URI_LEN
        || nft_collection.len() > MAX_NFT_COLLECTIONS {
        return Err(RegistryError::InvalidArgument);
    }
    let derived = find_registry_pda(&seed_key, &l.program_id);
    match derived {
        None => Err(RegistryError::InvalidAddress),
        Some((addr, bump)) => {
            if addr != record_addr {
                return Err(RegistryError::InvalidAddress);
            }
            let rec = GameRegistryMetadata {
                name,
                symbol,
                uri,
                authority,
                native_token,
                nft_collection,
                bump,
            };
            let buf = encode_studio_account(&rec);
            let ghost rec_v = rec@;
            match l.find_account_index(&addr) {
                Some(i) => {
                    if l.accounts[i].data.len() > 0 {
                        return Err(RegistryError::AlreadyExists);
                    }
                    let ghost old_accs = l@.accounts;
                    proof {
                        lemma_store_account_at(
                            old_accs,
                            addr,
                            studio_account_bytes(rec_v),
                            i as int,
                        );
                    }
                    l.accounts.set(i, Account { address: addr, data: buf });
                    proof {
                        assert(l@.accounts =~= store_account(
                            old_accs,
                            addr,
                            studio_account_bytes(rec_v),
                        ));
                    }
                    Ok(addr)
                },
                None => {
                    let ghost old_accs = l@.accounts;
                    proof {
                        lemma_lookup_account_none(old_accs, addr);
                    }
                    l.accounts.push(Account { address: addr, data: buf });
                    proof {
                        assert(l@.accounts =~= old_accs.push(
                            AccountView { address: addr, data: studio_account_bytes(rec_v) },
                        ));
                    }
                    Ok(addr)
                },
            }
        },
    }
}

/// Updates a game-studio record at its derived address. Only the recorded
/// authority may update; fields at their absent sentinel keep their stored
/// value; the whole buffer is re-encoded and rewritten.
pub fn update_game_studio(
    l: &mut Ledger,
    payer: Identity,
    payer_signed: bool,
    record_addr: Identity,
    seed_key: Identity,
    name: Vec<u8>,
    symbol: Vec<u8>,
    uri: Vec<u8>,
    native_token: Identity,
    nft_collection: Vec<Identity>,
) -> (r: Result<(), RegistryError>)
    requires
        old(l)@.wf(),
    ensures
        final(l)@.wf(),
        (final(l)@, r) == update_studio_model(
            old(l)@,
            payer,
            payer_signed,
            record_addr,
            seed_key,
            name@,
            symbol@,
            uri@,
            native_token,
            nft_collection@,
        ),
{
    if !payer_signed {
        return Err(RegistryError::MissingSignature);
    }
    let derived = find_registry_pda(&seed_key, &l.program_id);
    match derived {
        None => Err(RegistryError::InvalidAddress),
        Some((addr, _bump)) => {
            if addr != record_addr {
                return Err(RegistryError::InvalidAddress);
            }
            match l.find_account_index(&addr) {
                None => Err(RegistryError::Uninitialized),
                Some(i) => {
                    if l.accounts[i].data.len() == 0 {
                        return Err(RegistryError::Uninitialized);
                    }
                    let old_rec = match decode_studio(l.accounts[i].data.as_slice()) {
                        Ok(rec) => rec,
                        Err(e) => {
                            return Err(e);
                        },
                    };
                    if payer != old_rec.authority {
                        return Err(RegistryError::Unauthorized);
                    }
                    if name.len() > MAX_NAME_LEN || symbol.len() > MAX_SYMBOL_LEN || uri.len()
                        > MAX_URI_LEN || nft_collection.len() > MAX_NFT_COLLECTIONS {
                        return Err(RegistryError::InvalidArgument);
                    }
                    let new_rec = GameRegistryMetadata {
                        name: if name.len() > 0 {
                            name
                        } else {
                            old_rec.name
                        },
                        symbol: if symbol.len() > 0 {
                            symbol
                        } else {
                            old_rec.symbol
                        },
                        uri: if uri.len() > 0 {
                            uri
                        } else {
                            old_rec.uri
                        },
                        authority: old_rec.authority,
                        native_token: if !native_token.is_zero() {
                            native_token
                        } else {
                            old_rec.native_token
                        },
                        nft_collection: if nft_collection.len() > 0 {
                            nft_collection
                        } else {
                            old_rec.nft_collection
                        },
                        bump: old_rec.bump,
                    };
                    let buf = encode_studio_account(&new_rec);
                    let ghost new_v = new_rec@;
                    let ghost old_accs = l@.accounts;
                    proof {
                        lemma_store_account_at(
                            old_accs,
                            addr,
                            studio_account_bytes(new_v),
                            i as int,
                        );
                    }
                    l.accounts.set(i, Account { address: addr, data: buf });
                    proof {
                        assert(l@.accounts =~= store_account(
                            old_accs,
                            addr,
                            studio_account_bytes(new_v),
                        ));
                    }
                    Ok(())
                },
            }
        },
    }
}

// ---------------------------------------------------------------------------
// Laws
// ---------------------------------------------------------------------------
/// A create succeeds at most once per (seed key, program) pair: after a
/// successful create, any further create of the same pair fails with
/// `AlreadyExists`, changes nothing, and the record written by the first
/// call still sits at the derived address, byte for byte.
pub proof fn lemma_create_once(
    l: LedgerView,
    payer: Identity,
    record_addr: Identity,
    seed_key: Identity,
    name: Seq<u8>,
    symbol: Seq<u8>,
    uri: Seq<u8>,
    authority: Identity,
    native_token: Identity,
    nft_collection: Seq<Identity>,
    payer2: Identity,
    name2: Seq<u8>,
    symbol2: Seq<u8>,
    uri2: Seq<u8>,
    authority2: Identity,
    native_token2: Identity,
    nft_collection2: Seq<Identity>,
)
    requires
        l.wf(),
        create_studio_model(
            l,
            payer,
            true,
            record_addr,
            seed_key,
            name,
            symbol,
            uri,
            authority,
            native_token,
            nft_collection,
        ).1 is Ok,
    ensures
        ({
            let first = create_studio_model(
                l,
                payer,
                true,
                record_addr,
                seed_key,
                name,
                symbol,
                uri,
                authority,
                native_token,
                nft_collection,
            );
            let bump = pda_id(registry_seeds(seed_key), l.program_id).unwrap().1;
            let rec = StudioView {
                name,
                symbol,
                uri,
                authority,
                native_token,
                nft_collection,
                bump,
            };
            let second = create_studio_model(
                first.0,
                payer2,
                true,
                record_addr,
                seed_key,
                name2,
                symbol2,
                uri2,
                authority2,
                native_token2,
                nft_collection2,
            );
            &&& lookup_account(first.0.accounts, record_addr) == Some(studio_account_bytes(rec))
            &&& second.0 == first.0
            &&& second.1 is Err
            &&& (authority2 == payer2 && name2.len() <= MAX_NAME_LEN && symbol2.len()
                <= MAX_SYMBOL_LEN && uri2.len() <= MAX_URI_LEN && nft_collection2.len()
                <= MAX_NFT_COLLECTIONS) ==> second.1 == Err::<Identity, RegistryError>(
                RegistryError::AlreadyExists,
            )
        }),
{
    let first = create_studio_model(
        l,
        payer,
        true,
        record_addr,
        seed_key,
        name,
        symbol,
        uri,
        authority,
        native_token,
        nft_collection,
    );
    let derived = pda_id(registry_seeds(seed_key), l.program_id);
    let addr = derived.unwrap().0;
    let bump = derived.unwrap().1;
    let rec = StudioView { name, symbol, uri, authority, native_token, nft_collection, bump };
    let buf = studio_account_bytes(rec);
    crate::codec::lemma_studio_account_bytes_len(rec);
    match lookup_account(l.accounts, addr) {
        Some(d) => {
            crate::ledger::lemma_lookup_store_account(l.accounts, addr, buf, addr);
        },
        None => {
            crate::ledger::lemma_lookup_account_push(
                l.accounts,
                AccountView { address: addr, data: buf },
                addr,
            );
        },
    }
    assert(lookup_account(first.0.accounts, record_addr) == Some(buf));
    assert(buf.len() == crate::codec::STUDIO_ACCOUNT_LEN);
}

/// An update signed by anything but the recorded authority fails with
/// `Unauthorized` and leaves the ledger, and so the stored record,
/// byte-for-byte unchanged.
pub proof fn lemma_update_unauthorized(
    l: LedgerView,
    payer: Identity,
    record_addr: Identity,
    seed_key: Identity,
    name: Seq<u8>,
    symbol: Seq<u8>,
    uri: Seq<u8>,
    native_token: Identity,
    nft_collection: Seq<Identity>,
)
    requires
        ({
            let derived = pda_id(registry_seeds(seed_key), l.program_id);
            &&& derived is Some
            &&& derived.unwrap().0 == record_addr
        }),
        ({
            let d = lookup_account(l.accounts, record_addr);
            &&& d is Some
            &&& d.unwrap().len() > 0
            &&& dec_studio(d.unwrap()) is Some
            &&& payer != dec_studio(d.unwrap()).unwrap().authority
        }),
    ensures
        update_studio_model(
            l,
            payer,
            true,
            record_addr,
            seed_key,
            name,
            symbol,
            uri,
            native_token,
            nft_collection,
        ) == (l, Err::<(), RegistryError>(RegistryError::Unauthorized)),
{
}

/// The partial-update law: a field left at its absent sentinel (empty byte
/// string, zero identity, empty list) keeps its stored value; a field given
/// a present value takes exactly that value. The authority and the
/// disambiguator never change on update.
pub proof fn lemma_partial_update(
    old_rec: StudioView,
    name: Seq<u8>,
    symbol: Seq<u8>,
    uri: Seq<u8>,
    native_token: Identity,
    nft_collection: Seq<Identity>,
)
    ensures
        ({
            let new_rec = apply_studio_update(
                old_rec,
                name,
                symbol,
                uri,
                native_token,
                nft_collection,
            );
            &&& new_rec.name == if name.len() > 0 {
                name
            } else {
                old_rec.name
            }
            &&& new_rec.symbol == if symbol.len() > 0 {
                symbol
            } else {
                old_rec.symbol
            }
            &&& new_rec.uri == if uri.len() > 0 {
                uri
            } else {
                old_rec.uri
            }
            &&& new_rec.native_token == if native_token != Identity::spec_zero() {
                native_token
            } else {
                old_rec.native_token
            }
            &&& new_rec.nft_collection == if nft_collection.len() > 0 {
                nft_collection
            } else {
                old_rec.nft_collection
            }
            &&& new_rec.authority == old_rec.authority
            &&& new_rec.bump == old_rec.bump
        }),
{
}

/// A successful update stores exactly the re-encoded partial update of the
/// record that was there, and that buffer decodes back to it.
pub proof fn lemma_update_applies(
    l: LedgerView,
    payer: Identity,
    record_addr: Identity,
    seed_key: Identity,
    name: Seq<u8>,
    symbol: Seq<u8>,
    uri: Seq<u8>,
    native_token: Identity,
    nft_collection: Seq<Identity>,
)
    requires
        l.wf(),
        update_studio_model(
            l,
            payer,
            true,
            record_addr,
            seed_key,
            name,
            symbol,
            uri,
            native_token,
            nft_collection,
        ).1 is Ok,
    ensures
        ({
            let next = update_studio_model(
                l,
                payer,
                true,
                record_addr,
                seed_key,
                name,
                symbol,
                uri,
                native_token,
                nft_collection,
            ).0;
            let old_rec = dec_studio(lookup_account(l.accounts, record_addr).unwrap()).unwrap();
            let new_rec = apply_studio_update(
                old_rec,
                name,
                symbol,
                uri,
                native_token,
                nft_collection,
            );
            &&& lookup_account(next.accounts, record_addr) == Some(
                studio_account_bytes(new_rec),
            )
            &&& dec_studio(lookup_account(next.accounts, record_addr).unwrap()) == Some(new_rec)
        }),
{
    let d = lookup_account(l.accounts, record_addr).unwrap();
    let old_rec = dec_studio(d).unwrap();
    let new_rec = apply_studio_update(old_rec, name, symbol, uri, native_token, nft_collection);
    crate::codec::lemma_dec_studio_wf(d);
    assert(studio_wf(new_rec));
    crate::ledger::lemma_lookup_store_account(
        l.accounts,
        record_addr,
        studio_account_bytes(new_rec),
        record_addr,
    );
    crate::codec::lemma_studio_round_trip(new_rec);
}

} // verus!
