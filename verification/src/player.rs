//! The player store: the same create/update state machine as the studio
//! store, over the disjoint "player" namespace. The creation timestamp is
//! stamped once, from the clock value the caller read, and never updated.

use crate::codec::{
    dec_player, decode_player, encode_player_account, player_account_bytes,
};
use crate::errors::RegistryError;
use crate::ids::Identity;
use crate::ledger::{
    lemma_lookup_account_none, lemma_store_account_at, lookup_account, store_account, Account,
    AccountView, Ledger, LedgerView,
};
use crate::pda::{find_player_pda, pda_id, player_seeds};
use crate::records::{PlayerAccount, PlayerView, MAX_URI_LEN, MAX_USERNAME_LEN};
use vstd::prelude::*;

verus! {

/// What one `create_player_account` call does to the ledger. The caller
/// (payer) becomes the record's authority; `now` is the ledger clock at
/// creation and must be non-zero, since zero marks an uncreated record.
pub open spec fn create_player_model(
    l: LedgerView,
    payer: Identity,
    payer_signed: bool,
    record_addr: Identity,
    seed_key: Identity,
    username: Seq<u8>,
    uri: Seq<u8>,
    now: u64,
) -> (LedgerView, Result<Identity, RegistryError>) {
    if !payer_signed {
        (l, Err(RegistryError::MissingSignature))
    } else if username.len() > MAX_USERNAME_LEN || uri.len() > MAX_URI_LEN {
        (l, Err(RegistryError::InvalidArgument))
    } else {
        match pda_id(player_seeds(seed_key), l.program_id) {
            None => (l, Err(RegistryError::InvalidAddress)),
            Some((addr, bump)) => if addr != record_addr {
                (l, Err(RegistryError::InvalidAddress))
            } else {
                let rec = PlayerView { authority: payer, username, created_at: now, uri, bump };
                let buf = player_account_bytes(rec);
                match lookup_account(l.accounts, addr) {
                    Some(d) => if d.len() > 0 {
                        (l, Err(RegistryError::AlreadyExists))
                    } else {
                        (
                            LedgerView { accounts: store_account(l.accounts, addr, buf), ..l },
                            Ok(addr),
                        )
                    },
                    None => (
                        LedgerView {
                            accounts: l.accounts.push(AccountView { address: addr, data: buf }),
                            ..l
                        },
                        Ok(addr),
                    ),
                }
            },
        }
    }
}

/// A player record after a sentinel-based partial update: empty username or
/// URI and a zero authority leave the stored fields unchanged. The creation
/// timestamp and the disambiguator never change.
pub open spec fn apply_player_update(
    old_rec: PlayerView,
    username: Seq<u8>,
    uri: Seq<u8>,
    new_authority: Identity,
) -> PlayerView {
    PlayerView {
        authority: if new_authority != Identity::spec_zero() {
            new_authority
        } else {
            old_rec.authority
        },
        username: if username.len() > 0 {
            username
        } else {
            old_rec.username
        },
        created_at: old_rec.created_at,
        uri: if uri.len() > 0 {
            uri
        } else {
            old_rec.uri
        },
        bump: old_rec.bump,
    }
}

/// What one `update_player_account` call does to the ledger.
pub open spec fn update_player_model(
    l: LedgerView,
    payer: Identity,
    payer_signed: bool,
    record_addr: Identity,
    seed_key: Identity,
    username: Seq<u8>,
    uri: Seq<u8>,
    new_authority: Identity,
) -> (LedgerView, Result<(), RegistryError>) {
    if !payer_signed {
        (l, Err(RegistryError::MissingSignature))
    } else {
        match pda_id(player_seeds(seed_key), l.program_id) {
            None => (l, Err(RegistryError::InvalidAddress)),
            Some((addr, bump)) => if addr != record_addr {
                (l, Err(RegistryError::InvalidAddress))
            } else {
                match lookup_account(l.accounts, addr) {
                    None => (l, Err(RegistryError::Uninitialized)),
                    Some(d) => if d.len() == 0 {
                        (l, Err(RegistryError::Uninitialized))
                    } else {
                        match dec_player(d) {
                            None => (l, Err(RegistryError::DataCorrupt)),
                            Some(old_rec) => if old_rec.created_at == 0 {
                                (l, Err(RegistryError::Uninitialized))
                            } else if payer != old_rec.authority {
                                (l, Err(RegistryError::Unauthorized))
                            } else if username.len() > MAX_USERNAME_LEN || uri.len()
                                > MAX_URI_LEN {
                                (l, Err(RegistryError::InvalidArgument))
                            } else {
                                let new_rec = apply_player_update(
                                    old_rec,
                                    username,
                                    uri,
                                    new_authority,
                                );
                                (
                                    LedgerView {
                                        accounts: store_account(
                                            l.accounts,
                                            addr,
                                            player_account_bytes(new_rec),
                                        ),
                                        ..l
                                    },
                                    Ok(()),
                                )
                            },
                        }
                    },
                }
            },
        }
    }
}

/// Creates a player record in the "player" namespace. The signing payer
/// becomes the authority and `now` (the ledger clock the caller read,
/// non-zero) is stamped as the immutable creation time.
pub fn create_player_account(
    l: &mut Ledger,
    payer: Identity,
    payer_signed: bool,
    record_addr: Identity,
    seed_key: Identity,
    username: Vec<u8>,
    uri: Vec<u8>,
    now: u64,
) -> (r: Result<Identity, RegistryError>)
    requires
        old(l)@.wf(),
        now != 0,
    ensures
        final(l)@.wf(),
        (final(l)@, r) == create_player_model(
            old(l)@,
            payer,
            payer_signed,
            record_addr,
            seed_key,
            username@,
            uri@,
            now,
        ),
{
    if !payer_signed {
        return Err(RegistryError::MissingSignature);
    }
    if username.len() > MAX_USERNAME_LEN || uri.len() > MAX_URI_LEN {
        return Err(RegistryError::InvalidArgument);
    }
    let derived = find_player_pda(&seed_key, &l.program_id);
    match derived {
        None => Err(RegistryError::InvalidAddress),
        Some((addr, bump)) => {
            if addr != record_addr {
                return Err(RegistryError::InvalidAddress);
            }
            let rec = PlayerAccount { authority: payer, username, created_at: now, uri, bump };
            let buf = encode_player_account(&rec);
            let ghost rec_v = rec@;
            match l.find_account_index(&addr) {
                Some(i) => {
                    if l.accounts[i].data.len() > 0 {
                        return Err(RegistryError::AlreadyExists);
                    }
                    let ghost old_accs = l@.accounts;
                    proof {
                        lemma_store_account_at(
                            old_accs,
                            addr,
                            player_account_bytes(rec_v),
                            i as int,
                        );
                    }
                    l.accounts.set(i, Account { address: addr, data: buf });
                    proof {
                        assert(l@.accounts =~= store_account(
                            old_accs,
                            addr,
                            player_account_bytes(rec_v),
                        ));
                    }
                    Ok(addr)
                },
                None => {
                    let ghost old_accs = l@.accounts;
                    proof {
                        lemma_lookup_account_none(old_accs, addr);
                    }
                    l.accounts.push(Account { address: addr, data: buf });
                    proof {
                        assert(l@.accounts =~= old_accs.push(
                            AccountView { address: addr, data: player_account_bytes(rec_v) },
                        ));
                    }
                    Ok(addr)
                },
            }
        },
    }
}

/// Updates a player record at its derived address. Only the recorded
/// authority may update; the username, URI and authority follow the
/// sentinel convention; the creation time is never touched.
pub fn update_player_account(
    l: &mut Ledger,
    payer: Identity,
    payer_signed: bool,
    record_addr: Identity,
    seed_key: Identity,
    username: Vec<u8>,
    uri: Vec<u8>,
    new_authority: Identity,
) -> (r: Result<(), RegistryError>)
    requires
        old(l)@.wf(),
    ensures
        final(l)@.wf(),
        (final(l)@, r) == update_player_model(
            old(l)@,
            payer,
            payer_signed,
            record_addr,
            seed_key,
            username@,
            uri@,
            new_authority,
        ),
{
    if !payer_signed {
        return Err(RegistryError::MissingSignature);
    }
    let derived = find_player_pda(&seed_key, &l.program_id);
    match derived {
        None => Err(RegistryError::InvalidAddress),
        Some((addr, _bump)) => {
            if addr != record_addr {
                return Err(RegistryError::InvalidAddress);
            }
            match l.find_account_index(&addr) {
                None => Err(RegistryError::Uninitialized),
                Some(i) => {
                    if l.accounts[i].data.len() == 0 {
                        return Err(RegistryError::Uninitialized);
                    }
                    let old_rec = match decode_player(l.accounts[i].data.as_slice()) {
                        Ok(rec) => rec,
                        Err(e) => {
                            return Err(e);
                        },
                    };
                    if old_rec.created_at == 0 {
                        return Err(RegistryError::Uninitialized);
                    }
                    if payer != old_rec.authority {
                        return Err(RegistryError::Unauthorized);
                    }
                    if username.len() > MAX_USERNAME_LEN || uri.len() > MAX_URI_LEN {
                        return Err(RegistryError::InvalidArgument);
                    }
                    let new_rec = PlayerAccount {
                        authority: if !new_authority.is_zero() {
                            new_authority
                        } else {
                            old_rec.authority
                        },
                        username: if username.len() > 0 {
                            username
                        } else {
                            old_rec.username
                        },
                        created_at: old_rec.created_at,
                        uri: if uri.len() > 0 {
                            uri
                        } else {
                            old_rec.uri
                        },
                        bump: old_rec.bump,
                    };
                    let buf = encode_player_account(&new_rec);
                    let ghost new_v = new_rec@;
                    let ghost old_accs = l@.accounts;
                    proof {
                        lemma_store_account_at(
                            old_accs,
                            addr,
                            player_account_bytes(new_v),
                            i as int,
                        );
                    }
                    l.accounts.set(i, Account { address: addr, data: buf });
                    proof {
                        assert(l@.accounts =~= store_account(
                            old_accs,
                            addr,
                            player_account_bytes(new_v),
                        ));
                    }
                    Ok(())
                },
            }
        },
    }
}

/// The player partial-update law: absent sentinels preserve the stored
/// fields, present values replace them, and the creation time and
/// disambiguator are immutable.
pub proof fn lemma_player_partial_update(
    old_rec: PlayerView,
    username: Seq<u8>,
    uri: Seq<u8>,
    new_authority: Identity,
)
    ensures
        ({
            let new_rec = apply_player_update(old_rec, username, uri, new_authority);
            &&& new_rec.username == if username.len() > 0 {
                username
            } else {
                old_rec.username
            }
            &&& new_rec.uri == if uri.len() > 0 {
                uri
            } else {
                old_rec.uri
            }
            &&& new_rec.authority == if new_authority != Identity::spec_zero() {
                new_authority
            } else {
                old_rec.authority
            }
            &&& new_rec.created_at == old_rec.created_at
            &&& new_rec.bump == old_rec.bump
        }),
{
}

/// A player create succeeds at most once per (seed key, program) pair:
/// after a successful create, any further create of the same pair fails,
/// with `AlreadyExists` whenever it passes the earlier checks, and the
/// record written by the first call is still there, byte for byte.
pub proof fn lemma_player_create_once(
    l: LedgerView,
    payer: Identity,
    record_addr: Identity,
    seed_key: Identity,
    username: Seq<u8>,
    uri: Seq<u8>,
    now: u64,
    payer2: Identity,
    username2: Seq<u8>,
    uri2: Seq<u8>,
    now2: u64,
)
    requires
        l.wf(),
        create_player_model(l, payer, true, record_addr, seed_key, username, uri, now).1 is Ok,
    ensures
        ({
            let first = create_player_model(
                l,
                payer,
                true,
                record_addr,
                seed_key,
                username,
                uri,
                now,
            );
            let bump = pda_id(player_seeds(seed_key), l.program_id).unwrap().1;
            let rec = PlayerView { authority: payer, username, created_at: now, uri, bump };
            let second = create_player_model(
                first.0,
                payer2,
                true,
                record_addr,
                seed_key,
                username2,
                uri2,
                now2,
            );
            &&& lookup_account(first.0.accounts, record_addr) == Some(player_account_bytes(rec))
            &&& second.0 == first.0
            &&& second.1 is Err
            &&& (username2.len() <= crate::records::MAX_USERNAME_LEN && uri2.len()
                <= crate::records::MAX_URI_LEN) ==> second.1 == Err::<Identity, RegistryError>(
                RegistryError::AlreadyExists,
            )
        }),
{
    let derived = pda_id(player_seeds(seed_key), l.program_id);
    let addr = derived.unwrap().0;
    let bump = derived.unwrap().1;
    let rec = PlayerView { authority: payer, username, created_at: now, uri, bump };
    let buf = player_account_bytes(rec);
    crate::codec::lemma_player_account_bytes_len(rec);
    match lookup_account(l.accounts, addr) {
        Some(d) => {
            crate::ledger::lemma_lookup_store_account(l.accounts, addr, buf, addr);
        },
        None => {
            crate::ledger::lemma_lookup_account_push(
                l.accounts,
                AccountView { address: addr, data: buf },
                addr,
            );
        },
    }
}

/// Fail-closed atomicity for the player store: a failing create or update
/// leaves the ledger exactly as it was.
pub proof fn lemma_failed_player_call_changes_nothing(
    l: LedgerView,
    payer: Identity,
    payer_signed: bool,
    record_addr: Identity,
    seed_key: Identity,
    username: Seq<u8>,
    uri: Seq<u8>,
    now: u64,
    new_authority: Identity,
)
    ensures
        ({
            let t = create_player_model(
                l,
                payer,
                payer_signed,
                record_addr,
                seed_key,
                username,
                uri,
                now,
            );
            t.1 is Err ==> t.0 == l
        }),
        ({
            let t = update_player_model(
                l,
                payer,
                payer_signed,
                record_addr,
                seed_key,
                username,
                uri,
                new_authority,
            );
            t.1 is Err ==> t.0 == l
        }),
{
}

} // verus!
