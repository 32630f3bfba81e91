//! The token-authority bridge. A transfer out of a holding account is
//! authorized by a derived record address: the bridge re-derives that
//! address from its seeds, confirms it owns the source holding, and only
//! then moves value. The balance book-keeping models the external token
//! ledger the real transfer instruction is submitted to.

use crate::codec::{dec_player, dec_studio, decode_player, decode_studio};
use crate::errors::RegistryError;
use crate::ids::Identity;
use crate::ledger::{
    lemma_lookup_mint_none, lemma_lookup_token_none, lemma_store_token_at, lookup_account,
    lookup_mint, lookup_token, store_token, Ledger, LedgerView, MintAccount, TokenAccount,
};
use crate::pda::{
    find_holding_pda, find_player_pda, find_registry_pda, holding_seeds, pda_id, player_seeds,
    registry_seeds,
};
use crate::records::{PlayerAccount, PlayerView, StudioView};
use vstd::prelude::*;

verus! {

/// Resolves a player record from its seed key and presented address: the
/// address must re-derive from the "player" namespace, the account must be
/// populated, decode, and have been created (non-zero timestamp).
pub open spec fn player_record_check(l: LedgerView, seed: Identity, addr: Identity) -> Result<
    PlayerView,
    RegistryError,
> {
    match pda_id(player_seeds(seed), l.program_id) {
        None => Err(RegistryError::InvalidAddress),
        Some((derived, bump)) => if derived != addr {
            Err(RegistryError::InvalidAddress)
        } else {
            match lookup_account(l.accounts, addr) {
                None => Err(RegistryError::Uninitialized),
                Some(d) => if d.len() == 0 {
                    Err(RegistryError::Uninitialized)
                } else {
                    match dec_player(d) {
                        None => Err(RegistryError::DataCorrupt),
                        Some(rec) => if rec.created_at == 0 {
                            Err(RegistryError::Uninitialized)
                        } else {
                            Ok(rec)
                        },
                    }
                },
            }
        },
    }
}

/// Resolves a studio record from its seed key and presented address, under
/// the "registry" namespace; an empty name marks an uncreated record.
pub open spec fn studio_record_check(l: LedgerView, seed: Identity, addr: Identity) -> Result<
    StudioView,
    RegistryError,
> {
    match pda_id(registry_seeds(seed), l.program_id) {
        None => Err(RegistryError::InvalidAddress),
        Some((derived, bump)) => if derived != addr {
            Err(RegistryError::InvalidAddress)
        } else {
            match lookup_account(l.accounts, addr) {
                None => Err(RegistryError::Uninitialized),
                Some(d) => if d.len() == 0 {
                    Err(RegistryError::Uninitialized)
                } else {
                    match dec_studio(d) {
                        None => Err(RegistryError::DataCorrupt),
                        Some(rec) => if rec.name.len() == 0 {
                            Err(RegistryError::Uninitialized)
                        } else {
                            Ok(rec)
                        },
                    }
                },
            }
        },
    }
}

/// The holding-side checks and the balance move shared by `transfer_tokens`
/// and `reward_tokens`, entered once the sending record and its authority
/// have been validated. `signer_addr` is the derived record address that
/// must own the source holding.
pub open spec fn holdings_transfer_model(
    l: LedgerView,
    token_mint: Identity,
    signer_addr: Identity,
    sender_holding: Identity,
    recipient_holding: Identity,
    amount: u64,
) -> (LedgerView, Result<(), RegistryError>) {
    match lookup_token(l.token_accounts, sender_holding) {
        None => (l, Err(RegistryError::InvalidArgument)),
        Some(s) => if s.owner != signer_addr {
            (l, Err(RegistryError::Unauthorized))
        } else if s.mint != token_mint {
            (l, Err(RegistryError::InvalidArgument))
        } else {
            match lookup_token(l.token_accounts, recipient_holding) {
                None => (l, Err(RegistryError::InvalidArgument)),
                Some(rcv) => if rcv.mint != token_mint {
                    (l, Err(RegistryError::InvalidArgument))
                } else if amount > s.balance {
                    (l, Err(RegistryError::InsufficientFunds))
                } else if sender_holding == recipient_holding {
                    (l, Ok(()))
                } else if rcv.balance + amount > u64::MAX {
                    (l, Err(RegistryError::InvalidArgument))
                } else {
                    let s2 = TokenAccount { balance: (s.balance - amount) as u64, ..s };
                    let r2 = TokenAccount { balance: (rcv.balance + amount) as u64, ..rcv };
                    (
                        LedgerView {
                            token_accounts: store_token(store_token(l.token_accounts, s2), r2),
                            ..l
                        },
                        Ok(()),
                    )
                },
            }
        },
    }
}

/// What one `transfer_tokens` call does: a transfer between two player
/// holding accounts, signed by the sender's derived player record.
pub open spec fn transfer_tokens_model(
    l: LedgerView,
    payer: Identity,
    payer_signed: bool,
    token_mint: Identity,
    sender_seed: Identity,
    sender_record_addr: Identity,
    sender_holding: Identity,
    recipient_seed: Identity,
    recipient_record_addr: Identity,
    recipient_holding: Identity,
    amount: u64,
) -> (LedgerView, Result<(), RegistryError>) {
    if !payer_signed {
        (l, Err(RegistryError::MissingSignature))
    } else {
        match player_record_check(l, sender_seed, sender_record_addr) {
            Err(e) => (l, Err(e)),
            Ok(sender_rec) => if payer != sender_rec.authority {
                (l, Err(RegistryError::Unauthorized))
            } else {
                match player_record_check(l, recipient_seed, recipient_record_addr) {
                    Err(e) => (l, Err(e)),
                    Ok(_recipient_rec) => holdings_transfer_model(
                        l,
                        token_mint,
                        sender_record_addr,
                        sender_holding,
                        recipient_holding,
                        amount,
                    ),
                }
            },
        }
    }
}

/// What one `reward_tokens` call does: the same bridged transfer, with a
/// game-studio record as the signing sender.
pub open spec fn reward_tokens_model(
    l: LedgerView,
    payer: Identity,
    payer_signed: bool,
    token_mint: Identity,
    sender_seed: Identity,
    sender_record_addr: Identity,
    sender_holding: Identity,
    recipient_seed: Identity,
    recipient_record_addr: Identity,
    recipient_holding: Identity,
    amount: u64,
) -> (LedgerView, Result<(), RegistryError>) {
    if !payer_signed {
        (l, Err(RegistryError::MissingSignature))
    } else {
        match studio_record_check(l, sender_seed, sender_record_addr) {
            Err(e) => (l, Err(e)),
            Ok(sender_rec) => if payer != sender_rec.authority {
                (l, Err(RegistryError::Unauthorized))
            } else {
                match player_record_check(l, recipient_seed, recipient_record_addr) {
                    Err(e) => (l, Err(e)),
                    Ok(_recipient_rec) => holdings_transfer_model(
                        l,
                        token_mint,
                        sender_record_addr,
                        sender_holding,
                        recipient_holding,
                        amount,
                    ),
                }
            },
        }
    }
}

/// What one `initialize_player_token_accounts` call does: creates the
/// player's associated holding account for `token_mint`, owned by the
/// player's derived record address, with a zero balance.
pub open spec fn initialize_player_token_accounts_model(
    l: LedgerView,
    payer: Identity,
    payer_signed: bool,
    token_mint: Identity,
    player_record_addr: Identity,
    holding_addr: Identity,
    seed_key: Identity,
) -> (LedgerView, Result<(), RegistryError>) {
    if !payer_signed {
        (l, Err(RegistryError::MissingSignature))
    } else {
        match player_record_check(l, seed_key, player_record_addr) {
            Err(e) => (l, Err(e)),
            Ok(rec) => if payer != rec.authority {
                (l, Err(RegistryError::Unauthorized))
            } else if lookup_mint(l.mints, token_mint) is None {
                (l, Err(RegistryError::InvalidArgument))
            } else {
                match pda_id(
                    holding_seeds(player_record_addr, l.token_program_id, token_mint),
                    l.ata_program_id,
                ) {
                    None => (l, Err(RegistryError::InvalidAddress)),
                    Some((ata, _b)) => if ata != holding_addr {
                        (l, Err(RegistryError::InvalidArgument))
                    } else if lookup_token(l.token_accounts, holding_addr) is Some {
                        (l, Err(RegistryError::AlreadyExists))
                    } else {
                        (
                            LedgerView {
                                token_accounts: l.token_accounts.push(
                                    TokenAccount {
                                        address: holding_addr,
                                        owner: player_record_addr,
                                        mint: token_mint,
                                        balance: 0,
                                    },
                                ),
                                ..l
                            },
                            Ok(()),
                        )
                    },
                }
            },
        }
    }
}

/// What one `create_fungible_token` call does: registers a mint whose
/// minting authority is the studio's derived record address.
pub open spec fn create_fungible_token_model(
    l: LedgerView,
    payer: Identity,
    payer_signed: bool,
    mint_addr: Identity,
    entry_seed: Identity,
    studio_pda_addr: Identity,
) -> (LedgerView, Result<(), RegistryError>) {
    if !payer_signed {
        (l, Err(RegistryError::MissingSignature))
    } else {
        match pda_id(registry_seeds(entry_seed), l.program_id) {
            None => (l, Err(RegistryError::InvalidAddress)),
            Some((derived, _b)) => if derived != studio_pda_addr {
                (l, Err(RegistryError::InvalidAddress))
            } else {
                match lookup_account(l.accounts, studio_pda_addr) {
                    None => (l, Err(RegistryError::Uninitialized)),
                    Some(d) => if d.len() == 0 {
                        (l, Err(RegistryError::Uninitialized))
                    } else if lookup_mint(l.mints, mint_addr) is Some {
                        (l, Err(RegistryError::AlreadyExists))
                    } else {
                        (
                            LedgerView {
                                mints: l.mints.push(
                                    MintAccount { address: mint_addr, authority: studio_pda_addr },
                                ),
                                ..l
                            },
                            Ok(()),
                        )
                    },
                }
            },
        }
    }
}

// ---------------------------------------------------------------------------
// Executable operations
// ---------------------------------------------------------------------------
fn resolve_player_record(l: &Ledger, seed: &Identity, addr: &Identity) -> (r: Result<
    PlayerAccount,
    RegistryError,
>)
    ensures
        match r {
            Ok(rec) => player_record_check(l@, *seed, *addr) == Ok::<PlayerView, RegistryError>(
                rec@,
            ),
            Err(e) => player_record_check(l@, *seed, *addr) == Err::<PlayerView, RegistryError>(e),
        },
{
    let derived = find_player_pda(seed, &l.program_id);
    match derived {
        None => Err(RegistryError::InvalidAddress),
        Some((d, _b)) => {
            if d != *addr {
                return Err(RegistryError::InvalidAddress);
            }
            match l.find_account_index(addr) {
                None => Err(RegistryError::Uninitialized),
                Some(i) => {
                    if l.accounts[i].data.len() == 0 {
                        return Err(RegistryError::Uninitialized);
                    }
                    match decode_player(l.accounts[i].data.as_slice()) {
                        Err(e) => Err(e),
                        Ok(rec) => {
                            if rec.created_at == 0 {
                                return Err(RegistryError::Uninitialized);
                            }
                            Ok(rec)
                        },
                    }
                },
            }
        },
    }
}

fn resolve_studio_record(l: &Ledger, seed: &Identity, addr: &Identity) -> (r: Result<
    crate::records::GameRegistryMetadata,
    RegistryError,
>)
    ensures
        match r {
            Ok(rec) => studio_record_check(l@, *seed, *addr) == Ok::<StudioView, RegistryError>(
                rec@,
            ),
            Err(e) => studio_record_check(l@, *seed, *addr) == Err::<StudioView, RegistryError>(e),
        },
{
    let derived = find_registry_pda(seed, &l.program_id);
    match derived {
        None => Err(RegistryError::InvalidAddress),
        Some((d, _b)) => {
            if d != *addr {
                return Err(RegistryError::InvalidAddress);
            }
            match l.find_account_index(addr) {
                None => Err(RegistryError::Uninitialized),
                Some(i) => {
                    if l.accounts[i].data.len() == 0 {
                        return Err(RegistryError::Uninitialized);
                    }
                    match decode_studio(l.accounts[i].data.as_slice()) {
                        Err(e) => Err(e),
                        Ok(rec) => {
                            if rec.name.len() == 0 {
                                return Err(RegistryError::Uninitialized);
                            }
                            Ok(rec)
                        },
                    }
                },
            }
        },
    }
}

/// The holding checks and the balance move, once the signing record is
/// validated: the source holding must be owned by `signer_addr` and carry
/// `token_mint`, the destination must carry `token_mint`, and the balance
/// must cover `amount`.
fn perform_holdings_transfer(
    l: &mut Ledger,
    token_mint: Identity,
    signer_addr: Identity,
    sender_holding: Identity,
    recipient_holding: Identity,
    amount: u64,
) -> (r: Result<(), RegistryError>)
    requires
        old(l)@.wf(),
    ensures
        final(l)@.wf(),
        (final(l)@, r) == holdings_transfer_model(
            old(l)@,
            token_mint,
            signer_addr,
            sender_holding,
            recipient_holding,
            amount,
        ),
{
    let si = match l.find_token_index(&sender_holding) {
        None => {
            return Err(RegistryError::InvalidArgument);
        },
        Some(i) => i,
    };
    let s = l.token_accounts[si];
    if s.owner != signer_addr {
        return Err(RegistryError::Unauthorized);
    }
    if s.mint != token_mint {
        return Err(RegistryError::InvalidArgument);
    }
    let ri = match l.find_token_index(&recipient_holding) {
        None => {
            return Err(RegistryError::InvalidArgument);
        },
        Some(i) => i,
    };
    let rcv = l.token_accounts[ri];
    if rcv.mint != token_mint {
        return Err(RegistryError::InvalidArgument);
    }
    if amount > s.balance {
        return Err(RegistryError::InsufficientFunds);
    }
    if sender_holding == recipient_holding {
        return Ok(());
    }
    if amount > u64::MAX - rcv.balance {
        return Err(RegistryError::InvalidArgument);
    }
    let s2 = TokenAccount {
        address: s.address,
        owner: s.owner,
        mint: s.mint,
        balance: s.balance - amount,
    };
    let r2 = TokenAccount {
        address: rcv.address,
        owner: rcv.owner,
        mint: rcv.mint,
        balance: rcv.balance + amount,
    };
    let ghost accs0 = l@.token_accounts;
    proof {
        lemma_store_token_at(accs0, s2, si as int);
    }
    l.token_accounts.set(si, s2);
    let ghost accs1 = l@.token_accounts;
    proof {
        assert(accs1 =~= store_token(accs0, s2));
        assert forall|j: int| 0 <= j < ri ==> accs1[j].address != recipient_holding by {}
        lemma_store_token_at(accs1, r2, ri as int);
    }
    l.token_accounts.set(ri, r2);
    proof {
        assert(l@.token_accounts =~= store_token(store_token(accs0, s2), r2));
    }
    Ok(())
}

/// Transfers `amount` between two player holding accounts; the sender's
/// derived player record is the signing authority.
pub fn transfer_tokens(
    l: &mut Ledger,
    payer: Identity,
    payer_signed: bool,
    token_mint: Identity,
    sender_seed: Identity,
    sender_record_addr: Identity,
    sender_holding: Identity,
    recipient_seed: Identity,
    recipient_record_addr: Identity,
    recipient_holding: Identity,
    amount: u64,
) -> (r: Result<(), RegistryError>)
    requires
        old(l)@.wf(),
    ensures
        final(l)@.wf(),
        (final(l)@, r) == transfer_tokens_model(
            old(l)@,
            payer,
            payer_signed,
            token_mint,
            sender_seed,
            sender_record_addr,
            sender_holding,
            recipient_seed,
            recipient_record_addr,
            recipient_holding,
            amount,
        ),
{
    if !payer_signed {
        return Err(RegistryError::MissingSignature);
    }
    let sender_rec = match resolve_player_record(l, &sender_seed, &sender_record_addr) {
        Err(e) => {
            return Err(e);
        },
        Ok(rec) => rec,
    };
    if payer != sender_rec.authority {
        return Err(RegistryError::Unauthorized);
    }
    match resolve_player_record(l, &recipient_seed, &recipient_record_addr) {
        Err(e) => {
            return Err(e);
        },
        Ok(_rec) => {},
    }
    perform_holdings_transfer(
        l,
        token_mint,
        sender_record_addr,
        sender_holding,
        recipient_holding,
        amount,
    )
}

/// Transfers `amount` out of a studio's holding account to a player's; the
/// studio's derived record is the signing authority.
pub fn reward_tokens(
    l: &mut Ledger,
    payer: Identity,
    payer_signed: bool,
    token_mint: Identity,
    sender_seed: Identity,
    sender_record_addr: Identity,
    sender_holding: Identity,
    recipient_seed: Identity,
    recipient_record_addr: Identity,
    recipient_holding: Identity,
    amount: u64,
) -> (r: Result<(), RegistryError>)
    requires
        old(l)@.wf(),
    ensures
        final(l)@.wf(),
        (final(l)@, r) == reward_tokens_model(
            old(l)@,
            payer,
            payer_signed,
            token_mint,
            sender_seed,
            sender_record_addr,
            sender_holding,
            recipient_seed,
            recipient_record_addr,
            recipient_holding,
            amount,
        ),
{
    if !payer_signed {
        return Err(RegistryError::MissingSignature);
    }
    let sender_rec = match resolve_studio_record(l, &sender_seed, &sender_record_addr) {
        Err(e) => {
            return Err(e);
        },
        Ok(rec) => rec,
    };
    if payer != sender_rec.authority {
        return Err(RegistryError::Unauthorized);
    }
    match resolve_player_record(l, &recipient_seed, &recipient_record_addr) {
        Err(e) => {
            return Err(e);
        },
        Ok(_rec) => {},
    }
    perform_holdings_transfer(
        l,
        token_mint,
        sender_record_addr,
        sender_holding,
        recipient_holding,
        amount,
    )
}

/// Creates the player's associated holding account for `token_mint`: owned
/// by the player's derived record address, starting empty. The holding
/// address must be the derived associated address.
pub fn initialize_player_token_accounts(
    l: &mut Ledger,
    payer: Identity,
    payer_signed: bool,
    token_mint: Identity,
    player_record_addr: Identity,
    holding_addr: Identity,
    seed_key: Identity,
) -> (r: Result<(), RegistryError>)
    requires
        old(l)@.wf(),
    ensures
        final(l)@.wf(),
        (final(l)@, r) == initialize_player_token_accounts_model(
            old(l)@,
            payer,
            payer_signed,
            token_mint,
            player_record_addr,
            holding_addr,
            seed_key,
        ),
{
    if !payer_signed {
        return Err(RegistryError::MissingSignature);
    }
    let rec = match resolve_player_record(l, &seed_key, &player_record_addr) {
        Err(e) => {
            return Err(e);
        },
        Ok(rec) => rec,
    };
    if payer != rec.authority {
        return Err(RegistryError::Unauthorized);
    }
    match l.find_mint_index(&token_mint) {
        None => {
            return Err(RegistryError::InvalidArgument);
        },
        Some(_i) => {},
    }
    let ata = match find_holding_pda(
        &player_record_addr,
        &l.token_program_id,
        &token_mint,
        &l.ata_program_id,
    ) {
        None => {
            return Err(RegistryError::InvalidAddress);
        },
        Some((a, _b)) => a,
    };
    if ata != holding_addr {
        return Err(RegistryError::InvalidArgument);
    }
    match l.find_token_index(&holding_addr) {
        Some(_i) => {
            return Err(RegistryError::AlreadyExists);
        },
        None => {},
    }
    proof {
        lemma_lookup_token_none(l@.token_accounts, holding_addr);
    }
    l.token_accounts.push(
        TokenAccount { address: holding_addr, owner: player_record_addr, mint: token_mint, balance: 0 },
    );
    Ok(())
}

/// Registers a fungible-token mint whose minting authority is the studio's
/// derived record address.
pub fn create_fungible_token(
    l: &mut Ledger,
    payer: Identity,
    payer_signed: bool,
    mint_addr: Identity,
    entry_seed: Identity,
    studio_pda_addr: Identity,
) -> (r: Result<(), RegistryError>)
    requires
        old(l)@.wf(),
    ensures
        final(l)@.wf(),
        (final(l)@, r) == create_fungible_token_model(
            old(l)@,
            payer,
            payer_signed,
            mint_addr,
            entry_seed,
            studio_pda_addr,
        ),
{
    if !payer_signed {
        return Err(RegistryError::MissingSignature);
    }
    let derived = find_registry_pda(&entry_seed, &l.program_id);
    match derived {
        None => Err(RegistryError::InvalidAddress),
        Some((d, _b)) => {
            if d != studio_pda_addr {
                return Err(RegistryError::InvalidAddress);
            }
            match l.find_account_index(&studio_pda_addr) {
                None => Err(RegistryError::Uninitialized),
                Some(i) => {
                    if l.accounts[i].data.len() == 0 {
                        return Err(RegistryError::Uninitialized);
                    }
                    match l.find_mint_index(&mint_addr) {
                        Some(_j) => {
                            return Err(RegistryError::AlreadyExists);
                        },
                        None => {},
                    }
                    proof {
                        lemma_lookup_mint_none(l@.mints, mint_addr);
                    }
                    l.mints.push(MintAccount { address: mint_addr, authority: studio_pda_addr });
                    Ok(())
                },
            }
        },
    }
}

// ---------------------------------------------------------------------------
// Laws
// ---------------------------------------------------------------------------
/// A transfer whose source holding is not owned by the address re-derived
/// from the sender's seed fails with `Unauthorized` and moves nothing. The
/// requires clauses put the call past every earlier check: the payer signed
/// and is the sender record's authority, both records resolve, and the
/// source holding exists.
pub proof fn lemma_transfer_unauthorized_owner(
    l: LedgerView,
    payer: Identity,
    token_mint: Identity,
    sender_seed: Identity,
    sender_record_addr: Identity,
    sender_holding: Identity,
    recipient_seed: Identity,
    recipient_record_addr: Identity,
    recipient_holding: Identity,
    amount: u64,
)
    requires
        player_record_check(l, sender_seed, sender_record_addr) is Ok,
        payer == player_record_check(l, sender_seed, sender_record_addr).unwrap().authority,
        player_record_check(l, recipient_seed, recipient_record_addr) is Ok,
        lookup_token(l.token_accounts, sender_holding) is Some,
        lookup_token(l.token_accounts, sender_holding).unwrap().owner != sender_record_addr,
    ensures
        transfer_tokens_model(
            l,
            payer,
            true,
            token_mint,
            sender_seed,
            sender_record_addr,
            sender_holding,
            recipient_seed,
            recipient_record_addr,
            recipient_holding,
            amount,
        ) == (l, Err::<(), RegistryError>(RegistryError::Unauthorized)),
{
}

/// A successful transfer between two distinct holdings moves exactly
/// `amount`: the source balance drops by it, the destination balance grows
/// by it, and every other holding, record and mint is untouched.
pub proof fn lemma_transfer_moves_amount(
    l: LedgerView,
    payer: Identity,
    token_mint: Identity,
    sender_seed: Identity,
    sender_record_addr: Identity,
    sender_holding: Identity,
    recipient_seed: Identity,
    recipient_record_addr: Identity,
    recipient_holding: Identity,
    amount: u64,
)
    requires
        l.wf(),
        sender_holding != recipient_holding,
        transfer_tokens_model(
            l,
            payer,
            true,
            token_mint,
            sender_seed,
            sender_record_addr,
            sender_holding,
            recipient_seed,
            recipient_record_addr,
            recipient_holding,
            amount,
        ).1 is Ok,
    ensures
        ({
            let next = transfer_tokens_model(
                l,
                payer,
                true,
                token_mint,
                sender_seed,
                sender_record_addr,
                sender_holding,
                recipient_seed,
                recipient_record_addr,
                recipient_holding,
                amount,
            ).0;
            let s = lookup_token(l.token_accounts, sender_holding).unwrap();
            let rcv = lookup_token(l.token_accounts, recipient_holding).unwrap();
            &&& amount <= s.balance
            &&& lookup_token(next.token_accounts, sender_holding) == Some(
                TokenAccount { balance: (s.balance - amount) as u64, ..s },
            )
            &&& lookup_token(next.token_accounts, recipient_holding) == Some(
                TokenAccount { balance: (rcv.balance + amount) as u64, ..rcv },
            )
            &&& forall|b: Identity|
                b != sender_holding && b != recipient_holding ==> lookup_token(
                    next.token_accounts,
                    b,
                ) == lookup_token(l.token_accounts, b)
            &&& next.accounts == l.accounts
            &&& next.mints == l.mints
        }),
{
    let s = lookup_token(l.token_accounts, sender_holding).unwrap();
    let rcv = lookup_token(l.token_accounts, recipient_holding).unwrap();
    let s2 = TokenAccount { balance: (s.balance - amount) as u64, ..s };
    let r2 = TokenAccount { balance: (rcv.balance + amount) as u64, ..rcv };
    crate::ledger::lemma_lookup_token_found(l.token_accounts, sender_holding);
    crate::ledger::lemma_lookup_token_found(l.token_accounts, recipient_holding);
    crate::ledger::lemma_lookup_store_token(l.token_accounts, s2, sender_holding);
    crate::ledger::lemma_lookup_store_token(l.token_accounts, s2, recipient_holding);
    let mid = store_token(l.token_accounts, s2);
    crate::ledger::lemma_lookup_store_token(mid, r2, sender_holding);
    crate::ledger::lemma_lookup_store_token(mid, r2, recipient_holding);
    assert forall|b: Identity| b != sender_holding && b != recipient_holding implies lookup_token(
        store_token(mid, r2),
        b,
    ) == lookup_token(l.token_accounts, b) by {
        crate::ledger::lemma_lookup_store_token(l.token_accounts, s2, b);
        crate::ledger::lemma_lookup_store_token(mid, r2, b);
    }
}

/// Fail-closed atomicity for the bridge: a failing transfer, reward,
/// holding creation or mint creation leaves the ledger exactly as it was.
pub proof fn lemma_failed_bridge_call_changes_nothing(
    l: LedgerView,
    payer: Identity,
    payer_signed: bool,
    token_mint: Identity,
    sender_seed: Identity,
    sender_record_addr: Identity,
    sender_holding: Identity,
    recipient_seed: Identity,
    recipient_record_addr: Identity,
    recipient_holding: Identity,
    amount: u64,
)
    ensures
        ({
            let t = transfer_tokens_model(
                l,
                payer,
                payer_signed,
                token_mint,
                sender_seed,
                sender_record_addr,
                sender_holding,
                recipient_seed,
                recipient_record_addr,
                recipient_holding,
                amount,
            );
            t.1 is Err ==> t.0 == l
        }),
        ({
            let t = reward_tokens_model(
                l,
                payer,
                payer_signed,
                token_mint,
                sender_seed,
                sender_record_addr,
                sender_holding,
                recipient_seed,
                recipient_record_addr,
                recipient_holding,
                amount,
            );
            t.1 is Err ==> t.0 == l
        }),
        ({
            let t = initialize_player_token_accounts_model(
                l,
                payer,
                payer_signed,
                token_mint,
                sender_record_addr,
                sender_holding,
                sender_seed,
            );
            t.1 is Err ==> t.0 == l
        }),
{
}

} // verus!
