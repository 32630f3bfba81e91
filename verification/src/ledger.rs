//! The modeled account ledger the registry operates on. Record accounts are
//! byte buffers keyed by derived addresses; token holding accounts carry an
//! owner, a mint and a balance; mint accounts carry a mint authority. The
//! surrounding host ledger supplies atomicity and serial ordering, so one
//! operation here is one atomic unit.

use crate::ids::Identity;
use vstd::prelude::*;

verus! {

/// A record account: a data buffer at a derived address.
pub struct Account {
    pub address: Identity,
    pub data: Vec<u8>,
}

/// The mathematical value of a record account.
pub ghost struct AccountView {
    pub address: Identity,
    pub data: Seq<u8>,
}

impl View for Account {
    type V = AccountView;

    open spec fn view(&self) -> AccountView {
        AccountView { address: self.address, data: self.data@ }
    }
}

/// A token holding account: a balance container owned by an identity.
#[derive(Clone, Copy, PartialEq, Eq, Structural, Debug)]
pub struct TokenAccount {
    pub address: Identity,
    /// The identity allowed to move value out of this holding.
    pub owner: Identity,
    /// The fungible-token ledger this balance belongs to.
    pub mint: Identity,
    pub balance: u64,
}

/// A fungible-token mint: its address and its minting authority.
#[derive(Clone, Copy, PartialEq, Eq, Structural, Debug)]
pub struct MintAccount {
    pub address: Identity,
    pub authority: Identity,
}

/// The ledger state one atomic operation reads and rewrites.
pub struct Ledger {
    /// The program identity every derivation is rooted in.
    pub program_id: Identity,
    /// The external token program's identity (a holding-seed component).
    pub token_program_id: Identity,
    /// The external associated-token program's identity.
    pub ata_program_id: Identity,
    /// Record accounts, at pairwise distinct addresses.
    pub accounts: Vec<Account>,
    /// Token holding accounts, at pairwise distinct addresses.
    pub token_accounts: Vec<TokenAccount>,
    /// Mint accounts, at pairwise distinct addresses.
    pub mints: Vec<MintAccount>,
}

/// The mathematical value of the ledger.
pub ghost struct LedgerView {
    pub program_id: Identity,
    pub token_program_id: Identity,
    pub ata_program_id: Identity,
    pub accounts: Seq<AccountView>,
    pub token_accounts: Seq<TokenAccount>,
    pub mints: Seq<MintAccount>,
}

impl View for Ledger {
    type V = LedgerView;

    open spec fn view(&self) -> LedgerView {
        LedgerView {
            program_id: self.program_id,
            token_program_id: self.token_program_id,
            ata_program_id: self.ata_program_id,
            accounts: Seq::new(self.accounts@.len(), |i: int| self.accounts@[i]@),
            token_accounts: self.token_accounts@,
            mints: self.mints@,
        }
    }
}

impl LedgerView {
    /// Ledger well-formedness: each address keys at most one entry of its
    /// kind.
    pub open spec fn wf(self) -> bool {
        &&& forall|i: int, j: int|
            0 <= i < j < self.accounts.len() ==> self.accounts[i].address
                != self.accounts[j].address
        &&& forall|i: int, j: int|
            0 <= i < j < self.token_accounts.len() ==> self.token_accounts[i].address
                != self.token_accounts[j].address
        &&& forall|i: int, j: int|
            0 <= i < j < self.mints.len() ==> self.mints[i].address != self.mints[j].address
    }
}

// ---------------------------------------------------------------------------
// Lookups and stores over account sequences
// ---------------------------------------------------------------------------
/// The data buffer at `a`, if any (first match).
pub open spec fn lookup_account(accs: Seq<AccountView>, a: Identity) -> Option<Seq<u8>>
    decreases accs.len(),
{
    if accs.len() == 0 {
        None
    } else if accs[0].address == a {
        Some(accs[0].data)
    } else {
        lookup_account(accs.drop_first(), a)
    }
}

/// `accs` with the data at `a` replaced by `d` (first match; unchanged when
/// `a` is absent).
pub open spec fn store_account(accs: Seq<AccountView>, a: Identity, d: Seq<u8>) -> Seq<AccountView>
    decreases accs.len(),
{
    if accs.len() == 0 {
        accs
    } else if accs[0].address == a {
        accs.update(0, AccountView { address: a, data: d })
    } else {
        seq![accs[0]] + store_account(accs.drop_first(), a, d)
    }
}

/// The token holding at `a`, if any (first match).
pub open spec fn lookup_token(accs: Seq<TokenAccount>, a: Identity) -> Option<TokenAccount>
    decreases accs.len(),
{
    if accs.len() == 0 {
        None
    } else if accs[0].address == a {
        Some(accs[0])
    } else {
        lookup_token(accs.drop_first(), a)
    }
}

/// `accs` with the holding at `t.address` replaced by `t` (first match).
pub open spec fn store_token(accs: Seq<TokenAccount>, t: TokenAccount) -> Seq<TokenAccount>
    decreases accs.len(),
{
    if accs.len() == 0 {
        accs
    } else if accs[0].address == t.address {
        accs.update(0, t)
    } else {
        seq![accs[0]] + store_token(accs.drop_first(), t)
    }
}

/// The mint at `a`, if any (first match).
pub open spec fn lookup_mint(accs: Seq<MintAccount>, a: Identity) -> Option<MintAccount>
    decreases accs.len(),
{
    if accs.len() == 0 {
        None
    } else if accs[0].address == a {
        Some(accs[0])
    } else {
        lookup_mint(accs.drop_first(), a)
    }
}

// ---------------------------------------------------------------------------
// Lemmas connecting the recursive definitions to indexed reasoning
// ---------------------------------------------------------------------------
/// A lookup misses exactly when no entry carries the address.
pub proof fn lemma_lookup_account_none(accs: Seq<AccountView>, a: Identity)
    ensures
        (lookup_account(accs, a) is None) <==> (forall|i: int|
            0 <= i < accs.len() ==> accs[i].address != a),
    decreases accs.len(),
{
    if accs.len() > 0 {
        lemma_lookup_account_none(accs.drop_first(), a);
        if lookup_account(accs, a) is None {
            assert forall|i: int| 0 <= i < accs.len() implies accs[i].address != a by {
                if i > 0 {
                    assert(accs.drop_first()[i - 1] == accs[i]);
                }
            }
        } else {
            if accs[0].address != a {
                let i = choose|i: int|
                    0 <= i < accs.drop_first().len() && accs.drop_first()[i].address == a;
                assert(accs[i + 1].address == a);
            }
        }
    }
}

/// A lookup hits the first matching index.
pub proof fn lemma_lookup_account_at(accs: Seq<AccountView>, a: Identity, i: int)
    requires
        0 <= i < accs.len(),
        accs[i].address == a,
        forall|j: int| 0 <= j < i ==> accs[j].address != a,
    ensures
        lookup_account(accs, a) == Some(accs[i].data),
    decreases accs.len(),
{
    if i > 0 {
        assert forall|j: int| 0 <= j < i - 1 implies accs.drop_first()[j].address != a by {
            assert(accs.drop_first()[j] == accs[j + 1]);
        }
        assert(accs.drop_first()[i - 1] == accs[i]);
        lemma_lookup_account_at(accs.drop_first(), a, i - 1);
    }
}

/// A store rewrites exactly the first matching index.
pub proof fn lemma_store_account_at(accs: Seq<AccountView>, a: Identity, d: Seq<u8>, i: int)
    requires
        0 <= i < accs.len(),
        accs[i].address == a,
        forall|j: int| 0 <= j < i ==> accs[j].address != a,
    ensures
        store_account(accs, a, d) == accs.update(i, AccountView { address: a, data: d }),
    decreases accs.len(),
{
    if i == 0 {
    } else {
        assert forall|j: int| 0 <= j < i - 1 implies accs.drop_first()[j].address != a by {
            assert(accs.drop_first()[j] == accs[j + 1]);
        }
        assert(accs.drop_first()[i - 1] == accs[i]);
        lemma_store_account_at(accs.drop_first(), a, d, i - 1);
        assert(seq![accs[0]] + accs.drop_first().update(
            i - 1,
            AccountView { address: a, data: d },
        ) =~= accs.update(i, AccountView { address: a, data: d }));
    }
}

/// Looking up an address just pushed onto a ledger that lacked it.
pub proof fn lemma_lookup_account_push(accs: Seq<AccountView>, e: AccountView, a: Identity)
    ensures
        lookup_account(accs.push(e), a) == if lookup_account(accs, a) is Some {
            lookup_account(accs, a)
        } else if e.address == a {
            Some(e.data)
        } else {
            None
        },
    decreases accs.len(),
{
    if accs.len() == 0 {
        assert(accs.push(e).len() == 1);
        assert(accs.push(e)[0] == e);
        assert(accs.push(e).drop_first() =~= Seq::<AccountView>::empty());
        assert(lookup_account(Seq::<AccountView>::empty(), a) is None);
        assert(lookup_account(accs, a) is None);
        if e.address == a {
            assert(lookup_account(accs.push(e), a) == Some(e.data));
        } else {
            assert(lookup_account(accs.push(e), a) is None);
        }
    } else {
        assert(accs.push(e)[0] == accs[0]);
        assert(accs.push(e).drop_first() =~= accs.drop_first().push(e));
        lemma_lookup_account_push(accs.drop_first(), e, a);
        if accs[0].address == a {
            assert(lookup_account(accs.push(e), a) == Some(accs[0].data));
            assert(lookup_account(accs, a) == Some(accs[0].data));
        } else {
            assert(lookup_account(accs.push(e), a) == lookup_account(
                accs.drop_first().push(e),
                a,
            ));
            assert(lookup_account(accs, a) == lookup_account(accs.drop_first(), a));
        }
    }
}

/// The token-account analogues of the three lemmas above.
pub proof fn lemma_lookup_token_none(accs: Seq<TokenAccount>, a: Identity)
    ensures
        (lookup_token(accs, a) is None) <==> (forall|i: int|
            0 <= i < accs.len() ==> accs[i].address != a),
    decreases accs.len(),
{
    if accs.len() > 0 {
        lemma_lookup_token_none(accs.drop_first(), a);
        if lookup_token(accs, a) is None {
            assert forall|i: int| 0 <= i < accs.len() implies accs[i].address != a by {
                if i > 0 {
                    assert(accs.drop_first()[i - 1] == accs[i]);
                }
            }
        } else {
            if accs[0].address != a {
                let i = choose|i: int|
                    0 <= i < accs.drop_first().len() && accs.drop_first()[i].address == a;
                assert(accs[i + 1].address == a);
            }
        }
    }
}

pub proof fn lemma_lookup_token_at(accs: Seq<TokenAccount>, a: Identity, i: int)
    requires
        0 <= i < accs.len(),
        accs[i].address == a,
        forall|j: int| 0 <= j < i ==> accs[j].address != a,
    ensures
        lookup_token(accs, a) == Some(accs[i]),
    decreases accs.len(),
{
    if i > 0 {
        assert forall|j: int| 0 <= j < i - 1 implies accs.drop_first()[j].address != a by {
            assert(accs.drop_first()[j] == accs[j + 1]);
        }
        assert(accs.drop_first()[i - 1] == accs[i]);
        lemma_lookup_token_at(accs.drop_first(), a, i - 1);
    }
}

pub proof fn lemma_store_token_at(accs: Seq<TokenAccount>, t: TokenAccount, i: int)
    requires
        0 <= i < accs.len(),
        accs[i].address == t.address,
        forall|j: int| 0 <= j < i ==> accs[j].address != t.address,
    ensures
        store_token(accs, t) == accs.update(i, t),
    decreases accs.len(),
{
    if i == 0 {
    } else {
        assert forall|j: int| 0 <= j < i - 1 implies accs.drop_first()[j].address != t.address by {
            assert(accs.drop_first()[j] == accs[j + 1]);
        }
        assert(accs.drop_first()[i - 1] == accs[i]);
        lemma_store_token_at(accs.drop_first(), t, i - 1);
        assert(seq![accs[0]] + accs.drop_first().update(i - 1, t) =~= accs.update(i, t));
    }
}

pub proof fn lemma_lookup_mint_none(accs: Seq<MintAccount>, a: Identity)
    ensures
        (lookup_mint(accs, a) is None) <==> (forall|i: int|
            0 <= i < accs.len() ==> accs[i].address != a),
    decreases accs.len(),
{
    if accs.len() > 0 {
        lemma_lookup_mint_none(accs.drop_first(), a);
        if lookup_mint(accs, a) is None {
            assert forall|i: int| 0 <= i < accs.len() implies accs[i].address != a by {
                if i > 0 {
                    assert(accs.drop_first()[i - 1] == accs[i]);
                }
            }
        } else {
            if accs[0].address != a {
                let i = choose|i: int|
                    0 <= i < accs.drop_first().len() && accs.drop_first()[i].address == a;
                assert(accs[i + 1].address == a);
            }
        }
    }
}

pub proof fn lemma_lookup_mint_at(accs: Seq<MintAccount>, a: Identity, i: int)
    requires
        0 <= i < accs.len(),
        accs[i].address == a,
        forall|j: int| 0 <= j < i ==> accs[j].address != a,
    ensures
        lookup_mint(accs, a) == Some(accs[i]),
    decreases accs.len(),
{
    if i > 0 {
        assert forall|j: int| 0 <= j < i - 1 implies accs.drop_first()[j].address != a by {
            assert(accs.drop_first()[j] == accs[j + 1]);
        }
        assert(accs.drop_first()[i - 1] == accs[i]);
        lemma_lookup_mint_at(accs.drop_first(), a, i - 1);
    }
}

// ---------------------------------------------------------------------------
// Executable lookups
// ---------------------------------------------------------------------------
impl Ledger {
    /// Finds the index of the record account at `a`.
    pub fn find_account_index(&self, a: &Identity) -> (r: Option<usize>)
        ensures
            match r {
                Some(i) => i < self@.accounts.len() && self@.accounts[i as int].address == *a
                    && lookup_account(self@.accounts, *a) == Some(self@.accounts[i as int].data)
                    && (forall|j: int| 0 <= j < i ==> self@.accounts[j].address != *a),
                None => lookup_account(self@.accounts, *a) is None,
            },
    {
        let mut k: usize = 0;
        while k < self.accounts.len()
            invariant
                k <= self@.accounts.len(),
                forall|j: int| 0 <= j < k ==> self@.accounts[j].address != *a,
            decreases self@.accounts.len() - k,
        {
            if self.accounts[k].address == *a {
                proof {
                    lemma_lookup_account_at(self@.accounts, *a, k as int);
                }
                return Some(k);
            }
            k = k + 1;
        }
        proof {
            lemma_lookup_account_none(self@.accounts, *a);
        }
        None
    }

    /// Finds the index of the token holding at `a`.
    pub fn find_token_index(&self, a: &Identity) -> (r: Option<usize>)
        ensures
            match r {
                Some(i) => i < self@.token_accounts.len() && self@.token_accounts[i as int].address
                    == *a && lookup_token(self@.token_accounts, *a) == Some(
                    self@.token_accounts[i as int],
                ) && (forall|j: int| 0 <= j < i ==> self@.token_accounts[j].address != *a),
                None => lookup_token(self@.token_accounts, *a) is None,
            },
    {
        let mut k: usize = 0;
        while k < self.token_accounts.len()
            invariant
                k <= self@.token_accounts.len(),
                forall|j: int| 0 <= j < k ==> self@.token_accounts[j].address != *a,
            decreases self@.token_accounts.len() - k,
        {
            if self.token_accounts[k].address == *a {
                proof {
                    lemma_lookup_token_at(self@.token_accounts, *a, k as int);
                }
                return Some(k);
            }
            k = k + 1;
        }
        proof {
            lemma_lookup_token_none(self@.token_accounts, *a);
        }
        None
    }

    /// Finds the index of the mint at `a`.
    pub fn find_mint_index(&self, a: &Identity) -> (r: Option<usize>)
        ensures
            match r {
                Some(i) => i < self@.mints.len() && self@.mints[i as int].address == *a
                    && lookup_mint(self@.mints, *a) == Some(self@.mints[i as int])
                    && (forall|j: int| 0 <= j < i ==> self@.mints[j].address != *a),
                None => lookup_mint(self@.mints, *a) is None,
            },
    {
        let mut k: usize = 0;
        while k < self.mints.len()
            invariant
                k <= self@.mints.len(),
                forall|j: int| 0 <= j < k ==> self@.mints[j].address != *a,
            decreases self@.mints.len() - k,
        {
            if self.mints[k].address == *a {
                proof {
                    lemma_lookup_mint_at(self@.mints, *a, k as int);
                }
                return Some(k);
            }
            k = k + 1;
        }
        proof {
            lemma_lookup_mint_none(self@.mints, *a);
        }
        None
    }
}

/// How a store changes lookups: the stored address reads back the new data
/// (when present at all), every other address is untouched.
pub proof fn lemma_lookup_store_account(accs: Seq<AccountView>, a: Identity, d: Seq<u8>, b: Identity)
    ensures
        lookup_account(store_account(accs, a, d), b) == (if b == a {
            if lookup_account(accs, a) is Some {
                Some(d)
            } else {
                None
            }
        } else {
            lookup_account(accs, b)
        }),
    decreases accs.len(),
{
    if accs.len() == 0 {
    } else if accs[0].address == a {
        let st = accs.update(0, AccountView { address: a, data: d });
        assert(st[0].address == a);
        if b == a {
        } else {
            assert(st.drop_first() =~= accs.drop_first());
        }
    } else {
        let st = seq![accs[0]] + store_account(accs.drop_first(), a, d);
        assert(st[0] == accs[0]);
        assert(st.drop_first() =~= store_account(accs.drop_first(), a, d));
        lemma_lookup_store_account(accs.drop_first(), a, d, b);
    }
}

/// The holding-account analogue of the lemma above.
pub proof fn lemma_lookup_store_token(accs: Seq<TokenAccount>, t: TokenAccount, b: Identity)
    ensures
        lookup_token(store_token(accs, t), b) == (if b == t.address {
            if lookup_token(accs, t.address) is Some {
                Some(t)
            } else {
                None
            }
        } else {
            lookup_token(accs, b)
        }),
    decreases accs.len(),
{
    if accs.len() == 0 {
    } else if accs[0].address == t.address {
        let st = accs.update(0, t);
        assert(st[0].address == t.address);
        if b == t.address {
        } else {
            assert(st.drop_first() =~= accs.drop_first());
        }
    } else {
        let st = seq![accs[0]] + store_token(accs.drop_first(), t);
        assert(st[0] == accs[0]);
        assert(st.drop_first() =~= store_token(accs.drop_first(), t));
        lemma_lookup_store_token(accs.drop_first(), t, b);
    }
}

/// A found holding carries the queried address.
pub proof fn lemma_lookup_token_found(accs: Seq<TokenAccount>, a: Identity)
    ensures
        lookup_token(accs, a) matches Some(t) ==> t.address == a,
    decreases accs.len(),
{
    if accs.len() > 0 && accs[0].address != a {
        lemma_lookup_token_found(accs.drop_first(), a);
    }
}

} // verus!
