//! Fixed-layout record codec. Each record is stored as an 8-byte type
//! discriminator followed by its fields: byte strings carry a 32-bit
//! little-endian length prefix, identities take 32 bytes, and the collection
//! list carries a 32-bit count. A record buffer is sized to the maximal
//! encoding and zero-padded, so updates rewrite it in place; a decoder
//! ignores the padding and rejects any shape the schema does not declare.

use crate::errors::RegistryError;
use crate::ids::{id_bytes, id_from_bytes, id_from_bytes32, lemma_id_bytes_len, Identity};
use crate::records::{
    player_wf, studio_wf, GameRegistryMetadata, PlayerAccount, PlayerView, StudioView,
    MAX_NAME_LEN, MAX_NFT_COLLECTIONS, MAX_SYMBOL_LEN, MAX_URI_LEN, MAX_USERNAME_LEN,
};
use vstd::bytes::*;
use vstd::prelude::*;
use vstd::slice::{slice_index_get, slice_subrange, slice_to_vec};

verus! {

/// Discriminator of game-studio record buffers (the bytes "studio01").
pub const STUDIO_DISCRIMINATOR: u64 = 0x31306f6964757473;

/// Discriminator of player record buffers (the bytes "player01").
pub const PLAYER_DISCRIMINATOR: u64 = 0x3130726579616c70;

/// Fixed size of a game-studio record buffer: the maximal encoding.
pub const STUDIO_ACCOUNT_LEN: usize = 513;

/// Fixed size of a player record buffer: the maximal encoding.
pub const PLAYER_ACCOUNT_LEN: usize = 321;

// ---------------------------------------------------------------------------
// Encoding
// ---------------------------------------------------------------------------
/// A length-prefixed byte string: 32-bit little-endian length, then bytes.
pub open spec fn enc_bytes_field(b: Seq<u8>) -> Seq<u8> {
    spec_u32_to_le_bytes(b.len() as u32) + b
}

/// Identities of a collection list, 32 bytes each, in order.
pub open spec fn enc_id_list(l: Seq<Identity>) -> Seq<u8>
    decreases l.len(),
{
    if l.len() == 0 {
        Seq::empty()
    } else {
        id_bytes(l[0]) + enc_id_list(l.drop_first())
    }
}

/// The fields of a studio record, after the discriminator.
pub open spec fn enc_studio_fields(r: StudioView) -> Seq<u8> {
    enc_bytes_field(r.name) + enc_bytes_field(r.symbol) + enc_bytes_field(r.uri) + id_bytes(
        r.authority,
    ) + id_bytes(r.native_token) + spec_u32_to_le_bytes(r.nft_collection.len() as u32)
        + enc_id_list(r.nft_collection) + seq![r.bump]
}

/// The full encoding of a studio record.
pub open spec fn enc_studio(r: StudioView) -> Seq<u8> {
    spec_u64_to_le_bytes(STUDIO_DISCRIMINATOR) + enc_studio_fields(r)
}

/// The fields of a player record, after the discriminator.
pub open spec fn enc_player_fields(p: PlayerView) -> Seq<u8> {
    id_bytes(p.authority) + enc_bytes_field(p.username) + spec_u64_to_le_bytes(p.created_at)
        + enc_bytes_field(p.uri) + seq![p.bump]
}

/// The full encoding of a player record.
pub open spec fn enc_player(p: PlayerView) -> Seq<u8> {
    spec_u64_to_le_bytes(PLAYER_DISCRIMINATOR) + enc_player_fields(p)
}

/// `n` zero bytes.
pub open spec fn zeros(n: nat) -> Seq<u8> {
    Seq::new(n, |i: int| 0u8)
}

/// `s` zero-padded up to length `n` (unchanged if already that long).
pub open spec fn pad_to(s: Seq<u8>, n: nat) -> Seq<u8> {
    if s.len() >= n {
        s
    } else {
        s + zeros((n - s.len()) as nat)
    }
}

/// The fixed-size buffer a studio record occupies on the ledger.
pub open spec fn studio_account_bytes(r: StudioView) -> Seq<u8> {
    pad_to(enc_studio(r), STUDIO_ACCOUNT_LEN as nat)
}

/// The fixed-size buffer a player record occupies on the ledger.
pub open spec fn player_account_bytes(p: PlayerView) -> Seq<u8> {
    pad_to(enc_player(p), PLAYER_ACCOUNT_LEN as nat)
}

pub proof fn lemma_enc_id_list_len(l: Seq<Identity>)
    ensures
        enc_id_list(l).len() == 32 * l.len(),
    decreases l.len(),
{
    if l.len() > 0 {
        lemma_id_bytes_len(l[0]);
        lemma_enc_id_list_len(l.drop_first());
    }
}

pub proof fn lemma_enc_studio_len(r: StudioView)
    ensures
        enc_studio(r).len() == 89 + r.name.len() + r.symbol.len() + r.uri.len() + 32
            * r.nft_collection.len(),
{
    lemma_auto_spec_u32_to_from_le_bytes();
    lemma_auto_spec_u64_to_from_le_bytes();
    lemma_id_bytes_len(r.authority);
    lemma_id_bytes_len(r.native_token);
    lemma_enc_id_list_len(r.nft_collection);
}

pub proof fn lemma_enc_player_len(p: PlayerView)
    ensures
        enc_player(p).len() == 57 + p.username.len() + p.uri.len(),
{
    lemma_auto_spec_u32_to_from_le_bytes();
    lemma_auto_spec_u64_to_from_le_bytes();
    lemma_id_bytes_len(p.authority);
}

/// A well-formed studio record's buffer has the fixed account size.
pub proof fn lemma_studio_account_bytes_len(r: StudioView)
    requires
        studio_wf(r),
    ensures
        enc_studio(r).len() <= STUDIO_ACCOUNT_LEN,
        studio_account_bytes(r).len() == STUDIO_ACCOUNT_LEN,
{
    lemma_enc_studio_len(r);
}

/// A well-formed player record's buffer has the fixed account size.
pub proof fn lemma_player_account_bytes_len(p: PlayerView)
    requires
        player_wf(p),
    ensures
        enc_player(p).len() <= PLAYER_ACCOUNT_LEN,
        player_account_bytes(p).len() == PLAYER_ACCOUNT_LEN,
{
    lemma_enc_player_len(p);
}

// ---------------------------------------------------------------------------
// Decoding
// ---------------------------------------------------------------------------
/// Reads one byte; yields it and the remaining input.
pub open spec fn take_u8(s: Seq<u8>) -> Option<(u8, Seq<u8>)> {
    if s.len() >= 1 {
        Some((s[0], s.drop_first()))
    } else {
        None
    }
}

/// Reads a 32-bit little-endian integer.
pub open spec fn take_u32(s: Seq<u8>) -> Option<(u32, Seq<u8>)> {
    if s.len() >= 4 {
        Some((spec_u32_from_le_bytes(s.take(4)), s.skip(4)))
    } else {
        None
    }
}

/// Reads a 64-bit little-endian integer.
pub open spec fn take_u64(s: Seq<u8>) -> Option<(u64, Seq<u8>)> {
    if s.len() >= 8 {
        Some((spec_u64_from_le_bytes(s.take(8)), s.skip(8)))
    } else {
        None
    }
}

/// Reads a 32-byte identity.
pub open spec fn take_id(s: Seq<u8>) -> Option<(Identity, Seq<u8>)> {
    if s.len() >= 32 {
        Some((id_from_bytes(s.take(32)), s.skip(32)))
    } else {
        None
    }
}

/// Reads a length-prefixed byte string whose length may not exceed `max`.
pub open spec fn take_bytes_field(s: Seq<u8>, max: nat) -> Option<(Seq<u8>, Seq<u8>)> {
    match take_u32(s) {
        None => None,
        Some((n, rest)) => if n <= max && rest.len() >= n {
            Some((rest.take(n as int), rest.skip(n as int)))
        } else {
            None
        },
    }
}

/// Reads exactly `n` identities.
pub open spec fn take_id_list(s: Seq<u8>, n: nat) -> Option<(Seq<Identity>, Seq<u8>)>
    decreases n,
{
    if n == 0 {
        Some((Seq::empty(), s))
    } else {
        match take_id(s) {
            None => None,
            Some((i, rest)) => match take_id_list(rest, (n - 1) as nat) {
                None => None,
                Some((l, rest2)) => Some((seq![i] + l, rest2)),
            },
        }
    }
}

/// Reads the fields of a studio record (everything after the
/// discriminator), yielding the record and the remaining input.
pub open spec fn take_studio_fields(s: Seq<u8>) -> Option<(StudioView, Seq<u8>)> {
    match take_bytes_field(s, MAX_NAME_LEN as nat) {
        None => None,
        Some((name, s2)) => match take_bytes_field(s2, MAX_SYMBOL_LEN as nat) {
            None => None,
            Some((symbol, s3)) => match take_bytes_field(s3, MAX_URI_LEN as nat) {
                None => None,
                Some((uri, s4)) => match take_id(s4) {
                    None => None,
                    Some((authority, s5)) => match take_id(s5) {
                        None => None,
                        Some((native_token, s6)) => match take_u32(s6) {
                            None => None,
                            Some((cnt, s7)) => if cnt > MAX_NFT_COLLECTIONS as u32 {
                                None
                            } else {
                                match take_id_list(s7, cnt as nat) {
                                    None => None,
                                    Some((nft_collection, s8)) => match take_u8(s8) {
                                        None => None,
                                        Some((bump, s9)) => Some(
                                            (
                                                StudioView {
                                                    name,
                                                    symbol,
                                                    uri,
                                                    authority,
                                                    native_token,
                                                    nft_collection,
                                                    bump,
                                                },
                                                s9,
                                            ),
                                        ),
                                    },
                                }
                            },
                        },
                    },
                },
            },
        },
    }
}

/// Decodes a studio record from the front of `s`, ignoring any padding
/// after the encoding. `None` when `s` does not start with a valid record.
pub open spec fn dec_studio(s: Seq<u8>) -> Option<StudioView> {
    match take_u64(s) {
        None => None,
        Some((disc, s1)) => if disc != STUDIO_DISCRIMINATOR {
            None
        } else {
            match take_studio_fields(s1) {
                None => None,
                Some((r, _)) => Some(r),
            }
        },
    }
}

/// Decodes a player record from the front of `s`, ignoring any padding.
pub open spec fn dec_player(s: Seq<u8>) -> Option<PlayerView> {
    match take_u64(s) {
        None => None,
        Some((disc, s1)) => if disc != PLAYER_DISCRIMINATOR {
            None
        } else {
            match take_id(s1) {
                None => None,
                Some((authority, s2)) => match take_bytes_field(s2, MAX_USERNAME_LEN as nat) {
                    None => None,
                    Some((username, s3)) => match take_u64(s3) {
                        None => None,
                        Some((created_at, s4)) => match take_bytes_field(s4, MAX_URI_LEN as nat) {
                            None => None,
                            Some((uri, s5)) => match take_u8(s5) {
                                None => None,
                                Some((bump, _)) => Some(
                                    PlayerView { authority, username, created_at, uri, bump },
                                ),
                            },
                        },
                    },
                },
            }
        },
    }
}

/// Whatever decodes as a studio record respects the declared bounds.
pub proof fn lemma_dec_studio_wf(s: Seq<u8>)
    ensures
        dec_studio(s) matches Some(r) ==> studio_wf(r),
{
    if let Some((disc, s1)) = take_u64(s) {
        if let Some((name, s2)) = take_bytes_field(s1, MAX_NAME_LEN as nat) {
            if let Some((symbol, s3)) = take_bytes_field(s2, MAX_SYMBOL_LEN as nat) {
                if let Some((uri, s4)) = take_bytes_field(s3, MAX_URI_LEN as nat) {
                    if let Some((authority, s5)) = take_id(s4) {
                        if let Some((native_token, s6)) = take_id(s5) {
                            if let Some((cnt, s7)) = take_u32(s6) {
                                lemma_take_id_list_len(s7, cnt as nat);
                            }
                        }
                    }
                }
            }
        }
    }
}

/// The identity list a successful `take_id_list` yields has exactly `n`
/// entries.
pub proof fn lemma_take_id_list_len(s: Seq<u8>, n: nat)
    ensures
        take_id_list(s, n) matches Some(p) ==> p.0.len() == n,
    decreases n,
{
    if n > 0 {
        match take_id(s) {
            None => {},
            Some((i, rest)) => {
                lemma_take_id_list_len(rest, (n - 1) as nat);
            },
        }
    }
}

// ---------------------------------------------------------------------------
// Round trip
// ---------------------------------------------------------------------------
pub proof fn lemma_take_u8_enc(b: u8, rest: Seq<u8>)
    ensures
        take_u8(seq![b] + rest) == Some((b, rest)),
{
    let s = seq![b] + rest;
    assert(s.drop_first() =~= rest);
}

pub proof fn lemma_take_u32_enc(x: u32, rest: Seq<u8>)
    ensures
        take_u32(spec_u32_to_le_bytes(x) + rest) == Some((x, rest)),
{
    lemma_auto_spec_u32_to_from_le_bytes();
    let s = spec_u32_to_le_bytes(x) + rest;
    assert(s.take(4) =~= spec_u32_to_le_bytes(x));
    assert(s.skip(4) =~= rest);
}

pub proof fn lemma_take_u64_enc(x: u64, rest: Seq<u8>)
    ensures
        take_u64(spec_u64_to_le_bytes(x) + rest) == Some((x, rest)),
{
    lemma_auto_spec_u64_to_from_le_bytes();
    let s = spec_u64_to_le_bytes(x) + rest;
    assert(s.take(8) =~= spec_u64_to_le_bytes(x));
    assert(s.skip(8) =~= rest);
}

pub proof fn lemma_take_id_enc(i: Identity, rest: Seq<u8>)
    ensures
        take_id(id_bytes(i) + rest) == Some((i, rest)),
{
    lemma_id_bytes_len(i);
    crate::ids::lemma_id_from_bytes_of_id_bytes(i);
    let s = id_bytes(i) + rest;
    assert(s.take(32) =~= id_bytes(i));
    assert(s.skip(32) =~= rest);
}

pub proof fn lemma_take_bytes_field_enc(b: Seq<u8>, max: nat, rest: Seq<u8>)
    requires
        b.len() <= max,
        b.len() <= u32::MAX,
    ensures
        take_bytes_field(enc_bytes_field(b) + rest, max) == Some((b, rest)),
{
    lemma_auto_spec_u32_to_from_le_bytes();
    let s = enc_bytes_field(b) + rest;
    assert(s =~= spec_u32_to_le_bytes(b.len() as u32) + (b + rest));
    lemma_take_u32_enc(b.len() as u32, b + rest);
    assert((b + rest).take(b.len() as int) =~= b);
    assert((b + rest).skip(b.len() as int) =~= rest);
}

pub proof fn lemma_take_id_list_enc(l: Seq<Identity>, rest: Seq<u8>)
    ensures
        take_id_list(enc_id_list(l) + rest, l.len()) == Some((l, rest)),
    decreases l.len(),
{
    if l.len() == 0 {
        assert(enc_id_list(l) + rest =~= rest);
        assert(take_id_list(rest, 0) == Some((Seq::<Identity>::empty(), rest)));
        assert(l =~= Seq::<Identity>::empty());
    } else {
        let s = enc_id_list(l) + rest;
        assert(s =~= id_bytes(l[0]) + (enc_id_list(l.drop_first()) + rest));
        lemma_take_id_enc(l[0], enc_id_list(l.drop_first()) + rest);
        lemma_take_id_list_enc(l.drop_first(), rest);
        assert(seq![l[0]] + l.drop_first() =~= l);
    }
}

/// Reading studio fields back from their encoding yields the record and
/// exactly the trailing input.
pub proof fn lemma_take_studio_fields_enc(r: StudioView, rest: Seq<u8>)
    requires
        studio_wf(r),
    ensures
        take_studio_fields(enc_studio_fields(r) + rest) == Some((r, rest)),
{
    let t6 = seq![r.bump] + rest;
    let t5 = enc_id_list(r.nft_collection) + t6;
    let t4 = spec_u32_to_le_bytes(r.nft_collection.len() as u32) + t5;
    let t3 = id_bytes(r.native_token) + t4;
    let t2 = id_bytes(r.authority) + t3;
    let t1 = enc_bytes_field(r.uri) + t2;
    let t0 = enc_bytes_field(r.symbol) + t1;
    assert(enc_studio_fields(r) + rest =~= enc_bytes_field(r.name) + t0);
    lemma_take_bytes_field_enc(r.name, MAX_NAME_LEN as nat, t0);
    lemma_take_bytes_field_enc(r.symbol, MAX_SYMBOL_LEN as nat, t1);
    lemma_take_bytes_field_enc(r.uri, MAX_URI_LEN as nat, t2);
    lemma_take_id_enc(r.authority, t3);
    lemma_take_id_enc(r.native_token, t4);
    lemma_take_u32_enc(r.nft_collection.len() as u32, t5);
    lemma_take_id_list_enc(r.nft_collection, t6);
    lemma_take_u8_enc(r.bump, rest);
}

/// Round trip with padding: decoding a buffer that starts with the encoding
/// of a well-formed studio record yields exactly that record, whatever
/// follows the encoding.
pub proof fn lemma_dec_enc_studio(r: StudioView, pad: Seq<u8>)
    requires
        studio_wf(r),
    ensures
        dec_studio(enc_studio(r) + pad) == Some(r),
{
    let tf = enc_studio_fields(r) + pad;
    assert(enc_studio(r) + pad =~= spec_u64_to_le_bytes(STUDIO_DISCRIMINATOR) + tf);
    lemma_take_u64_enc(STUDIO_DISCRIMINATOR, tf);
    lemma_take_studio_fields_enc(r, pad);
}

/// Round trip with padding for player records.
pub proof fn lemma_dec_enc_player(p: PlayerView, pad: Seq<u8>)
    requires
        player_wf(p),
    ensures
        dec_player(enc_player(p) + pad) == Some(p),
{
    let s = enc_player(p) + pad;
    let t4 = seq![p.bump] + pad;
    let t3 = enc_bytes_field(p.uri) + t4;
    let t2 = spec_u64_to_le_bytes(p.created_at) + t3;
    let t1 = enc_bytes_field(p.username) + t2;
    let t0 = id_bytes(p.authority) + t1;
    assert(s =~= spec_u64_to_le_bytes(PLAYER_DISCRIMINATOR) + t0);
    lemma_take_u64_enc(PLAYER_DISCRIMINATOR, t0);
    lemma_take_id_enc(p.authority, t1);
    lemma_take_bytes_field_enc(p.username, MAX_USERNAME_LEN as nat, t2);
    lemma_take_u64_enc(p.created_at, t3);
    lemma_take_bytes_field_enc(p.uri, MAX_URI_LEN as nat, t4);
    lemma_take_u8_enc(p.bump, pad);
}

/// The round-trip law: a well-formed studio record decodes from its own
/// ledger buffer (its encoding with zero padding), and from its bare
/// encoding, to exactly itself.
pub proof fn lemma_studio_round_trip(r: StudioView)
    requires
        studio_wf(r),
    ensures
        dec_studio(enc_studio(r)) == Some(r),
        dec_studio(studio_account_bytes(r)) == Some(r),
{
    assert(enc_studio(r) + Seq::<u8>::empty() =~= enc_studio(r));
    lemma_dec_enc_studio(r, Seq::<u8>::empty());
    lemma_studio_account_bytes_len(r);
    if enc_studio(r).len() < STUDIO_ACCOUNT_LEN {
        lemma_dec_enc_studio(r, zeros((STUDIO_ACCOUNT_LEN - enc_studio(r).len()) as nat));
    }
}

/// The round-trip law for player records.
pub proof fn lemma_player_round_trip(p: PlayerView)
    requires
        player_wf(p),
    ensures
        dec_player(enc_player(p)) == Some(p),
        dec_player(player_account_bytes(p)) == Some(p),
{
    assert(enc_player(p) + Seq::<u8>::empty() =~= enc_player(p));
    lemma_dec_enc_player(p, Seq::<u8>::empty());
    lemma_player_account_bytes_len(p);
    if enc_player(p).len() < PLAYER_ACCOUNT_LEN {
        lemma_dec_enc_player(p, zeros((PLAYER_ACCOUNT_LEN - enc_player(p).len()) as nat));
    }
}

/// A buffer shorter than the minimal schema prefix decodes as no record at
/// all.
pub proof fn lemma_dec_short_buffer(s: Seq<u8>)
    requires
        s.len() < 8,
    ensures
        dec_studio(s) is None,
        dec_player(s) is None,
{
}

// ---------------------------------------------------------------------------
// Executable encoding
// ---------------------------------------------------------------------------
fn append_bytes(buf: &mut Vec<u8>, b: &[u8])
    ensures
        final(buf)@ == old(buf)@ + b@,
{
    let mut k: usize = 0;
    while k < b.len()
        invariant
            k <= b@.len(),
            buf@ == old(buf)@ + b@.take(k as int),
        decreases b@.len() - k,
    {
        buf.push(*slice_index_get(b, k));
        k = k + 1;
        assert(buf@ =~= old(buf)@ + b@.take(k as int));
    }
    assert(buf@ =~= old(buf)@ + b@);
}

fn append_u32(buf: &mut Vec<u8>, x: u32)
    ensures
        final(buf)@ == old(buf)@ + spec_u32_to_le_bytes(x),
{
    let mut w = u32_to_le_bytes(x);
    buf.append(&mut w);
}

fn append_u64(buf: &mut Vec<u8>, x: u64)
    ensures
        final(buf)@ == old(buf)@ + spec_u64_to_le_bytes(x),
{
    let mut w = u64_to_le_bytes(x);
    buf.append(&mut w);
}

fn append_bytes_field(buf: &mut Vec<u8>, b: &Vec<u8>)
    requires
        b@.len() <= u32::MAX,
    ensures
        final(buf)@ == old(buf)@ + enc_bytes_field(b@),
{
    append_u32(buf, b.len() as u32);
    append_bytes(buf, b.as_slice());
    assert(buf@ =~= old(buf)@ + enc_bytes_field(b@));
}

proof fn lemma_enc_id_list_snoc(l: Seq<Identity>, x: Identity)
    ensures
        enc_id_list(l.push(x)) == enc_id_list(l) + id_bytes(x),
    decreases l.len(),
{
    if l.len() == 0 {
        assert(l.push(x).len() == 1);
        assert(l.push(x)[0] == x);
        assert(l.push(x).drop_first() =~= Seq::<Identity>::empty());
        assert(enc_id_list(l.push(x).drop_first()) == Seq::<u8>::empty());
        assert(enc_id_list(l.push(x)) == id_bytes(x) + Seq::<u8>::empty());
        assert(enc_id_list(l) == Seq::<u8>::empty());
        assert(enc_id_list(l.push(x)) =~= enc_id_list(l) + id_bytes(x));
    } else {
        assert(l.push(x)[0] == l[0]);
        assert(l.push(x).drop_first() =~= l.drop_first().push(x));
        lemma_enc_id_list_snoc(l.drop_first(), x);
        assert(id_bytes(l[0]) + (enc_id_list(l.drop_first()) + id_bytes(x)) =~= (id_bytes(l[0])
            + enc_id_list(l.drop_first())) + id_bytes(x));
        assert(enc_id_list(l.push(x)) =~= enc_id_list(l) + id_bytes(x));
    }
}

fn vec_index_ref<T>(v: &Vec<T>, k: usize) -> (r: &T)
    requires
        k < v@.len(),
    ensures
        *r == v@[k as int],
{
    &v[k]
}

fn append_id_list(buf: &mut Vec<u8>, l: &Vec<Identity>)
    ensures
        final(buf)@ == old(buf)@ + enc_id_list(l@),
{
    let mut k: usize = 0;
    while k < l.len()
        invariant
            k <= l@.len(),
            buf@ == old(buf)@ + enc_id_list(l@.take(k as int)),
        decreases l@.len() - k,
    {
        crate::ids::append_id(buf, vec_index_ref(l, k));
        k = k + 1;
        proof {
            lemma_enc_id_list_snoc(l@.take(k - 1), l@[k - 1]);
            assert(l@.take(k as int) =~= l@.take(k - 1).push(l@[k - 1]));
        }
    }
    assert(l@.take(l@.len() as int) =~= l@);
}

/// Appends the fields of a studio record (everything after the
/// discriminator) to `buf`.
pub fn append_studio_fields(buf: &mut Vec<u8>, r: &GameRegistryMetadata)
    requires
        studio_wf(r@),
    ensures
        final(buf)@ == old(buf)@ + enc_studio_fields(r@),
{
    append_bytes_field(buf, &r.name);
    append_bytes_field(buf, &r.symbol);
    append_bytes_field(buf, &r.uri);
    crate::ids::append_id(buf, &r.authority);
    crate::ids::append_id(buf, &r.native_token);
    append_u32(buf, r.nft_collection.len() as u32);
    append_id_list(buf, &r.nft_collection);
    buf.push(r.bump);
    assert(buf@ =~= old(buf)@ + enc_studio_fields(r@));
}

/// Encodes a studio record.
pub fn encode_studio(r: &GameRegistryMetadata) -> (out: Vec<u8>)
    requires
        studio_wf(r@),
    ensures
        out@ == enc_studio(r@),
{
    let mut buf: Vec<u8> = Vec::new();
    append_u64(&mut buf, STUDIO_DISCRIMINATOR);
    append_studio_fields(&mut buf, r);
    assert(buf@ =~= enc_studio(r@));
    buf
}

/// Encodes a player record.
pub fn encode_player(p: &PlayerAccount) -> (out: Vec<u8>)
    requires
        player_wf(p@),
    ensures
        out@ == enc_player(p@),
{
    let mut buf: Vec<u8> = Vec::new();
    append_u64(&mut buf, PLAYER_DISCRIMINATOR);
    crate::ids::append_id(&mut buf, &p.authority);
    append_bytes_field(&mut buf, &p.username);
    append_u64(&mut buf, p.created_at);
    append_bytes_field(&mut buf, &p.uri);
    buf.push(p.bump);
    assert(buf@ =~= enc_player(p@));
    buf
}

fn pad_buffer(buf: &mut Vec<u8>, n: usize)
    ensures
        final(buf)@ == pad_to(old(buf)@, n as nat),
{
    let ghost base = buf@;
    while buf.len() < n
        invariant
            buf@ == base + zeros((buf@.len() - base.len()) as nat),
            base.len() <= buf@.len(),
            buf@.len() <= n || buf@ == base,
        decreases n - buf@.len(),
    {
        buf.push(0);
        assert(buf@ =~= base + zeros((buf@.len() - base.len()) as nat));
    }
    assert(buf@ =~= pad_to(base, n as nat));
}

/// Encodes a studio record into its fixed-size, zero-padded ledger buffer.
pub fn encode_studio_account(r: &GameRegistryMetadata) -> (out: Vec<u8>)
    requires
        studio_wf(r@),
    ensures
        out@ == studio_account_bytes(r@),
        out@.len() == STUDIO_ACCOUNT_LEN,
{
    let mut buf = encode_studio(r);
    proof {
        lemma_studio_account_bytes_len(r@);
    }
    pad_buffer(&mut buf, STUDIO_ACCOUNT_LEN);
    buf
}

/// Encodes a player record into its fixed-size, zero-padded ledger buffer.
pub fn encode_player_account(p: &PlayerAccount) -> (out: Vec<u8>)
    requires
        player_wf(p@),
    ensures
        out@ == player_account_bytes(p@),
        out@.len() == PLAYER_ACCOUNT_LEN,
{
    let mut buf = encode_player(p);
    proof {
        lemma_player_account_bytes_len(p@);
    }
    pad_buffer(&mut buf, PLAYER_ACCOUNT_LEN);
    buf
}

// ---------------------------------------------------------------------------
// Executable decoding
// ---------------------------------------------------------------------------
fn read_u8(data: &[u8], off: usize) -> (r: Option<(u8, usize)>)
    requires
        off <= data@.len(),
    ensures
        match r {
            Some(p) => off <= p.1 <= data@.len() && take_u8(data@.skip(off as int)) == Some(
                (p.0, data@.skip(p.1 as int)),
            ),
            None => take_u8(data@.skip(off as int)) is None,
        },
{
    if data.len() - off >= 1 {
        let b = *slice_index_get(data, off);
        proof {
            assert(data@.skip(off as int)[0] == data@[off as int]);
            assert(data@.skip(off as int).drop_first() =~= data@.skip(off as int + 1));
        }
        Some((b, off + 1))
    } else {
        None
    }
}

fn read_u32(data: &[u8], off: usize) -> (r: Option<(u32, usize)>)
    requires
        off <= data@.len(),
    ensures
        match r {
            Some(p) => off <= p.1 <= data@.len() && take_u32(data@.skip(off as int)) == Some(
                (p.0, data@.skip(p.1 as int)),
            ),
            None => take_u32(data@.skip(off as int)) is None,
        },
{
    if data.len() - off >= 4 {
        let x = u32_from_le_bytes(slice_subrange(data, off, off + 4));
        proof {
            assert(data@.skip(off as int).take(4) =~= data@.subrange(off as int, off as int + 4));
            assert(data@.skip(off as int).skip(4) =~= data@.skip(off as int + 4));
        }
        Some((x, off + 4))
    } else {
        None
    }
}

fn read_u64(data: &[u8], off: usize) -> (r: Option<(u64, usize)>)
    requires
        off <= data@.len(),
    ensures
        match r {
            Some(p) => off <= p.1 <= data@.len() && take_u64(data@.skip(off as int)) == Some(
                (p.0, data@.skip(p.1 as int)),
            ),
            None => take_u64(data@.skip(off as int)) is None,
        },
{
    if data.len() - off >= 8 {
        let x = u64_from_le_bytes(slice_subrange(data, off, off + 8));
        proof {
            assert(data@.skip(off as int).take(8) =~= data@.subrange(off as int, off as int + 8));
            assert(data@.skip(off as int).skip(8) =~= data@.skip(off as int + 8));
        }
        Some((x, off + 8))
    } else {
        None
    }
}

fn read_id(data: &[u8], off: usize) -> (r: Option<(Identity, usize)>)
    requires
        off <= data@.len(),
    ensures
        match r {
            Some(p) => off <= p.1 <= data@.len() && take_id(data@.skip(off as int)) == Some(
                (p.0, data@.skip(p.1 as int)),
            ),
            None => take_id(data@.skip(off as int)) is None,
        },
{
    if data.len() - off >= 32 {
        let i = id_from_bytes32(slice_subrange(data, off, off + 32));
        proof {
            assert(data@.skip(off as int).take(32) =~= data@.subrange(off as int, off as int + 32));
            assert(data@.skip(off as int).skip(32) =~= data@.skip(off as int + 32));
        }
        Some((i, off + 32))
    } else {
        None
    }
}

fn read_bytes_field(data: &[u8], off: usize, max: u32) -> (r: Option<(Vec<u8>, usize)>)
    requires
        off <= data@.len(),
    ensures
        match r {
            Some(p) => off <= p.1 <= data@.len() && take_bytes_field(
                data@.skip(off as int),
                max as nat,
            ) == Some((p.0@, data@.skip(p.1 as int))) && p.0@.len() <= max,
            None => take_bytes_field(data@.skip(off as int), max as nat) is None,
        },
{
    match read_u32(data, off) {
        None => None,
        Some((n, off2)) => {
            if n > max {
                return None;
            }
            let nn = n as usize;
            if data.len() - off2 < nn {
                proof {
                    assert(data@.skip(off2 as int).len() < n);
                }
                return None;
            }
            let v = slice_to_vec(slice_subrange(data, off2, off2 + nn));
            proof {
                assert(data@.skip(off2 as int).take(n as int) =~= data@.subrange(
                    off2 as int,
                    off2 as int + n,
                ));
                assert(data@.skip(off2 as int).skip(n as int) =~= data@.skip(off2 as int + n));
            }
            Some((v, off2 + nn))
        },
    }
}

fn read_id_list(data: &[u8], off: usize, n: u32) -> (r: Option<(Vec<Identity>, usize)>)
    requires
        off <= data@.len(),
    ensures
        match r {
            Some(p) => off <= p.1 <= data@.len() && take_id_list(
                data@.skip(off as int),
                n as nat,
            ) == Some((p.0@, data@.skip(p.1 as int))),
            None => take_id_list(data@.skip(off as int), n as nat) is None,
        },
    decreases n,
{
    if n == 0 {
        let l: Vec<Identity> = Vec::new();
        Some((l, off))
    } else {
        match read_id(data, off) {
            None => None,
            Some((i, off2)) => {
                match read_id_list(data, off2, n - 1) {
                    None => None,
                    Some((mut l, off3)) => {
                        let ghost tail = l@;
                        l.insert(0, i);
                        proof {
                            assert(l@ =~= seq![i] + tail);
                        }
                        Some((l, off3))
                    },
                }
            },
        }
    }
}

/// Reads the fields of a studio record starting at `off`.
pub fn read_studio_fields(data: &[u8], off: usize) -> (r: Option<(GameRegistryMetadata, usize)>)
    requires
        off <= data@.len(),
    ensures
        match r {
            Some(p) => off <= p.1 <= data@.len() && take_studio_fields(data@.skip(off as int))
                == Some((p.0@, data@.skip(p.1 as int))) && studio_wf(p.0@),
            None => take_studio_fields(data@.skip(off as int)) is None,
        },
{
    let (name, o2) = match read_bytes_field(data, off, MAX_NAME_LEN as u32) {
        Some(p) => p,
        None => return None,
    };
    let (symbol, o3) = match read_bytes_field(data, o2, MAX_SYMBOL_LEN as u32) {
        Some(p) => p,
        None => return None,
    };
    let (uri, o4) = match read_bytes_field(data, o3, MAX_URI_LEN as u32) {
        Some(p) => p,
        None => return None,
    };
    let (authority, o5) = match read_id(data, o4) {
        Some(p) => p,
        None => return None,
    };
    let (native_token, o6) = match read_id(data, o5) {
        Some(p) => p,
        None => return None,
    };
    let (cnt, o7) = match read_u32(data, o6) {
        Some(p) => p,
        None => return None,
    };
    if cnt > MAX_NFT_COLLECTIONS as u32 {
        return None;
    }
    let (nft_collection, o8) = match read_id_list(data, o7, cnt) {
        Some(p) => p,
        None => return None,
    };
    let (bump, o9) = match read_u8(data, o8) {
        Some(p) => p,
        None => return None,
    };
    proof {
        lemma_take_id_list_len(data@.skip(o7 as int), cnt as nat);
    }
    Some(
        (
            GameRegistryMetadata { name, symbol, uri, authority, native_token, nft_collection, bump },
            o9,
        ),
    )
}

/// Decodes a studio record from a ledger buffer. Fails with `DataCorrupt`
/// exactly when the buffer does not start with a valid studio encoding.
pub fn decode_studio(data: &[u8]) -> (r: Result<GameRegistryMetadata, RegistryError>)
    ensures
        match r {
            Ok(rec) => dec_studio(data@) == Some(rec@) && studio_wf(rec@),
            Err(e) => e == RegistryError::DataCorrupt && dec_studio(data@) is None,
        },
{
    proof {
        assert(data@.skip(0) =~= data@);
    }
    let (disc, o1) = match read_u64(data, 0) {
        Some(p) => p,
        None => return Err(RegistryError::DataCorrupt),
    };
    if disc != STUDIO_DISCRIMINATOR {
        return Err(RegistryError::DataCorrupt);
    }
    match read_studio_fields(data, o1) {
        Some((rec, _o2)) => Ok(rec),
        None => Err(RegistryError::DataCorrupt),
    }
}

/// Decodes a player record from a ledger buffer. Fails with `DataCorrupt`
/// exactly when the buffer does not start with a valid player encoding.
pub fn decode_player(data: &[u8]) -> (r: Result<PlayerAccount, RegistryError>)
    ensures
        match r {
            Ok(rec) => dec_player(data@) == Some(rec@) && player_wf(rec@),
            Err(e) => e == RegistryError::DataCorrupt && dec_player(data@) is None,
        },
{
    proof {
        assert(data@.skip(0) =~= data@);
    }
    let (disc, o1) = match read_u64(data, 0) {
        Some(p) => p,
        None => return Err(RegistryError::DataCorrupt),
    };
    if disc != PLAYER_DISCRIMINATOR {
        return Err(RegistryError::DataCorrupt);
    }
    let (authority, o2) = match read_id(data, o1) {
        Some(p) => p,
        None => return Err(RegistryError::DataCorrupt),
    };
    let (username, o3) = match read_bytes_field(data, o2, MAX_USERNAME_LEN as u32) {
        Some(p) => p,
        None => return Err(RegistryError::DataCorrupt),
    };
    let (created_at, o4) = match read_u64(data, o3) {
        Some(p) => p,
        None => return Err(RegistryError::DataCorrupt),
    };
    let (uri, o5) = match read_bytes_field(data, o4, MAX_URI_LEN as u32) {
        Some(p) => p,
        None => return Err(RegistryError::DataCorrupt),
    };
    let (bump, _o6) = match read_u8(data, o5) {
        Some(p) => p,
        None => return Err(RegistryError::DataCorrupt),
    };
    Ok(PlayerAccount { authority, username, created_at, uri, bump })
}

} // verus!
