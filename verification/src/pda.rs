//! Deterministic address derivation. Every persistent record lives at an
//! address derived from a namespace tag, a seed key and the program identity;
//! the derivation searches a disambiguator byte until the resulting address
//! is off-curve, so no external party can hold a private key for it.

use crate::ids::{id_bytes, id_from_bytes, id_from_bytes32, id_to_bytes, lemma_id_bytes_len, Identity};
use vstd::prelude::*;

verus! {

/// The `(address bytes, disambiguator)` pair that the host ledger's
/// program-address search yields for the given seed list and program
/// identity, or `None` when no disambiguator byte gives an off-curve
/// address. The search hashes only its arguments, so the result is a pure
/// function of them.
pub uninterp spec fn pda_of(seeds: Seq<Seq<u8>>, program: Seq<u8>) -> Option<(Seq<u8>, u8)>;

/// Relies on solana_program's Pubkey::try_find_program_address: the returned
/// pair depends only on the seed list and the program key, and the returned
/// address is 32 bytes.
#[verifier::external_body]
fn find_pda_raw(seeds: &Vec<Vec<u8>>, program_bytes: &Vec<u8>) -> (r: Option<(Vec<u8>, u8)>)
    requires
        program_bytes@.len() == 32,
    ensures
        ({
            let d = pda_of(seeds.deep_view(), program_bytes@);
            match r {
                Some(p) => d == Some((p.0@, p.1)) && p.0@.len() == 32,
                None => d is None,
            }
        }),
{
    let refs: Vec<&[u8]> = seeds.iter().map(|s| s.as_slice()).collect();
    let arr: [u8; 32] = program_bytes.as_slice().try_into().unwrap();
    let pk = solana_program::pubkey::Pubkey::new_from_array(arr);
    match solana_program::pubkey::Pubkey::try_find_program_address(&refs, &pk) {
        Some((addr, bump)) => Some((addr.to_bytes().to_vec(), bump)),
        None => None,
    }
}

/// The derived `(address, disambiguator)` pair as an identity value.
pub open spec fn pda_id(seeds: Seq<Seq<u8>>, program: Identity) -> Option<(Identity, u8)> {
    match pda_of(seeds, id_bytes(program)) {
        Some(p) => Some((id_from_bytes(p.0), p.1)),
        None => None,
    }
}

/// Derives the program address for `seeds` under `program`. Deterministic:
/// the result is fixed by the arguments alone.
pub fn find_pda(seeds: &Vec<Vec<u8>>, program: &Identity) -> (r: Option<(Identity, u8)>)
    ensures
        r == pda_id(seeds.deep_view(), *program),
{
    let pb = id_to_bytes(program);
    proof {
        lemma_id_bytes_len(*program);
    }
    match find_pda_raw(seeds, &pb) {
        Some((ab, bump)) => {
            let a = id_from_bytes32(ab.as_slice());
            Some((a, bump))
        },
        None => None,
    }
}

/// The namespace tag of game-studio records: the bytes of "registry".
pub open spec fn registry_tag() -> Seq<u8> {
    seq![0x72u8, 0x65u8, 0x67u8, 0x69u8, 0x73u8, 0x74u8, 0x72u8, 0x79u8]
}

/// The namespace tag of player records: the bytes of "player".
pub open spec fn player_tag() -> Seq<u8> {
    seq![0x70u8, 0x6cu8, 0x61u8, 0x79u8, 0x65u8, 0x72u8]
}

/// The seed list of a game-studio record: the "registry" namespace tag and
/// the record's seed key.
pub open spec fn registry_seeds(seed_key: Identity) -> Seq<Seq<u8>> {
    seq![registry_tag(), id_bytes(seed_key)]
}

/// The seed list of a player record: the "player" namespace tag and the
/// record's seed key.
pub open spec fn player_seeds(seed_key: Identity) -> Seq<Seq<u8>> {
    seq![player_tag(), id_bytes(seed_key)]
}

/// The seed list of an associated holding account: owner, token program and
/// mint identities.
pub open spec fn holding_seeds(owner: Identity, token_program: Identity, mint: Identity) -> Seq<
    Seq<u8>,
> {
    seq![id_bytes(owner), id_bytes(token_program), id_bytes(mint)]
}

fn registry_tag_vec() -> (r: Vec<u8>)
    ensures
        r@ == registry_tag(),
{
    let mut v: Vec<u8> = Vec::new();
    v.push(0x72);
    v.push(0x65);
    v.push(0x67);
    v.push(0x69);
    v.push(0x73);
    v.push(0x74);
    v.push(0x72);
    v.push(0x79);
    assert(v@ =~= registry_tag());
    v
}

fn player_tag_vec() -> (r: Vec<u8>)
    ensures
        r@ == player_tag(),
{
    let mut v: Vec<u8> = Vec::new();
    v.push(0x70);
    v.push(0x6c);
    v.push(0x61);
    v.push(0x79);
    v.push(0x65);
    v.push(0x72);
    assert(v@ =~= player_tag());
    v
}

fn seeds2(first: Vec<u8>, second: Vec<u8>) -> (r: Vec<Vec<u8>>)
    ensures
        r.deep_view() == seq![first@, second@],
{
    let ghost f = first@;
    let ghost s = second@;
    let mut v: Vec<Vec<u8>> = Vec::new();
    v.push(first);
    v.push(second);
    assert(v.deep_view() =~~= seq![f, s]);
    v
}

/// Derives the game-studio record address for `seed_key` under `program`.
pub fn find_registry_pda(seed_key: &Identity, program: &Identity) -> (r: Option<(Identity, u8)>)
    ensures
        r == pda_id(registry_seeds(*seed_key), *program),
{
    let seeds = seeds2(registry_tag_vec(), id_to_bytes(seed_key));
    find_pda(&seeds, program)
}

/// Derives the player record address for `seed_key` under `program`.
pub fn find_player_pda(seed_key: &Identity, program: &Identity) -> (r: Option<(Identity, u8)>)
    ensures
        r == pda_id(player_seeds(*seed_key), *program),
{
    let seeds = seeds2(player_tag_vec(), id_to_bytes(seed_key));
    find_pda(&seeds, program)
}

/// Derives the associated holding-account address of `owner` for `mint`.
pub fn find_holding_pda(
    owner: &Identity,
    token_program: &Identity,
    mint: &Identity,
    ata_program: &Identity,
) -> (r: Option<(Identity, u8)>)
    ensures
        r == pda_id(holding_seeds(*owner, *token_program, *mint), *ata_program),
{
    let ghost o = id_bytes(*owner);
    let ghost t = id_bytes(*token_program);
    let ghost m = id_bytes(*mint);
    let mut seeds: Vec<Vec<u8>> = Vec::new();
    seeds.push(id_to_bytes(owner));
    seeds.push(id_to_bytes(token_program));
    seeds.push(id_to_bytes(mint));
    assert(seeds.deep_view() =~~= holding_seeds(*owner, *token_program, *mint));
    find_pda(&seeds, ata_program)
}

/// Address derivation is a pure function of its inputs: two derivations
/// from equal seed lists and equal program identities agree.
pub proof fn lemma_derivation_deterministic(
    s1: Seq<Seq<u8>>,
    p1: Identity,
    s2: Seq<Seq<u8>>,
    p2: Identity,
)
    requires
        s1 == s2,
        p1 == p2,
    ensures
        pda_id(s1, p1) == pda_id(s2, p2),
{
}

} // verus!
