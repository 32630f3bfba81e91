use metaloot_registry::ids::{id_to_bytes, Identity};
use metaloot_registry::pda::{find_player_pda, find_registry_pda};
use solana_program::pubkey::Pubkey;

fn id(n: u64) -> Identity {
    Identity { w0: n, w1: 0, w2: 0, w3: 0 }
}

fn to_pubkey(i: &Identity) -> Pubkey {
    let bytes: [u8; 32] = id_to_bytes(i).as_slice().try_into().unwrap();
    Pubkey::new_from_array(bytes)
}

#[test]
fn derivation_is_deterministic() {
    let seed = id(7);
    let program = id(99);
    let first = find_registry_pda(&seed, &program).expect("derivation should succeed");
    let second = find_registry_pda(&seed, &program).expect("derivation should succeed");
    assert_eq!(first, second);
    let third = find_registry_pda(&seed, &program).expect("derivation should succeed");
    assert_eq!(first, third);
}

#[test]
fn derivation_matches_host_search() {
    let seed = id(7);
    let program = id(99);
    let (addr, bump) = find_registry_pda(&seed, &program).expect("derivation should succeed");

    let seed_bytes = id_to_bytes(&seed);
    let (expected, expected_bump) =
        Pubkey::find_program_address(&[b"registry", seed_bytes.as_slice()], &to_pubkey(&program));
    assert_eq!(id_to_bytes(&addr), expected.to_bytes().to_vec());
    assert_eq!(bump, expected_bump);
}

#[test]
fn derived_address_is_off_curve() {
    let seed = id(3);
    let program = id(42);
    let (addr, _bump) = find_registry_pda(&seed, &program).expect("derivation should succeed");
    assert!(!to_pubkey(&addr).is_on_curve());
}

#[test]
fn namespaces_are_disjoint() {
    let seed = id(5);
    let program = id(42);
    let (registry_addr, _) = find_registry_pda(&seed, &program).expect("derivation");
    let (player_addr, _) = find_player_pda(&seed, &program).expect("derivation");
    assert_ne!(registry_addr, player_addr);
}

#[test]
fn derivation_depends_on_program_identity() {
    let seed = id(5);
    let (a1, _) = find_registry_pda(&seed, &id(1)).expect("derivation");
    let (a2, _) = find_registry_pda(&seed, &id(2)).expect("derivation");
    assert_ne!(a1, a2);
}
