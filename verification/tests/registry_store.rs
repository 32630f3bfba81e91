use metaloot_registry::codec::decode_studio;
use metaloot_registry::errors::RegistryError;
use metaloot_registry::ids::Identity;
use metaloot_registry::ledger::Ledger;
use metaloot_registry::pda::find_registry_pda;
use metaloot_registry::registry::{create_game_studio, update_game_studio};

fn id(n: u64) -> Identity {
    Identity { w0: n, w1: 0, w2: 0, w3: 0 }
}

fn zero() -> Identity {
    Identity { w0: 0, w1: 0, w2: 0, w3: 0 }
}

fn ledger() -> Ledger {
    Ledger {
        program_id: id(1000),
        token_program_id: id(1001),
        ata_program_id: id(1002),
        accounts: Vec::new(),
        token_accounts: Vec::new(),
        mints: Vec::new(),
    }
}

fn alice() -> Identity {
    id(11)
}

fn bob() -> Identity {
    id(22)
}

fn create_acme(l: &mut Ledger, seed: Identity) -> Identity {
    let (addr, _bump) = find_registry_pda(&seed, &l.program_id).expect("derivation");
    let got = create_game_studio(
        l,
        alice(),
        true,
        addr,
        seed,
        b"Acme".to_vec(),
        b"ACM".to_vec(),
        b"https://example.com/acme.json".to_vec(),
        alice(),
        zero(),
        Vec::new(),
    )
    .expect("create should succeed");
    assert_eq!(got, addr);
    addr
}

fn stored_data(l: &Ledger, addr: Identity) -> Vec<u8> {
    for acc in l.accounts.iter() {
        if acc.address == addr {
            return acc.data.clone();
        }
    }
    panic!("no account at the given address");
}

#[test]
fn create_writes_the_record() {
    let mut l = ledger();
    let addr = create_acme(&mut l, id(7));
    let rec = decode_studio(stored_data(&l, addr).as_slice()).expect("stored record decodes");
    assert_eq!(rec.name, b"Acme".to_vec());
    assert_eq!(rec.symbol, b"ACM".to_vec());
    assert_eq!(rec.authority, alice());
}

#[test]
fn second_create_fails_already_exists() {
    let mut l = ledger();
    let seed = id(7);
    let addr = create_acme(&mut l, seed);
    let before = stored_data(&l, addr);

    let err = create_game_studio(
        &mut l,
        bob(),
        true,
        addr,
        seed,
        b"Other".to_vec(),
        b"OTH".to_vec(),
        b"https://example.com/other.json".to_vec(),
        bob(),
        zero(),
        Vec::new(),
    )
    .expect_err("second create must fail");
    assert_eq!(err, RegistryError::AlreadyExists);
    assert_eq!(stored_data(&l, addr), before);
}

#[test]
fn update_by_non_authority_fails_unauthorized() {
    // Scenario: Acme is created with authority Alice; Bob's update is
    // refused and changes nothing; Alice's partial update applies.
    let mut l = ledger();
    let seed = id(7);
    let addr = create_acme(&mut l, seed);
    let before = stored_data(&l, addr);

    let err = update_game_studio(
        &mut l,
        bob(),
        true,
        addr,
        seed,
        b"Beta".to_vec(),
        Vec::new(),
        Vec::new(),
        zero(),
        Vec::new(),
    )
    .expect_err("an update by Bob must fail");
    assert_eq!(err, RegistryError::Unauthorized);
    assert_eq!(stored_data(&l, addr), before);
    let rec = decode_studio(stored_data(&l, addr).as_slice()).expect("decodes");
    assert_eq!(rec.name, b"Acme".to_vec());

    update_game_studio(
        &mut l,
        alice(),
        true,
        addr,
        seed,
        b"Beta".to_vec(),
        Vec::new(),
        Vec::new(),
        zero(),
        Vec::new(),
    )
    .expect("an update by Alice succeeds");
    let rec = decode_studio(stored_data(&l, addr).as_slice()).expect("decodes");
    assert_eq!(rec.name, b"Beta".to_vec());
    assert_eq!(rec.symbol, b"ACM".to_vec());
}

#[test]
fn partial_update_keeps_absent_fields() {
    let mut l = ledger();
    let seed = id(7);
    let addr = create_acme(&mut l, seed);

    update_game_studio(
        &mut l,
        alice(),
        true,
        addr,
        seed,
        Vec::new(),
        Vec::new(),
        b"https://example.com/acme2.json".to_vec(),
        id(77),
        vec![id(5)],
    )
    .expect("update succeeds");
    let rec = decode_studio(stored_data(&l, addr).as_slice()).expect("decodes");
    assert_eq!(rec.name, b"Acme".to_vec());
    assert_eq!(rec.symbol, b"ACM".to_vec());
    assert_eq!(rec.uri, b"https://example.com/acme2.json".to_vec());
    assert_eq!(rec.native_token, id(77));
    assert_eq!(rec.nft_collection, vec![id(5)]);
    assert_eq!(rec.authority, alice());

    // A zero native token is the absent sentinel: the stored value stays.
    update_game_studio(
        &mut l,
        alice(),
        true,
        addr,
        seed,
        Vec::new(),
        Vec::new(),
        Vec::new(),
        zero(),
        Vec::new(),
    )
    .expect("update succeeds");
    let rec = decode_studio(stored_data(&l, addr).as_slice()).expect("decodes");
    assert_eq!(rec.native_token, id(77));
    assert_eq!(rec.nft_collection, vec![id(5)]);
}

#[test]
fn unsigned_create_fails_missing_signature() {
    let mut l = ledger();
    let seed = id(7);
    let (addr, _) = find_registry_pda(&seed, &l.program_id).expect("derivation");
    let err = create_game_studio(
        &mut l,
        alice(),
        false,
        addr,
        seed,
        b"Acme".to_vec(),
        b"ACM".to_vec(),
        b"u".to_vec(),
        alice(),
        zero(),
        Vec::new(),
    )
    .expect_err("unsigned create must fail");
    assert_eq!(err, RegistryError::MissingSignature);
    assert!(l.accounts.is_empty());
}

#[test]
fn create_with_foreign_authority_fails_unauthorized() {
    let mut l = ledger();
    let seed = id(7);
    let (addr, _) = find_registry_pda(&seed, &l.program_id).expect("derivation");
    let err = create_game_studio(
        &mut l,
        alice(),
        true,
        addr,
        seed,
        b"Acme".to_vec(),
        b"ACM".to_vec(),
        b"u".to_vec(),
        bob(),
        zero(),
        Vec::new(),
    )
    .expect_err("the supplied authority must be the payer");
    assert_eq!(err, RegistryError::Unauthorized);
}

#[test]
fn create_at_wrong_address_fails_invalid_address() {
    let mut l = ledger();
    let seed = id(7);
    let err = create_game_studio(
        &mut l,
        alice(),
        true,
        id(555),
        seed,
        b"Acme".to_vec(),
        b"ACM".to_vec(),
        b"u".to_vec(),
        alice(),
        zero(),
        Vec::new(),
    )
    .expect_err("a non-derived address must fail");
    assert_eq!(err, RegistryError::InvalidAddress);
}

#[test]
fn oversized_field_fails_invalid_argument() {
    let mut l = ledger();
    let seed = id(7);
    let (addr, _) = find_registry_pda(&seed, &l.program_id).expect("derivation");
    let err = create_game_studio(
        &mut l,
        alice(),
        true,
        addr,
        seed,
        vec![0x61; 33],
        b"ACM".to_vec(),
        b"u".to_vec(),
        alice(),
        zero(),
        Vec::new(),
    )
    .expect_err("a 33-byte name is over the bound");
    assert_eq!(err, RegistryError::InvalidArgument);
}

#[test]
fn update_of_missing_record_fails_uninitialized() {
    let mut l = ledger();
    let seed = id(7);
    let (addr, _) = find_registry_pda(&seed, &l.program_id).expect("derivation");
    let err = update_game_studio(
        &mut l,
        alice(),
        true,
        addr,
        seed,
        b"Beta".to_vec(),
        Vec::new(),
        Vec::new(),
        zero(),
        Vec::new(),
    )
    .expect_err("an update of a missing record must fail");
    assert_eq!(err, RegistryError::Uninitialized);
}

#[test]
fn update_of_corrupt_record_fails_data_corrupt() {
    let mut l = ledger();
    let seed = id(7);
    let (addr, _) = find_registry_pda(&seed, &l.program_id).expect("derivation");
    l.accounts.push(metaloot_registry::ledger::Account {
        address: addr,
        data: vec![0xff; 20],
    });
    let err = update_game_studio(
        &mut l,
        alice(),
        true,
        addr,
        seed,
        b"Beta".to_vec(),
        Vec::new(),
        Vec::new(),
        zero(),
        Vec::new(),
    )
    .expect_err("a corrupt record must fail");
    assert_eq!(err, RegistryError::DataCorrupt);
}
