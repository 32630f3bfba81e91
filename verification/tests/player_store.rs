use metaloot_registry::codec::decode_player;
use metaloot_registry::errors::RegistryError;
use metaloot_registry::ids::Identity;
use metaloot_registry::ledger::Ledger;
use metaloot_registry::pda::find_player_pda;
use metaloot_registry::player::{create_player_account, update_player_account};

fn id(n: u64) -> Identity {
    Identity { w0: n, w1: 0, w2: 0, w3: 0 }
}

fn zero() -> Identity {
    Identity { w0: 0, w1: 0, w2: 0, w3: 0 }
}

fn ledger() -> Ledger {
    Ledger {
        program_id: id(1000),
        token_program_id: id(1001),
        ata_program_id: id(1002),
        accounts: Vec::new(),
        token_accounts: Vec::new(),
        mints: Vec::new(),
    }
}

fn stored_data(l: &Ledger, addr: Identity) -> Vec<u8> {
    for acc in l.accounts.iter() {
        if acc.address == addr {
            return acc.data.clone();
        }
    }
    panic!("no account at the given address");
}

#[test]
fn create_player_stamps_creation_time() {
    let mut l = ledger();
    let seed = id(31);
    let (addr, _) = find_player_pda(&seed, &l.program_id).expect("derivation");
    create_player_account(
        &mut l,
        id(11),
        true,
        addr,
        seed,
        b"player_one".to_vec(),
        b"https://example.com/p1.json".to_vec(),
        1700000000,
    )
    .expect("create succeeds");
    let rec = decode_player(stored_data(&l, addr).as_slice()).expect("decodes");
    assert_eq!(rec.authority, id(11));
    assert_eq!(rec.username, b"player_one".to_vec());
    assert_eq!(rec.created_at, 1700000000);
}

#[test]
fn player_update_follows_sentinels_and_keeps_creation_time() {
    let mut l = ledger();
    let seed = id(31);
    let (addr, _) = find_player_pda(&seed, &l.program_id).expect("derivation");
    create_player_account(
        &mut l,
        id(11),
        true,
        addr,
        seed,
        b"player_one".to_vec(),
        b"https://example.com/p1.json".to_vec(),
        1700000000,
    )
    .expect("create succeeds");

    update_player_account(
        &mut l,
        id(11),
        true,
        addr,
        seed,
        Vec::new(),
        b"https://example.com/p1-v2.json".to_vec(),
        zero(),
    )
    .expect("update succeeds");
    let rec = decode_player(stored_data(&l, addr).as_slice()).expect("decodes");
    assert_eq!(rec.username, b"player_one".to_vec());
    assert_eq!(rec.uri, b"https://example.com/p1-v2.json".to_vec());
    assert_eq!(rec.created_at, 1700000000);
    assert_eq!(rec.authority, id(11));

    // The broader update form may hand the record to a new authority.
    update_player_account(&mut l, id(11), true, addr, seed, Vec::new(), Vec::new(), id(55))
        .expect("authority handover succeeds");
    let rec = decode_player(stored_data(&l, addr).as_slice()).expect("decodes");
    assert_eq!(rec.authority, id(55));

    let err = update_player_account(
        &mut l,
        id(11),
        true,
        addr,
        seed,
        Vec::new(),
        b"x".to_vec(),
        zero(),
    )
    .expect_err("the old authority may no longer update");
    assert_eq!(err, RegistryError::Unauthorized);
}

#[test]
fn second_player_create_fails_already_exists() {
    let mut l = ledger();
    let seed = id(31);
    let (addr, _) = find_player_pda(&seed, &l.program_id).expect("derivation");
    create_player_account(&mut l, id(11), true, addr, seed, b"p".to_vec(), b"u".to_vec(), 5)
        .expect("create succeeds");
    let before = stored_data(&l, addr);
    let err = create_player_account(
        &mut l,
        id(12),
        true,
        addr,
        seed,
        b"q".to_vec(),
        b"v".to_vec(),
        6,
    )
    .expect_err("second create must fail");
    assert_eq!(err, RegistryError::AlreadyExists);
    assert_eq!(stored_data(&l, addr), before);
}
