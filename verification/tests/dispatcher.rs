use metaloot_registry::codec::decode_studio;
use metaloot_registry::dispatch::{encode_instruction, process_instruction, RegistryInstruction};
use metaloot_registry::errors::RegistryError;
use metaloot_registry::ids::Identity;
use metaloot_registry::ledger::Ledger;
use metaloot_registry::pda::find_registry_pda;
use metaloot_registry::records::GameRegistryMetadata;

fn id(n: u64) -> Identity {
    Identity { w0: n, w1: 0, w2: 0, w3: 0 }
}

fn zero() -> Identity {
    Identity { w0: 0, w1: 0, w2: 0, w3: 0 }
}

fn ledger() -> Ledger {
    Ledger {
        program_id: id(1000),
        token_program_id: id(1001),
        ata_program_id: id(1002),
        accounts: Vec::new(),
        token_accounts: Vec::new(),
        mints: Vec::new(),
    }
}

fn stored_data(l: &Ledger, addr: Identity) -> Vec<u8> {
    for acc in l.accounts.iter() {
        if acc.address == addr {
            return acc.data.clone();
        }
    }
    panic!("no account at the given address");
}

fn studio_payload(name: &[u8], authority: Identity) -> GameRegistryMetadata {
    GameRegistryMetadata {
        name: name.to_vec(),
        symbol: b"ACM".to_vec(),
        uri: b"https://example.com/acme.json".to_vec(),
        authority,
        native_token: zero(),
        nft_collection: Vec::new(),
        bump: 0,
    }
}

#[test]
fn dispatched_create_and_update() {
    let mut l = ledger();
    let seed = id(7);
    let (addr, _) = find_registry_pda(&seed, &l.program_id).expect("derivation");
    let accounts = vec![addr, seed];

    let create = encode_instruction(&RegistryInstruction::CreateGameStudio(studio_payload(
        b"Acme",
        id(11),
    )));
    process_instruction(&mut l, id(11), true, &accounts, create.as_slice())
        .expect("dispatched create succeeds");
    let rec = decode_studio(stored_data(&l, addr).as_slice()).expect("decodes");
    assert_eq!(rec.name, b"Acme".to_vec());

    let mut upd = studio_payload(b"Beta", id(11));
    upd.symbol = Vec::new();
    upd.uri = Vec::new();
    let update = encode_instruction(&RegistryInstruction::UpdateGameStudio(upd));
    process_instruction(&mut l, id(11), true, &accounts, update.as_slice())
        .expect("dispatched update succeeds");
    let rec = decode_studio(stored_data(&l, addr).as_slice()).expect("decodes");
    assert_eq!(rec.name, b"Beta".to_vec());
    assert_eq!(rec.symbol, b"ACM".to_vec());
}

#[test]
fn dispatched_mint_creation() {
    let mut l = ledger();
    let seed = id(7);
    let (addr, _) = find_registry_pda(&seed, &l.program_id).expect("derivation");
    let create = encode_instruction(&RegistryInstruction::CreateGameStudio(studio_payload(
        b"Acme",
        id(11),
    )));
    process_instruction(&mut l, id(11), true, &vec![addr, seed], create.as_slice())
        .expect("create succeeds");

    let mint = id(900);
    let op = encode_instruction(&RegistryInstruction::CreateFungibleToken);
    process_instruction(&mut l, id(11), true, &vec![mint, seed, addr], op.as_slice())
        .expect("mint creation succeeds");
    assert_eq!(l.mints.len(), 1);
    assert_eq!(l.mints[0].address, mint);
    assert_eq!(l.mints[0].authority, addr);
}

#[test]
fn garbage_call_fails_data_corrupt() {
    let mut l = ledger();
    let err = process_instruction(&mut l, id(11), true, &Vec::new(), &[42, 1, 2])
        .expect_err("an unknown operation must fail");
    assert_eq!(err, RegistryError::DataCorrupt);
}

#[test]
fn missing_accounts_fail_invalid_argument() {
    let mut l = ledger();
    let create = encode_instruction(&RegistryInstruction::CreateGameStudio(studio_payload(
        b"Acme",
        id(11),
    )));
    let err = process_instruction(&mut l, id(11), true, &vec![id(1)], create.as_slice())
        .expect_err("one address is too few");
    assert_eq!(err, RegistryError::InvalidArgument);
}
