use metaloot_registry::errors::RegistryError;
use metaloot_registry::ids::Identity;
use metaloot_registry::ledger::{Ledger, TokenAccount};
use metaloot_registry::pda::{find_holding_pda, find_player_pda, find_registry_pda};
use metaloot_registry::player::create_player_account;
use metaloot_registry::registry::create_game_studio;
use metaloot_registry::token::{
    create_fungible_token, initialize_player_token_accounts, reward_tokens, transfer_tokens,
};

fn id(n: u64) -> Identity {
    Identity { w0: n, w1: 0, w2: 0, w3: 0 }
}

fn zero() -> Identity {
    Identity { w0: 0, w1: 0, w2: 0, w3: 0 }
}

fn ledger() -> Ledger {
    Ledger {
        program_id: id(1000),
        token_program_id: id(1001),
        ata_program_id: id(1002),
        accounts: Vec::new(),
        token_accounts: Vec::new(),
        mints: Vec::new(),
    }
}

struct World {
    l: Ledger,
    mint: Identity,
    p1_seed: Identity,
    p1_addr: Identity,
    p1_holding: Identity,
    p2_seed: Identity,
    p2_addr: Identity,
    p2_holding: Identity,
}

/// A studio with a mint, two player records and their holding accounts.
fn world() -> World {
    let mut l = ledger();
    let studio_seed = id(71);
    let (studio_addr, _) = find_registry_pda(&studio_seed, &l.program_id).expect("derivation");
    create_game_studio(
        &mut l,
        id(11),
        true,
        studio_addr,
        studio_seed,
        b"Acme".to_vec(),
        b"ACM".to_vec(),
        b"u".to_vec(),
        id(11),
        zero(),
        Vec::new(),
    )
    .expect("studio create succeeds");

    let mint = id(900);
    create_fungible_token(&mut l, id(11), true, mint, studio_seed, studio_addr)
        .expect("mint create succeeds");

    let p1_seed = id(81);
    let (p1_addr, _) = find_player_pda(&p1_seed, &l.program_id).expect("derivation");
    create_player_account(&mut l, id(21), true, p1_addr, p1_seed, b"p1".to_vec(), b"u1".to_vec(), 5)
        .expect("player one create succeeds");
    let (p1_holding, _) =
        find_holding_pda(&p1_addr, &l.token_program_id, &mint, &l.ata_program_id)
            .expect("derivation");
    initialize_player_token_accounts(&mut l, id(21), true, mint, p1_addr, p1_holding, p1_seed)
        .expect("holding one init succeeds");

    let p2_seed = id(82);
    let (p2_addr, _) = find_player_pda(&p2_seed, &l.program_id).expect("derivation");
    create_player_account(&mut l, id(22), true, p2_addr, p2_seed, b"p2".to_vec(), b"u2".to_vec(), 6)
        .expect("player two create succeeds");
    let (p2_holding, _) =
        find_holding_pda(&p2_addr, &l.token_program_id, &mint, &l.ata_program_id)
            .expect("derivation");
    initialize_player_token_accounts(&mut l, id(22), true, mint, p2_addr, p2_holding, p2_seed)
        .expect("holding two init succeeds");

    World { l, mint, p1_seed, p1_addr, p1_holding, p2_seed, p2_addr, p2_holding }
}

fn balance(l: &Ledger, addr: Identity) -> u64 {
    for t in l.token_accounts.iter() {
        if t.address == addr {
            return t.balance;
        }
    }
    panic!("no holding at the given address");
}

fn fund(l: &mut Ledger, addr: Identity, amount: u64) {
    for t in l.token_accounts.iter_mut() {
        if t.address == addr {
            t.balance = amount;
            return;
        }
    }
    panic!("no holding at the given address");
}

#[test]
fn holdings_start_empty() {
    let w = world();
    assert_eq!(balance(&w.l, w.p1_holding), 0);
    assert_eq!(balance(&w.l, w.p2_holding), 0);
}

#[test]
fn transfer_moves_exactly_the_amount() {
    let mut w = world();
    fund(&mut w.l, w.p1_holding, 100);
    transfer_tokens(
        &mut w.l,
        id(21),
        true,
        w.mint,
        w.p1_seed,
        w.p1_addr,
        w.p1_holding,
        w.p2_seed,
        w.p2_addr,
        w.p2_holding,
        30,
    )
    .expect("transfer succeeds");
    assert_eq!(balance(&w.l, w.p1_holding), 70);
    assert_eq!(balance(&w.l, w.p2_holding), 30);
}

#[test]
fn transfer_from_foreign_holding_fails_unauthorized() {
    let mut w = world();
    // A holding owned by someone other than the derived sender record.
    let foreign = id(333);
    w.l.token_accounts.push(TokenAccount {
        address: foreign,
        owner: id(444),
        mint: w.mint,
        balance: 50,
    });
    let err = transfer_tokens(
        &mut w.l,
        id(21),
        true,
        w.mint,
        w.p1_seed,
        w.p1_addr,
        foreign,
        w.p2_seed,
        w.p2_addr,
        w.p2_holding,
        10,
    )
    .expect_err("the source holding is not owned by the sender record");
    assert_eq!(err, RegistryError::Unauthorized);
    assert_eq!(balance(&w.l, foreign), 50);
    assert_eq!(balance(&w.l, w.p2_holding), 0);
}

#[test]
fn transfer_over_balance_fails_insufficient_funds() {
    let mut w = world();
    fund(&mut w.l, w.p1_holding, 10);
    let err = transfer_tokens(
        &mut w.l,
        id(21),
        true,
        w.mint,
        w.p1_seed,
        w.p1_addr,
        w.p1_holding,
        w.p2_seed,
        w.p2_addr,
        w.p2_holding,
        11,
    )
    .expect_err("the amount exceeds the balance");
    assert_eq!(err, RegistryError::InsufficientFunds);
    assert_eq!(balance(&w.l, w.p1_holding), 10);
    assert_eq!(balance(&w.l, w.p2_holding), 0);
}

#[test]
fn transfer_by_non_authority_fails_unauthorized() {
    let mut w = world();
    fund(&mut w.l, w.p1_holding, 10);
    let err = transfer_tokens(
        &mut w.l,
        id(22),
        true,
        w.mint,
        w.p1_seed,
        w.p1_addr,
        w.p1_holding,
        w.p2_seed,
        w.p2_addr,
        w.p2_holding,
        5,
    )
    .expect_err("only the sender record's authority may move value");
    assert_eq!(err, RegistryError::Unauthorized);
}

#[test]
fn reward_moves_from_studio_holding() {
    let mut w = world();
    let studio_seed = id(71);
    let (studio_addr, _) = find_registry_pda(&studio_seed, &w.l.program_id).expect("derivation");
    let studio_holding = id(700);
    w.l.token_accounts.push(TokenAccount {
        address: studio_holding,
        owner: studio_addr,
        mint: w.mint,
        balance: 1000,
    });
    reward_tokens(
        &mut w.l,
        id(11),
        true,
        w.mint,
        studio_seed,
        studio_addr,
        studio_holding,
        w.p1_seed,
        w.p1_addr,
        w.p1_holding,
        250,
    )
    .expect("reward succeeds");
    assert_eq!(balance(&w.l, studio_holding), 750);
    assert_eq!(balance(&w.l, w.p1_holding), 250);
}

#[test]
fn second_holding_init_fails_already_exists() {
    let mut w = world();
    let err = initialize_player_token_accounts(
        &mut w.l,
        id(21),
        true,
        w.mint,
        w.p1_addr,
        w.p1_holding,
        w.p1_seed,
    )
    .expect_err("the holding already exists");
    assert_eq!(err, RegistryError::AlreadyExists);
}

#[test]
fn holding_init_needs_a_registered_mint() {
    let mut w = world();
    let err = initialize_player_token_accounts(
        &mut w.l,
        id(21),
        true,
        id(901),
        w.p1_addr,
        w.p1_holding,
        w.p1_seed,
    )
    .expect_err("an unregistered mint is refused");
    assert_eq!(err, RegistryError::InvalidArgument);
}

#[test]
fn second_mint_create_fails_already_exists() {
    let mut w = world();
    let studio_seed = id(71);
    let (studio_addr, _) = find_registry_pda(&studio_seed, &w.l.program_id).expect("derivation");
    let err = create_fungible_token(&mut w.l, id(11), true, w.mint, studio_seed, studio_addr)
        .expect_err("the mint already exists");
    assert_eq!(err, RegistryError::AlreadyExists);
}
