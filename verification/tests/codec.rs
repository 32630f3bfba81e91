use metaloot_registry::codec::{
    decode_player, decode_studio, encode_player, encode_player_account, encode_studio,
    encode_studio_account, PLAYER_ACCOUNT_LEN, STUDIO_ACCOUNT_LEN,
};
use metaloot_registry::dispatch::{decode_instruction, encode_instruction, RegistryInstruction};
use metaloot_registry::errors::RegistryError;
use metaloot_registry::ids::Identity;
use metaloot_registry::records::{GameRegistryMetadata, PlayerAccount};

fn id(n: u64) -> Identity {
    Identity { w0: n, w1: 0, w2: 0, w3: 0 }
}

fn sample_studio() -> GameRegistryMetadata {
    GameRegistryMetadata {
        name: b"Acme".to_vec(),
        symbol: b"ACM".to_vec(),
        uri: b"https://example.com/acme.json".to_vec(),
        authority: id(1),
        native_token: id(2),
        nft_collection: vec![id(3), id(4)],
        bump: 254,
    }
}

fn assert_studio_eq(a: &GameRegistryMetadata, b: &GameRegistryMetadata) {
    assert_eq!(a.name, b.name);
    assert_eq!(a.symbol, b.symbol);
    assert_eq!(a.uri, b.uri);
    assert_eq!(a.authority, b.authority);
    assert_eq!(a.native_token, b.native_token);
    assert_eq!(a.nft_collection, b.nft_collection);
    assert_eq!(a.bump, b.bump);
}

#[test]
fn studio_round_trip() {
    let rec = sample_studio();
    let buf = encode_studio_account(&rec);
    assert_eq!(buf.len(), STUDIO_ACCOUNT_LEN);
    let back = decode_studio(buf.as_slice()).expect("round trip should decode");
    assert_studio_eq(&rec, &back);
}

#[test]
fn player_round_trip() {
    let rec = PlayerAccount {
        authority: id(9),
        username: b"player_one".to_vec(),
        created_at: 1700000000,
        uri: b"https://example.com/p1.json".to_vec(),
        bump: 253,
    };
    let buf = encode_player_account(&rec);
    assert_eq!(buf.len(), PLAYER_ACCOUNT_LEN);
    let back = decode_player(buf.as_slice()).expect("round trip should decode");
    assert_eq!(back.authority, rec.authority);
    assert_eq!(back.username, rec.username);
    assert_eq!(back.created_at, rec.created_at);
    assert_eq!(back.uri, rec.uri);
    assert_eq!(back.bump, rec.bump);
}

#[test]
fn short_buffer_is_data_corrupt() {
    let err = decode_studio(&[1, 2, 3]).expect_err("short buffer must fail");
    assert_eq!(err, RegistryError::DataCorrupt);
    let err = decode_player(&[]).expect_err("empty buffer must fail");
    assert_eq!(err, RegistryError::DataCorrupt);
}

#[test]
fn wrong_discriminator_is_data_corrupt() {
    let rec = PlayerAccount {
        authority: id(9),
        username: b"p".to_vec(),
        created_at: 5,
        uri: b"u".to_vec(),
        bump: 1,
    };
    let buf = encode_player(&rec);
    let err = decode_studio(buf.as_slice()).expect_err("player bytes are no studio record");
    assert_eq!(err, RegistryError::DataCorrupt);
}

#[test]
fn studio_encoding_length_formula() {
    // 89 fixed bytes plus the text lengths plus 32 per collection entry.
    let rec = sample_studio();
    let enc = encode_studio(&rec);
    assert_eq!(enc.len(), 89 + 4 + 3 + 29 + 32 * 2);

    let empty = GameRegistryMetadata {
        name: Vec::new(),
        symbol: Vec::new(),
        uri: Vec::new(),
        authority: id(0),
        native_token: id(0),
        nft_collection: Vec::new(),
        bump: 0,
    };
    assert_eq!(encode_studio(&empty).len(), 89);

    let max = GameRegistryMetadata::max_size();
    assert_eq!(encode_studio(&max).len(), STUDIO_ACCOUNT_LEN);
}

#[test]
fn instruction_round_trip() {
    let create = RegistryInstruction::CreateGameStudio(sample_studio());
    let buf = encode_instruction(&create);
    match decode_instruction(buf.as_slice()).expect("create should decode") {
        RegistryInstruction::CreateGameStudio(m) => assert_studio_eq(&m, &sample_studio()),
        _ => panic!("decoded the wrong operation"),
    }

    let update = RegistryInstruction::UpdateGameStudio(sample_studio());
    let buf = encode_instruction(&update);
    match decode_instruction(buf.as_slice()).expect("update should decode") {
        RegistryInstruction::UpdateGameStudio(m) => assert_studio_eq(&m, &sample_studio()),
        _ => panic!("decoded the wrong operation"),
    }

    let mint = RegistryInstruction::CreateFungibleToken;
    let buf = encode_instruction(&mint);
    match decode_instruction(buf.as_slice()).expect("mint should decode") {
        RegistryInstruction::CreateFungibleToken => {},
        _ => panic!("decoded the wrong operation"),
    }
}

#[test]
fn instruction_with_trailing_bytes_is_data_corrupt() {
    let mut buf = encode_instruction(&RegistryInstruction::CreateGameStudio(sample_studio()));
    buf.push(0);
    let err = decode_instruction(buf.as_slice()).expect_err("trailing bytes must fail");
    assert_eq!(err, RegistryError::DataCorrupt);

    let err = decode_instruction(&[9]).expect_err("unknown tag must fail");
    assert_eq!(err, RegistryError::DataCorrupt);
}
