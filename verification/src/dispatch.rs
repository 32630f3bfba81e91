//! The operation dispatcher. An external call arrives as an operation tag
//! with encoded arguments and an ordered list of addresses; the dispatcher
//! decodes the tag, resolves the handler, and fails closed on the first
//! violation. The wire form is one tag byte followed by the operation's
//! field encoding, consumed exactly.

use crate::codec::{
    append_studio_fields, enc_studio_fields, read_studio_fields, take_studio_fields, take_u8,
};
use crate::errors::RegistryError;
use crate::ids::Identity;
use crate::ledger::{Ledger, LedgerView};
use crate::records::{studio_wf, GameRegistryMetadata, StudioView};
use crate::registry::{create_studio_model, update_studio_model};
use crate::token::create_fungible_token_model;
use vstd::prelude::*;

verus! {

/// Wire tag of `CreateGameStudio`.
pub const CREATE_GAME_STUDIO_TAG: u8 = 0;

/// Wire tag of `UpdateGameStudio`.
pub const UPDATE_GAME_STUDIO_TAG: u8 = 1;

/// Wire tag of `CreateFungibleToken`.
pub const CREATE_FUNGIBLE_TOKEN_TAG: u8 = 2;

/// A decoded external operation.
#[derive(Debug)]
pub enum RegistryInstruction {
    /// Create a game-studio record from the carried fields.
    CreateGameStudio(GameRegistryMetadata),
    /// Partially update a game-studio record from the carried fields.
    UpdateGameStudio(GameRegistryMetadata),
    /// Register a fungible token minted under a studio's derived authority.
    CreateFungibleToken,
}

/// The mathematical value of a decoded operation.
pub ghost enum InstructionView {
    CreateGameStudio(StudioView),
    UpdateGameStudio(StudioView),
    CreateFungibleToken,
}

impl View for RegistryInstruction {
    type V = InstructionView;

    open spec fn view(&self) -> InstructionView {
        match self {
            RegistryInstruction::CreateGameStudio(m) => InstructionView::CreateGameStudio(m@),
            RegistryInstruction::UpdateGameStudio(m) => InstructionView::UpdateGameStudio(m@),
            RegistryInstruction::CreateFungibleToken => InstructionView::CreateFungibleToken,
        }
    }
}

/// Whether an operation's payload respects the declared field bounds.
pub open spec fn instruction_wf(i: InstructionView) -> bool {
    match i {
        InstructionView::CreateGameStudio(m) => studio_wf(m),
        InstructionView::UpdateGameStudio(m) => studio_wf(m),
        InstructionView::CreateFungibleToken => true,
    }
}

/// The wire encoding of an operation: its tag byte, then its fields.
pub open spec fn enc_instruction(i: InstructionView) -> Seq<u8> {
    match i {
        InstructionView::CreateGameStudio(m) => seq![CREATE_GAME_STUDIO_TAG] + enc_studio_fields(
            m,
        ),
        InstructionView::UpdateGameStudio(m) => seq![UPDATE_GAME_STUDIO_TAG] + enc_studio_fields(
            m,
        ),
        InstructionView::CreateFungibleToken => seq![CREATE_FUNGIBLE_TOKEN_TAG],
    }
}

/// Decodes an operation from its wire form, requiring the input to be
/// consumed exactly. `None` when the tag or the payload is not recognized.
pub open spec fn dec_instruction(s: Seq<u8>) -> Option<InstructionView> {
    match take_u8(s) {
        None => None,
        Some((tag, rest)) => if tag == CREATE_GAME_STUDIO_TAG {
            match take_studio_fields(rest) {
                None => None,
                Some((m, rem)) => if rem.len() == 0 {
                    Some(InstructionView::CreateGameStudio(m))
                } else {
                    None
                },
            }
        } else if tag == UPDATE_GAME_STUDIO_TAG {
            match take_studio_fields(rest) {
                None => None,
                Some((m, rem)) => if rem.len() == 0 {
                    Some(InstructionView::UpdateGameStudio(m))
                } else {
                    None
                },
            }
        } else if tag == CREATE_FUNGIBLE_TOKEN_TAG {
            if rest.len() == 0 {
                Some(InstructionView::CreateFungibleToken)
            } else {
                None
            }
        } else {
            None
        },
    }
}

/// The round-trip law for the wire form: a well-formed operation decodes
/// from its own encoding to exactly itself.
pub proof fn lemma_instruction_round_trip(i: InstructionView)
    requires
        instruction_wf(i),
    ensures
        dec_instruction(enc_instruction(i)) == Some(i),
{
    match i {
        InstructionView::CreateGameStudio(m) => {
            crate::codec::lemma_take_u8_enc(
                CREATE_GAME_STUDIO_TAG,
                enc_studio_fields(m),
            );
            crate::codec::lemma_take_studio_fields_enc(m, Seq::<u8>::empty());
            assert(enc_studio_fields(m) + Seq::<u8>::empty() =~= enc_studio_fields(m));
        },
        InstructionView::UpdateGameStudio(m) => {
            crate::codec::lemma_take_u8_enc(
                UPDATE_GAME_STUDIO_TAG,
                enc_studio_fields(m),
            );
            crate::codec::lemma_take_studio_fields_enc(m, Seq::<u8>::empty());
            assert(enc_studio_fields(m) + Seq::<u8>::empty() =~= enc_studio_fields(m));
        },
        InstructionView::CreateFungibleToken => {
            crate::codec::lemma_take_u8_enc(CREATE_FUNGIBLE_TOKEN_TAG, Seq::<u8>::empty());
            assert(seq![CREATE_FUNGIBLE_TOKEN_TAG] + Seq::<u8>::empty() =~= seq![
                CREATE_FUNGIBLE_TOKEN_TAG,
            ]);
        },
    }
}

/// Encodes an operation into its wire form.
pub fn encode_instruction(i: &RegistryInstruction) -> (out: Vec<u8>)
    requires
        instruction_wf(i@),
    ensures
        out@ == enc_instruction(i@),
{
    let mut buf: Vec<u8> = Vec::new();
    match i {
        RegistryInstruction::CreateGameStudio(m) => {
            buf.push(CREATE_GAME_STUDIO_TAG);
            append_studio_fields(&mut buf, m);
            assert(buf@ =~= enc_instruction(i@));
        },
        RegistryInstruction::UpdateGameStudio(m) => {
            buf.push(UPDATE_GAME_STUDIO_TAG);
            append_studio_fields(&mut buf, m);
            assert(buf@ =~= enc_instruction(i@));
        },
        RegistryInstruction::CreateFungibleToken => {
            buf.push(CREATE_FUNGIBLE_TOKEN_TAG);
            assert(buf@ =~= enc_instruction(i@));
        },
    }
    buf
}

/// Decodes an operation from its wire form; `DataCorrupt` exactly when the
/// bytes are not one whole recognized operation.
pub fn decode_instruction(data: &[u8]) -> (r: Result<RegistryInstruction, RegistryError>)
    ensures
        match r {
            Ok(i) => dec_instruction(data@) == Some(i@) && instruction_wf(i@),
            Err(e) => e == RegistryError::DataCorrupt && dec_instruction(data@) is None,
        },
{
    proof {
        assert(data@.skip(0) =~= data@);
    }
    if data.len() < 1 {
        return Err(RegistryError::DataCorrupt);
    }
    let tag = *vstd::slice::slice_index_get(data, 0);
    proof {
        assert(data@[0] == data@.skip(0)[0]);
        assert(data@.skip(0).drop_first() =~= data@.skip(1));
    }
    if tag == CREATE_GAME_STUDIO_TAG {
        match read_studio_fields(data, 1) {
            Some((m, o2)) => {
                if o2 < data.len() {
                    return Err(RegistryError::DataCorrupt);
                }
                assert(data@.skip(o2 as int).len() == 0);
                Ok(RegistryInstruction::CreateGameStudio(m))
            },
            None => Err(RegistryError::DataCorrupt),
        }
    } else if tag == UPDATE_GAME_STUDIO_TAG {
        match read_studio_fields(data, 1) {
            Some((m, o2)) => {
                if o2 < data.len() {
                    return Err(RegistryError::DataCorrupt);
                }
                assert(data@.skip(o2 as int).len() == 0);
                Ok(RegistryInstruction::UpdateGameStudio(m))
            },
            None => Err(RegistryError::DataCorrupt),
        }
    } else if tag == CREATE_FUNGIBLE_TOKEN_TAG {
        if data.len() > 1 {
            return Err(RegistryError::DataCorrupt);
        }
        Ok(RegistryInstruction::CreateFungibleToken)
    } else {
        Err(RegistryError::DataCorrupt)
    }
}

/// What one externally submitted call does: decode the operation, pull its
/// addresses from the ordered account list, and run the handler.
pub open spec fn process_model(
    l: LedgerView,
    payer: Identity,
    payer_signed: bool,
    accounts: Seq<Identity>,
    data: Seq<u8>,
) -> (LedgerView, Result<(), RegistryError>) {
    match dec_instruction(data) {
        None => (l, Err(RegistryError::DataCorrupt)),
        Some(instr) => match instr {
            InstructionView::CreateGameStudio(m) => if accounts.len() < 2 {
                (l, Err(RegistryError::InvalidArgument))
            } else {
                let res = create_studio_model(
                    l,
                    payer,
                    payer_signed,
                    accounts[0],
                    accounts[1],
                    m.name,
                    m.symbol,
                    m.uri,
                    m.authority,
                    m.native_token,
                    m.nft_collection,
                );
                (
                    res.0,
                    match res.1 {
                        Ok(_) => Ok(()),
                        Err(e) => Err(e),
                    },
                )
            },
            InstructionView::UpdateGameStudio(m) => if accounts.len() < 2 {
                (l, Err(RegistryError::InvalidArgument))
            } else {
                update_studio_model(
                    l,
                    payer,
                    payer_signed,
                    accounts[0],
                    accounts[1],
                    m.name,
                    m.symbol,
                    m.uri,
                    m.native_token,
                    m.nft_collection,
                )
            },
            InstructionView::CreateFungibleToken => if accounts.len() < 3 {
                (l, Err(RegistryError::InvalidArgument))
            } else {
                create_fungible_token_model(
                    l,
                    payer,
                    payer_signed,
                    accounts[0],
                    accounts[1],
                    accounts[2],
                )
            },
        },
    }
}

/// Processes one externally submitted call as one atomic unit: on any
/// failure the ledger is exactly what it was.
pub fn process_instruction(
    l: &mut Ledger,
    payer: Identity,
    payer_signed: bool,
    accounts: &Vec<Identity>,
    data: &[u8],
) -> (r: Result<(), RegistryError>)
    requires
        old(l)@.wf(),
    ensures
        final(l)@.wf(),
        (final(l)@, r) == process_model(old(l)@, payer, payer_signed, accounts@, data@),
{
    let instr = match decode_instruction(data) {
        Ok(i) => i,
        Err(e) => {
            return Err(e);
        },
    };
    match instr {
        RegistryInstruction::CreateGameStudio(m) => {
            if accounts.len() < 2 {
                return Err(RegistryError::InvalidArgument);
            }
            let GameRegistryMetadata { name, symbol, uri, authority, native_token, nft_collection, bump: _ } =
                m;
            match crate::registry::create_game_studio(
                l,
                payer,
                payer_signed,
                accounts[0],
                accounts[1],
                name,
                symbol,
                uri,
                authority,
                native_token,
                nft_collection,
            ) {
                Ok(_addr) => Ok(()),
                Err(e) => Err(e),
            }
        },
        RegistryInstruction::UpdateGameStudio(m) => {
            if accounts.len() < 2 {
                return Err(RegistryError::InvalidArgument);
            }
            let GameRegistryMetadata { name, symbol, uri, authority: _, native_token, nft_collection, bump: _ } =
                m;
            crate::registry::update_game_studio(
                l,
                payer,
                payer_signed,
                accounts[0],
                accounts[1],
                name,
                symbol,
                uri,
                native_token,
                nft_collection,
            )
        },
        RegistryInstruction::CreateFungibleToken => {
            if accounts.len() < 3 {
                return Err(RegistryError::InvalidArgument);
            }
            crate::token::create_fungible_token(
                l,
                payer,
                payer_signed,
                accounts[0],
                accounts[1],
                accounts[2],
            )
        },
    }
}

/// Fail-closed atomicity: an externally submitted call either applies in
/// full or reports an error having changed nothing at all.
pub proof fn lemma_failed_call_changes_nothing(
    l: LedgerView,
    payer: Identity,
    payer_signed: bool,
    accounts: Seq<Identity>,
    data: Seq<u8>,
)
    ensures
        process_model(l, payer, payer_signed, accounts, data).1 is Err ==> process_model(
            l,
            payer,
            payer_signed,
            accounts,
            data,
        ).0 == l,
{
}

} // verus!
