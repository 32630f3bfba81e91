//! A registry of game-studio and player records kept on an account ledger,
//! with deterministic address derivation, authority-gated updates and a
//! token-transfer bridge signed by derived (non-keypair) identities.

pub mod codec;
pub mod dispatch;
pub mod errors;
pub mod ids;
pub mod ledger;
pub mod pda;
pub mod player;
pub mod records;
pub mod registry;
pub mod token;
