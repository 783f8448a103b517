//! Keys and key records, by signature scheme.

pub mod ed25519;
pub mod hd;
pub mod keying;
pub mod multisig;
pub mod secp256k1;
pub mod secp256r1;
