//! A state-transition handler for a ledger-hosted greeting counter: given an
//! expected authority, a list of account references and an opaque instruction
//! payload, it validates ownership of the first account, decodes a 4-byte
//! little-endian counter record from the account's buffer, increments it once
//! (wrapping at the maximum), and re-encodes it in place. Every failure leaves
//! the buffer byte-for-byte unchanged.

pub mod error;
pub mod handler;
pub mod record;
