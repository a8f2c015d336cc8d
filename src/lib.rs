//! Block ciphers (AES, DES, Triple DES, Magma) and the modes of operation that
//! turn them into encryption of streams and messages: CBC (with ISO/IEC 7816-4
//! padding), CFB, OFB and CTR, in their standard form and in the generalised
//! form of GOST R 34.13-2015.
//!
//! Every cipher states what it computes as a spec function on byte blocks
//! (`block::BlockCipher`); every mode is a state machine whose one-block step is
//! a spec function, and whose multi-block operations are proved to run that
//! step over the blocks in order (`block::run`). The laws of the modes (round
//! trips, counter seeking, state export, the reduction of the GOST forms to the
//! standard ones) are proof functions next to each mode.
use vstd::prelude::*;

pub mod aes;
pub mod block;
pub mod bytes;
pub mod cbc;
pub mod cfb;
pub mod cfb_mode;
pub mod ctr128;
pub mod ctr64;
pub mod des;
pub mod feistel;
pub mod magma;
pub mod ofb;
pub mod padding;
pub mod tdes;

verus! {

/// What can go wrong when a cipher or a mode is set up or used.
#[derive(Clone, Copy, Debug, PartialEq, Eq, Structural)]
pub enum Error {
    /// The key does not have the length the cipher needs.
    InvalidKeyLength,
    /// The IV does not have the length the mode needs.
    InvalidIvLength,
    /// A mode parameter (IV blocks, register length, output width) is out of range.
    InvalidParameter,
    /// The counter would run past its largest value.
    CounterOverflow,
    /// The last decrypted block does not end in well-formed padding.
    BadPadding,
}

} // verus!
