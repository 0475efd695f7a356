//! The KeeLoq block cipher: a 528-round non-linear feedback shift register
//! on a 32-bit block, driven by a 64-bit key.
use vstd::prelude::*;

pub mod lemmas;
pub mod model;

use crate::model::{
    decrypt_index, decrypt_rounds, decrypt_step, encrypt_index, encrypt_rounds, encrypt_step,
    keeloq_decrypt, keeloq_encrypt, rotate_left, rotate_right, ROUNDS,
};

verus! {

/// The KeeLoq cipher, as two pure functions on a block and a key.
pub struct LeeKoq;

impl LeeKoq {
    /// The non-linear function as a table of 32 one-bit entries: entry `i` is bit `i`.
    pub const LUT: u32 = 0x3A5C742E;

    /// Encrypts a 32-bit block under a 64-bit key.
    pub fn encrypt(block: u32, key: u64) -> (r: u32)
        ensures
            r == keeloq_encrypt(block, key),
    {
        let mut b: u32 = block;
        let mut k: u64 = key;
        let mut round: u32 = 0;
        while round < ROUNDS
            invariant
                round <= ROUNDS,
                encrypt_rounds(b, k, (ROUNDS - round) as nat) == keeloq_encrypt(block, key),
            decreases ROUNDS - round,
        {
            // Index into the table
            let lutkey: u32 = (b >> 1) & 1 | (b >> 8) & 2 | (b >> 18) & 4 | (b >> 23) & 8 | (b
                >> 27) & 16;
            assert(lutkey == encrypt_index(b) && lutkey < 32) by (bit_vector)
                requires
                    lutkey == (b >> 1) & 1 | (b >> 8) & 2 | (b >> 18) & 4 | (b >> 23) & 8 | (b
                        >> 27) & 16,
            ;

            // Next bit to feed in
            let msb: u32 = (b >> 16 & 1) ^ (b & 1) ^ (Self::LUT >> lutkey & 1) ^ ((k & 1) as u32);
            let next: u32 = msb << 31 | b >> 1;
            assert(next == encrypt_step(b, k)) by (bit_vector)
                requires
                    lutkey == encrypt_index(b),
                    msb == (b >> 16 & 1) ^ (b & 1) ^ (LeeKoq::LUT >> lutkey & 1) ^ ((k & 1) as u32),
                    next == msb << 31 | b >> 1,
            ;
            b = next;

            // Rotate the key right
            let rotated: u64 = (k & 1) << 63 | k >> 1;
            assert(rotated == rotate_right(k)) by (bit_vector)
                requires
                    rotated == (k & 1) << 63 | k >> 1,
            ;
            k = rotated;
            round = round + 1;
        }
        b
    }

    /// Decrypts a 32-bit block under a 64-bit key.
    pub fn decrypt(block: u32, key: u64) -> (r: u32)
        ensures
            r == keeloq_decrypt(block, key),
    {
        let mut b: u32 = block;
        let mut k: u64 = key;
        let mut round: u32 = 0;
        while round < ROUNDS
            invariant
                round <= ROUNDS,
                decrypt_rounds(b, k, (ROUNDS - round) as nat) == keeloq_decrypt(block, key),
            decreases ROUNDS - round,
        {
            // Index into the table
            let lutkey: u32 = (b >> 0) & 1 | (b >> 7) & 2 | (b >> 17) & 4 | (b >> 22) & 8 | (b
                >> 26) & 16;
            assert(lutkey == decrypt_index(b) && lutkey < 32) by (bit_vector)
                requires
                    lutkey == (b >> 0) & 1 | (b >> 7) & 2 | (b >> 17) & 4 | (b >> 22) & 8 | (b
                        >> 26) & 16,
            ;

            // Next bit to feed in
            let lsb: u32 = (b >> 31) ^ (b >> 15 & 1) ^ (Self::LUT >> lutkey & 1) ^ ((k >> 15 & 1) as u32);
            let next: u32 = (b & 0x7FFFFFFF) << 1 | lsb;
            assert(next == decrypt_step(b, k)) by (bit_vector)
                requires
                    lutkey == decrypt_index(b),
                    lsb == (b >> 31) ^ (b >> 15 & 1) ^ (LeeKoq::LUT >> lutkey & 1) ^ ((k >> 15
                        & 1) as u32),
                    next == (b & 0x7FFFFFFF) << 1 | lsb,
            ;
            b = next;

            // Rotate the key left
            let rotated: u64 = (k & 0x7FFFFFFFFFFFFFFF) << 1 | k >> 63;
            assert(rotated == rotate_left(k)) by (bit_vector)
                requires
                    rotated == (k & 0x7FFFFFFFFFFFFFFF) << 1 | k >> 63,
            ;
            k = rotated;
            round = round + 1;
        }
        b
    }
}

} // verus!
