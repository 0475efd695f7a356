use vstd::prelude::*;

use crate::LeeKoq;

verus! {

/// Number of rounds that both directions of the cipher run.
pub const ROUNDS: u32 = 528;

/// Bit `i` of a block, as 0 or 1.
pub open spec fn bit32(x: u32, i: u32) -> u32 {
    (x >> i) & 1
}

/// Bit `i` of a key, as 0 or 1.
pub open spec fn bit64(x: u64, i: u64) -> u64 {
    (x >> i) & 1
}

/// Entry `index` of the non-linear function table.
pub open spec fn nlf(index: u32) -> u32 {
    bit32(LeeKoq::LUT, index)
}

/// The value whose bits are the first `n` entries of the table, entry `i` as bit `i`.
pub open spec fn table_from_entries(n: nat) -> u32
    decreases n,
{
    if n == 0 {
        0
    } else {
        table_from_entries((n - 1) as nat) | (nlf((n - 1) as u32) << ((n - 1) as u32))
    }
}

/// Table index of an encryption round: block bits 1, 9, 20, 26, 31 as index bits 0..4.
pub open spec fn encrypt_index(block: u32) -> u32 {
    bit32(block, 1) | (bit32(block, 9) << 1u32) | (bit32(block, 20) << 2u32) | (bit32(block, 26)
        << 3u32) | (bit32(block, 31) << 4u32)
}

/// Feedback bit of an encryption round: block bits 16 and 0, the table entry and key bit 0.
pub open spec fn encrypt_feedback(block: u32, key: u64) -> u32 {
    bit32(block, 16) ^ bit32(block, 0) ^ nlf(encrypt_index(block)) ^ (bit64(key, 0) as u32)
}

/// The block after one encryption round: shifted right, feedback in bit 31.
pub open spec fn encrypt_step(block: u32, key: u64) -> u32 {
    (encrypt_feedback(block, key) << 31u32) | (block >> 1u32)
}

/// The key rotated right by one bit: bit 0 moves to bit 63.
pub open spec fn rotate_right(key: u64) -> u64 {
    (bit64(key, 0) << 63u64) | (key >> 1u64)
}

/// The block after `n` encryption rounds starting from `block` and `key`.
pub open spec fn encrypt_rounds(block: u32, key: u64, n: nat) -> u32
    decreases n,
{
    if n == 0 {
        block
    } else {
        encrypt_rounds(encrypt_step(block, key), rotate_right(key), (n - 1) as nat)
    }
}

/// The key after `n` encryption rounds.
pub open spec fn encrypt_key(key: u64, n: nat) -> u64
    decreases n,
{
    if n == 0 {
        key
    } else {
        encrypt_key(rotate_right(key), (n - 1) as nat)
    }
}

/// The key rotated right by `r` bits, for `r < 64`.
pub open spec fn rotate_right_by(key: u64, r: u64) -> u64 {
    if r == 0 {
        key
    } else {
        (key >> r) | (key << (64 - r) as u64)
    }
}

/// The key rotated left by `r` bits, for `r < 64`.
pub open spec fn rotate_left_by(key: u64, r: u64) -> u64 {
    if r == 0 {
        key
    } else {
        (key << r) | (key >> (64 - r) as u64)
    }
}

/// KeeLoq encryption of `block` under `key`.
pub open spec fn keeloq_encrypt(block: u32, key: u64) -> u32 {
    encrypt_rounds(block, key, ROUNDS as nat)
}

/// Table index of a decryption round: block bits 0, 8, 19, 25, 30 as index bits 0..4,
/// each one below its place in an encryption round.
pub open spec fn decrypt_index(block: u32) -> u32 {
    bit32(block, 0) | (bit32(block, 8) << 1u32) | (bit32(block, 19) << 2u32) | (bit32(block, 25)
        << 3u32) | (bit32(block, 30) << 4u32)
}

/// Feedback bit of a decryption round: block bits 31 and 15, the table entry and key bit 15.
pub open spec fn decrypt_feedback(block: u32, key: u64) -> u32 {
    bit32(block, 31) ^ bit32(block, 15) ^ nlf(decrypt_index(block)) ^ (bit64(key, 15) as u32)
}

/// The block after one decryption round: shifted left, feedback in bit 0.
pub open spec fn decrypt_step(block: u32, key: u64) -> u32 {
    (block << 1u32) | decrypt_feedback(block, key)
}

/// The key rotated left by one bit: bit 63 moves to bit 0.
pub open spec fn rotate_left(key: u64) -> u64 {
    (key << 1u64) | (key >> 63u64)
}

/// The block after `n` decryption rounds starting from `block` and `key`.
pub open spec fn decrypt_rounds(block: u32, key: u64, n: nat) -> u32
    decreases n,
{
    if n == 0 {
        block
    } else {
        decrypt_rounds(decrypt_step(block, key), rotate_left(key), (n - 1) as nat)
    }
}

/// The key after `n` decryption rounds.
pub open spec fn decrypt_key(key: u64, n: nat) -> u64
    decreases n,
{
    if n == 0 {
        key
    } else {
        decrypt_key(rotate_left(key), (n - 1) as nat)
    }
}

/// KeeLoq decryption of `block` under `key`.
pub open spec fn keeloq_decrypt(block: u32, key: u64) -> u32 {
    decrypt_rounds(block, key, ROUNDS as nat)
}

} // verus!
