use vstd::prelude::*;

use crate::model::{
    bit64, decrypt_key, decrypt_rounds, decrypt_step, encrypt_key, encrypt_rounds, encrypt_step,
    keeloq_decrypt, keeloq_encrypt, rotate_left, rotate_left_by, rotate_right, rotate_right_by,
    nlf, table_from_entries, ROUNDS,
};
use crate::LeeKoq;

verus! {

/// One decryption round undoes one encryption round, and the other way round,
/// when the decryption key's bit 15 is the encryption key's bit 0.
proof fn lemma_step_inverse(b: u32, k: u64, kd: u64)
    requires
        bit64(kd, 15) == bit64(k, 0),
    ensures
        decrypt_step(encrypt_step(b, k), kd) == b,
        encrypt_step(decrypt_step(b, kd), k) == b,
{
    assert(decrypt_step(encrypt_step(b, k), kd) == b) by (bit_vector)
        requires
            bit64(kd, 15) == bit64(k, 0),
    ;
    assert(encrypt_step(decrypt_step(b, kd), k) == b) by (bit_vector)
        requires
            bit64(kd, 15) == bit64(k, 0),
    ;
}

/// Rotating right by one more bit extends a rotation by `r` bits.
proof fn lemma_rotate_right_by_succ(k: u64, r: u64)
    requires
        r < 64,
    ensures
        rotate_right_by(rotate_right(k), r) == rotate_right_by(k, ((r + 1) % 64) as u64),
{
    assert(r < 64 ==> rotate_right_by(rotate_right(k), r) == rotate_right_by(k, ((r + 1) % 64) as u64))
        by (bit_vector);
}

/// Rotating left by one more bit extends a rotation by `r` bits.
proof fn lemma_rotate_left_by_succ(k: u64, r: u64)
    requires
        r < 64,
    ensures
        rotate_left_by(rotate_left(k), r) == rotate_left_by(k, ((r + 1) % 64) as u64),
{
    assert(r < 64 ==> rotate_left_by(rotate_left(k), r) == rotate_left_by(k, ((r + 1) % 64) as u64))
        by (bit_vector);
}

/// After `n` encryption rounds the key is rotated right by `n % 64` bits.
proof fn lemma_encrypt_key(k: u64, n: nat)
    ensures
        encrypt_key(k, n) == rotate_right_by(k, (n % 64) as u64),
    decreases n,
{
    if n > 0 {
        lemma_encrypt_key(rotate_right(k), (n - 1) as nat);
        lemma_rotate_right_by_succ(k, ((n - 1) % 64) as u64);
    }
}

/// After `n` decryption rounds the key is rotated left by `n % 64` bits.
proof fn lemma_decrypt_key(k: u64, n: nat)
    ensures
        decrypt_key(k, n) == rotate_left_by(k, (n % 64) as u64),
    decreases n,
{
    if n > 0 {
        lemma_decrypt_key(rotate_left(k), (n - 1) as nat);
        lemma_rotate_left_by_succ(k, ((n - 1) % 64) as u64);
    }
}

/// Encryption round `n + 1` acts on the block and key left by the first `n`.
proof fn lemma_encrypt_last(b: u32, k: u64, n: nat)
    ensures
        encrypt_rounds(b, k, n + 1) == encrypt_step(encrypt_rounds(b, k, n), encrypt_key(k, n)),
        encrypt_key(k, n + 1) == rotate_right(encrypt_key(k, n)),
    decreases n,
{
    assert(encrypt_rounds(b, k, n + 1) == encrypt_rounds(encrypt_step(b, k), rotate_right(k), n));
    assert(encrypt_key(k, n + 1) == encrypt_key(rotate_right(k), n));
    if n > 0 {
        lemma_encrypt_last(encrypt_step(b, k), rotate_right(k), (n - 1) as nat);
    } else {
        assert(encrypt_rounds(encrypt_step(b, k), rotate_right(k), 0) == encrypt_step(b, k));
        assert(encrypt_key(rotate_right(k), 0) == rotate_right(k));
    }
}

/// Decryption round `n + 1` acts on the block and key left by the first `n`.
proof fn lemma_decrypt_last(b: u32, k: u64, n: nat)
    ensures
        decrypt_rounds(b, k, n + 1) == decrypt_step(decrypt_rounds(b, k, n), decrypt_key(k, n)),
        decrypt_key(k, n + 1) == rotate_left(decrypt_key(k, n)),
    decreases n,
{
    assert(decrypt_rounds(b, k, n + 1) == decrypt_rounds(decrypt_step(b, k), rotate_left(k), n));
    assert(decrypt_key(k, n + 1) == decrypt_key(rotate_left(k), n));
    if n > 0 {
        lemma_decrypt_last(decrypt_step(b, k), rotate_left(k), (n - 1) as nat);
    } else {
        assert(decrypt_rounds(decrypt_step(b, k), rotate_left(k), 0) == decrypt_step(b, k));
        assert(decrypt_key(rotate_left(k), 0) == rotate_left(k));
    }
}

/// `n` decryption rounds undo `n` encryption rounds when decryption starts
/// from the final encryption key turned 16 bits to the left.
proof fn lemma_decrypt_undoes_encrypt(b: u32, k: u64, n: nat)
    ensures
        decrypt_rounds(encrypt_rounds(b, k, n), rotate_left_by(encrypt_key(k, n), 16), n) == b,
    decreases n,
{
    if n > 0 {
        let m = (n - 1) as nat;
        let bm = encrypt_rounds(b, k, m);
        let km = encrypt_key(k, m);
        let kd = rotate_left_by(rotate_right(km), 16);
        lemma_encrypt_last(b, k, m);
        assert(bit64(kd, 15) == bit64(km, 0) && rotate_left(kd) == rotate_left_by(km, 16))
            by (bit_vector)
            requires
                kd == rotate_left_by(rotate_right(km), 16),
        ;
        lemma_step_inverse(bm, km, kd);
        lemma_decrypt_undoes_encrypt(b, k, m);
    }
}

/// `n` encryption rounds undo `n` decryption rounds when encryption starts
/// from the final decryption key turned 16 bits to the right.
proof fn lemma_encrypt_undoes_decrypt(b: u32, k: u64, n: nat)
    ensures
        encrypt_rounds(decrypt_rounds(b, k, n), rotate_right_by(decrypt_key(k, n), 16), n) == b,
    decreases n,
{
    if n > 0 {
        let m = (n - 1) as nat;
        let bm = decrypt_rounds(b, k, m);
        let km = decrypt_key(k, m);
        let ke = rotate_right_by(rotate_left(km), 16);
        lemma_decrypt_last(b, k, m);
        assert(bit64(km, 15) == bit64(ke, 0) && rotate_right(ke) == rotate_right_by(km, 16))
            by (bit_vector)
            requires
                ke == rotate_right_by(rotate_left(km), 16),
        ;
        lemma_step_inverse(bm, ke, km);
        lemma_encrypt_undoes_decrypt(b, k, m);
    }
}

/// Decryption under a key undoes encryption under the same key, and encryption
/// undoes decryption: the two are inverse permutations of the blocks.
pub proof fn lemma_round_trip(block: u32, key: u64)
    ensures
        keeloq_decrypt(keeloq_encrypt(block, key), key) == block,
        keeloq_encrypt(keeloq_decrypt(block, key), key) == block,
{
    lemma_decrypt_undoes_encrypt(block, key, ROUNDS as nat);
    lemma_encrypt_key(key, ROUNDS as nat);
    assert(rotate_left_by(rotate_right_by(key, 16), 16) == key) by (bit_vector);

    lemma_encrypt_undoes_decrypt(block, key, ROUNDS as nat);
    lemma_decrypt_key(key, ROUNDS as nat);
    assert(rotate_right_by(rotate_left_by(key, 16), 16) == key) by (bit_vector);
}

/// Encryption and decryption depend on the block and the key alone: equal
/// inputs give equal results, call after call.
pub proof fn lemma_deterministic(b1: u32, k1: u64, b2: u32, k2: u64)
    requires
        b1 == b2,
        k1 == k2,
    ensures
        keeloq_encrypt(b1, k1) == keeloq_encrypt(b2, k2),
        keeloq_decrypt(b1, k1) == keeloq_decrypt(b2, k2),
{
}

/// The low `n` bits set, for `n <= 32`.
spec fn low_mask(n: u32) -> u32 {
    if n == 0 {
        0
    } else {
        0xFFFF_FFFFu32 >> (32 - n) as u32
    }
}

/// The first `n` entries of the table are the low `n` bits of the table constant.
proof fn lemma_table_prefix(n: nat)
    requires
        n <= 32,
    ensures
        table_from_entries(n) == LeeKoq::LUT & low_mask(n as u32),
    decreases n,
{
    if n > 0 {
        let m = (n - 1) as u32;
        let x = LeeKoq::LUT;
        lemma_table_prefix(m as nat);
        assert((x & low_mask(m)) | (nlf(m) << m) == x & low_mask((m + 1) as u32)) by (bit_vector)
            requires
                x == LeeKoq::LUT,
                m < 32,
        ;
    } else {
        assert(LeeKoq::LUT & low_mask(0) == 0) by (bit_vector);
    }
}

/// The 32 entries of the non-linear function table, entry `i` placed as bit `i`,
/// make up the constant `0x3A5C742E`.
pub proof fn lemma_table_entries()
    ensures
        table_from_entries(32) == 0x3A5C742Eu32,
{
    lemma_table_prefix(32);
    assert(LeeKoq::LUT & low_mask(32) == 0x3A5C742Eu32) by (bit_vector);
}

} // verus!
