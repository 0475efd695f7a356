use leekoq::LeeKoq;

#[test]
fn encrypt() {
    assert_eq!(LeeKoq::encrypt(0xf741e2db, 0x5cec6701b79fd949), 0xe44f4cdf);
    assert_eq!(LeeKoq::encrypt(0x0ca69b92, 0x5cec6701b79fd949), 0xa6ac0ea2);
    assert_eq!(LeeKoq::encrypt(0x12345678, 0xCAFED00D), 0xD0FB287C);
}

#[test]
fn decrypt() {
    assert_eq!(LeeKoq::decrypt(0xe44f4cdf, 0x5cec6701b79fd949), 0xf741e2db);
    assert_eq!(LeeKoq::decrypt(0xa6ac0ea2, 0x5cec6701b79fd949), 0x0ca69b92);
    assert_eq!(LeeKoq::decrypt(0xD0FB287C, 0xCAFED00D), 0x12345678);
}

#[test]
fn round_trip_all_zero() {
    let c = LeeKoq::encrypt(0, 0);
    assert_eq!(LeeKoq::decrypt(c, 0), 0);
    let p = LeeKoq::decrypt(0, 0);
    assert_eq!(LeeKoq::encrypt(p, 0), 0);
}

#[test]
fn round_trip_all_ones() {
    let block: u32 = 0xFFFF_FFFF;
    let key: u64 = 0xFFFF_FFFF_FFFF_FFFF;
    let c = LeeKoq::encrypt(block, key);
    assert_eq!(LeeKoq::decrypt(c, key), block);
    let p = LeeKoq::decrypt(block, key);
    assert_eq!(LeeKoq::encrypt(p, key), block);
}

#[test]
fn round_trip_mixed_values() {
    let keys: [u64; 4] = [0x5cec6701b79fd949, 0xCAFED00D, 1, 0x8000_0000_0000_0000];
    let blocks: [u32; 5] = [0x12345678, 0xDEADBEEF, 1, 0x8000_0000, 0x0F0F_0F0F];
    for &key in keys.iter() {
        for &block in blocks.iter() {
            assert_eq!(LeeKoq::decrypt(LeeKoq::encrypt(block, key), key), block);
            assert_eq!(LeeKoq::encrypt(LeeKoq::decrypt(block, key), key), block);
        }
    }
}

#[test]
fn encryption_changes_the_block() {
    assert_ne!(LeeKoq::encrypt(0x12345678, 0xCAFED00D), 0x12345678);
    assert_ne!(LeeKoq::decrypt(0xD0FB287C, 0xCAFED00D), 0xD0FB287C);
}

#[test]
fn repeated_calls_agree() {
    let first = LeeKoq::encrypt(0xf741e2db, 0x5cec6701b79fd949);
    let second = LeeKoq::encrypt(0xf741e2db, 0x5cec6701b79fd949);
    assert_eq!(first, second);
    let first = LeeKoq::decrypt(0xe44f4cdf, 0x5cec6701b79fd949);
    let second = LeeKoq::decrypt(0xe44f4cdf, 0x5cec6701b79fd949);
    assert_eq!(first, second);
}

#[test]
fn table_entries_make_up_the_constant() {
    let mut rebuilt: u32 = 0;
    for i in 0..32u32 {
        let entry = (LeeKoq::LUT >> i) & 1;
        rebuilt |= entry << i;
    }
    assert_eq!(rebuilt, 0x3A5C742E);
    assert_eq!(LeeKoq::LUT, 0x3A5C742E);
    assert_eq!(LeeKoq::LUT & 1, 0);
    assert_eq!((LeeKoq::LUT >> 1) & 1, 1);
    assert_eq!((LeeKoq::LUT >> 31) & 1, 0);
}
