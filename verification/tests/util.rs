use sha_hash::util::{rotl32, rotl64, rotr32, rotr64, shr32, shr64};

#[test]
fn rotr32_moves_low_bits_to_the_top() {
    assert_eq!(rotr32(8, 0x12345678), 0x78123456);
    assert_eq!(rotr32(24, 0x12345678), 0x34567812);
    assert_eq!(rotr32(1, 1), 0x80000000);
    assert_eq!(rotr32(31, 1), 2);
    assert_eq!(rotr32(16, 0xffff0000), 0x0000ffff);
}

#[test]
fn rotl32_moves_high_bits_to_the_bottom() {
    assert_eq!(rotl32(8, 0x12345678), 0x34567812);
    assert_eq!(rotl32(24, 0x12345678), 0x78123456);
    assert_eq!(rotl32(1, 0x80000000), 1);
    assert_eq!(rotl32(31, 2), 1);
}

#[test]
fn shr32_fills_with_zeros() {
    assert_eq!(shr32(4, 0x12345678), 0x01234567);
    assert_eq!(shr32(0, 0x12345678), 0x12345678);
    assert_eq!(shr32(31, 0x80000000), 1);
    assert_eq!(shr32(31, 0x7fffffff), 0);
    assert_eq!(shr32(1, 0xffffffff), 0x7fffffff);
}

#[test]
fn rotr64_moves_low_bits_to_the_top() {
    assert_eq!(rotr64(8, 0x0123456789abcdef), 0xef0123456789abcd);
    assert_eq!(rotr64(56, 0x0123456789abcdef), 0x23456789abcdef01);
    assert_eq!(rotr64(1, 1), 0x8000000000000000);
    assert_eq!(rotr64(63, 1), 2);
    assert_eq!(rotr64(32, 0xffffffff00000000), 0x00000000ffffffff);
}

#[test]
fn rotl64_moves_high_bits_to_the_bottom() {
    assert_eq!(rotl64(8, 0x0123456789abcdef), 0x23456789abcdef01);
    assert_eq!(rotl64(56, 0x0123456789abcdef), 0xef0123456789abcd);
    assert_eq!(rotl64(1, 0x8000000000000000), 1);
    assert_eq!(rotl64(63, 2), 1);
}

#[test]
fn shr64_fills_with_zeros() {
    assert_eq!(shr64(4, 0x0123456789abcdef), 0x00123456789abcde);
    assert_eq!(shr64(0, 0x0123456789abcdef), 0x0123456789abcdef);
    assert_eq!(shr64(63, 0x8000000000000000), 1);
    assert_eq!(shr64(63, 0x7fffffffffffffff), 0);
}

#[test]
fn rotations_agree_with_the_standard_library() {
    let words32 = [0u32, 1, 0x12345678, 0x80000000, 0xdeadbeef, u32::MAX];
    for x in words32 {
        for n in 1..32u32 {
            assert_eq!(rotr32(n, x), x.rotate_right(n));
            assert_eq!(rotl32(n, x), x.rotate_left(n));
        }
    }
    let words64 = [0u64, 1, 0x0123456789abcdef, 1 << 63, 0xdeadbeefcafef00d, u64::MAX];
    for x in words64 {
        for n in 1..64u64 {
            assert_eq!(rotr64(n, x), x.rotate_right(n as u32));
            assert_eq!(rotl64(n, x), x.rotate_left(n as u32));
        }
    }
}

#[test]
fn a_rotation_undoes_the_opposite_rotation() {
    for n in 1..32u32 {
        assert_eq!(rotl32(n, rotr32(n, 0x12345678)), 0x12345678);
        assert_eq!(rotr32(n, rotl32(n, 0x12345678)), 0x12345678);
        assert_eq!(rotr32(n, 0x12345678), rotl32(32 - n, 0x12345678));
    }
    for n in 1..64u64 {
        assert_eq!(rotl64(n, rotr64(n, 0x0123456789abcdef)), 0x0123456789abcdef);
        assert_eq!(rotr64(n, rotl64(n, 0x0123456789abcdef)), 0x0123456789abcdef);
        assert_eq!(rotr64(n, 0x0123456789abcdef), rotl64(64 - n, 0x0123456789abcdef));
    }
}
