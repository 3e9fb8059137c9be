use digest_sip_hash_core::words::{load_le, rotl, store_be};

const SAMPLES: [u64; 8] = [
    0,
    1,
    0x8000_0000_0000_0000,
    0xffff_ffff_ffff_ffff,
    0x0123_4567_89ab_cdef,
    0x736f_6d65_7073_6575,
    0x0000_0000_ffff_ffff,
    0xdead_beef_0bad_f00d,
];

#[test]
fn rotl_moves_the_top_bit_to_the_bottom() {
    assert_eq!(rotl(1, 1), 2);
    assert_eq!(rotl(0x8000_0000_0000_0000, 1), 1);
    assert_eq!(rotl(0x0123_4567_89ab_cdef, 32), 0x89ab_cdef_0123_4567);
    assert_eq!(rotl(0x0123_4567_89ab_cdef, 13), 0x68ac_f135_79bd_e024);
    assert_eq!(rotl(0x0123_4567_89ab_cdef, 16), 0x4567_89ab_cdef_0123);
}

#[test]
fn rotl_by_a_multiple_of_64_changes_nothing() {
    for x in SAMPLES {
        assert_eq!(rotl(x, 0), x);
        assert_eq!(rotl(x, 64), x);
        assert_eq!(rotl(x, 128), x);
    }
}

#[test]
fn rotl_agrees_with_the_standard_rotation() {
    for x in SAMPLES {
        for n in [0u32, 1, 13, 16, 17, 21, 32, 63, 64, 65, 77, u32::MAX] {
            assert_eq!(rotl(x, n), x.rotate_left(n));
        }
    }
}

#[test]
fn load_le_reads_the_first_byte_as_the_lowest() {
    let bytes = [0x01, 0x02, 0x03, 0x04, 0x05, 0x06, 0x07, 0x08, 0x09, 0x0a];
    assert_eq!(load_le(&bytes, 0), 0x0807_0605_0403_0201);
    assert_eq!(load_le(&bytes, 1), 0x0908_0706_0504_0302);
    assert_eq!(load_le(&bytes, 2), 0x0a09_0807_0605_0403);
    assert_eq!(load_le(b"somepseu", 0), 0x7565_7370_656d_6f73);
}

#[test]
fn load_le_agrees_with_the_standard_conversion() {
    for x in SAMPLES {
        assert_eq!(load_le(&x.to_le_bytes(), 0), x);
    }
}

#[test]
fn store_be_writes_the_highest_byte_first() {
    assert_eq!(store_be(0x0102_0304_0506_0708), [1, 2, 3, 4, 5, 6, 7, 8]);
    assert_eq!(store_be(0x736f_6d65_7073_6575), *b"somepseu");
    assert_eq!(store_be(0), [0; 8]);
    for x in SAMPLES {
        assert_eq!(store_be(x), x.to_be_bytes());
    }
}
