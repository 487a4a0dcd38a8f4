use rustfrc::rotl;
use rustfrc::u32_from_64;
use rustfrc::u64_from_2_32;
use rustfrc::vec_u32_from_64;
use rustfrc::vec_u64_from_2_32;

#[test]
fn test_u32_from_64_split() {
    let r = u32_from_64(0x0123_4567_89AB_CDEF);
    assert_eq!(r, [0x0123_4567u32, 0x89AB_CDEFu32]);
    let z = u32_from_64(0);
    assert_eq!(z, [0, 0]);
    let m = u32_from_64(u64::MAX);
    assert_eq!(m, [u32::MAX, u32::MAX]);
}

#[test]
fn test_u64_from_2_32_join() {
    assert_eq!(u64_from_2_32(&[0x0123_4567, 0x89AB_CDEF]), 0x0123_4567_89AB_CDEF);
    assert_eq!(u64_from_2_32(&[0, 5]), 5);
    assert_eq!(u64_from_2_32(&[1, 0]), 1u64 << 32);
}

#[test]
fn test_word_round_trip() {
    for &u in &[0u64, 1, 42, 1 << 33, u64::MAX, 0xDEAD_BEEF_CAFE_F00D] {
        assert_eq!(u64_from_2_32(&u32_from_64(u)), u);
    }
    for &pair in &[[0u32, 0u32], [7, 9], [u32::MAX, 3]] {
        assert_eq!(u32_from_64(u64_from_2_32(&pair)), pair);
    }
}

#[test]
fn test_vec_u32_from_64_values() {
    let out = vec_u32_from_64(vec![0x0123_4567_89AB_CDEF, 0x1111_2222_3333_4444]);
    assert_eq!(out, vec![0x0123_4567, 0x89AB_CDEF, 0x1111_2222, 0x3333_4444]);
    let empty = vec_u32_from_64(Vec::new());
    assert!(empty.is_empty());
}

#[test]
fn test_vec_u64_from_2_32_values() {
    let out = vec_u64_from_2_32(vec![0x0123_4567, 0x89AB_CDEF, 0x1111_2222, 0x3333_4444]);
    assert_eq!(out, vec![0x0123_4567_89AB_CDEF, 0x1111_2222_3333_4444]);
    let empty = vec_u64_from_2_32(Vec::new());
    assert!(empty.is_empty());
}

#[test]
fn test_vec_word_round_trip() {
    let original = vec![3u64, 1 << 40, u64::MAX, 0];
    let down = vec_u32_from_64(original.clone());
    let back = vec_u64_from_2_32(down);
    assert_eq!(back, original);
}

#[test]
fn test_rotl_values() {
    assert_eq!(rotl(1, 23), 1u64 << 23);
    assert_eq!(rotl(0x8000_0000_0000_0000, 1), 1);
    let x = 0xDEAD_BEEF_CAFE_F00Du64;
    assert_eq!(rotl(x, 45), (x << 45) | (x >> 19));
    assert_eq!(rotl(x, 23), (x << 23) | (x >> 41));
}
