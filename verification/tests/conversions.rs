use jazzlight::jazz::builtins::{int_from_bytes, int_to_bytes};
use jazzlight::ngc::align_usize;

#[test]
fn int_to_bytes_is_little_endian() {
    assert_eq!(int_to_bytes(0x0102, 2), vec![2, 1]);
    assert_eq!(int_to_bytes(-1, 4), vec![255, 255, 255, 255]);
    assert_eq!(int_to_bytes(0x1234_5678_9abc_def0, 8), vec![0xf0, 0xde, 0xbc, 0x9a, 0x78, 0x56, 0x34, 0x12]);
    assert_eq!(int_to_bytes(300, 1), vec![44]);
}

#[test]
fn int_from_bytes_sign_extends() {
    assert_eq!(int_from_bytes(&vec![0xff, 0xff]), Some(-1));
    assert_eq!(int_from_bytes(&vec![1, 2, 3, 0x80]), Some(0x8003_0201u32 as i32 as i64));
    assert_eq!(int_from_bytes(&vec![7]), Some(7));
    assert_eq!(int_from_bytes(&vec![-3]), Some(-3));
    assert_eq!(int_from_bytes(&vec![1, 2, 3]), None);
    assert_eq!(int_from_bytes(&vec![]), None);
    assert_eq!(int_from_bytes(&vec![256 + 5, 0]), Some(5));
}

#[test]
fn int_bytes_round_trip_at_each_width() {
    for x in [0i64, 1, -1, 127, 128, -129, 40000, -40000, 1 << 40, i64::MIN, i64::MAX] {
        assert_eq!(int_from_bytes(&int_to_bytes(x, 8)), Some(x));
        assert_eq!(int_from_bytes(&int_to_bytes(x, 4)), Some(x as i32 as i64));
        assert_eq!(int_from_bytes(&int_to_bytes(x, 2)), Some(x as i16 as i64));
        assert_eq!(int_from_bytes(&int_to_bytes(x, 1)), Some(x as u8 as i64));
    }
}

#[test]
fn align_usize_rounds_up() {
    assert_eq!(align_usize(13, 8), 16);
    assert_eq!(align_usize(16, 8), 16);
    assert_eq!(align_usize(0, 8), 0);
    assert_eq!(align_usize(5, 0), 5);
    assert_eq!(align_usize(7, 3), 9);
}
