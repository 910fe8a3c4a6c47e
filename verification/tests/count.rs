use typscord::count::{read_usize, write_usize, COUNT_WIDTH};

#[test]
fn count_is_eight_bytes_big_endian() {
    let mut out = vec![0xAA];
    write_usize(&mut out, 0x0102_0304_0506_0708);
    assert_eq!(out, vec![0xAA, 1, 2, 3, 4, 5, 6, 7, 8]);
    assert_eq!(COUNT_WIDTH, 8);
}

#[test]
fn count_is_read_at_a_position() {
    let bytes = [0xAA, 1, 2, 3, 4, 5, 6, 7, 8, 0xBB];
    assert_eq!(read_usize(&bytes, 1), Some(0x0102_0304_0506_0708));
    assert_eq!(read_usize(&bytes, 2), Some(0x0203_0405_0607_08BB));
}

#[test]
fn count_needs_eight_bytes() {
    let bytes = [0u8; 9];
    assert_eq!(read_usize(&bytes, 1), Some(0));
    assert_eq!(read_usize(&bytes, 2), None);
    assert_eq!(read_usize(&bytes, 9), None);
    assert_eq!(read_usize(&bytes, 10), None);
    assert_eq!(read_usize(&bytes, usize::MAX), None);
}

#[test]
fn counts_read_back() {
    for n in [0u64, 1, 25, 255, 256, 65_535, 1 << 32, u64::MAX - 1, u64::MAX] {
        let mut out = Vec::new();
        write_usize(&mut out, n);
        assert_eq!(out, n.to_be_bytes());
        assert_eq!(read_usize(&out, 0), Some(n));
    }
}
