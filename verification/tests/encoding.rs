use ai_sentiment_nft::encoding::{
    read_bytes, read_i64_le, read_u64_le, write_bytes, write_i64_le, write_u64_le,
};

#[test]
fn u64_is_written_low_byte_first() {
    let mut buf: Vec<u8> = vec![0xaa; 10];
    write_u64_le(&mut buf, 1, 0x0102_0304_0506_0708);
    assert_eq!(buf, vec![0xaa, 8, 7, 6, 5, 4, 3, 2, 1, 0xaa]);
}

#[test]
fn u64_is_read_low_byte_first() {
    let buf: Vec<u8> = vec![0xff, 0x10, 0x32, 0x54, 0x76, 0x98, 0xba, 0xdc, 0xfe, 0xff];
    assert_eq!(read_u64_le(&buf, 1), 0xfedc_ba98_7654_3210);
}

#[test]
fn u64_extremes_round_trip() {
    let values: [u64; 6] = [0, 1, 255, 256, 0x8000_0000_0000_0000, u64::MAX];
    for x in values {
        let mut buf: Vec<u8> = vec![0; 8];
        write_u64_le(&mut buf, 0, x);
        assert_eq!(buf, x.to_le_bytes().to_vec());
        assert_eq!(read_u64_le(&buf, 0), x);
    }
}

#[test]
fn i64_minus_one_is_all_ones() {
    let mut buf: Vec<u8> = vec![0; 8];
    write_i64_le(&mut buf, 0, -1);
    assert_eq!(buf, vec![0xff; 8]);
    assert_eq!(read_i64_le(&buf, 0), -1);
}

#[test]
fn i64_extremes_round_trip() {
    let values: [i64; 7] = [i64::MIN, i64::MIN + 1, -256, -1, 0, 100, i64::MAX];
    for x in values {
        let mut buf: Vec<u8> = vec![0; 8];
        write_i64_le(&mut buf, 0, x);
        assert_eq!(buf, x.to_le_bytes().to_vec());
        assert_eq!(read_i64_le(&buf, 0), x);
    }
}

#[test]
fn i64_min_has_only_the_top_bit() {
    let mut buf: Vec<u8> = vec![0x55; 8];
    write_i64_le(&mut buf, 0, i64::MIN);
    assert_eq!(buf, vec![0, 0, 0, 0, 0, 0, 0, 0x80]);
}

#[test]
fn bytes_are_copied_out_of_the_middle() {
    let buf: Vec<u8> = (0u8..20).collect();
    let out: [u8; 4] = read_bytes::<4>(&buf, 3);
    assert_eq!(out, [3, 4, 5, 6]);
    let all: [u8; 20] = read_bytes::<20>(&buf, 0);
    assert_eq!(all.to_vec(), buf);
    let none: [u8; 0] = read_bytes::<0>(&buf, 20);
    assert_eq!(none.len(), 0);
}

#[test]
fn bytes_are_written_into_the_middle() {
    let mut buf: Vec<u8> = vec![9; 6];
    write_bytes(&mut buf, 2, &[1, 2, 3]);
    assert_eq!(buf, vec![9, 9, 1, 2, 3, 9]);
    write_bytes(&mut buf, 6, &[]);
    assert_eq!(buf, vec![9, 9, 1, 2, 3, 9]);
}
