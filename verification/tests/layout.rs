use record_ledger::address::Address;
use record_ledger::layout::{
    get_address, get_raw, get_u32, get_u64, put_address, put_bytes, put_raw, put_u32, put_u64,
};

#[test]
fn put_u32_is_little_endian() {
    let mut out = vec![9u8];
    put_u32(&mut out, 0x0102_0304);
    assert_eq!(out, vec![9, 4, 3, 2, 1]);
    let mut out = Vec::new();
    put_u32(&mut out, u32::MAX);
    assert_eq!(out, vec![255, 255, 255, 255]);
    let mut out = Vec::new();
    put_u32(&mut out, 500);
    assert_eq!(out, vec![244, 1, 0, 0]);
}

#[test]
fn put_u64_is_little_endian() {
    let mut out = Vec::new();
    put_u64(&mut out, 0x0102_0304_0506_0708);
    assert_eq!(out, vec![8, 7, 6, 5, 4, 3, 2, 1]);
    let mut out = Vec::new();
    put_u64(&mut out, u64::MAX);
    assert_eq!(out, vec![255; 8]);
    let mut out = Vec::new();
    put_u64(&mut out, 1);
    assert_eq!(out, 1u64.to_le_bytes().to_vec());
}

#[test]
fn get_u32_reads_at_an_offset() {
    let data = [7u8, 4, 3, 2, 1, 7];
    assert_eq!(get_u32(&data, 1), 0x0102_0304);
    assert_eq!(get_u32(&[255, 255, 255, 255], 0), u32::MAX);
}

#[test]
fn get_u64_reads_at_an_offset() {
    let data = [7u8, 8, 7, 6, 5, 4, 3, 2, 1];
    assert_eq!(get_u64(&data, 1), 0x0102_0304_0506_0708);
    assert_eq!(get_u64(&[255; 8], 0), u64::MAX);
}

#[test]
fn integers_round_trip() {
    for x in [0u64, 1, 255, 256, 65_535, 65_536, 0xffff_ffff, 0x1_0000_0000, u64::MAX - 1] {
        let mut out = Vec::new();
        put_u64(&mut out, x);
        assert_eq!(get_u64(&out, 0), x);
    }
    for x in [0u32, 1, 255, 256, 65_535, 65_536, 0x00ff_ffff, 0x0100_0000, u32::MAX - 1] {
        let mut out = Vec::new();
        put_u32(&mut out, x);
        assert_eq!(get_u32(&out, 0), x);
    }
}

#[test]
fn put_bytes_writes_length_then_bytes() {
    let mut out = vec![1u8];
    put_bytes(&mut out, b"hi");
    assert_eq!(out, vec![1, 2, 0, 0, 0, 104, 105]);
    let mut out = Vec::new();
    put_bytes(&mut out, b"");
    assert_eq!(out, vec![0, 0, 0, 0]);
}

#[test]
fn put_raw_appends() {
    let mut out = vec![1u8];
    put_raw(&mut out, &[2, 3]);
    assert_eq!(out, vec![1, 2, 3]);
}

#[test]
fn addresses_are_written_and_read_raw() {
    let mut bytes = [0u8; 32];
    for i in 0..32 {
        bytes[i] = 100 + i as u8;
    }
    let mut out = vec![0u8, 0];
    put_address(&mut out, &Address::new(bytes));
    assert_eq!(out.len(), 34);
    assert_eq!(&out[2..], &bytes[..]);
    assert_eq!(get_address(&out, 2), Address::new(bytes));
}

#[test]
fn get_raw_copies_a_range() {
    let data = [1u8, 2, 3, 4, 5];
    assert_eq!(get_raw(&data, 1, 4), vec![2, 3, 4]);
    assert_eq!(get_raw(&data, 5, 5), Vec::<u8>::new());
    assert_eq!(get_raw(&data, 0, 5), data.to_vec());
}
