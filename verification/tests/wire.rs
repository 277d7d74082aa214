use sctp::wire::{get_i32, get_u16, get_u32, push_uint, put_i32, put_u16, put_u32, put_u8, read_uint, ByteOrder};

#[test]
fn integers_roundtrip_in_both_orders() {
    for order in [ByteOrder::Little, ByteOrder::Big] {
        let mut out = Vec::new();
        put_u8(&mut out, 0xab);
        put_u16(order, &mut out, 0xbeef);
        put_u32(order, &mut out, 0xdead_beef);
        put_i32(order, &mut out, i32::MIN);
        put_i32(order, &mut out, -7);
        assert_eq!(out.len(), 15);
        assert_eq!(out[0], 0xab);
        assert_eq!(get_u16(order, &out, 1), 0xbeef);
        assert_eq!(get_u32(order, &out, 3), 0xdead_beef);
        assert_eq!(get_i32(order, &out, 7), i32::MIN);
        assert_eq!(get_i32(order, &out, 11), -7);
    }
}

#[test]
fn byte_orders_match_std() {
    let mut le = Vec::new();
    put_u32(ByteOrder::Little, &mut le, 0x0102_0304);
    assert_eq!(le, 0x0102_0304u32.to_le_bytes().to_vec());
    let mut be = Vec::new();
    put_u32(ByteOrder::Big, &mut be, 0x0102_0304);
    assert_eq!(be, 0x0102_0304u32.to_be_bytes().to_vec());
}

#[test]
fn eight_byte_words() {
    let x: u64 = 0x0102_0304_0506_0708;
    for order in [ByteOrder::Little, ByteOrder::Big] {
        let mut out = vec![0xff];
        push_uint(order, &mut out, x, 8);
        assert_eq!(read_uint(order, &out, 1, 8), x);
    }
    let mut out = Vec::new();
    push_uint(ByteOrder::Little, &mut out, u64::MAX, 8);
    assert_eq!(out, vec![0xff; 8]);
    assert_eq!(read_uint(ByteOrder::Big, &out, 0, 8), u64::MAX);
    let mut cut = Vec::new();
    push_uint(ByteOrder::Big, &mut cut, 0x1_0203, 2);
    assert_eq!(cut, vec![0x02, 0x03]);
    assert_eq!(read_uint(ByteOrder::Little, &[], 0, 0), 0);
}
