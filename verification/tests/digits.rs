use reinterpret::digits::{from_digits, to_digits};
use reinterpret::lanes::{pack, unpack};
use reinterpret::order::ByteOrder;
use reinterpret::plain::Plain;

#[test]
fn to_digits_low_byte_first() {
    let bytes: [u8; 4] = to_digits(0x0403_0201, ByteOrder::Little);
    assert_eq!(bytes, [1, 2, 3, 4]);
}

#[test]
fn to_digits_high_byte_first() {
    let bytes: [u8; 4] = to_digits(0x0403_0201, ByteOrder::Big);
    assert_eq!(bytes, [4, 3, 2, 1]);
}

#[test]
fn to_digits_keeps_only_the_lowest() {
    let bytes: [u8; 2] = to_digits(0x0403_0201, ByteOrder::Little);
    assert_eq!(bytes, [1, 2]);
    let bytes: [u8; 2] = to_digits(0x0403_0201, ByteOrder::Big);
    assert_eq!(bytes, [2, 1]);
    let none: [u8; 0] = to_digits(77, ByteOrder::Big);
    assert_eq!(none, []);
}

#[test]
fn to_digits_pads_with_zeros() {
    let bytes: [u8; 4] = to_digits(0x0201, ByteOrder::Little);
    assert_eq!(bytes, [1, 2, 0, 0]);
    let bytes: [u8; 4] = to_digits(0x0201, ByteOrder::Big);
    assert_eq!(bytes, [0, 0, 2, 1]);
}

#[test]
fn from_digits_in_both_orders() {
    assert_eq!(from_digits(&[1u8, 2, 3, 4], ByteOrder::Little), 0x0403_0201);
    assert_eq!(from_digits(&[1u8, 2, 3, 4], ByteOrder::Big), 0x0102_0304);
    assert_eq!(from_digits(&[0xFFu8; 16], ByteOrder::Big), u128::MAX);
    assert_eq!(from_digits(&[0u8; 0], ByteOrder::Little), 0);
    assert_eq!(from_digits(&[0x80u8], ByteOrder::Little), 0x80);
}

#[test]
fn digits_agree_with_std() {
    let mut x: u128 = 0x0123_4567_89AB_CDEF_FEDC_BA98_7654_3210;
    for _ in 0..100 {
        x = x.wrapping_mul(0x9E37_79B9_7F4A_7C15_F39C_C060_5CED_C835).rotate_left(41) ^ 0x5555;
        let little: [u8; 16] = to_digits(x, ByteOrder::Little);
        let big: [u8; 16] = to_digits(x, ByteOrder::Big);
        assert_eq!(little, x.to_le_bytes());
        assert_eq!(big, x.to_be_bytes());
        assert_eq!(from_digits(&little, ByteOrder::Little), x);
        assert_eq!(from_digits(&big, ByteOrder::Big), x);
        let low: [u8; 8] = to_digits(x, ByteOrder::Big);
        assert_eq!(low, (x as u64).to_be_bytes());
    }
}

#[test]
fn images_of_integers_agree_with_std() {
    assert_eq!(0xBEEFu16.to_bytes(ByteOrder::Little), 0xBEEFu16.to_le_bytes());
    assert_eq!(0xBEEFu16.to_bytes(ByteOrder::Big), 0xBEEFu16.to_be_bytes());
    assert_eq!(0xDEAD_BEEFu32.to_bytes(ByteOrder::Little), 0xDEAD_BEEFu32.to_le_bytes());
    assert_eq!(0xDEAD_BEEFu32.to_bytes(ByteOrder::Big), 0xDEAD_BEEFu32.to_be_bytes());
    let x: u64 = 0x0123_4567_89AB_CDEF;
    assert_eq!(x.to_bytes(ByteOrder::Little), x.to_le_bytes());
    assert_eq!(x.to_bytes(ByteOrder::Big), x.to_be_bytes());
    assert_eq!(u64::from_bytes(x.to_be_bytes(), ByteOrder::Big), x);
    assert_eq!(u64::from_bytes(x.to_be_bytes(), ByteOrder::Little), x.swap_bytes());
    let y: u128 = 0x0011_2233_4455_6677_8899_AABB_CCDD_EEFF;
    assert_eq!(y.to_bytes(ByteOrder::Little), y.to_le_bytes());
    assert_eq!(u128::from_bytes(y.to_le_bytes(), ByteOrder::Little), y);
    assert_eq!(u32::from_bytes([1, 0, 0, 0], ByteOrder::Little), 1);
    assert_eq!(u16::from_bytes([1, 0], ByteOrder::Big), 0x0100);
}

#[test]
fn bytes_are_their_own_image() {
    let bytes: [u8; 4] = [9, 8, 7, 6];
    assert_eq!(bytes.to_bytes(ByteOrder::Little), bytes);
    assert_eq!(bytes.to_bytes(ByteOrder::Big), bytes);
    assert_eq!(<[u8; 4]>::from_bytes(bytes, ByteOrder::Big), bytes);
}

#[test]
fn pack_writes_the_items_one_after_the_other() {
    let items: [u16; 4] = [0x0102, 0x0304, 0x0506, 0x0708];
    let little: [u8; 8] = pack::<u16, 2, 4, 8>(&items, ByteOrder::Little);
    let big: [u8; 8] = pack::<u16, 2, 4, 8>(&items, ByteOrder::Big);
    assert_eq!(little, [2, 1, 4, 3, 6, 5, 8, 7]);
    assert_eq!(big, [1, 2, 3, 4, 5, 6, 7, 8]);
    assert_eq!(items.to_bytes(ByteOrder::Little), little);
    assert_eq!(items.to_bytes(ByteOrder::Big), big);
}

#[test]
fn unpack_reads_the_items_one_after_the_other() {
    let bytes: [u8; 16] = [0, 1, 2, 3, 4, 5, 6, 7, 8, 9, 10, 11, 12, 13, 14, 15];
    let little: [u32; 4] = unpack::<u32, 4, 4, 16>(&bytes, ByteOrder::Little);
    let big: [u32; 4] = unpack::<u32, 4, 4, 16>(&bytes, ByteOrder::Big);
    assert_eq!(little, [0x0302_0100, 0x0706_0504, 0x0B0A_0908, 0x0F0E_0D0C]);
    assert_eq!(big, [0x0001_0203, 0x0405_0607, 0x0809_0A0B, 0x0C0D_0E0F]);
    assert_eq!(<[u32; 4]>::from_bytes(bytes, ByteOrder::Big), big);
    let halves: [u64; 2] = unpack::<u64, 8, 2, 16>(&bytes, ByteOrder::Big);
    assert_eq!(halves, [0x0001_0203_0405_0607, 0x0809_0A0B_0C0D_0E0F]);
    assert_eq!(pack::<u64, 8, 2, 16>(&halves, ByteOrder::Big), bytes);
}

#[test]
fn pack_and_unpack_undo_each_other() {
    let items: [u16; 8] = [1, 0x8000, 0xFFFF, 0, 0x1234, 0xABCD, 7, 0x0100];
    for order in [ByteOrder::Little, ByteOrder::Big] {
        let bytes: [u8; 16] = pack::<u16, 2, 8, 16>(&items, order);
        let back: [u16; 8] = unpack::<u16, 2, 8, 16>(&bytes, order);
        assert_eq!(back, items);
    }
}
