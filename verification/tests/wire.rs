use light_compressed_claim::address::Address;
use light_compressed_claim::wire::{
    put_bool, put_bytes, put_option_u64, put_u16, put_u32, put_u64, put_u8, read_array, read_u16,
    read_u32, read_u64,
};

#[test]
fn integers_are_written_low_byte_first() {
    let mut out = vec![9u8];
    put_u8(&mut out, 1);
    put_u16(&mut out, 0x0203);
    put_u32(&mut out, 0x04050607);
    put_u64(&mut out, 0x08090a0b0c0d0e0f);
    assert_eq!(
        out,
        vec![9, 1, 3, 2, 7, 6, 5, 4, 0x0f, 0x0e, 0x0d, 0x0c, 0x0b, 0x0a, 0x09, 0x08]
    );
}

#[test]
fn flags_and_options_are_written_behind_what_is_there() {
    let mut out = Vec::new();
    put_bool(&mut out, true);
    put_bool(&mut out, false);
    put_option_u64(&mut out, None);
    put_option_u64(&mut out, Some(258));
    put_bytes(&mut out, &[7, 8]);
    put_bytes(&mut out, &[]);
    assert_eq!(out, vec![1, 0, 0, 1, 2, 1, 0, 0, 0, 0, 0, 0, 7, 8]);
}

#[test]
fn integers_are_read_where_they_start() {
    let data = [0xff, 1, 2, 3, 4, 5, 6, 7, 8, 9];
    assert_eq!(read_u16(&data, 1), 0x0201);
    assert_eq!(read_u32(&data, 1), 0x04030201);
    assert_eq!(read_u64(&data, 1), 0x0807060504030201);
    assert_eq!(read_u64(&data, 2), 0x0908070605040302);
    assert_eq!(read_array::<3>(&data, 7), [7, 8, 9]);
    assert_eq!(read_array::<0>(&data, 10), []);
}

#[test]
fn addresses_compare_by_their_bytes() {
    let mut bytes = [5u8; 32];
    let a = Address::new_from_array(bytes);
    assert_eq!(a, Address::new_from_array([5u8; 32]));
    assert_eq!(a.to_bytes(), bytes);
    assert_eq!(a.to_vec(), vec![5u8; 32]);
    bytes[31] = 6;
    assert_ne!(a, Address::new_from_array(bytes));
    bytes[31] = 5;
    bytes[0] = 4;
    assert_ne!(a, Address::new_from_array(bytes));
    assert_eq!(light_compressed_claim::id(), light_compressed_claim::address::id());
}
