use const_writer::encode::{be_byte_vec, le_byte_vec};

#[test]
fn le_bytes_formula() {
    assert_eq!(le_byte_vec(0x0203, 2), vec![0x03, 0x02]);
    assert_eq!(le_byte_vec(0x04050607, 4), vec![0x07, 0x06, 0x05, 0x04]);
    assert_eq!(le_byte_vec(0, 0), Vec::<u8>::new());
    assert_eq!(le_byte_vec(0xFF, 1), vec![0xFF]);
}

#[test]
fn be_bytes_formula() {
    assert_eq!(be_byte_vec(0x0203, 2), vec![0x02, 0x03]);
    assert_eq!(be_byte_vec(0x04050607, 4), vec![0x04, 0x05, 0x06, 0x07]);
    assert_eq!(be_byte_vec(1, 8), vec![0, 0, 0, 0, 0, 0, 0, 1]);
}
