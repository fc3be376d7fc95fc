use const_writer::slice::SliceWriterAdapter;
use const_writer::vec::VecWriterAdapter;
use const_writer::{ConstWrite, ConstWriter, ConstWriterAdapter};

/// A routine that writes a ten-byte record through any adapter.
fn write_record<T: ConstWriterAdapter>(writer: ConstWriter<T>) -> ConstWriter<T> {
    writer
        .write_u16_le(34)
        .write_u16_le(2)
        .write_u16_le(3)
        .write_u16_le(4)
        .write_u16_le(5)
}

#[test]
fn writer_passed_into_function() {
    let buff: Vec<u8> = vec![0u8; 16];
    let w: ConstWriter<SliceWriterAdapter> = buff.const_writer(10);
    let w = write_record(w);
    assert_eq!(w.remaining(), 0);
    let buff: Vec<u8> = w.release();
    assert_eq!(&buff, &[34, 0, 2, 0, 3, 0, 4, 0, 5, 0, 0, 0, 0, 0, 0, 0]);
}

#[test]
fn slice_write() {
    let buff: Vec<u8> = vec![0u8; 10];
    let w: ConstWriter<SliceWriterAdapter> = buff.const_writer(10);
    let w = w.write_u32_le(34).write_u16_le(3).write_u16_le(4).write_u16_le(5);
    let buff: Vec<u8> = w.release();
    assert_eq!(buff, [34, 0, 0, 0, 3, 0, 4, 0, 5, 0]);
}

#[test]
fn vec_write_le() {
    let vec: Vec<u8> = vec![];
    let w: ConstWriter<VecWriterAdapter> = vec.const_writer(31);
    let w = w
        .write_u8_le(0x01)
        .write_u16_le(0x0203)
        .write_u32_le(0x04050607)
        .write_u64_le(0x08090A0B0C0D0E0F)
        .write_u128_le(0x101112131415161718191A1B1C1D1E1F);
    let vec: Vec<u8> = w.release();
    assert_eq!(
        &vec,
        &[
            0x01, 0x03, 0x02, 0x07, 0x06, 0x05, 0x04, 0x0F, 0x0E, 0x0D, 0x0C, 0x0B, 0x0A, 0x09,
            0x08, 0x1F, 0x1E, 0x1D, 0x1C, 0x1B, 0x1A, 0x19, 0x18, 0x17, 0x16, 0x15, 0x14, 0x13,
            0x12, 0x11, 0x10,
        ]
    );
}

#[test]
fn vec_write_be() {
    let vec: Vec<u8> = vec![];
    let w: ConstWriter<VecWriterAdapter> = vec.const_writer(31);
    let w = w
        .write_u8_be(0x01)
        .write_u16_be(0x0203)
        .write_u32_be(0x04050607)
        .write_u64_be(0x08090A0B0C0D0E0F)
        .write_u128_be(0x101112131415161718191A1B1C1D1E1F);
    let vec: Vec<u8> = w.release();
    assert_eq!(
        &vec,
        &[
            0x01, 0x02, 0x03, 0x04, 0x05, 0x06, 0x07, 0x08, 0x09, 0x0A, 0x0B, 0x0C, 0x0D, 0x0E,
            0x0F, 0x10, 0x11, 0x12, 0x13, 0x14, 0x15, 0x16, 0x17, 0x18, 0x19, 0x1A, 0x1B, 0x1C,
            0x1D, 0x1E, 0x1F,
        ]
    );
}

#[test]
fn vec_write_grow() {
    let vec: Vec<u8> = vec![];
    let w: ConstWriter<VecWriterAdapter> = vec.const_writer(5);
    let w = w
        .write_u32_le(123)
        .write_u8_le(1)
        .convert(10)
        .write_u32_le(124)
        .write_u8_le(24);
    let _ = w.remaining();
    let vec: Vec<u8> = w.release();
    assert_eq!(&vec, &[123, 0, 0, 0, 1, 124, 0, 0, 0, 24]);
}

#[test]
fn round_trip_content() {
    let vec: Vec<u8> = vec![];
    let w: ConstWriter<VecWriterAdapter> = vec.const_writer(6);
    let w = w.write_u32_le(0x04050607).write_u16_le(0x0203);
    let vec: Vec<u8> = w.release();
    assert_eq!(&vec, &[0x07, 0x06, 0x05, 0x04, 0x03, 0x02]);
}

#[test]
fn capacity_conservation() {
    let vec: Vec<u8> = vec![];
    let w: ConstWriter<VecWriterAdapter> = vec.const_writer(20);
    assert_eq!(w.remaining(), 20);
    let w = w.write_u64_be(1).write_u16_le(2).write_u8_le(3);
    assert_eq!(w.remaining(), 20 - 8 - 2 - 1);
    // A pure relabeling leaves the byte content untouched.
    let before = w.remaining();
    let w = w.convert(4);
    assert!(w.remaining() <= before);
    assert_eq!(w.remaining(), 4);
    let vec: Vec<u8> = w.release();
    assert_eq!(&vec, &[0, 0, 0, 0, 0, 0, 0, 1, 2, 0, 3]);
}

#[test]
fn exact_commit_on_release() {
    let vec: Vec<u8> = vec![];
    let w: ConstWriter<VecWriterAdapter> = vec.const_writer(5);
    let w = w.write_u32_le(0xDEADBEEF).write_u8_le(0x7F);
    let vec: Vec<u8> = w.release();
    // Exactly the five written bytes are visible, however much was reserved.
    assert_eq!(vec.len(), 5);
    assert_eq!(&vec, &[0xEF, 0xBE, 0xAD, 0xDE, 0x7F]);
}

#[test]
fn exact_commit_after_partial_write() {
    let vec: Vec<u8> = vec![5, 6];
    let w: ConstWriter<VecWriterAdapter> = vec.const_writer(8);
    let w = w.write_u16_be(0x0102);
    let vec: Vec<u8> = w.release();
    // Only the bytes actually written become visible, after the old content.
    assert_eq!(&vec, &[5, 6, 1, 2]);
}

#[test]
fn bounded_store_rejection() {
    let region: Vec<u8> = vec![9, 9, 9];
    match ConstWrite::<SliceWriterAdapter>::try_const_writer(region, 4) {
        Ok(_) => panic!("a three-byte region cannot back a four-byte writer"),
        Err(region) => {
            // Rejected before any byte was written: the region is untouched.
            assert_eq!(&region, &[9, 9, 9]);
        }
    }
}

#[test]
fn bounded_store_accepts_exact_fit() {
    let region: Vec<u8> = vec![0, 0];
    let w = match ConstWrite::<SliceWriterAdapter>::try_const_writer(region, 2) {
        Ok(w) => w,
        Err(_) => panic!("a two-byte region backs a two-byte writer"),
    };
    let w = w.write_u16_le(0x1234);
    let region: Vec<u8> = w.release();
    assert_eq!(&region, &[0x34, 0x12]);
}

#[test]
fn slice_region_suffix_untouched() {
    let buff: Vec<u8> = vec![0xAA; 8];
    let w: ConstWriter<SliceWriterAdapter> = buff.const_writer(3);
    let w = w.write_u8_le(1).write_u16_be(0x0203);
    let buff: Vec<u8> = w.release();
    assert_eq!(&buff, &[1, 2, 3, 0xAA, 0xAA, 0xAA, 0xAA, 0xAA]);
}

#[test]
fn shrink_is_free() {
    let buff: Vec<u8> = vec![7u8; 6];
    let w: ConstWriter<SliceWriterAdapter> = buff.const_writer(6);
    let w = w.write_u16_le(0x0102);
    // Shrinking, all the way to zero, never fails and never touches the store.
    let w = w.convert(3).convert(0);
    assert_eq!(w.remaining(), 0);
    let buff: Vec<u8> = w.release();
    assert_eq!(&buff, &[0x02, 0x01, 7, 7, 7, 7]);
}

#[test]
fn slice_convert_grow_within_region() {
    let buff: Vec<u8> = vec![0u8; 10];
    let w: ConstWriter<SliceWriterAdapter> = buff.const_writer(2);
    let w = w.write_u16_le(0x0102).convert(8).write_u64_be(3);
    let buff: Vec<u8> = w.release();
    assert_eq!(&buff, &[0x02, 0x01, 0, 0, 0, 0, 0, 0, 0, 3]);
}

#[test]
fn split_points_do_not_change_layout() {
    let a: u32 = 0x11223344;
    let b: u16 = 0x5566;
    let c: u8 = 0x77;

    let vec: Vec<u8> = vec![];
    let w: ConstWriter<VecWriterAdapter> = vec.const_writer(7);
    let w = w.write_u32_be(a).write_u16_be(b).write_u8_be(c);
    let unsplit: Vec<u8> = w.release();

    let vec: Vec<u8> = vec![];
    let w: ConstWriter<VecWriterAdapter> = vec.const_writer(4);
    let w = w.write_u32_be(a).convert(3).write_u16_be(b).convert(1).write_u8_be(c);
    let split: Vec<u8> = w.release();

    assert_eq!(unsplit, split);
    assert_eq!(&unsplit, &[0x11, 0x22, 0x33, 0x44, 0x55, 0x66, 0x77]);
}

#[test]
fn signed_writes_use_twos_complement() {
    let vec: Vec<u8> = vec![];
    let w: ConstWriter<VecWriterAdapter> = vec.const_writer(16);
    let w = w
        .write_i8_le(-1)
        .write_i16_le(-2)
        .write_i32_be(-3)
        .write_i8_be(16)
        .write_i64_le(-4);
    let vec: Vec<u8> = w.release();
    assert_eq!(
        &vec,
        &[
            0xFF, 0xFE, 0xFF, 0xFF, 0xFF, 0xFF, 0xFD, 0x10, 0xFC, 0xFF, 0xFF, 0xFF, 0xFF, 0xFF,
            0xFF, 0xFF,
        ]
    );
}

#[test]
fn signed_wide_writes() {
    let vec: Vec<u8> = vec![];
    let w: ConstWriter<VecWriterAdapter> = vec.const_writer(32);
    let w = w.write_i128_be(-1).write_i128_le(2);
    let vec: Vec<u8> = w.release();
    let mut expected = vec![0xFFu8; 16];
    expected.extend_from_slice(&[2, 0, 0, 0, 0, 0, 0, 0, 0, 0, 0, 0, 0, 0, 0, 0]);
    assert_eq!(vec, expected);
}

#[test]
fn write_slice_block() {
    let vec: Vec<u8> = vec![];
    let w: ConstWriter<VecWriterAdapter> = vec.const_writer(8);
    let w = w.write_slice(&[1, 2, 3]).write_u8_le(4).write_slice(&[]);
    assert_eq!(w.remaining(), 4);
    let vec: Vec<u8> = w.release();
    assert_eq!(&vec, &[1, 2, 3, 4]);
}

#[test]
fn release_without_writes_commits_nothing() {
    let vec: Vec<u8> = vec![1, 2, 3];
    let w: ConstWriter<VecWriterAdapter> = vec.const_writer(64);
    let vec: Vec<u8> = w.release();
    assert_eq!(&vec, &[1, 2, 3]);

    let buff: Vec<u8> = vec![4, 5];
    let w: ConstWriter<SliceWriterAdapter> = buff.const_writer(2);
    let buff: Vec<u8> = w.release();
    assert_eq!(&buff, &[4, 5]);
}

#[test]
fn big_endian_formula() {
    let vec: Vec<u8> = vec![];
    let w: ConstWriter<VecWriterAdapter> = vec.const_writer(12);
    let w = w.write_u32_be(1).write_u64_be(0x0102030405060708);
    let vec: Vec<u8> = w.release();
    assert_eq!(&vec, &[0, 0, 0, 1, 1, 2, 3, 4, 5, 6, 7, 8]);
}
