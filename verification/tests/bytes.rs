use apple_drivers::arith::{div_ceil, drop_value};
use apple_drivers::bytes::{
    get_be64, put_le32, put_le64, read_be_u32, read_be_u32_cells, read_be_u64, same_bytes, zeroed,
};

#[test]
fn big_endian_words_are_read() {
    assert_eq!(read_be_u32(&[1, 2, 3, 4, 5]), Some(0x0102_0304));
    assert_eq!(read_be_u32(&[1, 2, 3]), None);
    assert_eq!(read_be_u64(&[0, 0, 0, 1, 0, 0, 0, 2]), Some(0x1_0000_0002));
    assert_eq!(read_be_u64(&[0; 7]), None);
    assert_eq!(get_be64(&[9, 1, 0, 0, 0, 0, 0, 0, 2], 1), 0x0100_0000_0000_0002);
    assert_eq!(read_be_u32_cells(&[0, 0, 0, 1, 0, 0, 1, 0, 7]), vec![1, 256]);
}

#[test]
fn little_endian_words_are_written() {
    let mut image = zeroed(13);
    put_le32(&mut image, 0, 0x0102_0304);
    put_le64(&mut image, 5, 0x1122_3344_5566_7788);
    assert_eq!(image, vec![4, 3, 2, 1, 0, 0x88, 0x77, 0x66, 0x55, 0x44, 0x33, 0x22, 0x11]);
    assert!(same_bytes(&image, &image.clone()));
    assert!(!same_bytes(&image, &image[1..]));
}

#[test]
fn a_value_is_dropped_wherever_it_stands() {
    assert_eq!(drop_value(&vec![3, 1, 3, 2], 3), vec![1, 2]);
}

#[test]
fn divisions_round_up() {
    assert_eq!(div_ceil(18, 11), 2);
    assert_eq!(div_ceil(22, 11), 2);
}
