use nsbmd::alignment::get_16_byte_alignment;
use nsbmd::alignment::get_4_byte_alignment;
use nsbmd::alignment::pad4;

#[test]
fn test_get_4_byte_alignment() {
    assert_eq!(get_4_byte_alignment(0), 0);
    assert_eq!(get_4_byte_alignment(1), 4);
    assert_eq!(get_4_byte_alignment(2), 4);
    assert_eq!(get_4_byte_alignment(3), 4);
    assert_eq!(get_4_byte_alignment(4), 4);
    assert_eq!(get_4_byte_alignment(5), 8);
    assert_eq!(get_4_byte_alignment(6), 8);
    assert_eq!(get_4_byte_alignment(7), 8);
    assert_eq!(get_4_byte_alignment(8), 8);
}

#[test]
fn test_get_16_byte_alignment() {
    assert_eq!(get_16_byte_alignment(0), 0);
    assert_eq!(get_16_byte_alignment(1), 16);
    assert_eq!(get_16_byte_alignment(2), 16);
    assert_eq!(get_16_byte_alignment(3), 16);
    assert_eq!(get_16_byte_alignment(4), 16);
    assert_eq!(get_16_byte_alignment(5), 16);
    assert_eq!(get_16_byte_alignment(15), 16);
    assert_eq!(get_16_byte_alignment(16), 16);
    assert_eq!(get_16_byte_alignment(17), 32);
}

#[test]
fn pad4_reaches_the_next_boundary() {
    assert_eq!(pad4(0), 0);
    assert_eq!(pad4(1), 3);
    assert_eq!(pad4(2), 2);
    assert_eq!(pad4(3), 1);
    assert_eq!(pad4(4), 0);
    assert_eq!(pad4(5), 3);
}
