use rustems::image::ConfigImage;

#[test]
fn write_and_read_range() {
    let mut img = ConfigImage::new(16, "test-sig");
    img.write_range(4, &[0xAA, 0xBB, 0xCC]);
    assert_eq!(img.range(4, 3), &[0xAA, 0xBB, 0xCC]);
    assert_eq!(img.range(0, 4), &[0u8; 4]);
}

#[test]
fn first_diff_range_identical() {
    let a = ConfigImage::new(8, "sig");
    let b = a.clone();
    assert_eq!(a.first_diff_range(&b), None);
}

#[test]
fn first_diff_range_single_byte() {
    let mut a = ConfigImage::new(8, "sig");
    let mut b = ConfigImage::new(8, "sig");
    a.write_range(3, &[0xFF]);
    b.write_range(3, &[0x00]);
    assert_eq!(a.first_diff_range(&b), Some((3, 4)));
}

#[test]
fn first_diff_range_spans_outer_differences() {
    let mut a = ConfigImage::new(10, "sig");
    let b = ConfigImage::new(12, "other");
    a.write_range(2, &[1]);
    a.write_range(6, &[9]);
    assert_eq!(a.first_diff_range(&b), Some((2, 7)));
    assert_eq!(b.size(), 12);
    assert_eq!(a.as_bytes().len(), 10);
    assert_eq!(a.signature, "sig");
    assert_eq!(b.signature, "other");
}
