use hdr_screenshot::dib::{dib_from_rgba, dib_row_stride, DIB_HEADER_SIZE};

fn le32(b: &[u8], at: usize) -> u32 {
    u32::from_le_bytes([b[at], b[at + 1], b[at + 2], b[at + 3]])
}

fn le16(b: &[u8], at: usize) -> u16 {
    u16::from_le_bytes([b[at], b[at + 1]])
}

#[test]
fn row_stride_rounds_to_four_bytes() {
    assert_eq!(dib_row_stride(0), 0);
    assert_eq!(dib_row_stride(1), 4);
    assert_eq!(dib_row_stride(2), 8);
    assert_eq!(dib_row_stride(3), 12);
    assert_eq!(dib_row_stride(4), 12);
    assert_eq!(dib_row_stride(5), 16);
    assert_eq!(dib_row_stride(1920), 5760);
}

#[test]
fn header_fields() {
    let px = vec![0u8; 3 * 2 * 4];
    let dib = dib_from_rgba(&px, 3, 2);
    assert_eq!(DIB_HEADER_SIZE, 40);
    assert_eq!(dib.len(), 40 + 12 * 2);
    assert_eq!(le32(&dib, 0), 40);
    assert_eq!(le32(&dib, 4), 3);
    assert_eq!(le32(&dib, 8), 2);
    assert_eq!(le16(&dib, 12), 1);
    assert_eq!(le16(&dib, 14), 24);
    assert_eq!(le32(&dib, 16), 0);
    assert_eq!(le32(&dib, 20), 24);
    assert!(dib[24..40].iter().all(|b| *b == 0));
}

#[test]
fn pixels_bottom_up_bgr_with_padding() {
    // 1 pixel wide, 2 rows: top red, bottom blue.
    let px = [255u8, 0, 0, 255, 0, 0, 255, 255];
    let dib = dib_from_rgba(&px, 1, 2);
    assert_eq!(dib.len(), 48);
    // first stored row is the bottom image row (blue), as B, G, R, padding
    assert_eq!(&dib[40..44], &[255, 0, 0, 0]);
    assert_eq!(&dib[44..48], &[0, 0, 255, 0]);
}

#[test]
fn pixels_of_wider_image() {
    // 2x1: (1,2,3,a) (4,5,6,a)
    let px = [1u8, 2, 3, 9, 4, 5, 6, 9];
    let dib = dib_from_rgba(&px, 2, 1);
    assert_eq!(&dib[40..], &[3, 2, 1, 6, 5, 4, 0, 0]);
}

#[test]
fn empty_image_is_header_only() {
    let dib = dib_from_rgba(&[], 0, 0);
    assert_eq!(dib.len(), 40);
    assert_eq!(le32(&dib, 20), 0);
    let dib = dib_from_rgba(&[], 7, 0);
    assert_eq!(dib.len(), 40);
    assert_eq!(le32(&dib, 4), 7);
}
