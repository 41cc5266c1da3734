use hdr_screenshot::pixels::{
    crop_region, dim_channel, half_words_to_bytes, make_dimmed, read_hdr_surface, read_sdr_surface, rgba_to_bgra,
    DIM_FLOOR,
};
use hdr_screenshot::selection::SelectionRect;

#[test]
fn rgba_to_bgra_swaps_red_and_blue() {
    let rgba = [1u8, 2, 3, 4, 10, 20, 30, 40];
    assert_eq!(rgba_to_bgra(&rgba), vec![3, 2, 1, 4, 30, 20, 10, 40]);
}

#[test]
fn rgba_to_bgra_drops_incomplete_pixel() {
    let rgba = [1u8, 2, 3, 4, 5, 6];
    assert_eq!(rgba_to_bgra(&rgba), vec![3, 2, 1, 4]);
    assert!(rgba_to_bgra(&[]).is_empty());
}

#[test]
fn rgba_to_bgra_twice_is_identity() {
    let rgba: Vec<u8> = (0..64u8).collect();
    assert_eq!(rgba_to_bgra(&rgba_to_bgra(&rgba)), rgba);
}

fn float_dim(v: u8) -> u8 {
    ((v as f32 * 0.55).max(18.0)).round() as u8
}

#[test]
fn dim_channel_matches_float_formula_on_every_level() {
    for v in 0..=255u8 {
        assert_eq!(dim_channel(v), float_dim(v), "level {}", v);
    }
}

#[test]
fn dim_channel_exact_values() {
    assert_eq!(dim_channel(0), 18);
    assert_eq!(dim_channel(18), 18);
    assert_eq!(dim_channel(50), 28);
    assert_eq!(dim_channel(100), 55);
    assert_eq!(dim_channel(255), 140);
    assert_eq!(DIM_FLOOR, 18);
}

#[test]
fn dimming_is_monotone_and_never_below_floor() {
    for a in 0..=254u8 {
        assert!(dim_channel(a) <= dim_channel(a + 1));
        assert!(dim_channel(a) >= DIM_FLOOR);
    }
}

#[test]
fn make_dimmed_keeps_alpha() {
    let bgra = [100u8, 200, 0, 7, 255, 10, 40, 255];
    assert_eq!(make_dimmed(&bgra), vec![55, 110, 18, 7, 140, 18, 22, 255]);
}

#[test]
fn sdr_surface_skips_padding_and_reorders() {
    // 2x2 pixels, pitch 12 (4 bytes padding per row), BGRA.
    let data = [
        1u8, 2, 3, 4, 5, 6, 7, 8, 99, 99, 99, 99, //
        9, 10, 11, 12, 13, 14, 15, 16, 99, 99, 99, 99,
    ];
    let out = read_sdr_surface(&data, 12, 2, 2);
    assert_eq!(out, vec![3, 2, 1, 4, 7, 6, 5, 8, 11, 10, 9, 12, 15, 14, 13, 16]);
}

#[test]
fn sdr_surface_packed_round_trips_through_swap() {
    let data: Vec<u8> = (0..48u8).collect();
    let out = read_sdr_surface(&data, 12, 3, 4);
    assert_eq!(rgba_to_bgra(&out), data);
}

#[test]
fn sdr_surface_of_empty_image() {
    assert!(read_sdr_surface(&[], 0, 0, 0).is_empty());
    assert!(read_sdr_surface(&[], 16, 4, 0).is_empty());
}

#[test]
fn hdr_surface_reads_little_endian_words() {
    // one row of 2 pixels, pitch 20 (4 bytes padding), then a second row.
    let mut data = vec![0u8; 40];
    for (i, b) in data.iter_mut().enumerate() {
        *b = i as u8;
    }
    let out = read_hdr_surface(&data, 20, 2, 2);
    assert_eq!(
        out,
        vec![
            0x0100, 0x0302, 0x0504, 0x0706, 0x0908, 0x0B0A, 0x0D0C, 0x0F0E, //
            0x1514, 0x1716, 0x1918, 0x1B1A, 0x1D1C, 0x1F1E, 0x2120, 0x2322,
        ]
    );
}

#[test]
fn hdr_surface_one_as_half_float() {
    // 1.0 in half precision is 0x3C00.
    let data = [0x00u8, 0x3C, 0x00, 0x3C, 0x00, 0x3C, 0x00, 0x3C];
    assert_eq!(read_hdr_surface(&data, 8, 1, 1), vec![0x3C00; 4]);
}

#[test]
fn crop_takes_rows_of_region() {
    // 4x3 image, pixel value = 10*y + x in every channel.
    let mut px = Vec::new();
    for y in 0..3u32 {
        for x in 0..4u32 {
            for _ in 0..4 {
                px.push((10 * y + x) as f32);
            }
        }
    }
    let rect = SelectionRect { x: 1, y: 1, w: 2, h: 2 };
    let out = crop_region(&px, 4, &rect);
    let expect: Vec<f32> = [11.0f32, 12.0, 21.0, 22.0]
        .iter()
        .flat_map(|v| [*v; 4])
        .collect();
    assert_eq!(out, expect);
}

#[test]
fn crop_whole_frame_is_identity() {
    let px: Vec<u8> = (0..48u8).collect();
    let rect = SelectionRect { x: 0, y: 0, w: 4, h: 3 };
    assert_eq!(crop_region(&px, 4, &rect), px);
}

#[test]
fn crop_empty_region() {
    let px: Vec<u8> = (0..48u8).collect();
    let rect = SelectionRect { x: 2, y: 1, w: 0, h: 2 };
    assert!(crop_region(&px, 4, &rect).is_empty());
}

#[test]
fn half_words_laid_out_little_endian() {
    assert_eq!(half_words_to_bytes(&[0x3C00, 0x1234]), vec![0x00, 0x3C, 0x34, 0x12]);
    assert!(half_words_to_bytes(&[]).is_empty());
}

#[test]
fn half_words_round_trip_through_hdr_surface() {
    let words: Vec<u16> = (0..24u16).map(|i| i * 2731).collect();
    let bytes = half_words_to_bytes(&words);
    assert_eq!(read_hdr_surface(&bytes, 16, 2, 3), words);
}
