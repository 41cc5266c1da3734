use vstd::prelude::*;

verus! {

/// Size in bytes of the `BITMAPINFOHEADER` that starts a device-independent bitmap.
pub const DIB_HEADER_SIZE: usize = 40;

/// The four bytes of `v`, least significant first.
pub open spec fn le_u32(v: u32) -> Seq<u8> {
    seq![
        (v % 256) as u8,
        ((v / 256) % 256) as u8,
        ((v / 65536) % 256) as u8,
        (v / 16777216) as u8,
    ]
}

/// The two bytes of `v`, least significant first.
pub open spec fn le_u16(v: u16) -> Seq<u8> {
    seq![(v % 256) as u8, (v / 256) as u8]
}

/// The little-endian 32-bit value stored in `b` at `at`.
pub open spec fn read_le_u32(b: Seq<u8>, at: int) -> int {
    b[at] + b[at + 1] * 256 + b[at + 2] * 65536 + b[at + 3] * 16777216
}

/// The little-endian 16-bit value stored in `b` at `at`.
pub open spec fn read_le_u16(b: Seq<u8>, at: int) -> int {
    b[at] + b[at + 1] * 256
}

/// Bytes per row of a 24-bit bitmap `width` pixels wide: three bytes per
/// pixel, rounded up to a multiple of four.
pub open spec fn spec_row_stride(width: int) -> int {
    (width * 3 + 3) / 4 * 4
}

/// The header of a bottom-up, uncompressed, 24-bit bitmap: header size 40,
/// width, height (the signed fields hold the bits of the unsigned values),
/// one plane, 24 bits per pixel, compression 0, the pixel data size, and
/// zero resolution and palette fields.
pub open spec fn dib_header(width: u32, height: u32, image_size: u32) -> Seq<u8> {
    le_u32(40) + le_u32(width) + le_u32(height) + le_u16(1) + le_u16(24) + le_u32(0) + le_u32(
        image_size,
    ) + Seq::new(16, |i: int| 0u8)
}

/// Index in the bitmap of the blue byte of the pixel in bitmap row `y`
/// (counted from the start of the pixel data) and column `x`.
pub open spec fn dib_pixel_index(stride: int, y: int, x: int) -> int {
    DIB_HEADER_SIZE + y * stride + 3 * x
}

/// Index of the red byte of pixel (`x`, `y`) in a top-down RGBA image `width` pixels wide.
pub open spec fn rgba_index(width: int, y: int, x: int) -> int {
    (y * width + x) * 4
}

/// `dib` holds at `at` the blue, green and red bytes of the RGBA pixel at `from` in `px`.
pub open spec fn holds_bgr(dib: Seq<u8>, at: int, px: Seq<u8>, from: int) -> bool {
    &&& dib[at] == px[from + 2]
    &&& dib[at + 1] == px[from + 1]
    &&& dib[at + 2] == px[from]
}

/// Law: the four bytes of `v` read back as `v`.
pub proof fn lemma_le_u32_roundtrip(v: u32)
    ensures
        le_u32(v).len() == 4,
        read_le_u32(le_u32(v), 0) == v,
{
    let b = le_u32(v);
    assert(b[0] == v % 256);
    assert(b[1] == (v / 256) % 256);
    assert(b[2] == (v / 65536) % 256);
    assert(b[3] == v / 16777216);
    assert(v % 256 + ((v / 256) % 256) * 256 + ((v / 65536) % 256) * 65536 + (v / 16777216)
        * 16777216 == v) by (nonlinear_arith);
}

/// Law: the two bytes of `v` read back as `v`.
pub proof fn lemma_le_u16_roundtrip(v: u16)
    ensures
        le_u16(v).len() == 2,
        read_le_u16(le_u16(v), 0) == v,
{
    let b = le_u16(v);
    assert(b[0] == v % 256);
    assert(b[1] == v / 256);
}

/// Law: a reader of the header finds what the bitmap was built with: header
/// size 40, the width and height (as written, so a height of at most
/// `i32::MAX` reads as positive, which marks the rows as bottom-up), one
/// plane, 24 bits per pixel, no compression, the image size, and zeros in
/// the remaining 16 bytes.
pub proof fn lemma_dib_header_fields(width: u32, height: u32, image_size: u32)
    ensures
        dib_header(width, height, image_size).len() == DIB_HEADER_SIZE,
        read_le_u32(dib_header(width, height, image_size), 0) == 40,
        read_le_u32(dib_header(width, height, image_size), 4) == width,
        read_le_u32(dib_header(width, height, image_size), 8) == height,
        read_le_u16(dib_header(width, height, image_size), 12) == 1,
        read_le_u16(dib_header(width, height, image_size), 14) == 24,
        read_le_u32(dib_header(width, height, image_size), 16) == 0,
        read_le_u32(dib_header(width, height, image_size), 20) == image_size,
        forall|i: int| 24 <= i < 40 ==> #[trigger] dib_header(width, height, image_size)[i] == 0,
{
    let h = dib_header(width, height, image_size);
    lemma_le_u32_roundtrip(40);
    lemma_le_u32_roundtrip(width);
    lemma_le_u32_roundtrip(height);
    lemma_le_u16_roundtrip(1);
    lemma_le_u16_roundtrip(24);
    lemma_le_u32_roundtrip(0);
    lemma_le_u32_roundtrip(image_size);
    let a = le_u32(40);
    let b = le_u32(width);
    let c = le_u32(height);
    let d = le_u16(1);
    let e = le_u16(24);
    let f = le_u32(0);
    let g = le_u32(image_size);
    assert(h.subrange(0, 4) =~= a);
    assert(h.subrange(4, 8) =~= b);
    assert(h.subrange(8, 12) =~= c);
    assert(h.subrange(12, 14) =~= d);
    assert(h.subrange(14, 16) =~= e);
    assert(h.subrange(16, 20) =~= f);
    assert(h.subrange(20, 24) =~= g);
    assert(read_le_u32(h, 4) == read_le_u32(b, 0));
    assert(read_le_u32(h, 8) == read_le_u32(c, 0));
    assert(read_le_u32(h, 0) == read_le_u32(a, 0));
    assert(read_le_u16(h, 12) == read_le_u16(d, 0));
    assert(read_le_u16(h, 14) == read_le_u16(e, 0));
    assert(read_le_u32(h, 16) == read_le_u32(f, 0));
    assert(read_le_u32(h, 20) == read_le_u32(g, 0));
}

/// The row stride of a 24-bit bitmap `width` pixels wide.
pub fn dib_row_stride(width: u32) -> (s: u32)
    requires
        width * 3 + 3 <= u32::MAX,
    ensures
        s == spec_row_stride(width as int),
        s % 4 == 0,
        3 * width <= s < 3 * width + 4,
{
    let v = width * 3 + 3;
    let s = v & !3u32;
    assert(s == v / 4 * 4) by (bit_vector)
        requires
            s == v & !3u32,
    ;
    s
}

fn push_le_u32(out: &mut Vec<u8>, v: u32)
    ensures
        final(out)@ == old(out)@ + le_u32(v),
{
    out.push((v % 256) as u8);
    out.push(((v / 256) % 256) as u8);
    out.push(((v / 65536) % 256) as u8);
    out.push((v / 16777216) as u8);
    assert(final(out)@ =~= old(out)@ + le_u32(v));
}

fn push_le_u16(out: &mut Vec<u8>, v: u16)
    ensures
        final(out)@ == old(out)@ + le_u16(v),
{
    out.push((v % 256) as u8);
    out.push((v / 256) as u8);
    assert(final(out)@ =~= old(out)@ + le_u16(v));
}


/// Position `col` of row `row` in rows of `stride` bytes is byte
/// `row * stride + col`, and that byte lies before the next row.
proof fn lemma_row_position(stride: int, row: int, col: int)
    requires
        stride > 0,
        row >= 0,
        0 <= col < stride,
    ensures
        (row * stride + col) % stride == col,
        (row * stride + col) / stride == row,
        row * stride + col < (row + 1) * stride,
        (row + 1) * stride == row * stride + stride,
{
    vstd::arithmetic::div_mod::lemma_fundamental_div_mod_converse(
        row * stride + col,
        stride,
        row,
        col,
    );
    assert((row + 1) * stride == row * stride + stride) by (nonlinear_arith);
}

/// Rows before row `y` end before row `y` begins.
proof fn lemma_earlier_row(stride: int, yy: int, y: int)
    requires
        stride >= 0,
        0 <= yy < y,
    ensures
        yy * stride + stride <= y * stride,
{
    assert(yy * stride + stride <= y * stride) by (nonlinear_arith)
        requires
            stride >= 0,
            0 <= yy < y,
    ;
}

/// The RGBA bytes of pixel (`x`, `row`) lie inside an image of `width` by `height` pixels.
proof fn lemma_rgba_in_bounds(width: int, height: int, row: int, x: int)
    requires
        0 <= row < height,
        0 <= x < width,
    ensures
        0 <= row * width,
        row * width + x + 1 <= width * height,
        0 <= rgba_index(width, row, x),
        rgba_index(width, row, x) + 4 <= width * height * 4,
{
    assert(row * width + x + 1 <= width * height) by (nonlinear_arith)
        requires
            0 <= row < height,
            0 <= x < width,
    ;
    assert(0 <= row * width) by (nonlinear_arith)
        requires
            0 <= row,
            0 <= x < width,
    ;
}

/// Converts a top-down RGBA image of `width` by `height` pixels into the
/// device-independent bitmap that the clipboard takes: the header of a
/// bottom-up 24-bit bitmap, then the rows from the last image row up to the
/// first, each pixel as blue, green, red, each row padded with zero bytes
/// to a multiple of four bytes. The alpha bytes are dropped.
pub fn dib_from_rgba(pixels: &[u8], width: u32, height: u32) -> (dib: Vec<u8>)
    requires
        width * 3 + 3 <= u32::MAX,
        width * height * 4 <= pixels@.len(),
        DIB_HEADER_SIZE + spec_row_stride(width as int) * height <= usize::MAX,
    ensures
        dib@.len() == DIB_HEADER_SIZE + spec_row_stride(width as int) * height,
        dib@.subrange(0, DIB_HEADER_SIZE as int) == dib_header(
            width,
            height,
            ((spec_row_stride(width as int) * height) % 0x1_0000_0000) as u32,
        ),
        forall|y: int, x: int|
            0 <= y < height && 0 <= x < width ==> holds_bgr(
                dib@,
                #[trigger] dib_pixel_index(spec_row_stride(width as int), y, x),
                pixels@,
                rgba_index(width as int, height - 1 - y, x),
            ),
        forall|i: int|
            DIB_HEADER_SIZE <= i < dib@.len() && (i - DIB_HEADER_SIZE) % spec_row_stride(
                width as int,
            ) >= 3 * width ==> #[trigger] dib@[i] == 0,
{
    let stride = dib_row_stride(width);
    let ghost s = stride as int;
    let ghost w = width as int;
    let ghost h = height as int;
    assert(0 <= s * h) by (nonlinear_arith)
        requires
            0 <= s,
            0 <= h,
    ;
    let data_size: usize = (stride as usize) * (height as usize);
    let mut out: Vec<u8> = Vec::new();
    push_le_u32(&mut out, 40);
    push_le_u32(&mut out, width);
    push_le_u32(&mut out, height);
    push_le_u16(&mut out, 1);
    push_le_u16(&mut out, 24);
    push_le_u32(&mut out, 0);
    let image_size = (data_size as u64 % 0x1_0000_0000) as u32;
    push_le_u32(&mut out, image_size);
    let ghost fields = out@;
    let mut k: usize = 0;
    while k < 16
        invariant
            0 <= k <= 16,
            fields.len() == 24,
            out@ =~= fields + Seq::new(k as nat, |i: int| 0u8),
        decreases 16 - k,
    {
        out.push(0);
        k += 1;
    }
    let ghost header = out@;
    assert(header =~= dib_header(width, height, image_size));
    let mut y: u32 = 0;
    while y < height
        invariant
            0 <= y <= height,
            s == spec_row_stride(w),
            w == width,
            h == height,
            stride == s,
            s % 4 == 0,
            3 * w <= s < 3 * w + 4,
            width * 3 + 3 <= u32::MAX,
            w * h * 4 <= pixels@.len(),
            DIB_HEADER_SIZE + s * h <= usize::MAX,
            header.len() == DIB_HEADER_SIZE,
            out@.len() == DIB_HEADER_SIZE + y * s,
            out@.subrange(0, DIB_HEADER_SIZE as int) == header,
            forall|yy: int, x: int|
                0 <= yy < y && 0 <= x < w ==> holds_bgr(
                    out@,
                    #[trigger] dib_pixel_index(s, yy, x),
                    pixels@,
                    rgba_index(w, h - 1 - yy, x),
                ),
            forall|i: int|
                DIB_HEADER_SIZE <= i < out@.len() && (i - DIB_HEADER_SIZE) % s >= 3 * w
                    ==> #[trigger] out@[i] == 0,
        decreases height - y,
    {
        let src_row = height - 1 - y;
        let ghost row_start = DIB_HEADER_SIZE + y * s;
        assert(y * s + s <= h * s) by (nonlinear_arith)
            requires
                0 <= y < h,
                0 <= s,
        ;
        assert(h * s == s * h) by (nonlinear_arith);
        let mut x: u32 = 0;
        while x < width
            invariant
                0 <= x <= width,
                0 <= y < height,
                src_row == height - 1 - y,
                s == spec_row_stride(w),
                w == width,
                h == height,
                s % 4 == 0,
                3 * w <= s < 3 * w + 4,
                w * h * 4 <= pixels@.len(),
                row_start == DIB_HEADER_SIZE + y * s,
                row_start + s <= DIB_HEADER_SIZE + s * h,
                DIB_HEADER_SIZE + s * h <= usize::MAX,
                header.len() == DIB_HEADER_SIZE,
                out@.len() == row_start + 3 * x,
                out@.subrange(0, DIB_HEADER_SIZE as int) == header,
                forall|yy: int, xx: int|
                    0 <= yy < y && 0 <= xx < w ==> holds_bgr(
                        out@,
                        #[trigger] dib_pixel_index(s, yy, xx),
                        pixels@,
                        rgba_index(w, h - 1 - yy, xx),
                    ),
                forall|xx: int|
                    0 <= xx < x ==> holds_bgr(
                        out@,
                        #[trigger] dib_pixel_index(s, y as int, xx),
                        pixels@,
                        rgba_index(w, h - 1 - y, xx),
                    ),
                forall|i: int|
                    DIB_HEADER_SIZE <= i < row_start && (i - DIB_HEADER_SIZE) % s >= 3 * w
                        ==> #[trigger] out@[i] == 0,
            decreases width - x,
        {
            proof {
                lemma_rgba_in_bounds(w, h, src_row as int, x as int);
                assert(pixels@.len() == pixels.len());
                assert((src_row as int) * w + x + 1 <= w * h);
                assert(w * h * 4 <= usize::MAX);
            }
            let src = ((src_row as usize) * (width as usize) + (x as usize)) * 4;
            assert(src == rgba_index(w, h - 1 - y, x as int));
            let ghost before = out@;
            out.push(pixels[src + 2]);
            out.push(pixels[src + 1]);
            out.push(pixels[src]);
            assert(out@.subrange(0, DIB_HEADER_SIZE as int) =~= header);
            assert forall|yy: int, xx: int|
                0 <= yy < y && 0 <= xx < w implies holds_bgr(
                out@,
                #[trigger] dib_pixel_index(s, yy, xx),
                pixels@,
                rgba_index(w, h - 1 - yy, xx),
            ) by {
                lemma_earlier_row(s, yy, y as int);
                assert(holds_bgr(before, dib_pixel_index(s, yy, xx), pixels@, rgba_index(w, h - 1 - yy, xx)));
            }
            assert forall|xx: int|
                0 <= xx < x + 1 implies holds_bgr(
                out@,
                #[trigger] dib_pixel_index(s, y as int, xx),
                pixels@,
                rgba_index(w, h - 1 - y, xx),
            ) by {
                if xx < x {
                    assert(holds_bgr(before, dib_pixel_index(s, y as int, xx), pixels@, rgba_index(w, h - 1 - y, xx)));
                }
            }
            assert forall|i: int|
                DIB_HEADER_SIZE <= i < row_start && (i - DIB_HEADER_SIZE) % s >= 3 * w
                    implies #[trigger] out@[i] == 0 by {
                assert(before[i] == 0);
            }
            x += 1;
        }
        let mut col: u32 = 3 * width;
        while col < stride
            invariant
                3 * w <= col <= s,
                0 <= y < height,
                s == spec_row_stride(w),
                w == width,
                h == height,
                stride == s,
                s % 4 == 0,
                3 * w <= s < 3 * w + 4,
                row_start == DIB_HEADER_SIZE + y * s,
                row_start + s <= DIB_HEADER_SIZE + s * h,
                DIB_HEADER_SIZE + s * h <= usize::MAX,
                header.len() == DIB_HEADER_SIZE,
                out@.len() == row_start + col,
                out@.subrange(0, DIB_HEADER_SIZE as int) == header,
                forall|yy: int, xx: int|
                    0 <= yy < y && 0 <= xx < w ==> holds_bgr(
                        out@,
                        #[trigger] dib_pixel_index(s, yy, xx),
                        pixels@,
                        rgba_index(w, h - 1 - yy, xx),
                    ),
                forall|xx: int|
                    0 <= xx < w ==> holds_bgr(
                        out@,
                        #[trigger] dib_pixel_index(s, y as int, xx),
                        pixels@,
                        rgba_index(w, h - 1 - y, xx),
                    ),
                forall|i: int|
                    DIB_HEADER_SIZE <= i < row_start && (i - DIB_HEADER_SIZE) % s >= 3 * w
                        ==> #[trigger] out@[i] == 0,
                forall|j: int| row_start + 3 * w <= j < out@.len() ==> #[trigger] out@[j] == 0,
            decreases stride - col,
        {
            let ghost before = out@;
            out.push(0);
            assert(out@.subrange(0, DIB_HEADER_SIZE as int) =~= header);
            assert forall|yy: int, xx: int|
                0 <= yy < y && 0 <= xx < w implies holds_bgr(
                out@,
                #[trigger] dib_pixel_index(s, yy, xx),
                pixels@,
                rgba_index(w, h - 1 - yy, xx),
            ) by {
                lemma_earlier_row(s, yy, y as int);
                assert(holds_bgr(before, dib_pixel_index(s, yy, xx), pixels@, rgba_index(w, h - 1 - yy, xx)));
            }
            assert forall|xx: int|
                0 <= xx < w implies holds_bgr(
                out@,
                #[trigger] dib_pixel_index(s, y as int, xx),
                pixels@,
                rgba_index(w, h - 1 - y, xx),
            ) by {
                assert(holds_bgr(before, dib_pixel_index(s, y as int, xx), pixels@, rgba_index(w, h - 1 - y, xx)));
            }
            assert forall|i: int|
                DIB_HEADER_SIZE <= i < row_start && (i - DIB_HEADER_SIZE) % s >= 3 * w
                    implies #[trigger] out@[i] == 0 by {
                assert(before[i] == 0);
            }
            assert forall|j: int| row_start + 3 * w <= j < out@.len() implies #[trigger] out@[j] == 0 by {
                if j < out@.len() - 1 {
                    assert(before[j] == 0);
                }
            }
            col += 1;
        }
        proof {
            assert forall|i: int|
                DIB_HEADER_SIZE <= i < out@.len() && (i - DIB_HEADER_SIZE) % s >= 3 * w
                    implies #[trigger] out@[i] == 0 by {
                if i >= row_start && s > 0 {
                    lemma_row_position(s, y as int, i - row_start);
                }
            }
        }
        assert(row_start + s == DIB_HEADER_SIZE + (y + 1) * s) by (nonlinear_arith)
            requires
                row_start == DIB_HEADER_SIZE + y * s,
        ;
        y += 1;
    }
    assert(height * s == s * height) by (nonlinear_arith);
    out
}

} // verus!
