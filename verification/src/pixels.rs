use vstd::prelude::*;
use crate::selection::SelectionRect;

verus! {

/// Position `i` of a sequence cut into pieces of `n` lies in piece `q` at
/// offset `r` exactly when `i == q * n + r` and `0 <= r < n`.
proof fn lemma_piece(i: int, n: int, q: int, r: int)
    requires
        n > 0,
        0 <= r < n,
        i == q * n + r,
    ensures
        i / n == q,
        i % n == r,
{
    vstd::arithmetic::div_mod::lemma_fundamental_div_mod_converse(i, n, q, r);
}

/// `s` with the first and third byte of every complete 4-byte pixel swapped,
/// which turns RGBA into BGRA and back; an incomplete pixel at the end is dropped.
pub open spec fn swap_red_blue(s: Seq<u8>) -> Seq<u8> {
    Seq::new(
        (s.len() / 4 * 4) as nat,
        |i: int|
            if i % 4 == 0 {
                s[i + 2]
            } else if i % 4 == 2 {
                s[i - 2]
            } else {
                s[i]
            },
    )
}

/// Reorders RGBA pixels into the BGRA order of a GDI bitmap.
pub fn rgba_to_bgra(rgba: &[u8]) -> (bgra: Vec<u8>)
    ensures
        bgra@ == swap_red_blue(rgba@),
{
    let n = rgba.len() / 4;
    assert(rgba@.len() == rgba.len());
    let mut out: Vec<u8> = Vec::new();
    let mut k: usize = 0;
    while k < n
        invariant
            n == rgba@.len() / 4,
            rgba@.len() <= usize::MAX,
            0 <= k <= n,
            out@.len() == 4 * k,
            forall|j: int| 0 <= j < out@.len() ==> #[trigger] out@[j] == swap_red_blue(rgba@)[j],
        decreases n - k,
    {
        let b = 4 * k;
        let ghost before = out@;
        out.push(rgba[b + 2]);
        out.push(rgba[b + 1]);
        out.push(rgba[b]);
        out.push(rgba[b + 3]);
        assert forall|j: int| 0 <= j < out@.len() implies #[trigger] out@[j] == swap_red_blue(
            rgba@,
        )[j] by {
            if j < b {
                assert(out@[j] == before[j]);
            } else {
                lemma_piece(j, 4, k as int, j - b);
            }
        }
        k += 1;
    }
    assert(out@ =~= swap_red_blue(rgba@));
    out
}

/// Law: every complete pixel keeps its green and alpha bytes and has its
/// first and third bytes exchanged; an incomplete pixel at the end is dropped.
pub proof fn lemma_swap_red_blue_values(s: Seq<u8>, k: int)
    requires
        0 <= k < s.len() / 4,
    ensures
        swap_red_blue(s).len() == s.len() - s.len() % 4,
        swap_red_blue(s)[4 * k] == s[4 * k + 2],
        swap_red_blue(s)[4 * k + 1] == s[4 * k + 1],
        swap_red_blue(s)[4 * k + 2] == s[4 * k],
        swap_red_blue(s)[4 * k + 3] == s[4 * k + 3],
{
    lemma_piece(4 * k, 4, k, 0);
    lemma_piece(4 * k + 1, 4, k, 1);
    lemma_piece(4 * k + 2, 4, k, 2);
    lemma_piece(4 * k + 3, 4, k, 3);
}

/// Law: swapping red and blue twice gives back every complete pixel.
pub proof fn lemma_swap_red_blue_involution(s: Seq<u8>)
    requires
        s.len() % 4 == 0,
    ensures
        swap_red_blue(swap_red_blue(s)) == s,
{
    let t = swap_red_blue(s);
    assert(t.len() == s.len());
    assert forall|i: int| 0 <= i < s.len() implies #[trigger] swap_red_blue(t)[i] == s[i] by {
        let q = i / 4;
        let r = i % 4;
        lemma_piece(i, 4, q, r);
        if r == 0 {
            lemma_piece(i + 2, 4, q, 2);
        } else if r == 2 {
            lemma_piece(i - 2, 4, q, 0);
        }
    }
    assert(swap_red_blue(t) =~= s);
}


/// Darkest level that dimming leaves a color channel at, so that dark
/// scenes stay visible behind the selection overlay.
pub const DIM_FLOOR: u8 = 18;

/// A color channel of the dimmed overlay background: 55 % of `v`, rounded
/// to the nearest level (halves up), and never below `DIM_FLOOR`.
pub open spec fn dim_level(v: u8) -> u8 {
    let scaled = (v * 55 + 50) / 100;
    if scaled < DIM_FLOOR {
        DIM_FLOOR
    } else {
        scaled as u8
    }
}

/// Dims one color channel.
pub fn dim_channel(v: u8) -> (d: u8)
    ensures
        d == dim_level(v),
        d >= DIM_FLOOR,
        v > DIM_FLOOR ==> d < v,
        v <= DIM_FLOOR ==> d == DIM_FLOOR,
        d == DIM_FLOOR || (-50 < 100 * d - 55 * v <= 50),
        55 * v + 50 >= 100 * DIM_FLOOR ==> -50 < 100 * d - 55 * v <= 50,
{
    proof {
        lemma_dim_is_rounded_fraction(v);
    }
    let scaled = ((v as u32) * 55 + 50) / 100;
    if scaled < DIM_FLOOR as u32 {
        DIM_FLOOR
    } else {
        scaled as u8
    }
}

/// Law: dimming keeps the order of brightness levels.
pub proof fn lemma_dim_monotone(a: u8, b: u8)
    requires
        a <= b,
    ensures
        dim_level(a) <= dim_level(b),
{
    assert((a * 55 + 50) / 100 <= (b * 55 + 50) / 100) by (nonlinear_arith)
        requires
            a <= b,
    ;
}

/// Law: a dimmed level is 55 % of the original rounded to the nearest level
/// (halves up), unless that falls below `DIM_FLOOR`, which is used instead.
pub proof fn lemma_dim_is_rounded_fraction(v: u8)
    ensures
        dim_level(v) >= DIM_FLOOR,
        dim_level(v) == DIM_FLOOR || (-50 < 100 * dim_level(v) - 55 * v <= 50),
        55 * v + 50 >= 100 * DIM_FLOOR ==> -50 < 100 * dim_level(v) - 55 * v <= 50,
        55 * v + 50 < 100 * DIM_FLOOR ==> dim_level(v) == DIM_FLOOR,
{
    let n = v * 55 + 50;
    vstd::arithmetic::div_mod::lemma_fundamental_div_mod(n, 100);
}

/// The dimmed copy of a BGRA image: every color byte dimmed, every alpha
/// byte (the fourth of each pixel) kept.
pub open spec fn dimmed(bgra: Seq<u8>) -> Seq<u8> {
    Seq::new(
        bgra.len(),
        |i: int|
            if i % 4 == 3 {
                bgra[i]
            } else {
                dim_level(bgra[i])
            },
    )
}

/// Law: dimming keeps the length and every alpha byte, and dims each of the
/// three color bytes of every pixel on its own.
pub proof fn lemma_dimmed_values(bgra: Seq<u8>, k: int, c: int)
    requires
        0 <= 4 * k,
        4 * k + 3 < bgra.len(),
        0 <= c < 3,
    ensures
        dimmed(bgra).len() == bgra.len(),
        dimmed(bgra)[4 * k + 3] == bgra[4 * k + 3],
        dimmed(bgra)[4 * k + c] == dim_level(bgra[4 * k + c]),
{
    lemma_piece(4 * k + 3, 4, k, 3);
    lemma_piece(4 * k + c, 4, k, c);
}

/// Builds the dimmed background of the selection overlay.
pub fn make_dimmed(bgra: &[u8]) -> (out: Vec<u8>)
    ensures
        out@ == dimmed(bgra@),
{
    let mut out: Vec<u8> = Vec::new();
    let mut i: usize = 0;
    while i < bgra.len()
        invariant
            0 <= i <= bgra@.len(),
            out@ =~= dimmed(bgra@).take(i as int),
        decreases bgra.len() - i,
    {
        let v = bgra[i];
        if i % 4 == 3 {
            out.push(v);
        } else {
            out.push(dim_channel(v));
        }
        i += 1;
        assert(out@ =~= dimmed(bgra@).take(i as int));
    }
    assert(out@ =~= dimmed(bgra@));
    out
}


/// Byte offset, in a mapped surface whose rows are `pitch` bytes apart, of
/// pixel number `p` of an image `width` pixels wide, at `bpp` bytes per pixel.
pub open spec fn surface_offset(pitch: int, width: int, p: int, bpp: int) -> int {
    (p / width) * pitch + (p % width) * bpp
}

/// Which byte of a BGRA pixel holds channel `c` of an RGBA pixel.
pub open spec fn bgra_source(c: int) -> int {
    if c == 0 {
        2
    } else if c == 2 {
        0
    } else {
        c
    }
}

/// The RGBA bytes of a `width` by `height` desktop image read from an
/// 8-bit BGRA surface with rows `pitch` bytes apart: row padding skipped,
/// blue and red swapped, values unchanged.
pub open spec fn sdr_surface_pixels(data: Seq<u8>, pitch: int, width: int, height: int) -> Seq<u8> {
    Seq::new(
        (width * height * 4) as nat,
        |i: int| data[surface_offset(pitch, width, i / 4, 4) + bgra_source(i % 4)],
    )
}

/// The RGBA half-float bit patterns of a `width` by `height` desktop image
/// read from a 16-bit-per-channel RGBA surface with rows `pitch` bytes apart,
/// each channel stored least significant byte first.
pub open spec fn hdr_surface_bits(data: Seq<u8>, pitch: int, width: int, height: int) -> Seq<u16> {
    Seq::new(
        (width * height * 4) as nat,
        |i: int|
            {
                let at = surface_offset(pitch, width, i / 4, 8) + 2 * (i % 4);
                (data[at] + data[at + 1] * 256) as u16
            },
    )
}

/// Where pixel (`x`, `y`) sits among the pixels of an image `width` wide,
/// and where its source lies in a surface with rows `pitch` apart.
proof fn lemma_surface_position(pitch: int, width: int, height: int, y: int, x: int, bpp: int)
    requires
        0 <= y < height,
        0 <= x < width,
        pitch >= 0,
        bpp >= 0,
    ensures
        surface_offset(pitch, width, y * width + x, bpp) == y * pitch + x * bpp,
        0 <= y * width + x,
        (y * width + x + 1) * 4 <= width * height * 4,
        y * pitch <= (height - 1) * pitch,
        0 <= y * pitch,
{
    lemma_piece(y * width + x, width, y, x);
    assert((y * width + x + 1) <= width * height) by (nonlinear_arith)
        requires
            0 <= y < height,
            0 <= x < width,
    ;
    assert(y * pitch <= (height - 1) * pitch) by (nonlinear_arith)
        requires
            0 <= y < height,
            pitch >= 0,
    ;
    assert(0 <= y * pitch) by (nonlinear_arith)
        requires
            0 <= y,
            pitch >= 0,
    ;
    assert(0 <= y * width) by (nonlinear_arith)
        requires
            0 <= y,
            0 <= width,
    ;
}

/// Law: the red, green, blue and alpha values of pixel (`x`, `y`) are the
/// third, second, first and fourth bytes of its BGRA pixel, which starts at
/// byte `y * pitch + x * 4` of the surface.
pub proof fn lemma_sdr_surface_values(data: Seq<u8>, pitch: int, width: int, height: int, y: int, x: int)
    requires
        0 <= y < height,
        0 <= x < width,
        pitch >= 0,
    ensures
        sdr_surface_pixels(data, pitch, width, height).len() == width * height * 4,
        sdr_surface_pixels(data, pitch, width, height)[(y * width + x) * 4] == data[y * pitch + x * 4 + 2],
        sdr_surface_pixels(data, pitch, width, height)[(y * width + x) * 4 + 1] == data[y * pitch + x * 4 + 1],
        sdr_surface_pixels(data, pitch, width, height)[(y * width + x) * 4 + 2] == data[y * pitch + x * 4],
        sdr_surface_pixels(data, pitch, width, height)[(y * width + x) * 4 + 3] == data[y * pitch + x * 4 + 3],
{
    lemma_surface_position(pitch, width, height, y, x, 4);
    let p = y * width + x;
    lemma_piece(4 * p, 4, p, 0);
    lemma_piece(4 * p + 1, 4, p, 1);
    lemma_piece(4 * p + 2, 4, p, 2);
    lemma_piece(4 * p + 3, 4, p, 3);
    assert(0 <= width * height) by (nonlinear_arith)
        requires
            0 <= y < height,
            0 <= x < width,
    ;
}

/// Law: channel `c` of pixel (`x`, `y`) is the 16-bit word, least
/// significant byte first, at byte `y * pitch + x * 8 + 2 * c` of the surface.
pub proof fn lemma_hdr_surface_values(
    data: Seq<u8>,
    pitch: int,
    width: int,
    height: int,
    y: int,
    x: int,
    c: int,
)
    requires
        0 <= y < height,
        0 <= x < width,
        0 <= c < 4,
        pitch >= 0,
    ensures
        hdr_surface_bits(data, pitch, width, height).len() == width * height * 4,
        hdr_surface_bits(data, pitch, width, height)[(y * width + x) * 4 + c] == (data[y * pitch + x
            * 8 + 2 * c] + data[y * pitch + x * 8 + 2 * c + 1] * 256) as u16,
{
    lemma_surface_position(pitch, width, height, y, x, 8);
    let p = y * width + x;
    lemma_piece(4 * p + c, 4, p, c);
    assert(0 <= width * height) by (nonlinear_arith)
        requires
            0 <= y < height,
            0 <= x < width,
    ;
}

/// Reads the pixels of a mapped 8-bit BGRA desktop surface into RGBA order.
pub fn read_sdr_surface(data: &[u8], pitch: u32, width: u32, height: u32) -> (out: Vec<u8>)
    requires
        height > 0 ==> (height - 1) * pitch <= u32::MAX,
        height > 0 && width > 0 ==> (height - 1) * pitch + width * 4 <= data@.len(),
        width * height * 4 <= usize::MAX,
    ensures
        out@ == sdr_surface_pixels(data@, pitch as int, width as int, height as int),
{
    let ghost spec = sdr_surface_pixels(data@, pitch as int, width as int, height as int);
    let mut out: Vec<u8> = Vec::new();
    let mut y: u32 = 0;
    while y < height
        invariant
            0 <= y <= height,
            height > 0 ==> (height - 1) * pitch <= u32::MAX,
            height > 0 && width > 0 ==> (height - 1) * pitch + width * 4 <= data@.len(),
            width * height * 4 <= usize::MAX,
            spec == sdr_surface_pixels(data@, pitch as int, width as int, height as int),
            out@.len() == 4 * (y * width),
            out@ =~= spec.take(out@.len() as int),
        decreases height - y,
    {
        let mut x: u32 = 0;
        while x < width
            invariant
                0 <= x <= width,
                0 <= y < height,
                (height - 1) * pitch <= u32::MAX,
                width > 0 ==> (height - 1) * pitch + width * 4 <= data@.len(),
                width * height * 4 <= usize::MAX,
                spec == sdr_surface_pixels(data@, pitch as int, width as int, height as int),
                out@.len() == 4 * (y * width + x),
                out@ =~= spec.take(out@.len() as int),
            decreases width - x,
        {
            proof {
                lemma_surface_position(pitch as int, width as int, height as int, y as int, x as int, 4);
                assert(data@.len() == data.len());
                assert(y * pitch + x * 4 + 4 <= data@.len());
            }
            let row = y * pitch;
            let off = (row as usize) + (x as usize) * 4;
            let p: usize = (y as usize) * (width as usize) + (x as usize);
            let ghost before = out@;
            out.push(data[off + 2]);
            out.push(data[off + 1]);
            out.push(data[off]);
            out.push(data[off + 3]);
            proof {
                assert forall|c: int| 0 <= c < 4 implies #[trigger] out@[4 * p + c] == spec[4 * p + c] by {
                    lemma_piece(4 * p + c, 4, p as int, c);
                }
                assert(out@ =~= spec.take(out@.len() as int));
            }
            x += 1;
        }
        proof {
            assert(y * width + width == (y + 1) * width) by (nonlinear_arith);
        }
        y += 1;
    }
    proof {
        assert(4 * (height * width) == width * height * 4) by (nonlinear_arith);
    }
    assert(out@ =~= spec);
    out
}


/// The 16-bit word stored least significant byte first at `at`.
fn word_at(data: &[u8], at: usize) -> (v: u16)
    requires
        at + 1 < data@.len(),
    ensures
        v == (data@[at as int] + data@[at + 1] * 256) as u16,
        v as int == data@[at as int] + data@[at + 1] * 256,
{
    (data[at] as u16) + (data[at + 1] as u16) * 256
}

/// Reads the channels of a mapped 16-bit-per-channel RGBA desktop surface
/// as raw half-float bit patterns, in RGBA order.
pub fn read_hdr_surface(data: &[u8], pitch: u32, width: u32, height: u32) -> (out: Vec<u16>)
    requires
        height > 0 ==> (height - 1) * pitch <= u32::MAX,
        height > 0 && width > 0 ==> (height - 1) * pitch + width * 8 <= data@.len(),
        width * height * 4 <= usize::MAX,
    ensures
        out@ == hdr_surface_bits(data@, pitch as int, width as int, height as int),
{
    let ghost spec = hdr_surface_bits(data@, pitch as int, width as int, height as int);
    let mut out: Vec<u16> = Vec::new();
    let mut y: u32 = 0;
    while y < height
        invariant
            0 <= y <= height,
            height > 0 ==> (height - 1) * pitch <= u32::MAX,
            height > 0 && width > 0 ==> (height - 1) * pitch + width * 8 <= data@.len(),
            width * height * 4 <= usize::MAX,
            spec == hdr_surface_bits(data@, pitch as int, width as int, height as int),
            out@.len() == 4 * (y * width),
            out@ =~= spec.take(out@.len() as int),
        decreases height - y,
    {
        let mut x: u32 = 0;
        while x < width
            invariant
                0 <= x <= width,
                0 <= y < height,
                (height - 1) * pitch <= u32::MAX,
                width > 0 ==> (height - 1) * pitch + width * 8 <= data@.len(),
                width * height * 4 <= usize::MAX,
                spec == hdr_surface_bits(data@, pitch as int, width as int, height as int),
                out@.len() == 4 * (y * width + x),
                out@ =~= spec.take(out@.len() as int),
            decreases width - x,
        {
            proof {
                lemma_surface_position(pitch as int, width as int, height as int, y as int, x as int, 8);
                assert(data@.len() == data.len());
                assert(y * pitch + x * 8 + 8 <= data@.len());
            }
            let row = y * pitch;
            let off = (row as usize) + (x as usize) * 8;
            let p: usize = (y as usize) * (width as usize) + (x as usize);
            out.push(word_at(data, off));
            out.push(word_at(data, off + 2));
            out.push(word_at(data, off + 4));
            out.push(word_at(data, off + 6));
            proof {
                assert forall|c: int| 0 <= c < 4 implies #[trigger] out@[4 * p + c] == spec[4 * p + c] by {
                    lemma_piece(4 * p + c, 4, p as int, c);
                }
                assert(out@ =~= spec.take(out@.len() as int));
            }
            x += 1;
        }
        proof {
            assert(y * width + width == (y + 1) * width) by (nonlinear_arith);
        }
        y += 1;
    }
    proof {
        assert(4 * (height * width) == width * height * 4) by (nonlinear_arith);
    }
    assert(out@ =~= spec);
    out
}

/// Law: reading an 8-bit surface whose rows are packed (`pitch` is four
/// bytes per pixel) and swapping red and blue back gives the surface's bytes
/// unchanged: the SDR path reorders channels and never alters a value.
pub proof fn lemma_sdr_read_keeps_values(data: Seq<u8>, width: int, height: int)
    requires
        width > 0,
        height >= 0,
        width * height * 4 <= data.len(),
    ensures
        swap_red_blue(sdr_surface_pixels(data, 4 * width, width, height)) == data.take(
            width * height * 4,
        ),
{
    let t = sdr_surface_pixels(data, 4 * width, width, height);
    assert(0 <= width * height) by (nonlinear_arith)
        requires
            width > 0,
            height >= 0,
    ;
    assert(t.len() / 4 * 4 == t.len());
    assert forall|i: int|
        0 <= i < width * height * 4 implies #[trigger] swap_red_blue(t)[i] == data[i] by {
        let p = i / 4;
        let c = i % 4;
        lemma_piece(i, 4, p, c);
        let y = p / width;
        let x = p % width;
        vstd::arithmetic::div_mod::lemma_fundamental_div_mod(p, width);
        assert(p == y * width + x) by (nonlinear_arith)
            requires
                p == width * y + x,
        ;
        assert(y * (4 * width) + x * 4 == 4 * p) by (nonlinear_arith)
            requires
                p == y * width + x,
        ;
        assert(surface_offset(4 * width, width, p, 4) == 4 * p);
        if c == 0 {
            lemma_piece(i + 2, 4, p, 2);
        } else if c == 2 {
            lemma_piece(i - 2, 4, p, 0);
        }
    }
    assert(swap_red_blue(t) =~= data.take(width * height * 4));
}


/// The region `x`, `y`, `w`, `h` of an image `full_width` pixels wide with
/// four values per pixel: its rows one after the other, each `4 * w` values
/// taken from the image row `y + r` starting at column `x`.
pub open spec fn cropped<T>(px: Seq<T>, full_width: int, x: int, y: int, w: int, h: int) -> Seq<T> {
    Seq::new(
        (w * h * 4) as nat,
        |i: int| px[((y + i / (4 * w)) * full_width + x) * 4 + i % (4 * w)],
    )
}

/// Cuts the selected region out of a captured frame `full_width` pixels wide
/// whose pixels are four values each.
pub fn crop_region<T: Copy>(pixels: &[T], full_width: u32, rect: &SelectionRect) -> (out: Vec<T>)
    requires
        rect.y + rect.h <= u32::MAX,
        rect.h > 0 ==> (rect.y + rect.h - 1) * full_width + rect.x <= u32::MAX,
        rect.h > 0 ==> ((rect.y + rect.h - 1) * full_width + rect.x) * 4 + rect.w * 4
            <= pixels@.len(),
        rect.w * rect.h * 4 <= usize::MAX,
    ensures
        out@ == cropped(
            pixels@,
            full_width as int,
            rect.x as int,
            rect.y as int,
            rect.w as int,
            rect.h as int,
        ),
{
    let ghost fw = full_width as int;
    let ghost spec = cropped(pixels@, fw, rect.x as int, rect.y as int, rect.w as int, rect.h as int);
    let ghost n = 4 * rect.w;
    let mut out: Vec<T> = Vec::new();
    let end = rect.y + rect.h;
    let mut y: u32 = rect.y;
    while y < end
        invariant
            rect.y <= y <= end,
            end == rect.y + rect.h,
            rect.h > 0 ==> (rect.y + rect.h - 1) * full_width + rect.x <= u32::MAX,
            rect.h > 0 ==> ((rect.y + rect.h - 1) * full_width + rect.x) * 4 + rect.w * 4
                <= pixels@.len(),
            rect.w * rect.h * 4 <= usize::MAX,
            fw == full_width,
            n == 4 * rect.w,
            spec == cropped(pixels@, fw, rect.x as int, rect.y as int, rect.w as int, rect.h as int),
            out@.len() == (y - rect.y) * n,
            out@ =~= spec.take(out@.len() as int),
        decreases end - y,
    {
        proof {
            assert(y * fw <= (rect.y + rect.h - 1) * fw) by (nonlinear_arith)
                requires
                    y <= rect.y + rect.h - 1,
                    fw >= 0,
            ;
            assert(0 <= y * fw) by (nonlinear_arith)
                requires
                    y >= 0,
                    fw >= 0,
            ;
            assert(pixels@.len() == pixels.len());
            assert((y - rect.y + 1) * n <= rect.h * n) by (nonlinear_arith)
                requires
                    y - rect.y + 1 <= rect.h,
                    n >= 0,
            ;
            assert(rect.h * n == rect.w * rect.h * 4) by (nonlinear_arith)
                requires
                    n == 4 * rect.w,
            ;
        }
        let row_start = ((y * full_width + rect.x) as usize) * 4;
        let row_len = (rect.w as usize) * 4;
        let ghost r = (y - rect.y) as int;
        let ghost base = out@.len() as int;
        assert(base + n == (r + 1) * n) by (nonlinear_arith)
            requires
                base == r * n,
        ;
        let mut c: usize = 0;
        while c < row_len
            invariant
                0 <= c <= row_len,
                row_len == n,
                rect.y <= y < end,
                r == y - rect.y,
                base == r * n,
                base + n <= rect.w * rect.h * 4,
                row_start == (y * fw + rect.x) * 4,
                row_start + row_len <= pixels@.len(),
                pixels@.len() <= usize::MAX,
                fw == full_width,
                n == 4 * rect.w,
                spec == cropped(pixels@, fw, rect.x as int, rect.y as int, rect.w as int, rect.h as int),
                out@.len() == base + c,
                out@ =~= spec.take(out@.len() as int),
            decreases row_len - c,
        {
            out.push(pixels[row_start + c]);
            proof {
                lemma_piece(base + c, n, r, c as int);
                assert(out@ =~= spec.take(out@.len() as int));
            }
            c += 1;
        }
        y += 1;
    }
    proof {
        assert(rect.h * n == rect.w * rect.h * 4) by (nonlinear_arith)
            requires
                n == 4 * rect.w,
        ;
    }
    assert(out@ =~= spec);
    out
}

/// Law: value `j` of row `r` of a crop is frame value `j` from the start of
/// column `x` of frame row `y + r`, for every region.
pub proof fn lemma_crop_values<T>(px: Seq<T>, full_width: int, x: int, y: int, w: int, h: int, r: int, j: int)
    requires
        0 <= r < h,
        0 <= j < 4 * w,
    ensures
        cropped(px, full_width, x, y, w, h).len() == w * h * 4,
        cropped(px, full_width, x, y, w, h)[r * (4 * w) + j] == px[((y + r) * full_width + x) * 4
            + j],
{
    lemma_piece(r * (4 * w) + j, 4 * w, r, j);
    assert(0 <= r * (4 * w) + j < w * h * 4) by (nonlinear_arith)
        requires
            0 <= r < h,
            0 <= j < 4 * w,
    ;
}

/// Law: a crop starts at column `x` whatever its row: cropping the region
/// `x`, `y`, `w`, `h` gives the region `0`, `y`, `x + w`, `h` with the first
/// `4 * x` values of each row dropped.
pub proof fn lemma_crop_column_shift<T>(px: Seq<T>, full_width: int, x: int, y: int, w: int, h: int, r: int, j: int)
    requires
        x >= 0,
        0 <= r < h,
        0 <= j < 4 * w,
    ensures
        cropped(px, full_width, x, y, w, h)[r * (4 * w) + j] == cropped(
            px,
            full_width,
            0,
            y,
            x + w,
            h,
        )[r * (4 * (x + w)) + 4 * x + j],
{
    lemma_crop_values(px, full_width, x, y, w, h, r, j);
    lemma_crop_values(px, full_width, 0, y, x + w, h, r, 4 * x + j);
}

/// Law: cropping the whole frame gives the frame back.
pub proof fn lemma_crop_whole_frame<T>(px: Seq<T>, width: int, height: int)
    requires
        width > 0,
        height >= 0,
        width * height * 4 <= px.len(),
    ensures
        cropped(px, width, 0, 0, width, height) == px.take(width * height * 4),
{
    let c = cropped(px, width, 0, 0, width, height);
    assert(0 <= width * height) by (nonlinear_arith)
        requires
            width > 0,
            height >= 0,
    ;
    assert forall|i: int| 0 <= i < width * height * 4 implies #[trigger] c[i] == px[i] by {
        vstd::arithmetic::div_mod::lemma_fundamental_div_mod(i, 4 * width);
        let q = i / (4 * width);
        let m = i % (4 * width);
        assert(q * width * 4 + m == i) by (nonlinear_arith)
            requires
                i == (4 * width) * q + m,
        ;
    }
    assert(c =~= px.take(width * height * 4));
}


/// The bytes of 16-bit words laid out one after the other, each least
/// significant byte first.
pub open spec fn le_word_bytes(words: Seq<u16>) -> Seq<u8> {
    Seq::new(
        2 * words.len(),
        |i: int|
            if i % 2 == 0 {
                (words[i / 2] % 256) as u8
            } else {
                (words[i / 2] / 256) as u8
            },
    )
}

/// Lays out half-float bit patterns as the bytes of a 64-bit RGBA half-float
/// image buffer, each word least significant byte first.
pub fn half_words_to_bytes(words: &[u16]) -> (bytes: Vec<u8>)
    requires
        2 * words@.len() <= usize::MAX,
    ensures
        bytes@ == le_word_bytes(words@),
{
    let mut out: Vec<u8> = Vec::new();
    let mut k: usize = 0;
    while k < words.len()
        invariant
            0 <= k <= words@.len(),
            2 * words@.len() <= usize::MAX,
            out@.len() == 2 * k,
            forall|j: int| 0 <= j < out@.len() ==> #[trigger] out@[j] == le_word_bytes(words@)[j],
        decreases words.len() - k,
    {
        let w = words[k];
        let ghost before = out@;
        out.push((w % 256) as u8);
        out.push((w / 256) as u8);
        assert forall|j: int| 0 <= j < out@.len() implies #[trigger] out@[j] == le_word_bytes(
            words@,
        )[j] by {
            if j < 2 * k {
                assert(out@[j] == before[j]);
            } else {
                lemma_piece(j, 2, k as int, j - 2 * k);
            }
        }
        k += 1;
    }
    assert(out@ =~= le_word_bytes(words@));
    out
}

/// Law: word `k` is laid out as two bytes, low byte first, at bytes `2 * k`
/// and `2 * k + 1`.
pub proof fn lemma_le_word_bytes_values(words: Seq<u16>, k: int)
    requires
        0 <= k < words.len(),
    ensures
        le_word_bytes(words).len() == 2 * words.len(),
        le_word_bytes(words)[2 * k] + 256 * le_word_bytes(words)[2 * k + 1] == words[k],
{
    lemma_piece(2 * k, 2, k, 0);
    lemma_piece(2 * k + 1, 2, k, 1);
    let v = words[k];
    assert((v % 256) + (v / 256) * 256 == v);
}

/// Law: the bytes laid out for an HDR image file, read back as a packed
/// 16-bit RGBA surface (`pitch` of eight bytes per pixel), give back every
/// half-float bit pattern: the HDR path carries the captured values
/// through unchanged.
pub proof fn lemma_hdr_bytes_roundtrip(words: Seq<u16>, width: int, height: int)
    requires
        width > 0,
        height >= 0,
        words.len() == width * height * 4,
    ensures
        hdr_surface_bits(le_word_bytes(words), 8 * width, width, height) == words,
{
    let bytes = le_word_bytes(words);
    let t = hdr_surface_bits(bytes, 8 * width, width, height);
    assert forall|i: int| 0 <= i < words.len() implies #[trigger] t[i] == words[i] by {
        let p = i / 4;
        let c = i % 4;
        lemma_piece(i, 4, p, c);
        let y = p / width;
        let x = p % width;
        vstd::arithmetic::div_mod::lemma_fundamental_div_mod(p, width);
        assert(p == y * width + x) by (nonlinear_arith)
            requires
                p == width * y + x,
        ;
        assert(y * (8 * width) + x * 8 == 8 * p) by (nonlinear_arith)
            requires
                p == y * width + x,
        ;
        let at = surface_offset(8 * width, width, p, 8) + 2 * c;
        assert(at == 2 * i);
        lemma_piece(2 * i, 2, i, 0);
        lemma_piece(2 * i + 1, 2, i, 1);
        let v = words[i];
        assert(bytes[2 * i] == (v % 256) as u8);
        assert(bytes[2 * i + 1] == (v / 256) as u8);
        assert((v % 256) + (v / 256) * 256 == v);
    }
    assert(t =~= words);
}

} // verus!
