//! Device-independent bitmaps (DIB) as the Windows clipboard carries them,
//! and their conversion to and from plain RGBA pixel buffers.

use vstd::prelude::*;

verus! {

/// Why an image could not be converted.
#[derive(Debug, Clone, Copy, PartialEq, Eq, Structural)]
pub enum ImageError {
    /// The DIB is shorter than its fixed 40-byte header.
    DibTooShort,
    /// The header size field is below 40 or beyond the data.
    UnsupportedHeader,
    /// Width, height, plane count or bit depth is not a plain 24/32-bit bitmap.
    UnsupportedFormat,
    /// The bitmap uses a compression other than none or bit fields.
    Compressed,
    /// The pixel area does not fit in memory addresses.
    TooLarge,
    /// The data ends before the last pixel row.
    Truncated,
    /// The PNG data could not be decoded.
    Undecodable,
    /// The width does not fit the signed 32-bit header field.
    TooWide,
    /// The height does not fit the signed 32-bit header field.
    TooTall,
    /// The input is larger than the configured limit.
    InputTooLarge,
    /// The image has no pixels.
    Empty,
    /// The PNG encoder reported a failure.
    EncodeFailed,
}

/// The user-facing description of each image error.
pub open spec fn image_error_message(e: ImageError) -> Seq<char> {
    match e {
        ImageError::DibTooShort => "DIB 数据过短"@,
        ImageError::UnsupportedHeader => "不支持的 DIB 头"@,
        ImageError::UnsupportedFormat => "仅支持 24/32 位 DIB"@,
        ImageError::Compressed => "不支持压缩 DIB"@,
        ImageError::TooLarge => "图片过大"@,
        ImageError::Truncated => "DIB 像素数据不完整"@,
        ImageError::Undecodable => "无法解码图片"@,
        ImageError::TooWide => "图片过宽"@,
        ImageError::TooTall => "图片过高"@,
        ImageError::InputTooLarge => "图片输入超过限制"@,
        ImageError::Empty => "空图片"@,
        ImageError::EncodeFailed => "PNG 编码失败"@,
    }
}

impl ImageError {
    /// The user-facing description of the error.
    pub fn message(&self) -> (r: &'static str)
        ensures
            r@ == image_error_message(*self),
    {
        match self {
            ImageError::DibTooShort => "DIB 数据过短",
            ImageError::UnsupportedHeader => "不支持的 DIB 头",
            ImageError::UnsupportedFormat => "仅支持 24/32 位 DIB",
            ImageError::Compressed => "不支持压缩 DIB",
            ImageError::TooLarge => "图片过大",
            ImageError::Truncated => "DIB 像素数据不完整",
            ImageError::Undecodable => "无法解码图片",
            ImageError::TooWide => "图片过宽",
            ImageError::TooTall => "图片过高",
            ImageError::InputTooLarge => "图片输入超过限制",
            ImageError::Empty => "空图片",
            ImageError::EncodeFailed => "PNG 编码失败",
        }
    }
}

/// An image held as rows of RGBA pixels, top row first, four bytes per pixel.
pub struct Bitmap {
    pub width: u32,
    pub height: u32,
    pub pixels: Vec<u8>,
}

impl Bitmap {
    /// The pixel buffer holds exactly `width * height` RGBA pixels.
    pub open spec fn well_formed(&self) -> bool {
        self.pixels@.len() == self.width * self.height * 4
    }
}

/* Little-endian fields */

/// The unsigned 16-bit little-endian value stored at `at`.
pub open spec fn le_u16(b: Seq<u8>, at: int) -> int {
    b[at] + 256 * b[at + 1]
}

/// The unsigned 32-bit little-endian value stored at `at`.
pub open spec fn le_u32(b: Seq<u8>, at: int) -> int {
    b[at] + 256 * b[at + 1] + 65536 * b[at + 2] + 16777216 * b[at + 3]
}

/// The two's-complement 32-bit little-endian value stored at `at`.
pub open spec fn le_i32(b: Seq<u8>, at: int) -> int {
    let u = le_u32(b, at);
    if u >= 0x8000_0000 {
        u - 0x1_0000_0000
    } else {
        u
    }
}

/// The four little-endian bytes of `v`, which lies in `0..2^32`.
pub open spec fn le_bytes_u32(v: int) -> Seq<u8> {
    seq![(v % 256) as u8, ((v / 256) % 256) as u8, ((v / 65536) % 256) as u8, ((v / 16777216) % 256) as u8]
}

/// The two little-endian bytes of `v`, which lies in `0..2^16`.
pub open spec fn le_bytes_u16(v: int) -> Seq<u8> {
    seq![(v % 256) as u8, ((v / 256) % 256) as u8]
}

/// Reads the unsigned 16-bit little-endian value at `at`.
pub fn read_u16(bytes: &[u8], at: usize) -> (v: u16)
    requires
        at + 2 <= bytes@.len(),
    ensures
        v == le_u16(bytes@, at as int),
{
    bytes[at] as u16 + 256 * (bytes[at + 1] as u16)
}

/// Reads the unsigned 32-bit little-endian value at `at`.
pub fn read_u32(bytes: &[u8], at: usize) -> (v: u32)
    requires
        at + 4 <= bytes@.len(),
    ensures
        v == le_u32(bytes@, at as int),
{
    bytes[at] as u32 + 256 * (bytes[at + 1] as u32) + 65536 * (bytes[at + 2] as u32) + 16777216 * (
    bytes[at + 3] as u32)
}

/// Reads the two's-complement 32-bit little-endian value at `at`.
pub fn read_i32(bytes: &[u8], at: usize) -> (v: i32)
    requires
        at + 4 <= bytes@.len(),
    ensures
        v == le_i32(bytes@, at as int),
{
    let u = read_u32(bytes, at);
    if u >= 0x8000_0000 {
        ((u - 0x8000_0000) as i32) - 0x7FFF_FFFF - 1
    } else {
        u as i32
    }
}

proof fn lemma_le_u32_bytes(v: u32)
    ensures
        (v % 256) + 256 * ((v / 256) % 256) + 65536 * ((v / 65536) % 256) + 16777216 * ((v
            / 16777216) % 256) == v,
{
    assert((v % 256) + 256 * ((v / 256) % 256) + 65536 * ((v / 65536) % 256) + 16777216 * ((v
        / 16777216) % 256) == v) by (bit_vector);
}

/// Appends the little-endian bytes of `value`.
pub fn write_u16(bytes: &mut Vec<u8>, value: u16)
    ensures
        final(bytes)@ == old(bytes)@ + le_bytes_u16(value as int),
{
    bytes.push((value % 256) as u8);
    bytes.push((value / 256) as u8);
    assert(final(bytes)@ =~= old(bytes)@ + le_bytes_u16(value as int));
}

/// Appends the little-endian bytes of `value`.
pub fn write_u32(bytes: &mut Vec<u8>, value: u32)
    ensures
        final(bytes)@ == old(bytes)@ + le_bytes_u32(value as int),
{
    bytes.push((value % 256) as u8);
    bytes.push(((value / 256) % 256) as u8);
    bytes.push(((value / 65536) % 256) as u8);
    bytes.push(((value / 16777216) % 256) as u8);
    assert(final(bytes)@ =~= old(bytes)@ + le_bytes_u32(value as int));
}

/// Appends the little-endian two's-complement bytes of `value`.
pub fn write_i32(bytes: &mut Vec<u8>, value: i32)
    ensures
        final(bytes)@ == old(bytes)@ + le_bytes_u32(
            if value < 0 {
                value + 0x1_0000_0000
            } else {
                value as int
            },
        ),
{
    let bits: u32 = if value < 0 {
        ((value + 0x7FFF_FFFF + 1) as u32) + 0x8000_0000
    } else {
        value as u32
    };
    write_u32(bytes, bits);
}


/* Decoding a DIB */

/// Header size field.
pub open spec fn dib_header_size(d: Seq<u8>) -> int {
    le_u32(d, 0)
}

/// Signed width field.
pub open spec fn dib_width(d: Seq<u8>) -> int {
    le_i32(d, 4)
}

/// Signed height field; negative means the rows are stored top-down.
pub open spec fn dib_height(d: Seq<u8>) -> int {
    le_i32(d, 8)
}

/// Number of pixel rows.
pub open spec fn dib_rows(d: Seq<u8>) -> int {
    if dib_height(d) < 0 {
        -dib_height(d)
    } else {
        dib_height(d)
    }
}

/// Bits per pixel.
pub open spec fn dib_bits(d: Seq<u8>) -> int {
    le_u16(d, 14)
}

/// Compression field.
pub open spec fn dib_compression(d: Seq<u8>) -> int {
    le_u32(d, 16)
}

/// Where the pixel rows start: after the header, and after the three colour
/// masks that follow a 40-byte header of a bit-field bitmap.
pub open spec fn dib_pixel_offset(d: Seq<u8>) -> int {
    dib_header_size(d) + if dib_header_size(d) == 40 && dib_compression(d) == 3 {
        12int
    } else {
        0int
    }
}

/// Bytes per stored row: whole pixels rounded up to a multiple of four bytes.
pub open spec fn dib_row_stride(d: Seq<u8>) -> int {
    (dib_width(d) * dib_bits(d) + 31) / 32 * 4
}

/// Bytes the header and all rows occupy.
pub open spec fn dib_required_len(d: Seq<u8>) -> int {
    dib_pixel_offset(d) + dib_row_stride(d) * dib_rows(d)
}

/// Why `d` cannot be decoded, if it cannot.
pub open spec fn dib_problem(d: Seq<u8>) -> Option<ImageError> {
    if d.len() < 40 {
        Some(ImageError::DibTooShort)
    } else if dib_header_size(d) < 40 || dib_header_size(d) > d.len() {
        Some(ImageError::UnsupportedHeader)
    } else if dib_width(d) <= 0 || dib_height(d) == 0 || le_u16(d, 12) != 1 || !(dib_bits(d) == 24
        || dib_bits(d) == 32) {
        Some(ImageError::UnsupportedFormat)
    } else if !(dib_compression(d) == 0 || dib_compression(d) == 3) {
        Some(ImageError::Compressed)
    } else if dib_required_len(d) > u64::MAX {
        Some(ImageError::TooLarge)
    } else if dib_required_len(d) > d.len() {
        Some(ImageError::Truncated)
    } else {
        None
    }
}

/// Where the stored pixel that becomes output pixel (`x`, `y`) starts; output
/// row 0 is the top row.
pub open spec fn dib_source(d: Seq<u8>, x: int, y: int) -> int {
    let stored_row = if dib_height(d) < 0 {
        y
    } else {
        dib_rows(d) - 1 - y
    };
    dib_pixel_offset(d) + stored_row * dib_row_stride(d) + x * (dib_bits(d) / 8)
}

/// Channel `c` (red, green, blue, alpha) of output pixel (`x`, `y`) as stored:
/// the DIB keeps blue, green, red and, at 32 bits, alpha; 24-bit pixels are opaque.
pub open spec fn dib_channel(d: Seq<u8>, x: int, y: int, c: int) -> u8 {
    let s = dib_source(d, x, y);
    if c == 0 {
        d[s + 2]
    } else if c == 1 {
        d[s + 1]
    } else if c == 2 {
        d[s]
    } else if dib_bits(d) == 32 {
        d[s + 3]
    } else {
        255u8
    }
}

/// A 32-bit DIB whose every alpha byte is zero, which Windows uses for
/// bitmaps that carry no alpha at all.
pub open spec fn dib_alpha_unused(d: Seq<u8>) -> bool {
    &&& dib_bits(d) == 32
    &&& forall|x: int, y: int|
        0 <= x < dib_width(d) && 0 <= y < dib_rows(d) ==> #[trigger] dib_channel(d, x, y, 3) == 0
}

/// Channel `c` of output pixel (`x`, `y`), with unused alpha read as opaque.
pub open spec fn dib_output(d: Seq<u8>, x: int, y: int, c: int) -> u8 {
    if c == 3 && dib_alpha_unused(d) {
        255u8
    } else {
        dib_channel(d, x, y, c)
    }
}

/// The RGBA pixels of a decodable DIB, top row first.
pub open spec fn dib_rgba(d: Seq<u8>) -> Seq<u8> {
    grid(dib_width(d), dib_rows(d), |x: int, y: int, c: int| dib_output(d, x, y, c))
}

/// The sequence of `w * h * 4` bytes whose byte for channel `c` of pixel
/// (`x`, `y`) is `f(x, y, c)`, row by row.
pub open spec fn grid(w: int, h: int, f: spec_fn(int, int, int) -> u8) -> Seq<u8> {
    Seq::new((w * h * 4) as nat, |i: int| f((i / 4) % w, (i / 4) / w, i % 4))
}

/// Bounds of the byte of channel `c` of pixel (`x`, `y`) in a `w`-wide grid.
pub proof fn lemma_grid_index(w: int, h: int, x: int, y: int, c: int)
    requires
        0 <= x < w,
        0 <= y < h,
        0 <= c < 4,
    ensures
        0 <= (y * w + x) * 4 + c < w * h * 4,
        (y * w + x) * 4 + c < (y * w + x + 1) * 4,
        (y * w + w) * 4 == ((y + 1) * w) * 4,
        ((y + 1) * w) * 4 <= w * h * 4,
        0 <= y * w,
{
    assert(0 <= (y * w + x) * 4 + c < w * h * 4) by (nonlinear_arith)
        requires
            0 <= x < w,
            0 <= y < h,
            0 <= c < 4,
    ;
    assert(((y + 1) * w) * 4 <= w * h * 4) by (nonlinear_arith)
        requires
            0 <= x < w,
            0 <= y < h,
    ;
    assert(0 <= y * w) by (nonlinear_arith)
        requires
            0 <= x < w,
            0 <= y < h,
    ;
    assert((y * w + w) * 4 == ((y + 1) * w) * 4) by (nonlinear_arith);
}

/// A byte sequence given channel by channel is the grid of its channels.
pub proof fn lemma_grid_ext(s: Seq<u8>, w: int, h: int, f: spec_fn(int, int, int) -> u8)
    requires
        w > 0,
        h >= 0,
        s.len() == w * h * 4,
        forall|x: int, y: int, c: int|
            0 <= x < w && 0 <= y < h && 0 <= c < 4 ==> s[(y * w + x) * 4 + c] == #[trigger] f(x, y, c),
    ensures
        s == grid(w, h, f),
{
    let g = grid(w, h, f);
    assert forall|i: int| 0 <= i < s.len() implies s[i] == g[i] by {
        let p = i / 4;
        let c = i % 4;
        let x = p % w;
        let y = p / w;
        vstd::arithmetic::div_mod::lemma_fundamental_div_mod(i, 4);
        vstd::arithmetic::div_mod::lemma_fundamental_div_mod(p, w);
        vstd::arithmetic::div_mod::lemma_mod_pos_bound(p, w);
        vstd::arithmetic::div_mod::lemma_div_pos_is_pos(p, w);
        assert(p < w * h) by (nonlinear_arith)
            requires
                p == i / 4,
                0 <= i < w * h * 4,
        ;
        assert(y < h) by (nonlinear_arith)
            requires
                y == p / w,
                p == w * y + x,
                0 <= x < w,
                p < w * h,
                w > 0,
        ;
        assert(i == (y * w + x) * 4 + c) by (nonlinear_arith)
            requires
                i == 4 * p + c,
                p == w * y + x,
        ;
    }
    assert(s =~= g);
}

proof fn lemma_stride_covers_row(w: int, bits: int)
    requires
        w > 0,
        bits == 24 || bits == 32,
    ensures
        (w * bits + 31) / 32 * 4 >= w * (bits / 8),
        (w * bits + 31) / 32 * 4 >= 0,
{
    assert((w * bits + 31) / 32 * 4 >= w * (bits / 8)) by (nonlinear_arith)
        requires
            w > 0,
            bits == 24 || bits == 32,
    ;
}

proof fn lemma_source_in_bounds(off: int, stride: int, rows: int, bpp: int, w: int, sy: int, x: int)
    requires
        0 <= sy < rows,
        0 <= x < w,
        stride >= w * bpp,
        bpp == 3 || bpp == 4,
        off >= 0,
    ensures
        0 <= off + sy * stride + x * bpp,
        0 <= sy * stride,
        0 <= x * bpp,
        off + sy * stride + x * bpp + bpp <= off + stride * rows,
{
    assert(0 <= sy * stride) by (nonlinear_arith)
        requires
            0 <= sy < rows,
            stride >= w * bpp,
            w > 0,
            bpp >= 0,
    ;
    assert(0 <= x * bpp) by (nonlinear_arith)
        requires
            0 <= x,
            bpp >= 0,
    ;
    assert(0 <= sy * stride + x * bpp) by (nonlinear_arith)
        requires
            0 <= sy < rows,
            0 <= x < w,
            stride >= w * bpp,
            bpp >= 0,
    ;
    assert(sy * stride + x * bpp + bpp <= stride * rows) by (nonlinear_arith)
        requires
            0 <= sy < rows,
            0 <= x < w,
            stride >= w * bpp,
            bpp >= 0,
    ;
}

/// Each decoded pixel takes its colours from the stored pixel at the same
/// place, which a DIB keeps as blue, green, red (and alpha at 32 bits): red
/// is the stored pixel's third byte, green its second and blue its first.
/// Rows are stored bottom-up unless the height is negative, each padded to
/// whole four-byte words, after the header (and after the three colour
/// masks of a 40-byte bit-field header). A 24-bit pixel is opaque.
pub proof fn lemma_decoded_colours(d: Seq<u8>, x: int, y: int)
    requires
        dib_problem(d) is None,
        0 <= x < le_i32(d, 4),
        0 <= y < (if le_i32(d, 8) < 0 { -le_i32(d, 8) } else { le_i32(d, 8) }),
    ensures
        ({
            let width = le_i32(d, 4);
            let height = le_i32(d, 8);
            let rows = if height < 0 { -height } else { height };
            let bits = le_u16(d, 14);
            let start = le_u32(d, 0) + if le_u32(d, 0) == 40 && le_u32(d, 16) == 3 { 12int } else { 0int };
            let stride = (width * bits + 31) / 32 * 4;
            let stored_row = if height < 0 { y } else { rows - 1 - y };
            let s = start + stored_row * stride + x * (bits / 8);
            let at = (y * width + x) * 4;
            &&& 0 <= s && s + 2 < d.len()
            &&& dib_rgba(d).len() == width * rows * 4
            &&& dib_rgba(d)[at] == d[s + 2]
            &&& dib_rgba(d)[at + 1] == d[s + 1]
            &&& dib_rgba(d)[at + 2] == d[s]
            &&& bits == 24 ==> dib_rgba(d)[at + 3] == 255
        }),
{
    let w = dib_width(d);
    let h = dib_rows(d);
    let f = |x: int, y: int, c: int| dib_output(d, x, y, c);
    lemma_grid_at(w, h, f, x, y, 0);
    lemma_grid_at(w, h, f, x, y, 1);
    lemma_grid_at(w, h, f, x, y, 2);
    lemma_grid_at(w, h, f, x, y, 3);
    lemma_stride_covers_row(w, dib_bits(d));
    lemma_source_in_bounds(
        dib_pixel_offset(d),
        dib_row_stride(d),
        h,
        dib_bits(d) / 8,
        w,
        if dib_height(d) < 0 { y } else { h - 1 - y },
        x,
    );
}

/// Decodes a 24- or 32-bit uncompressed or bit-field DIB into RGBA pixels, top
/// row first. A 32-bit DIB whose alpha bytes are all zero becomes opaque.
pub fn decode_dib(dib: &[u8]) -> (r: Result<Bitmap, ImageError>)
    requires
        dib@.len() <= isize::MAX,
    ensures
        match dib_problem(dib@) {
            Some(e) => r == Err::<Bitmap, ImageError>(e),
            None => r matches Ok(b) && b.width == dib_width(dib@) && b.height == dib_rows(dib@)
                && b.pixels@ == dib_rgba(dib@),
        },
{
    if dib.len() < 40 {
        return Err(ImageError::DibTooShort);
    }
    let header_size = read_u32(dib, 0);
    if header_size < 40 || header_size as usize > dib.len() {
        return Err(ImageError::UnsupportedHeader);
    }
    let width_signed = read_i32(dib, 4);
    let height_signed = read_i32(dib, 8);
    let planes = read_u16(dib, 12);
    let bits = read_u16(dib, 14);
    let compression = read_u32(dib, 16);
    if width_signed <= 0 || height_signed == 0 || planes != 1 || !(bits == 24 || bits == 32) {
        return Err(ImageError::UnsupportedFormat);
    }
    if !(compression == 0 || compression == 3) {
        return Err(ImageError::Compressed);
    }
    let width = width_signed as u32;
    let height: u32 = if height_signed < 0 {
        (-(height_signed as i64)) as u32
    } else {
        height_signed as u32
    };
    let masks_size: u64 = if header_size == 40 && compression == 3 {
        12
    } else {
        0
    };
    let pixel_offset: u64 = header_size as u64 + masks_size;
    assert(width as u64 * bits as u64 <= 0x8000_0000u64 * 32) by (nonlinear_arith)
        requires
            width <= 0x7FFF_FFFF,
            bits <= 32,
    ;
    let row_stride: u64 = (width as u64 * bits as u64 + 31) / 32 * 4;
    let rows_size = match row_stride.checked_mul(height as u64) {
        Some(size) => size,
        None => return Err(ImageError::TooLarge),
    };
    let required = match pixel_offset.checked_add(rows_size) {
        Some(size) => size,
        None => return Err(ImageError::TooLarge),
    };
    if required > dib.len() as u64 {
        return Err(ImageError::Truncated);
    }
    let ghost d = dib@;
    let ghost w = width as int;
    let ghost h = height as int;
    proof {
        lemma_stride_covers_row(w, bits as int);
        assert(row_stride * height <= required);
        assert(row_stride <= row_stride * height) by (nonlinear_arith)
            requires
                height >= 1,
        ;
        assert(3 * (w * h * 4) <= 4 * required) by (nonlinear_arith)
            requires
                row_stride >= w * (bits as int / 8),
                bits as int / 8 >= 3,
                row_stride * h <= required,
                w > 0,
                h > 0,
        ;
        assert(w * h * 4 <= usize::MAX);
    }
    let pixel_offset = pixel_offset as usize;
    let row_stride = row_stride as usize;
    let top_down = height_signed < 0;
    let bytes_per_pixel: usize = (bits / 8) as usize;
    let mut rgba: Vec<u8> = Vec::new();
    let mut all_alpha_zero = bits == 32;
    let mut output_y: u32 = 0;
    while output_y < height
        invariant
            d == dib@,
            dib_problem(d) is None,
            w == width,
            h == height,
            w == dib_width(d),
            h == dib_rows(d),
            row_stride == dib_row_stride(d),
            pixel_offset == dib_pixel_offset(d),
            bytes_per_pixel == dib_bits(d) / 8,
            bits == dib_bits(d),
            top_down == (dib_height(d) < 0),
            row_stride >= w * bytes_per_pixel,
            pixel_offset + row_stride * h <= d.len(),
            d.len() <= usize::MAX,
            w * h * 4 <= usize::MAX,
            0 <= output_y <= height,
            rgba@.len() == (output_y * w) * 4,
            forall|x: int, y: int, c: int|
                0 <= x < w && 0 <= y < output_y && 0 <= c < 4 ==> rgba@[(y * w + x) * 4 + c]
                    == #[trigger] dib_channel(d, x, y, c),
            all_alpha_zero == (bits == 32 && forall|x: int, y: int|
                0 <= x < w && 0 <= y < output_y ==> #[trigger] dib_channel(d, x, y, 3) == 0),
        decreases height - output_y,
    {
        let source_y: usize = if top_down {
            output_y as usize
        } else {
            (height - 1 - output_y) as usize
        };
        let mut x: u32 = 0;
        while x < width
            invariant
                d == dib@,
                dib_problem(d) is None,
                w == width,
                h == height,
                w == dib_width(d),
                h == dib_rows(d),
                row_stride == dib_row_stride(d),
                pixel_offset == dib_pixel_offset(d),
                bytes_per_pixel == dib_bits(d) / 8,
                bits == dib_bits(d),
                top_down == (dib_height(d) < 0),
                row_stride >= w * bytes_per_pixel,
                pixel_offset + row_stride * h <= d.len(),
                d.len() <= usize::MAX,
                w * h * 4 <= usize::MAX,
                0 <= output_y < height,
                source_y == (if top_down {
                    output_y as int
                } else {
                    h - 1 - output_y
                }),
                0 <= x <= width,
                rgba@.len() == (output_y * w + x) * 4,
                forall|x1: int, y1: int, c: int|
                    0 <= x1 < w && 0 <= y1 < output_y && 0 <= c < 4 ==> rgba@[(y1 * w + x1) * 4
                        + c] == #[trigger] dib_channel(d, x1, y1, c),
                forall|x1: int, c: int|
                    0 <= x1 < x && 0 <= c < 4 ==> rgba@[(output_y * w + x1) * 4 + c]
                        == #[trigger] dib_channel(d, x1, output_y as int, c),
                all_alpha_zero == (bits == 32 && (forall|x1: int, y1: int|
                    0 <= x1 < w && 0 <= y1 < output_y ==> #[trigger] dib_channel(d, x1, y1, 3)
                        == 0) && (forall|x1: int|
                    0 <= x1 < x ==> #[trigger] dib_channel(d, x1, output_y as int, 3) == 0)),
            decreases width - x,
        {
            proof {
                lemma_source_in_bounds(
                    pixel_offset as int,
                    row_stride as int,
                    h,
                    bytes_per_pixel as int,
                    w,
                    source_y as int,
                    x as int,
                );
                lemma_grid_index(w, h, x as int, output_y as int, 3);
            }
            let source = pixel_offset + source_y * row_stride + x as usize * bytes_per_pixel;
            assert(source == dib_source(d, x as int, output_y as int));
            let alpha = if bits == 32 {
                dib[source + 3]
            } else {
                255u8
            };
            let ghost before = rgba@;
            rgba.push(dib[source + 2]);
            rgba.push(dib[source + 1]);
            rgba.push(dib[source]);
            rgba.push(alpha);
            all_alpha_zero = all_alpha_zero && alpha == 0;
            proof {
                let y0 = output_y as int;
                if bits == 32 {
                    assert(alpha == dib_channel(d, x as int, y0, 3));
                }
                assert((forall|x1: int|
                    0 <= x1 < x + 1 ==> #[trigger] dib_channel(d, x1, y0, 3) == 0) == ((forall|x1: int|
                    0 <= x1 < x ==> #[trigger] dib_channel(d, x1, y0, 3) == 0) && dib_channel(
                    d,
                    x as int,
                    y0,
                    3,
                ) == 0));
            }
            proof {
                let y0 = output_y as int;
                let x0 = x as int;
                assert forall|x1: int, y1: int, c: int|
                    0 <= x1 < w && 0 <= y1 < output_y && 0 <= c < 4 implies rgba@[(y1 * w + x1) * 4
                    + c] == dib_channel(d, x1, y1, c) by {
                    lemma_grid_index(w, h, x1, y1, c);
                    assert((y1 * w + x1) * 4 + c < (y0 * w) * 4) by (nonlinear_arith)
                        requires
                            0 <= x1 < w,
                            0 <= y1 < y0,
                            0 <= c < 4,
                    ;
                }
                assert forall|x1: int, c: int|
                    0 <= x1 < x + 1 && 0 <= c < 4 implies rgba@[(y0 * w + x1) * 4 + c]
                    == dib_channel(d, x1, y0, c) by {
                    if x1 < x0 {
                        assert((y0 * w + x1) * 4 + c < (y0 * w + x0) * 4) by (nonlinear_arith)
                            requires
                                0 <= x1 < x0,
                                0 <= c < 4,
                        ;
                    } else {
                        assert((y0 * w + x1) * 4 + c == (y0 * w + x0) * 4 + c);
                    }
                }
                assert(rgba@.len() == (y0 * w + x0 + 1) * 4) by (nonlinear_arith)
                    requires
                        rgba@.len() == before.len() + 4,
                        before.len() == (y0 * w + x0) * 4,
                ;
            }
            x = x + 1;
        }
        proof {
            lemma_grid_index(w, h, 0, output_y as int, 0);
            let y0 = output_y as int;
            assert forall|x1: int, y1: int, c: int|
                0 <= x1 < w && 0 <= y1 < y0 + 1 && 0 <= c < 4 implies rgba@[(y1 * w + x1) * 4 + c]
                == dib_channel(d, x1, y1, c) by {
                if y1 == y0 {
                } else {
                }
            }
            assert(rgba@.len() == ((y0 + 1) * w) * 4) by (nonlinear_arith)
                requires
                    rgba@.len() == (y0 * w + w) * 4,
            ;
        }
        output_y = output_y + 1;
    }
    let total = rgba.len();
    proof {
        assert(total == w * h * 4) by (nonlinear_arith)
            requires
                total == (h * w) * 4,
        ;
        lemma_grid_ext(rgba@, w, h, |x: int, y: int, c: int| dib_channel(d, x, y, c));
        assert(all_alpha_zero == dib_alpha_unused(d));
    }
    let ghost raw = rgba@;
    if all_alpha_zero {
        let mut i: usize = 3;
        while i < total
            invariant
                rgba@.len() == total,
                raw.len() == total,
                total == w * h * 4,
                total <= usize::MAX,
                i % 4 == 3,
                i >= 3,
                forall|j: int|
                    0 <= j < total ==> rgba@[j] == (if j % 4 == 3 && j < i {
                        255u8
                    } else {
                        raw[j]
                    }),
            decreases total + 4 - i,
        {
            rgba.set(i, 255u8);
            assert(total % 4 == 0) by {
                vstd::arithmetic::div_mod::lemma_mod_multiples_basic(w * h, 4);
            }
            assert(usize::MAX % 4 == 3);
            let ghost i0 = i as int;
            i = i + 4;
            proof {
                assert forall|j: int| 0 <= j < total implies rgba@[j] == (if j % 4 == 3 && j < i {
                    255u8
                } else {
                    raw[j]
                }) by {
                    if j % 4 == 3 && i0 < j && j < i {
                        assert(false) by (nonlinear_arith)
                            requires
                                j % 4 == 3,
                                i0 % 4 == 3,
                                i0 < j < i0 + 4,
                        ;
                    }
                }
            }
        }
        proof {
            assert forall|j: int| 0 <= j < total implies rgba@[j] == (if j % 4 == 3 {
                255u8
            } else {
                raw[j]
            }) by {}
        }
    }
    proof {
        let target = dib_rgba(d);
        assert forall|j: int| 0 <= j < total implies rgba@[j] == target[j] by {
            assert(raw[j] == dib_channel(d, (j / 4) % w, (j / 4) / w, j % 4));
        }
        assert(rgba@ =~= target);
    }
    Ok(Bitmap { width, height, pixels: rgba })
}


/* Encoding a DIB */

/// Which RGBA channel a stored BGRA byte comes from.
pub open spec fn bgra_from_rgba(c: int) -> int {
    if c == 0 {
        2
    } else if c == 1 {
        1
    } else if c == 2 {
        0
    } else {
        3
    }
}

/// The 40-byte header of a bottom-up 32-bit uncompressed DIB of `w` by `h` pixels.
pub open spec fn dib_header_of(w: int, h: int) -> Seq<u8> {
    le_bytes_u32(40) + le_bytes_u32(w) + le_bytes_u32(h) + le_bytes_u16(1) + le_bytes_u16(32)
        + le_bytes_u32(0) + le_bytes_u32(w * h * 4) + Seq::new(16, |i: int| 0u8)
}

/// The 32-bit bottom-up DIB of an RGBA image: the header, then the rows from the
/// bottom one up, each pixel stored as blue, green, red, alpha.
pub open spec fn dib_of(w: int, h: int, px: Seq<u8>) -> Seq<u8> {
    dib_header_of(w, h) + grid(
        w,
        h,
        |x: int, y: int, c: int| px[((h - 1 - y) * w + x) * 4 + bgra_from_rgba(c)],
    )
}

/// The byte of channel `c` of pixel (`x`, `y`) in a grid.
pub proof fn lemma_grid_at(w: int, h: int, f: spec_fn(int, int, int) -> u8, x: int, y: int, c: int)
    requires
        0 <= x < w,
        0 <= y < h,
        0 <= c < 4,
    ensures
        0 <= (y * w + x) * 4 + c < grid(w, h, f).len(),
        grid(w, h, f)[(y * w + x) * 4 + c] == f(x, y, c),
{
    lemma_grid_index(w, h, x, y, c);
    let i = (y * w + x) * 4 + c;
    let p = y * w + x;
    vstd::arithmetic::div_mod::lemma_fundamental_div_mod_converse(i, 4, p, c);
    vstd::arithmetic::div_mod::lemma_fundamental_div_mod_converse(p, w, y, x);
}

/// The DIB made of an RGBA image stores, after its 40-byte header, the
/// image's rows from the bottom one up, and each pixel as blue, green, red,
/// alpha: the first stored byte of a pixel is the image's blue channel, the
/// third its red.
pub proof fn lemma_encoded_bytes(w: int, h: int, px: Seq<u8>, x: int, r: int)
    requires
        1 <= w,
        1 <= h,
        px.len() == w * h * 4,
        0 <= x < w,
        0 <= r < h,
    ensures
        ({
            let d = dib_of(w, h, px);
            let at = 40 + (r * w + x) * 4;
            let p = ((h - 1 - r) * w + x) * 4;
            &&& d.len() == 40 + w * h * 4
            &&& 0 <= p && p + 3 < px.len()
            &&& d[at] == px[p + 2]
            &&& d[at + 1] == px[p + 1]
            &&& d[at + 2] == px[p]
            &&& d[at + 3] == px[p + 3]
        }),
{
    let g = |x: int, y: int, c: int| px[((h - 1 - y) * w + x) * 4 + bgra_from_rgba(c)];
    let header = dib_header_of(w, h);
    assert(header.len() == 40);
    lemma_grid_at(w, h, g, x, r, 0);
    lemma_grid_at(w, h, g, x, r, 1);
    lemma_grid_at(w, h, g, x, r, 2);
    lemma_grid_at(w, h, g, x, r, 3);
    lemma_grid_index(w, h, x, h - 1 - r, 3);
}

/// Encodes an RGBA image as a 32-bit bottom-up DIB with a 40-byte header.
pub fn encode_dib(image: &Bitmap) -> (r: Result<Vec<u8>, ImageError>)
    requires
        image.well_formed(),
    ensures
        image.width > i32::MAX ==> r == Err::<Vec<u8>, ImageError>(ImageError::TooWide),
        image.width <= i32::MAX && image.height > i32::MAX ==> r == Err::<Vec<u8>, ImageError>(
            ImageError::TooTall,
        ),
        image.width <= i32::MAX && image.height <= i32::MAX && image.width * image.height * 4
            > u32::MAX ==> r == Err::<Vec<u8>, ImageError>(ImageError::TooLarge),
        image.width <= i32::MAX && image.height <= i32::MAX && image.width * image.height * 4
            <= u32::MAX ==> (r matches Ok(d) && d@ == dib_of(
            image.width as int,
            image.height as int,
            image.pixels@,
        )),
{
    let width = image.width;
    let height = image.height;
    if width > 0x7FFF_FFFF {
        return Err(ImageError::TooWide);
    }
    if height > 0x7FFF_FFFF {
        return Err(ImageError::TooTall);
    }
    let pixel_bytes = image.pixels.len();
    if pixel_bytes > 0xFFFF_FFFF {
        return Err(ImageError::TooLarge);
    }
    let ghost w = width as int;
    let ghost h = height as int;
    let ghost px = image.pixels@;
    let mut dib: Vec<u8> = Vec::new();
    write_u32(&mut dib, 40);
    write_i32(&mut dib, width as i32);
    write_i32(&mut dib, height as i32);
    write_u16(&mut dib, 1);
    write_u16(&mut dib, 32);
    write_u32(&mut dib, 0);
    write_u32(&mut dib, pixel_bytes as u32);
    let mut k: usize = 0;
    while k < 16
        invariant
            0 <= k <= 16,
            dib@ == (le_bytes_u32(40) + le_bytes_u32(w) + le_bytes_u32(h) + le_bytes_u16(1)
                + le_bytes_u16(32) + le_bytes_u32(0) + le_bytes_u32(w * h * 4)) + Seq::new(
                k as nat,
                |i: int| 0u8,
            ),
        decreases 16 - k,
    {
        dib.push(0u8);
        k = k + 1;
        assert(dib@ =~= (le_bytes_u32(40) + le_bytes_u32(w) + le_bytes_u32(h) + le_bytes_u16(1)
            + le_bytes_u16(32) + le_bytes_u32(0) + le_bytes_u32(w * h * 4)) + Seq::new(
            k as nat,
            |i: int| 0u8,
        ));
    }
    let ghost header = dib@;
    assert(header =~= dib_header_of(w, h));
    let mut y: u32 = 0;
    while y < height
        invariant
            w == width,
            h == height,
            px == image.pixels@,
            px.len() == w * h * 4,
            px.len() == pixel_bytes,
            header == dib_header_of(w, h),
            header.len() == 40,
            0 <= y <= height,
            dib@.len() == 40 + (y * w) * 4,
            dib@.subrange(0, 40) == header,
            forall|x: int, y1: int, c: int|
                0 <= x < w && 0 <= y1 < y && 0 <= c < 4 ==> dib@[40 + (y1 * w + x) * 4 + c]
                    == #[trigger] px[((h - 1 - y1) * w + x) * 4 + bgra_from_rgba(c)],
        decreases height - y,
    {
        let source_y = height - 1 - y;
        let mut x: u32 = 0;
        while x < width
            invariant
                w == width,
                h == height,
                px == image.pixels@,
                px.len() == w * h * 4,
                px.len() == pixel_bytes,
                header.len() == 40,
                0 <= y < height,
                source_y == h - 1 - y,
                0 <= x <= width,
                dib@.len() == 40 + (y * w + x) * 4,
                dib@.subrange(0, 40) == header,
                forall|x1: int, y1: int, c: int|
                    0 <= x1 < w && 0 <= y1 < y && 0 <= c < 4 ==> dib@[40 + (y1 * w + x1) * 4 + c]
                        == #[trigger] px[((h - 1 - y1) * w + x1) * 4 + bgra_from_rgba(c)],
                forall|x1: int, c: int|
                    0 <= x1 < x && 0 <= c < 4 ==> dib@[40 + (y * w + x1) * 4 + c]
                        == #[trigger] px[((h - 1 - y) * w + x1) * 4 + bgra_from_rgba(c)],
            decreases width - x,
        {
            proof {
                lemma_grid_index(w, h, x as int, source_y as int, 3);
                lemma_grid_index(w, h, x as int, y as int, 3);
            }
            let base = ((source_y as usize) * (width as usize) + x as usize) * 4;
            let ghost before = dib@;
            dib.push(image.pixels[base + 2]);
            dib.push(image.pixels[base + 1]);
            dib.push(image.pixels[base]);
            dib.push(image.pixels[base + 3]);
            proof {
                let y0 = y as int;
                let x0 = x as int;
                assert(dib@.subrange(0, 40) =~= before.subrange(0, 40));
                assert forall|x1: int, y1: int, c: int|
                    0 <= x1 < w && 0 <= y1 < y && 0 <= c < 4 implies dib@[40 + (y1 * w + x1) * 4
                    + c] == #[trigger] px[((h - 1 - y1) * w + x1) * 4 + bgra_from_rgba(c)] by {
                    lemma_grid_index(w, h, x1, y1, c);
                    assert((y1 * w + x1) * 4 + c < (y0 * w) * 4) by (nonlinear_arith)
                        requires
                            0 <= x1 < w,
                            0 <= y1 < y0,
                            0 <= c < 4,
                    ;
                    assert(0 <= (y0 * w)) by (nonlinear_arith)
                        requires
                            0 <= y0,
                            0 <= w,
                    ;
                }
                assert forall|x1: int, c: int|
                    0 <= x1 < x + 1 && 0 <= c < 4 implies dib@[40 + (y0 * w + x1) * 4 + c]
                    == #[trigger] px[((h - 1 - y0) * w + x1) * 4 + bgra_from_rgba(c)] by {
                    if x1 < x0 {
                        assert((y0 * w + x1) * 4 + c < (y0 * w + x0) * 4) by (nonlinear_arith)
                            requires
                                0 <= x1 < x0,
                                0 <= c < 4,
                        ;
                    } else {
                        assert((y0 * w + x1) * 4 + c == (y0 * w + x0) * 4 + c);
                    }
                }
                assert(dib@.len() == 40 + (y0 * w + x0 + 1) * 4) by (nonlinear_arith)
                    requires
                        dib@.len() == before.len() + 4,
                        before.len() == 40 + (y0 * w + x0) * 4,
                ;
            }
            x = x + 1;
        }
        proof {
            let y0 = y as int;
            assert(dib@.len() == 40 + ((y0 + 1) * w) * 4) by (nonlinear_arith)
                requires
                    dib@.len() == 40 + (y0 * w + w) * 4,
            ;
        }
        y = y + 1;
    }
    proof {
        let body = dib@.subrange(40, dib@.len() as int);
        assert(body.len() == w * h * 4) by (nonlinear_arith)
            requires
                dib@.len() == 40 + (h * w) * 4,
                body.len() == dib@.len() - 40,
        ;
        let f = |x: int, y: int, c: int| px[((h - 1 - y) * w + x) * 4 + bgra_from_rgba(c)];
        if w > 0 {
            assert forall|x: int, y1: int, c: int|
                0 <= x < w && 0 <= y1 < h && 0 <= c < 4 implies body[(y1 * w + x) * 4 + c]
                == #[trigger] f(x, y1, c) by {
                lemma_grid_index(w, h, x, y1, c);
            }
            lemma_grid_ext(body, w, h, f);
        } else {
            assert(w * h * 4 == 0) by (nonlinear_arith)
                requires
                    w == 0,
            ;
            assert(body =~= grid(w, h, f));
        }
        assert(dib@ =~= header + body);
    }
    Ok(dib)
}


/// Every alpha byte of the RGBA image is zero.
pub open spec fn rgba_alpha_unused(w: int, h: int, px: Seq<u8>) -> bool {
    forall|x: int, y: int| 0 <= x < w && 0 <= y < h ==> #[trigger] px[(y * w + x) * 4 + 3] == 0
}

/// The RGBA image with every alpha byte made opaque when all of them are zero.
pub open spec fn opaque_if_alpha_unused(w: int, h: int, px: Seq<u8>) -> Seq<u8> {
    grid(
        w,
        h,
        |x: int, y: int, c: int|
            if c == 3 && rgba_alpha_unused(w, h, px) {
                255u8
            } else {
                px[(y * w + x) * 4 + c]
            },
    )
}

proof fn lemma_le_bytes_u32_value(b: Seq<u8>, at: int, v: int)
    requires
        0 <= v <= u32::MAX,
        0 <= at,
        at + 4 <= b.len(),
        b.subrange(at, at + 4) == le_bytes_u32(v),
    ensures
        le_u32(b, at) == v,
{
    assert(b[at] == le_bytes_u32(v)[0]);
    assert(b[at + 1] == le_bytes_u32(v)[1]);
    assert(b[at + 2] == le_bytes_u32(v)[2]);
    assert(b[at + 3] == le_bytes_u32(v)[3]);
    lemma_le_u32_bytes(v as u32);
}

/// Decoding the DIB that `encode_dib` makes of an RGBA image gives the image
/// back: unchanged when some pixel has a non-zero alpha, and with every pixel
/// opaque when none has.
pub proof fn lemma_dib_round_trip(w: int, h: int, px: Seq<u8>)
    requires
        1 <= w <= i32::MAX,
        1 <= h <= i32::MAX,
        w * h * 4 <= u32::MAX,
        px.len() == w * h * 4,
    ensures
        dib_problem(dib_of(w, h, px)) is None,
        dib_width(dib_of(w, h, px)) == w,
        dib_rows(dib_of(w, h, px)) == h,
        dib_rgba(dib_of(w, h, px)) == opaque_if_alpha_unused(w, h, px),
        !rgba_alpha_unused(w, h, px) ==> dib_rgba(dib_of(w, h, px)) == px,
{
    let d = dib_of(w, h, px);
    let header = dib_header_of(w, h);
    let g = |x: int, y: int, c: int| px[((h - 1 - y) * w + x) * 4 + bgra_from_rgba(c)];
    let body = grid(w, h, g);
    assert(header.len() == 40);
    assert(d == header + body);
    assert(d.subrange(0, 4) =~= le_bytes_u32(40));
    assert(d.subrange(4, 8) =~= le_bytes_u32(w));
    assert(d.subrange(8, 12) =~= le_bytes_u32(h));
    assert(d.subrange(16, 20) =~= le_bytes_u32(0));
    lemma_le_bytes_u32_value(d, 0, 40);
    lemma_le_bytes_u32_value(d, 4, w);
    lemma_le_bytes_u32_value(d, 8, h);
    lemma_le_bytes_u32_value(d, 16, 0);
    assert(le_u16(d, 12) == 1);
    assert(le_u16(d, 14) == 32);
    assert(dib_width(d) == w);
    assert(dib_bits(d) == 32);
    assert((w * 32 + 31) / 32 == w) by (nonlinear_arith)
        requires
            w >= 1,
    ;
    assert(dib_row_stride(d) == 4 * w);
    assert(dib_required_len(d) == d.len()) by (nonlinear_arith)
        requires
            dib_required_len(d) == 40 + (4 * w) * h,
            d.len() == 40 + w * h * 4,
    ;
    // Each decoded channel is the encoded one.
    assert forall|x: int, y: int, c: int|
        0 <= x < w && 0 <= y < h && 0 <= c < 4 implies #[trigger] dib_channel(d, x, y, c) == px[(y
        * w + x) * 4 + c] by {
        let sy = h - 1 - y;
        let t = if c == 0 {
            2int
        } else if c == 1 {
            1int
        } else if c == 2 {
            0int
        } else {
            3int
        };
        lemma_grid_at(w, h, g, x, sy, t);
        assert(dib_source(d, x, y) + t == 40 + (sy * w + x) * 4 + t) by (nonlinear_arith)
            requires
                dib_source(d, x, y) == 40 + sy * (4 * w) + x * 4,
        ;
        assert(h - 1 - sy == y);
    }
    assert(dib_alpha_unused(d) == rgba_alpha_unused(w, h, px)) by {
        if dib_alpha_unused(d) {
            assert forall|x: int, y: int| 0 <= x < w && 0 <= y < h implies #[trigger] px[(y * w
                + x) * 4 + 3] == 0 by {
                assert(dib_channel(d, x, y, 3) == 0);
            }
        }
        if rgba_alpha_unused(w, h, px) {
            assert forall|x: int, y: int| 0 <= x < w && 0 <= y < h implies #[trigger] dib_channel(
                d,
                x,
                y,
                3,
            ) == 0 by {
                assert(px[(y * w + x) * 4 + 3] == 0);
            }
        }
    }
    let out = dib_rgba(d);
    let f = |x: int, y: int, c: int|
        if c == 3 && rgba_alpha_unused(w, h, px) {
            255u8
        } else {
            px[(y * w + x) * 4 + c]
        };
    assert forall|x: int, y: int, c: int|
        0 <= x < w && 0 <= y < h && 0 <= c < 4 implies out[(y * w + x) * 4 + c] == #[trigger] f(
        x,
        y,
        c,
    ) by {
        lemma_grid_at(w, h, |x: int, y: int, c: int| dib_output(d, x, y, c), x, y, c);
        assert(dib_channel(d, x, y, c) == px[(y * w + x) * 4 + c]);
    }
    assert(out.len() == w * h * 4);
    lemma_grid_ext(out, w, h, f);
    if !rgba_alpha_unused(w, h, px) {
        assert forall|x: int, y: int, c: int|
            0 <= x < w && 0 <= y < h && 0 <= c < 4 implies px[(y * w + x) * 4 + c] == #[trigger] f(
            x,
            y,
            c,
        ) by {}
        lemma_grid_ext(px, w, h, f);
    }
}

} // verus!
