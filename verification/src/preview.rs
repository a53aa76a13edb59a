//! The pictures the history window shows: thumbnails in the list and the
//! larger preview beside it, composited over a checkerboard so that
//! transparent parts stay visible; and the highlighted part of an entry
//! that matches the search.

use vstd::prelude::*;
use crate::bitmap::Bitmap;
use crate::picture::{decode_image_thumbnail, image_thumbnail};
use crate::storage::ClipItem;
use crate::text::{chars_of, string_from_chars, trimmed, trim_chars, lowercase, to_lowercase};
use vstd::utf8::{encode_utf8, is_char_boundary};

verus! {

/// The longest edge of the history preview.
pub const MAX_PREVIEW_EDGE: u32 = 360;

/// The margin around the preview picture.
pub const PREVIEW_PADDING: i32 = 12;

/// The longest edge of a thumbnail in the history list.
pub const LIST_THUMBNAIL_EDGE: u32 = 48;

/// The checkerboard tile of the preview.
pub const PREVIEW_TILE: u32 = 12;

/// The checkerboard tile of the list thumbnails.
pub const LIST_TILE: u32 = 6;

/// The shade of the checkerboard at pixel `(x, y)` for tiles of `tile` pixels.
pub open spec fn checker_shade(x: int, y: int, tile: int) -> int {
    if (x / tile + y / tile) % 2 == 0 {
        238
    } else {
        216
    }
}

/// A colour channel `c` with opacity `a` over a background shade `k`.
pub open spec fn over_checker(c: int, a: int, k: int) -> int {
    (c * a + k * (255 - a)) / 255
}

/// RGBA pixels, `width` per row, composited over the checkerboard and laid
/// out as opaque BGRA, as the GDI bitmap functions take them.
pub open spec fn composited(width: int, rgba: Seq<u8>, tile: int) -> Seq<u8> {
    Seq::new(
        rgba.len(),
        |i: int|
            {
                let p = i / 4;
                let k = checker_shade(p % width, p / width, tile);
                let a = rgba[4 * p + 3] as int;
                if i % 4 == 0 {
                    over_checker(rgba[4 * p + 2] as int, a, k) as u8
                } else if i % 4 == 1 {
                    over_checker(rgba[4 * p + 1] as int, a, k) as u8
                } else if i % 4 == 2 {
                    over_checker(rgba[4 * p] as int, a, k) as u8
                } else {
                    255u8
                }
            },
    )
}

/// The bounds of the composited over-checker value.
proof fn lemma_over_checker_bounds(c: int, a: int, k: int)
    requires
        0 <= c <= 255,
        0 <= a <= 255,
        0 <= k <= 255,
    ensures
        0 <= c * a + k * (255 - a) <= 65025,
        0 <= over_checker(c, a, k) <= 255,
{
    assert(0 <= c * a <= 255 * a) by (nonlinear_arith)
        requires
            0 <= c <= 255,
            0 <= a <= 255,
    ;
    assert(0 <= k * (255 - a) <= 255 * (255 - a)) by (nonlinear_arith)
        requires
            0 <= k <= 255,
            0 <= a <= 255,
    ;
}

fn composite_channel(c: u8, a: u8, k: u8) -> (r: u8)
    ensures
        r == over_checker(c as int, a as int, k as int),
{
    proof {
        lemma_over_checker_bounds(c as int, a as int, k as int);
    }
    let sum: u32 = c as u32 * a as u32 + k as u32 * (255 - a as u32);
    (sum / 255) as u8
}

/// Composites RGBA pixels over a checkerboard of `tile`-pixel squares and
/// lays them out as opaque BGRA.
fn checkered_bgra(image: &Bitmap, tile: u32) -> (r: Vec<u8>)
    requires
        image.well_formed(),
        tile > 0,
    ensures
        r@ == composited(image.width as int, image.pixels@, tile as int),
{
    let ghost target = composited(image.width as int, image.pixels@, tile as int);
    let len = image.pixels.len();
    proof {
        vstd::arithmetic::mul::lemma_mul_is_commutative(image.width * image.height, 4);
        vstd::arithmetic::div_mod::lemma_mod_multiples_basic((image.width * image.height) as int, 4);
    }
    let mut out: Vec<u8> = Vec::new();
    let mut i: usize = 0;
    while i < len
        invariant
            image.well_formed(),
            len == image.pixels@.len(),
            len % 4 == 0,
            i % 4 == 0,
            i <= len,
            tile > 0,
            target == composited(image.width as int, image.pixels@, tile as int),
            out@ == target.take(i as int),
        decreases len - i,
    {
        let p = i / 4;
        let w = image.width as usize;
        let x = if w == 0 { 0 } else { p % w };
        let y = if w == 0 { 0 } else { p / w };
        let cx = x / tile as usize;
        let cy = y / tile as usize;
        let shade: u8 = if cx % 2 == cy % 2 {
            238
        } else {
            216
        };
        let r = image.pixels[i];
        let g = image.pixels[i + 1];
        let b = image.pixels[i + 2];
        let a = image.pixels[i + 3];
        out.push(composite_channel(b, a, shade));
        out.push(composite_channel(g, a, shade));
        out.push(composite_channel(r, a, shade));
        out.push(255);
        proof {
            assert(i + 4 <= len);
            assert(4 * p == i);
            assert((i + 1) / 4 == p && (i + 1) % 4 == 1);
            assert((i + 2) / 4 == p && (i + 2) % 4 == 2);
            assert((i + 3) / 4 == p && (i + 3) % 4 == 3);
            assert(i / 4 == p && i % 4 == 0);
            if w == 0 {
                assert(len == 0);
            }
            assert(shade as int == checker_shade((p as int) % (image.width as int), (p as int) / (image.width as int), tile as int));
            assert(out@ =~= target.take(i + 4));
        }
        i = i + 4;
    }
    assert(target.take(len as int) =~= target);
    out
}

/// A picture composited over the checkerboard, as opaque BGRA pixels.
pub struct Thumbnail {
    width: i32,
    height: i32,
    bgra: Vec<u8>,
}

impl Thumbnail {
    /// At most the preview's size, four bytes per pixel.
    #[verifier::type_invariant]
    spec fn fits(&self) -> bool {
        &&& 0 <= self.width <= MAX_PREVIEW_EDGE
        &&& 0 <= self.height <= MAX_PREVIEW_EDGE
        &&& self.bgra@.len() == self.width * self.height * 4
    }

    /// Width in pixels.
    pub fn width(&self) -> (r: i32)
        ensures
            r == self@.0,
    {
        self.width
    }

    /// Height in pixels.
    pub fn height(&self) -> (r: i32)
        ensures
            r == self@.1,
    {
        self.height
    }

    /// The BGRA pixels, row by row from the top.
    pub fn bgra(&self) -> (r: &Vec<u8>)
        ensures
            r@ == self@.2,
    {
        &self.bgra
    }

    /// Composites an RGBA picture that fits the preview.
    fn from_bitmap(image: &Bitmap, tile: u32) -> (r: Thumbnail)
        requires
            image.well_formed(),
            image.width <= MAX_PREVIEW_EDGE,
            image.height <= MAX_PREVIEW_EDGE,
            tile > 0,
        ensures
            r@ == (image.width as int, image.height as int, composited(image.width as int, image.pixels@, tile as int)),
    {
        let bgra = checkered_bgra(image, tile);
        Thumbnail { width: image.width as i32, height: image.height as i32, bgra }
    }
}

impl View for Thumbnail {
    type V = (int, int, Seq<u8>);

    closed spec fn view(&self) -> (int, int, Seq<u8>) {
        (self.width as int, self.height as int, self.bgra@)
    }
}

/// The thumbnail that the image in `bytes` gives when scaled to fit `edge`
/// by `edge` and composited over a checkerboard of `tile`-pixel squares.
pub open spec fn thumbnail_of(bytes: Seq<u8>, edge: u32, tile: int) -> Option<(int, int, Seq<u8>)> {
    match image_thumbnail(bytes, edge) {
        Some((w, h, px)) => Some((w as int, h as int, composited(w as int, px, tile))),
        None => None,
    }
}

/// Decodes an image, scales it to fit `edge` by `edge` and composites it.
fn decode_thumbnail(bytes: &[u8], edge: u32, tile: u32) -> (r: Option<Thumbnail>)
    requires
        1 <= edge <= MAX_PREVIEW_EDGE,
        tile > 0,
    ensures
        match thumbnail_of(bytes@, edge, tile as int) {
            Some(v) => r matches Some(t) && t@ == v && t@.0 <= edge && t@.1 <= edge,
            None => r is None,
        },
{
    match decode_image_thumbnail(bytes, edge) {
        Some(image) => Some(Thumbnail::from_bitmap(&image, tile)),
        None => None,
    }
}

/// The picture shown beside the history list for an image entry.
pub struct PreviewImage {
    pub item_id: i64,
    pub image: Thumbnail,
}

impl PreviewImage {
    /// The preview of the entry `item_id` from its image, scaled to fit 360
    /// by 360 and composited over 12-pixel checkers; `None` when the image
    /// does not decode.
    pub fn from_png(item_id: i64, png: &[u8]) -> (r: Option<PreviewImage>)
        ensures
            match thumbnail_of(png@, MAX_PREVIEW_EDGE, PREVIEW_TILE as int) {
                Some(v) => r matches Some(p) && p.item_id == item_id && p.image@ == v
                    && p.image@.0 <= MAX_PREVIEW_EDGE && p.image@.1 <= MAX_PREVIEW_EDGE,
                None => r is None,
            },
    {
        match decode_thumbnail(png, MAX_PREVIEW_EDGE, PREVIEW_TILE) {
            Some(image) => Some(PreviewImage { item_id, image }),
            None => None,
        }
    }

    /// The size of the preview window: the picture and its margins.
    pub fn window_size(&self) -> (r: (i32, i32))
        ensures
            r.0 == self.image@.0 + 2 * PREVIEW_PADDING,
            r.1 == self.image@.1 + 2 * PREVIEW_PADDING,
    {
        proof {
            use_type_invariant(&self.image);
        }
        (self.image.width() + PREVIEW_PADDING * 2, self.image.height() + PREVIEW_PADDING * 2)
    }
}

/// A history entry as the list draws it.
pub struct HistoryView {
    pub item: ClipItem,
    pub thumbnail: Option<Thumbnail>,
    pub search_query: String,
}

impl HistoryView {
    /// The entry with its thumbnail, scaled to fit 48 by 48 and composited
    /// over 6-pixel checkers when its stored thumbnail decodes, and the
    /// trimmed search query to highlight.
    pub fn new(item: ClipItem, search_query: &str) -> (r: HistoryView)
        ensures
            r.item == item,
            r.search_query@ == trimmed(search_query@),
            match item.thumbnail_png {
                Some(png) => match thumbnail_of(png@, LIST_THUMBNAIL_EDGE, LIST_TILE as int) {
                    Some(v) => r.thumbnail matches Some(t) && t@ == v && t@.0 <= LIST_THUMBNAIL_EDGE
                        && t@.1 <= LIST_THUMBNAIL_EDGE,
                    None => r.thumbnail is None,
                },
                None => r.thumbnail is None,
            },
    {
        let thumbnail = match &item.thumbnail_png {
            Some(png) => decode_thumbnail(png.as_slice(), LIST_THUMBNAIL_EDGE, LIST_TILE),
            None => None,
        };
        let query = string_from_chars(&trim_chars(&chars_of(search_query)));
        HistoryView { item, thumbnail, search_query: query }
    }
}

/// The bytes `needle` stand in `hay` from position `at` on.
pub open spec fn bytes_at(hay: Seq<u8>, needle: Seq<u8>, at: int) -> bool {
    0 <= at && at + needle.len() <= hay.len() && hay.subrange(at, at + needle.len()) == needle
}

/// `at` is the first position at which `needle` stands in `hay`.
pub open spec fn first_bytes_at(hay: Seq<u8>, needle: Seq<u8>, at: int) -> bool {
    bytes_at(hay, needle, at) && forall|j: int| 0 <= j < at ==> !bytes_at(hay, needle, j)
}

/// The first byte position of `needle` in `hay`, as `str::find` gives it.
fn find_bytes(hay: &[u8], needle: &[u8]) -> (r: Option<usize>)
    ensures
        match r {
            Some(at) => first_bytes_at(hay@, needle@, at as int),
            None => forall|j: int| !bytes_at(hay@, needle@, j),
        },
{
    if needle.len() > hay.len() {
        return None;
    }
    let last = hay.len() - needle.len();
    let mut at: usize = 0;
    loop
        invariant
            needle@.len() <= hay@.len(),
            last == hay@.len() - needle@.len(),
            at <= last,
            forall|j: int| 0 <= j < at ==> !bytes_at(hay@, needle@, j),
        decreases last - at,
    {
        if bytes_match_at(hay, needle, at) {
            return Some(at);
        }
        if at == last {
            assert forall|j: int| !bytes_at(hay@, needle@, j) by {
                if 0 <= j && j < at {
                }
            }
            return None;
        }
        at = at + 1;
    }
}

/// Whether `needle` stands in `hay` at `at`.
fn bytes_match_at(hay: &[u8], needle: &[u8], at: usize) -> (r: bool)
    requires
        at + needle@.len() <= hay@.len(),
    ensures
        r == bytes_at(hay@, needle@, at as int),
{
    let hay_len = hay.len();
    let mut k: usize = 0;
    while k < needle.len()
        invariant
            hay_len == hay@.len(),
            at + needle@.len() <= hay@.len(),
            0 <= k <= needle@.len(),
            forall|m: int| 0 <= m < k ==> hay@[at + m] == needle@[m],
        decreases needle.len() - k,
    {
        if hay[at + k] != needle[k] {
            assert(hay@.subrange(at as int, at + needle@.len())[k as int] != needle@[k as int]);
            return false;
        }
        k = k + 1;
    }
    assert(hay@.subrange(at as int, at + needle@.len()) =~= needle@);
    true
}

/// The byte range of `text` to highlight, given the lowercased text and
/// query: where the folded query first occurs in the folded text, by UTF-8
/// bytes, kept only when both ends fall on character boundaries of the
/// unfolded text.
pub open spec fn folded_range(text: Seq<char>, folded_text: Seq<char>, folded_query: Seq<char>) -> Option<(int, int)> {
    let hay = encode_utf8(folded_text);
    let needle = encode_utf8(folded_query);
    if !(exists|at: int| bytes_at(hay, needle, at)) {
        None
    } else {
        let start = choose|at: int| first_bytes_at(hay, needle, at);
        let end = start + needle.len();
        if is_char_boundary(encode_utf8(text), start) && is_char_boundary(encode_utf8(text), end) {
            Some((start, end))
        } else {
            None
        }
    }
}

/// The byte range of `text` to highlight for `query`: none for an empty
/// query, else the range found by folding both to lowercase.
pub open spec fn highlight_range(text: Seq<char>, query: Seq<char>) -> Option<(int, int)> {
    if query.len() == 0 {
        None
    } else {
        folded_range(text, lowercase(text), lowercase(query))
    }
}

/// The byte range of `text` where the lowercased query first occurs in the
/// lowercased text, when both ends are character boundaries of `text`.
pub fn match_folded(text: &str, folded_text: &str, folded_query: &str) -> (r: Option<(usize, usize)>)
    ensures
        match folded_range(text@, folded_text@, folded_query@) {
            Some((s, e)) => r == Some((s as usize, e as usize)),
            None => r is None,
        },
{
    let hay = folded_text.as_bytes();
    let needle = folded_query.as_bytes();
    let hay_len = hay.len();
    let found = find_bytes(hay, needle);
    match found {
        None => None,
        Some(start) => {
            assert(start + needle@.len() <= hay_len);
            let end = start + needle.len();
            proof {
                let h = encode_utf8(folded_text@);
                let n = encode_utf8(folded_query@);
                let chosen = choose|at: int| first_bytes_at(h, n, at);
                assert(first_bytes_at(h, n, start as int));
                assert(first_bytes_at(h, n, chosen));
                if chosen < start {
                    assert(!bytes_at(h, n, chosen));
                }
                if start < chosen {
                    assert(!bytes_at(h, n, start as int));
                }
            }
            if text.is_char_boundary(start) && text.is_char_boundary(end) {
                Some((start, end))
            } else {
                None
            }
        },
    }
}

/// The byte range of `text` that matches `query`, ignoring case, for the
/// search highlight.
pub fn case_insensitive_match(text: &str, query: &str) -> (r: Option<(usize, usize)>)
    ensures
        match highlight_range(text@, query@) {
            Some((s, e)) => r == Some((s as usize, e as usize)),
            None => r is None,
        },
{
    if query.is_empty() {
        return None;
    }
    let folded_text = to_lowercase(text);
    let folded_query = to_lowercase(query);
    match_folded(text, folded_text.as_str(), folded_query.as_str())
}

} // verus!
