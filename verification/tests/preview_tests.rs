use image::{codecs::png::PngEncoder, ImageEncoder, RgbaImage};
use xmouse::preview::{case_insensitive_match, match_folded, HistoryView, PreviewImage};
use xmouse::storage::{ClipItem, ClipKind};

fn png_of(width: u32, height: u32, pixel: [u8; 4]) -> Vec<u8> {
    let image = RgbaImage::from_pixel(width, height, image::Rgba(pixel));
    let mut png = Vec::new();
    PngEncoder::new(&mut png)
        .write_image(image.as_raw(), width, height, image::ExtendedColorType::Rgba8)
        .unwrap();
    png
}

#[test]
fn preview_preserves_aspect_ratio_and_bounds() {
    let png = png_of(800, 400, [40, 120, 220, 128]);
    let preview = PreviewImage::from_png(7, &png).unwrap();
    assert_eq!(preview.item_id, 7);
    assert_eq!(preview.image.width(), 360);
    assert_eq!(preview.image.height(), 180);
    assert_eq!(preview.image.bgra().len(), 360 * 180 * 4);
    assert_eq!(preview.window_size(), (384, 204));
    assert!(preview.image.bgra().chunks(4).all(|pixel| pixel[3] == 255));
}

#[test]
fn preview_composites_over_the_checkerboard() {
    let png = png_of(30, 2, [40, 120, 220, 128]);
    let preview = PreviewImage::from_png(1, &png).unwrap();
    let bgra = preview.image.bgra();
    let over = |c: u16, k: u16| ((c * 128 + k * 127) / 255) as u8;
    assert_eq!(&bgra[0..4], &[over(220, 238), over(120, 238), over(40, 238), 255]);
    let second_tile = 12 * 4;
    assert_eq!(&bgra[second_tile..second_tile + 4], &[over(220, 216), over(120, 216), over(40, 216), 255]);
    assert!(PreviewImage::from_png(1, b"garbage").is_none());
}

#[test]
fn search_highlight_matches_ascii_case_and_chinese() {
    assert_eq!(case_insensitive_match("MSedge.exe", "edge"), Some((2, 6)));
    assert_eq!(case_insensitive_match("复制中文内容", "中文"), Some((6, 12)));
    assert_eq!(case_insensitive_match("图片", "文本"), None);
    assert_eq!(case_insensitive_match("abc", ""), None);
}

#[test]
fn history_view_keeps_entry_and_trimmed_query() {
    let entry = ClipItem {
        id: 3,
        kind: ClipKind::Image,
        text: None,
        thumbnail_png: Some(png_of(96, 48, [0, 0, 0, 0])),
        source_exe: "a.exe".to_string(),
        width: Some(96),
        height: Some(48),
        byte_size: 10,
        last_used_at: 1,
        pinned: false,
    };
    let view = HistoryView::new(entry, "  query ");
    assert_eq!(view.search_query, "query");
    assert_eq!(view.item.id, 3);
    let thumbnail = view.thumbnail.expect("thumbnail decodes");
    assert_eq!((thumbnail.width(), thumbnail.height()), (48, 24));
    assert_eq!(&thumbnail.bgra()[0..4], &[238, 238, 238, 255]);
    assert_eq!(&thumbnail.bgra()[24..28], &[216, 216, 216, 255]);
}

#[test]
fn folded_search_keeps_character_boundaries() {
    assert_eq!(match_folded("Hello World", "hello world", "world"), Some((6, 11)));
    assert_eq!(match_folded("ÀB", "àb", "b"), Some((2, 3)));
    assert_eq!(match_folded("İx", "i\u{307}x", "x"), None);
    assert_eq!(match_folded("abc", "abc", "zz"), None);
    assert_eq!(match_folded("abc", "abc", ""), Some((0, 0)));
}
