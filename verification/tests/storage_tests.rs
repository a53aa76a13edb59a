use xmouse::storage::requests_exclusion;
use xmouse::storage::stats_from;
use image::{codecs::png::PngEncoder, ImageEncoder};
use xmouse::bitmap::ImageError;
use xmouse::config::HistoryConfig;
use xmouse::picture::{dib_to_png, normalize_image_to_png, png_metadata_and_thumbnail, png_to_dib};
use xmouse::storage::{
    content_hash, filter_items, matches_search, media_name, needs_eviction, search_key,
    store_decision, ClipItem, ClipKind, ClipPayload, ContentEncoding, StorageError,
    StorageStats,
};
use xmouse::text::hex;

fn item(kind: ClipKind, text: Option<&str>, source: &str) -> ClipItem {
    ClipItem {
        id: 1,
        kind,
        text: text.map(|t| t.to_string()),
        thumbnail_png: None,
        source_exe: source.to_string(),
        width: Some(640),
        height: None,
        byte_size: 3,
        last_used_at: 0,
        pinned: false,
    }
}

#[test]
fn dib_round_trip_preserves_dimensions() {
    let pixels = [20u8, 40, 80, 255].repeat(32);
    let mut png = Vec::new();
    PngEncoder::new(&mut png)
        .write_image(&pixels, 8, 4, image::ExtendedColorType::Rgba8)
        .unwrap();
    let dib = png_to_dib(&png).unwrap();
    let restored = dib_to_png(&dib).unwrap();
    let decoded = image::load_from_memory(&restored).unwrap();
    assert_eq!(decoded.width(), 8);
    assert_eq!(decoded.height(), 4);
    assert_eq!(decoded.to_rgba8().into_raw(), pixels);
}

#[test]
fn undecodable_png_is_refused() {
    assert_eq!(png_to_dib(b"not a png"), Err(ImageError::Undecodable));
    assert_eq!(dib_to_png(&[0u8; 10]), Err(ImageError::DibTooShort));
}

#[test]
fn hex_is_stable() {
    assert_eq!(hex(&[0, 15, 16, 255]), "000f10ff");
}

#[test]
fn stored_names_read_back() {
    for kind in [ClipKind::Text, ClipKind::Image] {
        assert_eq!(ClipKind::parse(kind.as_str()), Some(kind));
    }
    for encoding in [ContentEncoding::Plain, ContentEncoding::Dpapi] {
        assert_eq!(ContentEncoding::parse(encoding.as_str()), Ok(encoding));
    }
    assert_eq!(ClipKind::parse("Text"), None);
    assert_eq!(ContentEncoding::parse("aes"), Err(StorageError::UnknownEncoding("aes".to_string())));
    assert_eq!(StorageError::UnknownEncoding("aes".to_string()).message(), "未知剪贴板内容编码：aes");
}

#[test]
fn entries_read_as_the_list_shows_them() {
    assert_eq!(item(ClipKind::Text, Some("a\r\nb\tc"), "x").display_text(), "a  b c");
    assert_eq!(item(ClipKind::Text, None, "x").display_text(), "");
    assert_eq!(item(ClipKind::Image, None, "x").display_text(), "图片  640 × 0");
}

#[test]
fn captured_content_is_kept_or_skipped() {
    let mut history = HistoryConfig::default();
    history.excluded_processes = vec!["KeePass.exe".to_string()];
    let text = ClipPayload::Text("hello".to_string());
    assert_eq!(store_decision(&history, &text, "notepad.exe"), Ok(true));
    assert_eq!(store_decision(&history, &text, "keepass.EXE"), Ok(false));
    assert_eq!(store_decision(&history, &ClipPayload::Text(String::new()), "a.exe"), Ok(false));
    history.max_text_bytes = 4;
    assert_eq!(store_decision(&history, &text, "a.exe"), Err(StorageError::TextTooLarge(4)));
    assert_eq!(StorageError::TextTooLarge(4).message(), "文本超过 4 字节，已跳过");
    history.max_image_stored_mib = 1;
    assert_eq!(store_decision(&history, &ClipPayload::ImagePng(vec![0; 1 << 20]), "a.exe"), Ok(true));
    assert_eq!(
        store_decision(&history, &ClipPayload::ImagePng(vec![0; (1 << 20) + 1]), "a.exe"),
        Err(StorageError::ImageTooLarge(1))
    );
    history.capture = false;
    assert_eq!(store_decision(&history, &text, "a.exe"), Ok(false));
}

#[test]
fn eviction_follows_the_limits() {
    assert!(!needs_eviction(200, 256 << 20, 200, 256));
    assert!(needs_eviction(201, 0, 200, 256));
    assert!(needs_eviction(10, (256 << 20) + 1, 200, 256));
    assert!(!needs_eviction(10, -5, 200, 256));
    assert!(needs_eviction(-1, 0, 200, 256));
}

#[test]
fn content_is_keyed_by_its_digest() {
    let hash = content_hash(b"abc");
    assert_eq!(hex(&hash), "ba7816bf8f01cfea414140de5dae2223b00361a396177a9cb410ff61f20015ad");
    assert_eq!(
        media_name(&hash, false),
        "ba7816bf8f01cfea414140de5dae2223b00361a396177a9cb410ff61f20015ad.png"
    );
    assert!(media_name(&hash, true).ends_with(".bin"));
}

#[test]
fn search_matches_text_and_source() {
    assert_eq!(search_key("  MSEdge "), "msedge");
    let entries = vec![
        item(ClipKind::Text, Some("Hello World"), "notepad.exe"),
        item(ClipKind::Text, Some("other"), "MSEdge.exe"),
        item(ClipKind::Image, None, "mspaint.exe"),
    ];
    assert!(matches_search(&entries[0], "world"));
    assert!(!matches_search(&entries[0], "edge"));
    assert!(matches_search(&entries[2], ""));
    let found = filter_items(entries.clone(), " EDGE ");
    assert_eq!(found.len(), 1);
    assert_eq!(found[0].source_exe, "MSEdge.exe");
    assert_eq!(filter_items(entries.clone(), "图片").len(), 1);
    assert_eq!(filter_items(entries, "   ").len(), 3);
    assert_eq!(StorageStats::default(), StorageStats { item_count: 0, pinned_count: 0, content_bytes: 0, disk_bytes: 0 });
}

#[test]
fn stats_count_and_saturate() {
    let stats = stats_from(-3, 2, 42, &vec![10, 20]);
    assert_eq!(stats, StorageStats { item_count: 0, pinned_count: 2, content_bytes: 42, disk_bytes: 30 });
    assert_eq!(stats_from(5, -4, -1, &vec![u64::MAX, 7]).disk_bytes, u64::MAX);
}

#[test]
fn clipboard_owners_can_opt_out() {
    assert!(requests_exclusion(true, Some(1)));
    assert!(requests_exclusion(false, Some(0)));
    assert!(!requests_exclusion(false, Some(1)));
    assert!(!requests_exclusion(false, None));
}

fn png_of(width: u32, height: u32) -> Vec<u8> {
    let pixels = [1u8, 2, 3, 255].repeat((width * height) as usize);
    let mut png = Vec::new();
    PngEncoder::new(&mut png)
        .write_image(&pixels, width, height, image::ExtendedColorType::Rgba8)
        .unwrap();
    png
}

#[test]
fn thumbnails_keep_the_full_size() {
    let png = png_of(800, 400);
    let (width, height, thumbnail) = png_metadata_and_thumbnail(&png).unwrap();
    assert_eq!((width, height), (800, 400));
    let decoded = image::load_from_memory(&thumbnail).unwrap();
    assert_eq!((decoded.width(), decoded.height()), (96, 48));
    assert_eq!(png_metadata_and_thumbnail(b"nope"), Err(ImageError::Undecodable));
}

#[test]
fn clipboard_images_become_png() {
    let png = png_of(3, 2);
    assert_eq!(normalize_image_to_png(&png, true, 1 << 20), Ok(png.clone()));
    assert_eq!(normalize_image_to_png(&png, true, 10), Err(ImageError::InputTooLarge));
    assert_eq!(normalize_image_to_png(b"xx", true, 10), Err(ImageError::Undecodable));
    let dib = png_to_dib(&png).unwrap();
    let converted = normalize_image_to_png(&dib, false, 1 << 20).unwrap();
    let decoded = image::load_from_memory(&converted).unwrap().to_rgba8();
    assert_eq!((decoded.width(), decoded.height()), (3, 2));
    assert_eq!(decoded.into_raw(), [1u8, 2, 3, 255].repeat(6));
}
