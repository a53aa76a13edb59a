use xmouse::hook::Rect;
use xmouse::window::{choice_style, highlight_rect, menu_item_width};
use xmouse::usage::{filetime_value, process_cpu_time};
use xmouse::action::ActionKind;
use xmouse::gesture::GestureId;
use xmouse::logging::log_line;
use xmouse::search::search_url;
use xmouse::text::{copy_wide_fixed, decimal_string, text_from_wide, wide};
use xmouse::window::{
    button_style, canvas, client_point, contains, hiword, loword, palette, rgb, ButtonRole,
    ButtonStyle, PopupMenuItemData, ACCENT_COLOR, CANVAS_BOTTOM,
};

#[test]
fn wide_text_reads_back() {
    for text in ["", "Xmouse", "复制 📋 内容", "tab\tand\u{FFFF}"] {
        let units = wide(text);
        assert_eq!(*units.last().unwrap(), 0);
        assert_eq!(units[..units.len() - 1], text.encode_utf16().collect::<Vec<u16>>()[..]);
        assert_eq!(text_from_wide(&units), text);
    }
    assert_eq!(text_from_wide(&[0x61, 0xD800, 0x62, 0, 0x63]), "a\u{FFFD}b");
    assert_eq!(text_from_wide(&[0xD83D, 0xDCCB]), "📋");
}

#[test]
fn fixed_wide_fields_are_cut_and_terminated() {
    let mut field = [7u16; 4];
    copy_wide_fixed(&mut field, "abcdef");
    assert_eq!(field, [0x61, 0x62, 0x63, 0]);
    let mut field = [7u16; 4];
    copy_wide_fixed(&mut field, "a");
    assert_eq!(field, [0x61, 0, 0, 0]);
}

#[test]
fn labels() {
    assert_eq!(ActionKind::Disabled.label(), "不执行动作");
    assert_eq!(ActionKind::MediaPlayPause.label(), "播放 / 暂停媒体");
    assert_eq!(ActionKind::ALL.len(), 21);
    assert_eq!(ActionKind::ALL[6], ActionKind::Paste);
    assert_eq!(GestureId::Up.short_label(), "↑ 上划");
    assert_eq!(GestureId::Circle.label(), "圆形");
    assert_eq!(GestureId::all(), GestureId::ALL.to_vec());
    assert_eq!(decimal_string(0), "0");
    assert_eq!(decimal_string(4_294_967_296), "4294967296");
}

#[test]
fn search_address_encodes_the_selection() {
    let template = "https://www.google.com/search?q={query}";
    assert_eq!(
        search_url(template, "  rust 中文? "),
        Some("https://www.google.com/search?q=rust%20%E4%B8%AD%E6%96%87%3F".to_string())
    );
    assert_eq!(search_url("a={query}&b={query}", "x"), Some("a=x&b=x".to_string()));
    assert_eq!(search_url(template, " \n\t "), None);
}

#[test]
fn log_lines_stay_on_one_line() {
    assert_eq!(log_line(17, "ERROR", "保存\r\n配置", "bad\nthing"), "17 ERROR 保存  配置: bad thing");
}

#[test]
fn window_values() {
    assert_eq!(rgb(37, 99, 235), ACCENT_COLOR);
    assert_eq!(rgb(1, 2, 3), 0x0003_0201);
    assert_eq!(palette(false).card, rgb(255, 255, 255));
    assert_eq!(palette(true).page, rgb(18, 20, 24));
    let light = palette(false);
    assert_eq!(
        button_style(ButtonRole::Primary, true, false, light),
        ButtonStyle { fill: rgb(29, 78, 216), border: rgb(29, 78, 216), text: rgb(255, 255, 255), radius: 10 }
    );
    assert_eq!(
        button_style(ButtonRole::Status { enabled: true }, true, true, light),
        ButtonStyle { fill: light.hover, border: light.border, text: light.muted, radius: 16 }
    );
    assert_eq!(button_style(ButtonRole::Navigation { active: false }, true, false, light).fill, light.hover);
    assert!(contains(232, 256));
    assert!(!contains(832, 300));
    assert!(!contains(300, CANVAS_BOTTOM));
    assert_eq!(canvas().right, 832);
    assert_eq!(loword(0x1234_5678), 0x5678);
    assert_eq!(hiword(0x1234_5678), 0x1234);
    assert_eq!(client_point(0x0010_FFFE), (-2, 16));
    assert_eq!(client_point(-1), (-1, -1));
    let item = PopupMenuItemData::new("设置", true);
    assert_eq!(item.text_units(), &vec![0x8BBE, 0x7F6E, 0]);
    assert!(item.checked());
}

#[test]
fn process_times() {
    assert_eq!(filetime_value(1, 2), (1u64 << 32) | 2);
    assert_eq!(process_cpu_time(u64::MAX - 1, 5), u64::MAX);
    assert_eq!(process_cpu_time(3, 4), 7);
}

#[test]
fn widget_geometry() {
    let light = palette(false);
    assert_eq!(choice_style(true, false, light).fill, ACCENT_COLOR);
    assert_eq!(choice_style(false, true, light).fill, light.hover);
    assert_eq!(choice_style(false, false, light).text, light.text);
    assert_eq!(menu_item_width(0), 180);
    assert_eq!(menu_item_width(200), 252);
    assert_eq!(menu_item_width(1000), 380);
    let line = Rect { left: 10, top: 0, right: 100, bottom: 30 };
    assert_eq!(highlight_rect(line, 20, 30), Some(Rect { left: 30, top: 4, right: 60, bottom: 26 }));
    assert_eq!(highlight_rect(line, 80, 30), Some(Rect { left: 90, top: 4, right: 100, bottom: 26 }));
    assert_eq!(highlight_rect(line, 90, 5), None);
    assert_eq!(highlight_rect(line, 5, 0), None);
}
