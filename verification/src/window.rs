//! Plain values of the settings and history windows: colours, button
//! styles, the settings pages, menu item text, the gesture canvas, and the
//! packed coordinates of window messages.

use vstd::prelude::*;
use crate::hook::Rect;
use crate::text::{utf16, wide};

verus! {

/// A GDI colour: red in the low byte, then green, then blue.
pub type ColorRef = u32;

/// The GDI colour of the given red, green and blue.
pub open spec fn rgb_value(red: u8, green: u8, blue: u8) -> u32 {
    (red + 256 * green + 65536 * blue) as u32
}

/// The GDI colour of the given red, green and blue.
pub fn rgb(red: u8, green: u8, blue: u8) -> (r: ColorRef)
    ensures
        r == rgb_value(red, green, blue),
{
    let r = red as u32 | ((green as u32) << 8) | ((blue as u32) << 16);
    assert(r == red + 256 * green + 65536 * blue) by (bit_vector)
        requires
            r == red as u32 | ((green as u32) << 8) | ((blue as u32) << 16),
    ;
    r
}

/// The accent colour, `rgb(37, 99, 235)`.
pub const ACCENT_COLOR: ColorRef = 0x00EB_6325;

/// The colours of one theme.
#[derive(Debug, Clone, Copy, PartialEq, Eq, Structural)]
pub struct Palette {
    pub page: ColorRef,
    pub card: ColorRef,
    pub border: ColorRef,
    pub text: ColorRef,
    pub muted: ColorRef,
    pub sidebar: ColorRef,
    pub hover: ColorRef,
    pub selected: ColorRef,
}

/// The colours of the dark or the light theme.
pub open spec fn palette_of(dark: bool) -> Palette {
    if dark {
        Palette {
            page: rgb_value(18, 20, 24),
            card: rgb_value(28, 31, 37),
            border: rgb_value(52, 57, 66),
            text: rgb_value(239, 242, 247),
            muted: rgb_value(155, 163, 175),
            sidebar: rgb_value(22, 25, 30),
            hover: rgb_value(42, 47, 56),
            selected: rgb_value(32, 48, 76),
        }
    } else {
        Palette {
            page: rgb_value(246, 248, 251),
            card: rgb_value(255, 255, 255),
            border: rgb_value(225, 229, 236),
            text: rgb_value(31, 41, 55),
            muted: rgb_value(107, 114, 128),
            sidebar: rgb_value(243, 245, 248),
            hover: rgb_value(238, 242, 247),
            selected: rgb_value(239, 246, 255),
        }
    }
}

/// The colours of the dark or the light theme.
pub fn palette(dark: bool) -> (r: Palette)
    ensures
        r == palette_of(dark),
{
    if dark {
        Palette {
            page: rgb(18, 20, 24),
            card: rgb(28, 31, 37),
            border: rgb(52, 57, 66),
            text: rgb(239, 242, 247),
            muted: rgb(155, 163, 175),
            sidebar: rgb(22, 25, 30),
            hover: rgb(42, 47, 56),
            selected: rgb(32, 48, 76),
        }
    } else {
        Palette {
            page: rgb(246, 248, 251),
            card: rgb(255, 255, 255),
            border: rgb(225, 229, 236),
            text: rgb(31, 41, 55),
            muted: rgb(107, 114, 128),
            sidebar: rgb(243, 245, 248),
            hover: rgb(238, 242, 247),
            selected: rgb(239, 246, 255),
        }
    }
}

/// The pages of the settings window.
#[derive(Debug, Clone, Copy, PartialEq, Eq, Structural)]
pub enum SettingsPage {
    General,
    History,
    Gestures,
    Resources,
}

/// What a drawn button stands for, which decides its colours.
#[derive(Debug, Clone, Copy, PartialEq, Eq, Structural)]
pub enum ButtonRole {
    Status { enabled: bool },
    Navigation { active: bool },
    Primary,
    Danger,
    Secondary,
}

/// The colours and corner radius of a drawn button.
#[derive(Debug, Clone, Copy, PartialEq, Eq, Structural)]
pub struct ButtonStyle {
    pub fill: ColorRef,
    pub border: ColorRef,
    pub text: ColorRef,
    pub radius: i32,
}

/// The style of a button in its role, pressed or not, before disabling.
pub open spec fn role_style(role: ButtonRole, pressed: bool, colors: Palette) -> ButtonStyle {
    match role {
        ButtonRole::Status { enabled } => if enabled {
            ButtonStyle {
                fill: rgb_value(231, 248, 239),
                border: rgb_value(191, 229, 207),
                text: rgb_value(22, 125, 74),
                radius: 16,
            }
        } else {
            ButtonStyle {
                fill: rgb_value(255, 247, 225),
                border: rgb_value(244, 218, 151),
                text: rgb_value(164, 104, 16),
                radius: 16,
            }
        },
        ButtonRole::Navigation { active } => ButtonStyle {
            fill: if active {
                colors.selected
            } else if pressed {
                colors.hover
            } else {
                colors.sidebar
            },
            border: if active {
                colors.selected
            } else {
                colors.sidebar
            },
            text: if active {
                ACCENT_COLOR
            } else {
                colors.text
            },
            radius: 10,
        },
        ButtonRole::Primary => ButtonStyle {
            fill: if pressed {
                rgb_value(29, 78, 216)
            } else {
                ACCENT_COLOR
            },
            border: if pressed {
                rgb_value(29, 78, 216)
            } else {
                ACCENT_COLOR
            },
            text: rgb_value(255, 255, 255),
            radius: 10,
        },
        ButtonRole::Danger => ButtonStyle {
            fill: if pressed {
                colors.hover
            } else {
                colors.card
            },
            border: colors.border,
            text: rgb_value(190, 45, 55),
            radius: 10,
        },
        ButtonRole::Secondary => ButtonStyle {
            fill: if pressed {
                colors.hover
            } else {
                colors.card
            },
            border: colors.border,
            text: colors.text,
            radius: 10,
        },
    }
}

/// The style of a button: a disabled button is never pressed and takes the
/// muted colours, keeping its role's radius.
pub open spec fn button_style_of(role: ButtonRole, selected: bool, disabled: bool, colors: Palette) -> ButtonStyle {
    let base = role_style(role, !disabled && selected, colors);
    if disabled {
        ButtonStyle { fill: colors.hover, border: colors.border, text: colors.muted, radius: base.radius }
    } else {
        base
    }
}

/// The colours and corner radius of a button drawn in `role`, given
/// whether it is selected (held down) and whether it is disabled.
pub fn button_style(role: ButtonRole, selected: bool, disabled: bool, colors: Palette) -> (r: ButtonStyle)
    ensures
        r == button_style_of(role, selected, disabled, colors),
{
    let pressed = !disabled && selected;
    let base = match role {
        ButtonRole::Status { enabled } => if enabled {
            ButtonStyle {
                fill: rgb(231, 248, 239),
                border: rgb(191, 229, 207),
                text: rgb(22, 125, 74),
                radius: 16,
            }
        } else {
            ButtonStyle {
                fill: rgb(255, 247, 225),
                border: rgb(244, 218, 151),
                text: rgb(164, 104, 16),
                radius: 16,
            }
        },
        ButtonRole::Navigation { active } => ButtonStyle {
            fill: if active {
                colors.selected
            } else if pressed {
                colors.hover
            } else {
                colors.sidebar
            },
            border: if active {
                colors.selected
            } else {
                colors.sidebar
            },
            text: if active {
                ACCENT_COLOR
            } else {
                colors.text
            },
            radius: 10,
        },
        ButtonRole::Primary => {
            let strong = if pressed {
                rgb(29, 78, 216)
            } else {
                ACCENT_COLOR
            };
            ButtonStyle { fill: strong, border: strong, text: rgb(255, 255, 255), radius: 10 }
        },
        ButtonRole::Danger => ButtonStyle {
            fill: if pressed {
                colors.hover
            } else {
                colors.card
            },
            border: colors.border,
            text: rgb(190, 45, 55),
            radius: 10,
        },
        ButtonRole::Secondary => ButtonStyle {
            fill: if pressed {
                colors.hover
            } else {
                colors.card
            },
            border: colors.border,
            text: colors.text,
            radius: 10,
        },
    };
    if disabled {
        ButtonStyle { fill: colors.hover, border: colors.border, text: colors.muted, radius: base.radius }
    } else {
        base
    }
}

/// The colours of a choice button (one of a set of options), selected or
/// not, held down or not, with its corner radius.
pub open spec fn choice_style_of(selected: bool, pressed: bool, colors: Palette) -> ButtonStyle {
    ButtonStyle {
        fill: if selected {
            ACCENT_COLOR
        } else if pressed {
            colors.hover
        } else {
            colors.card
        },
        border: if selected {
            ACCENT_COLOR
        } else {
            colors.border
        },
        text: if selected {
            rgb_value(255, 255, 255)
        } else {
            colors.text
        },
        radius: 14,
    }
}

/// The colours of a choice button.
pub fn choice_style(selected: bool, pressed: bool, colors: Palette) -> (r: ButtonStyle)
    ensures
        r == choice_style_of(selected, pressed, colors),
{
    ButtonStyle {
        fill: if selected {
            ACCENT_COLOR
        } else if pressed {
            colors.hover
        } else {
            colors.card
        },
        border: if selected {
            ACCENT_COLOR
        } else {
            colors.border
        },
        text: if selected {
            rgb(255, 255, 255)
        } else {
            colors.text
        },
        radius: 14,
    }
}

/// The width of an owner-drawn menu item whose text measures `text_width`
/// pixels: at least 112 for the text, 52 for the check mark and margins,
/// kept within 180 to 380.
pub open spec fn menu_item_width_of(text_width: int) -> int {
    let wanted = (if text_width < 112 {
        112
    } else {
        text_width
    }) + 52;
    if wanted < 180 {
        180
    } else if wanted > 380 {
        380
    } else {
        wanted
    }
}

/// The width of an owner-drawn menu item whose text measures `text_width`.
pub fn menu_item_width(text_width: i32) -> (r: u32)
    requires
        text_width <= i32::MAX - 52,
    ensures
        r == menu_item_width_of(text_width as int),
{
    let wanted = (if text_width < 112 {
        112
    } else {
        text_width
    }) + 52;
    if wanted < 180 {
        180
    } else if wanted > 380 {
        380
    } else {
        wanted as u32
    }
}

/// The area to shade behind the matched part of a list line: from the end
/// of the text before the match, as wide as the match but not past the
/// line, inset 4 pixels top and bottom; none when the match starts past
/// the line or has no width.
pub open spec fn highlight_rect_of(line: Rect, prefix_width: int, match_width: int) -> Option<Rect> {
    let left = line.left + prefix_width;
    if left >= line.right || match_width <= 0 {
        None
    } else {
        Some(
            Rect {
                left: left as i32,
                top: (line.top + 4) as i32,
                right: (if left + match_width < line.right {
                    left + match_width
                } else {
                    line.right as int
                }) as i32,
                bottom: (line.bottom - 4) as i32,
            },
        )
    }
}

/// The area to shade behind the matched part of a list line, given the
/// measured widths of the text before the match and of the match.
pub fn highlight_rect(line: Rect, prefix_width: i32, match_width: i32) -> (r: Option<Rect>)
    requires
        i32::MIN <= line.left + prefix_width <= i32::MAX,
        line.left + prefix_width + match_width <= i32::MAX,
        line.top + 4 <= i32::MAX,
        line.bottom - 4 >= i32::MIN,
    ensures
        r == highlight_rect_of(line, prefix_width as int, match_width as int),
{
    let left = line.left + prefix_width;
    if left >= line.right || match_width <= 0 {
        return None;
    }
    let end = left + match_width;
    Some(
        Rect {
            left,
            top: line.top + 4,
            right: if end < line.right {
                end
            } else {
                line.right
            },
            bottom: line.bottom - 4,
        },
    )
}

/// The text of a menu item drawn by the application, as a zero-terminated
/// UTF-16 string, and whether it carries a check mark.
pub struct PopupMenuItemData {
    text: Vec<u16>,
    checked: bool,
}

impl PopupMenuItemData {
    /// The item for `text`, checked or not.
    pub fn new(text: &str, checked: bool) -> (r: PopupMenuItemData)
        ensures
            r.units()@ == utf16(text@).push(0),
            r.is_checked() == checked,
    {
        PopupMenuItemData { text: wide(text), checked }
    }

    /// The zero-terminated UTF-16 text, whose address the menu keeps.
    pub fn text_units(&self) -> (r: &Vec<u16>)
        ensures
            r@ == self.units()@,
    {
        &self.text
    }

    /// Whether the item carries a check mark.
    pub fn checked(&self) -> (r: bool)
        ensures
            r == self.is_checked(),
    {
        self.checked
    }

    /// The zero-terminated UTF-16 text.
    pub closed spec fn units(&self) -> Vec<u16> {
        self.text
    }

    /// Whether the item carries a check mark.
    pub closed spec fn is_checked(&self) -> bool {
        self.checked
    }
}

/// The width of a notice.
pub const TOAST_WIDTH: i32 = 360;

/// The height of a notice.
pub const TOAST_HEIGHT: i32 = 52;

/// The gap between a notice and the bottom of the work area.
pub const TOAST_MARGIN: i32 = 28;

/// Half of `d`, rounded toward zero as integer division does.
pub open spec fn half_toward_zero(d: int) -> int {
    if d >= 0 {
        d / 2
    } else {
        -((-d) / 2)
    }
}

/// Where a notice goes on a monitor's work area: centred across, its
/// bottom a margin above the work area's bottom.
pub open spec fn toast_origin_of(work: Rect) -> (int, int) {
    (
        work.left + half_toward_zero(work.right - work.left - TOAST_WIDTH),
        work.bottom - TOAST_HEIGHT - TOAST_MARGIN,
    )
}

/// Where a notice goes on the work area of the monitor under the mouse:
/// centred across, its bottom a margin above the work area's bottom.
pub fn toast_origin(work: Rect) -> (r: (i32, i32))
    requires
        i32::MIN <= work.right - work.left <= i32::MAX,
        i32::MIN <= work.right - work.left - TOAST_WIDTH <= i32::MAX,
        i32::MIN <= toast_origin_of(work).0 <= i32::MAX,
        i32::MIN <= toast_origin_of(work).1,
    ensures
        r.0 == toast_origin_of(work).0,
        r.1 == toast_origin_of(work).1,
{
    let free = work.right - work.left - TOAST_WIDTH;
    (work.left + free / 2, work.bottom - TOAST_HEIGHT - TOAST_MARGIN)
}

/// The left edge of the gesture drawing canvas.
pub const CANVAS_LEFT: i32 = 232;

/// The top edge of the gesture drawing canvas.
pub const CANVAS_TOP: i32 = 256;

/// The right edge (excluded) of the gesture drawing canvas.
pub const CANVAS_RIGHT: i32 = 832;

/// The bottom edge (excluded) of the gesture drawing canvas.
pub const CANVAS_BOTTOM: i32 = 546;

/// The area of the settings window where a gesture sample is drawn.
pub open spec fn canvas_rect() -> Rect {
    Rect { left: CANVAS_LEFT, top: CANVAS_TOP, right: CANVAS_RIGHT, bottom: CANVAS_BOTTOM }
}

/// The area of the settings window where a gesture sample is drawn.
pub fn canvas() -> (r: Rect)
    ensures
        r == canvas_rect(),
{
    Rect { left: CANVAS_LEFT, top: CANVAS_TOP, right: CANVAS_RIGHT, bottom: CANVAS_BOTTOM }
}

/// Whether the point lies on the drawing canvas: left and top edges
/// included, right and bottom excluded.
pub fn contains(x: i32, y: i32) -> (r: bool)
    ensures
        r == (CANVAS_LEFT <= x < CANVAS_RIGHT && CANVAS_TOP <= y < CANVAS_BOTTOM),
{
    CANVAS_LEFT <= x && x < CANVAS_RIGHT && CANVAS_TOP <= y && y < CANVAS_BOTTOM
}

/// The low 16 bits of a message parameter.
pub fn loword(value: usize) -> (r: u16)
    ensures
        r == value % 0x1_0000,
{
    let r = (value & 0xffff) as u16;
    assert(r == value % 0x1_0000) by (bit_vector)
        requires
            r == (value & 0xffff) as u16,
    ;
    r
}

/// Bits 16 to 31 of a message parameter.
pub fn hiword(value: usize) -> (r: u16)
    ensures
        r == (value / 0x1_0000) % 0x1_0000,
{
    let r = ((value >> 16) & 0xffff) as u16;
    assert(r == (value / 0x1_0000) % 0x1_0000) by (bit_vector)
        requires
            r == ((value >> 16) & 0xffff) as u16,
    ;
    r
}

/// A 16-bit field read as a signed value.
pub open spec fn signed16(v: int) -> int {
    if v >= 0x8000 {
        v - 0x1_0000
    } else {
        v
    }
}

/// The client coordinates packed in a mouse message's parameter: the low
/// two 16-bit fields of its 32 low bits, each signed.
pub open spec fn packed_point(value: int) -> (int, int) {
    let packed = value % 0x1_0000_0000;
    (signed16(packed % 0x1_0000), signed16(packed / 0x1_0000))
}

/// The client coordinates packed in a mouse message's parameter.
pub fn client_point(value: isize) -> (r: (i32, i32))
    ensures
        (r.0 as int, r.1 as int) == packed_point(value as int),
{
    let packed = value as u32;
    let low = (packed & 0xffff) as u16;
    let high = (packed >> 16) as u16;
    let x = if low >= 0x8000 {
        low as i32 - 0x1_0000
    } else {
        low as i32
    };
    let y = if high >= 0x8000 {
        high as i32 - 0x1_0000
    } else {
        high as i32
    };
    assert(packed == (value as int) % 0x1_0000_0000) by (bit_vector)
        requires
            packed == value as u32,
    ;
    assert(low == packed % 0x1_0000 && high == packed / 0x1_0000) by (bit_vector)
        requires
            low == (packed & 0xffff) as u16,
            high == (packed >> 16) as u16,
    ;
    (x, y)
}

} // verus!
