//! The application's settings: their defaults, the rules a stored
//! configuration must meet, the gesture-to-action bindings, and the upgrade
//! of configurations written by older versions.
//!
//! Reading and writing the file is the application's part; it hands the
//! parsed values to the functions here.

use vstd::prelude::*;
use crate::action::ActionKind;
use crate::fbits::{F32Bits, f32_within, f32_in_range, lemma_scaled_strictly_increases};
use crate::gesture::{GestureId, UserGestureTemplate, gesture_order, gesture_short_label, well_shaped, lemma_gesture_order_complete};
use crate::text::{occurs_at, contains_text, contains_str, is_blank, is_blank_text, decimal, decimal_string};

verus! {

/// The directory under the local application data folder that holds the files.
pub const APP_DIR_NAME: &'static str = "Xmouse";

/// The search address used when none is configured.
pub const DEFAULT_SEARCH_URL: &'static str = "https://www.google.com/search?q={query}";

/// The configuration layout this version writes.
pub const CURRENT_SCHEMA_VERSION: u32 = 2;

/// The search address that earlier versions wrote by default.
pub const LEGACY_BING_SEARCH_URL: &'static str = "https://www.bing.com/search?q={query}";

/// The bits of `4.0f32`, the least activation distance.
pub const DISTANCE_MIN_BITS: F32Bits = 0x4080_0000;

/// The bits of `80.0f32`, the greatest activation distance.
pub const DISTANCE_MAX_BITS: F32Bits = 0x42A0_0000;

/// The bits of `12.0f32`, the least minimum stroke length.
pub const STROKE_MIN_BITS: F32Bits = 0x4140_0000;

/// The bits of `160.0f32`, the greatest minimum stroke length.
pub const STROKE_MAX_BITS: F32Bits = 0x4320_0000;

/// The bits of `0.60f32`, the least recognition threshold.
pub const THRESHOLD_MIN_BITS: F32Bits = 0x3F19_999A;

/// The bits of `0.98f32`, the greatest recognition threshold.
pub const THRESHOLD_MAX_BITS: F32Bits = 0x3F7A_E148;

/// The bits of `12.0f32`, the default activation distance.
pub const DEFAULT_DISTANCE_BITS: F32Bits = 0x4140_0000;

/// The bits of `28.0f32`, the default minimum stroke length.
pub const DEFAULT_STROKE_BITS: F32Bits = 0x41E0_0000;

/// The bits of `0.82f32`, the default recognition threshold.
pub const DEFAULT_THRESHOLD_BITS: F32Bits = 0x3F51_EB85;

/// The mouse button that starts a gesture.
#[derive(Debug, Clone, Copy, PartialEq, Eq, Structural)]
pub enum TriggerButton {
    Right,
    X1,
    X2,
}

/// Clipboard history settings.
#[derive(Debug, Clone)]
pub struct HistoryConfig {
    pub capture: bool,
    pub auto_paste: bool,
    pub encrypt_content: bool,
    pub max_items: usize,
    pub max_disk_mib: u64,
    pub max_text_bytes: usize,
    pub max_image_input_mib: u64,
    pub max_image_stored_mib: u64,
    pub excluded_processes: Vec<String>,
}

impl Default for HistoryConfig {
    fn default() -> (r: Self)
        ensures
            r.capture,
            r.auto_paste,
            !r.encrypt_content,
            r.max_items == 200,
            r.max_disk_mib == 256,
            r.max_text_bytes == 1_048_576,
            r.max_image_input_mib == 64,
            r.max_image_stored_mib == 20,
            r.excluded_processes@.len() == 0,
    {
        HistoryConfig {
            capture: true,
            auto_paste: true,
            encrypt_content: false,
            max_items: 200,
            max_disk_mib: 256,
            max_text_bytes: 1_048_576,
            max_image_input_mib: 64,
            max_image_stored_mib: 20,
            excluded_processes: Vec::new(),
        }
    }
}

/// Where gestures are not recognised.
#[derive(Debug, Clone)]
pub struct GestureGuardConfig {
    pub disable_in_fullscreen_apps: bool,
    pub excluded_processes: Vec<String>,
}

impl Default for GestureGuardConfig {
    fn default() -> (r: Self)
        ensures
            r.disable_in_fullscreen_apps,
            r.excluded_processes@.len() == 0,
    {
        GestureGuardConfig { disable_in_fullscreen_apps: true, excluded_processes: Vec::new() }
    }
}

/// The action a gesture is bound to.
#[derive(Debug, Clone, Copy, PartialEq, Eq, Structural)]
pub struct GestureBinding {
    pub gesture: GestureId,
    pub action: ActionKind,
}

/// All settings. The three float settings are held as the bits of their
/// `f32` values.
#[derive(Debug, Clone)]
pub struct AppConfig {
    pub schema_version: u32,
    pub enabled: bool,
    pub dark_mode: bool,
    pub trigger: TriggerButton,
    pub activation_delay_ms: u32,
    pub activation_distance_dip: F32Bits,
    pub minimum_stroke_length_dip: F32Bits,
    pub recognition_threshold: F32Bits,
    pub show_trail: bool,
    pub search_url_template: String,
    pub autostart: bool,
    pub custom_gestures: Vec<UserGestureTemplate>,
    pub gesture_bindings: Vec<GestureBinding>,
    pub gesture_guard: GestureGuardConfig,
    pub history: HistoryConfig,
}

/// The action a gesture has when no binding names it.
pub open spec fn default_action_of(g: GestureId) -> ActionKind {
    match g {
        GestureId::Up => ActionKind::ToggleTopmost,
        GestureId::LetterL => ActionKind::CloseTab,
        GestureId::LetterS => ActionKind::SearchSelection,
        GestureId::LetterC => ActionKind::CopySelection,
        GestureId::LetterV => ActionKind::OpenHistory,
        GestureId::Left => ActionKind::SwitchDesktopRight,
        GestureId::Right => ActionKind::SwitchDesktopLeft,
        GestureId::Seven => ActionKind::TaskManager,
        GestureId::Circle => ActionKind::ScreenSnip,
    }
}

/// The action a gesture has when no binding names it.
pub fn default_action(gesture: GestureId) -> (r: ActionKind)
    ensures
        r == default_action_of(gesture),
{
    match gesture {
        GestureId::Up => ActionKind::ToggleTopmost,
        GestureId::LetterL => ActionKind::CloseTab,
        GestureId::LetterS => ActionKind::SearchSelection,
        GestureId::LetterC => ActionKind::CopySelection,
        GestureId::LetterV => ActionKind::OpenHistory,
        GestureId::Left => ActionKind::SwitchDesktopRight,
        GestureId::Right => ActionKind::SwitchDesktopLeft,
        GestureId::Seven => ActionKind::TaskManager,
        GestureId::Circle => ActionKind::ScreenSnip,
    }
}

/// One binding per gesture, in the settings order, each to its default action.
pub open spec fn default_bindings() -> Seq<GestureBinding> {
    gesture_order().map_values(|g: GestureId| GestureBinding { gesture: g, action: default_action_of(g) })
}

/// One binding per gesture, in the settings order, each to its default action.
pub fn default_gesture_bindings() -> (r: Vec<GestureBinding>)
    ensures
        r@ == default_bindings(),
{
    let all = GestureId::all();
    let mut r: Vec<GestureBinding> = Vec::new();
    let mut i: usize = 0;
    while i < all.len()
        invariant
            all@ == gesture_order(),
            0 <= i <= all@.len(),
            r@ == default_bindings().take(i as int),
        decreases all.len() - i,
    {
        let g = all[i];
        r.push(GestureBinding { gesture: g, action: default_action(g) });
        assert(r@ =~= default_bindings().take(i + 1));
        i = i + 1;
    }
    assert(default_bindings().take(9) =~= default_bindings());
    r
}

/// The two configurations agree on every setting but the schema version
/// and the gesture bindings.
pub open spec fn same_settings(a: AppConfig, b: AppConfig) -> bool {
    &&& a.enabled == b.enabled
    &&& a.dark_mode == b.dark_mode
    &&& a.trigger == b.trigger
    &&& a.activation_delay_ms == b.activation_delay_ms
    &&& a.activation_distance_dip == b.activation_distance_dip
    &&& a.minimum_stroke_length_dip == b.minimum_stroke_length_dip
    &&& a.recognition_threshold == b.recognition_threshold
    &&& a.show_trail == b.show_trail
    &&& a.search_url_template@ == b.search_url_template@
    &&& a.autostart == b.autostart
    &&& a.custom_gestures@ == b.custom_gestures@
    &&& a.gesture_guard.disable_in_fullscreen_apps == b.gesture_guard.disable_in_fullscreen_apps
    &&& a.gesture_guard.excluded_processes@ == b.gesture_guard.excluded_processes@
    &&& a.history.capture == b.history.capture
    &&& a.history.auto_paste == b.history.auto_paste
    &&& a.history.encrypt_content == b.history.encrypt_content
    &&& a.history.max_items == b.history.max_items
    &&& a.history.max_disk_mib == b.history.max_disk_mib
    &&& a.history.max_text_bytes == b.history.max_text_bytes
    &&& a.history.max_image_input_mib == b.history.max_image_input_mib
    &&& a.history.max_image_stored_mib == b.history.max_image_stored_mib
    &&& a.history.excluded_processes@ == b.history.excluded_processes@
}

/// The configuration holds every default setting.
pub open spec fn is_default_config(c: AppConfig) -> bool {
    &&& c.schema_version == CURRENT_SCHEMA_VERSION
    &&& c.enabled
    &&& !c.dark_mode
    &&& c.trigger == TriggerButton::Right
    &&& c.activation_delay_ms == 180
    &&& c.activation_distance_dip == DEFAULT_DISTANCE_BITS
    &&& c.minimum_stroke_length_dip == DEFAULT_STROKE_BITS
    &&& c.recognition_threshold == DEFAULT_THRESHOLD_BITS
    &&& c.show_trail
    &&& c.search_url_template@ == DEFAULT_SEARCH_URL@
    &&& !c.autostart
    &&& c.custom_gestures@.len() == 0
    &&& c.gesture_bindings@ == default_bindings()
    &&& c.gesture_guard.disable_in_fullscreen_apps
    &&& c.gesture_guard.excluded_processes@.len() == 0
    &&& c.history.capture
    &&& c.history.auto_paste
    &&& !c.history.encrypt_content
    &&& c.history.max_items == 200
    &&& c.history.max_disk_mib == 256
    &&& c.history.max_text_bytes == 1_048_576
    &&& c.history.max_image_input_mib == 64
    &&& c.history.max_image_stored_mib == 20
    &&& c.history.excluded_processes@.len() == 0
}

impl Default for AppConfig {
    fn default() -> (r: Self)
        ensures
            is_default_config(r),
    {
        AppConfig {
            schema_version: CURRENT_SCHEMA_VERSION,
            enabled: true,
            dark_mode: false,
            trigger: TriggerButton::Right,
            activation_delay_ms: 180,
            activation_distance_dip: DEFAULT_DISTANCE_BITS,
            minimum_stroke_length_dip: DEFAULT_STROKE_BITS,
            recognition_threshold: DEFAULT_THRESHOLD_BITS,
            show_trail: true,
            search_url_template: String::from_str(DEFAULT_SEARCH_URL),
            autostart: false,
            custom_gestures: Vec::new(),
            gesture_bindings: default_gesture_bindings(),
            gesture_guard: GestureGuardConfig::default(),
            history: HistoryConfig::default(),
        }
    }
}

/// The index of the first binding for `g`, if any binds it.
pub open spec fn first_binding(b: Seq<GestureBinding>, g: GestureId) -> Option<int>
    decreases b.len(),
{
    if b.len() == 0 {
        None
    } else if b[0].gesture == g {
        Some(0)
    } else {
        match first_binding(b.drop_first(), g) {
            Some(i) => Some(i + 1),
            None => None,
        }
    }
}

/// The action of `g` under the bindings `b`: that of the first binding for
/// `g`, else the default one.
pub open spec fn bound_action(b: Seq<GestureBinding>, g: GestureId) -> ActionKind {
    match first_binding(b, g) {
        Some(i) => b[i].action,
        None => default_action_of(g),
    }
}

/// The bindings after binding `g` to `a`: the first binding for `g` takes
/// the action, or a new binding is appended when none exists.
pub open spec fn rebound(b: Seq<GestureBinding>, g: GestureId, a: ActionKind) -> Seq<GestureBinding> {
    match first_binding(b, g) {
        Some(i) => b.update(i, GestureBinding { gesture: g, action: a }),
        None => b.push(GestureBinding { gesture: g, action: a }),
    }
}

/// What `first_binding` gives, by the positions of the bindings.
pub proof fn lemma_first_binding(b: Seq<GestureBinding>, g: GestureId)
    ensures
        match first_binding(b, g) {
            Some(i) => 0 <= i < b.len() && b[i].gesture == g && forall|j: int|
                0 <= j < i ==> (#[trigger] b[j]).gesture != g,
            None => forall|j: int| 0 <= j < b.len() ==> (#[trigger] b[j]).gesture != g,
        },
    decreases b.len(),
{
    if b.len() > 0 && b[0].gesture != g {
        lemma_first_binding(b.drop_first(), g);
        match first_binding(b.drop_first(), g) {
            Some(i) => {
                assert forall|j: int| 0 <= j < i + 1 implies (#[trigger] b[j]).gesture != g by {
                    if j > 0 {
                        assert(b[j] == b.drop_first()[j - 1]);
                    }
                }
            },
            None => {
                assert forall|j: int| 0 <= j < b.len() implies (#[trigger] b[j]).gesture != g by {
                    if j > 0 {
                        assert(b[j] == b.drop_first()[j - 1]);
                    }
                }
            },
        }
    }
}

/// The first binding for `g` is the one at `i` when `i` binds `g` and no
/// earlier one does.
pub proof fn lemma_first_binding_at(b: Seq<GestureBinding>, g: GestureId, i: int)
    requires
        0 <= i < b.len(),
        b[i].gesture == g,
        forall|j: int| 0 <= j < i ==> (#[trigger] b[j]).gesture != g,
    ensures
        first_binding(b, g) == Some(i),
{
    lemma_first_binding(b, g);
}

/// No binding for `g` when none of the bindings names it.
pub proof fn lemma_first_binding_none(b: Seq<GestureBinding>, g: GestureId)
    requires
        forall|j: int| 0 <= j < b.len() ==> (#[trigger] b[j]).gesture != g,
    ensures
        first_binding(b, g) is None,
{
    lemma_first_binding(b, g);
}

/// The position of the first binding for `gesture`, if any.
fn find_binding(bindings: &Vec<GestureBinding>, gesture: GestureId) -> (r: Option<usize>)
    ensures
        match r {
            Some(i) => i < bindings@.len() && first_binding(bindings@, gesture) == Some(i as int),
            None => first_binding(bindings@, gesture) is None,
        },
{
    let mut i: usize = 0;
    while i < bindings.len()
        invariant
            0 <= i <= bindings@.len(),
            forall|j: int| 0 <= j < i ==> (#[trigger] bindings@[j]).gesture != gesture,
        decreases bindings.len() - i,
    {
        if bindings[i].gesture == gesture {
            proof {
                lemma_first_binding_at(bindings@, gesture, i as int);
            }
            return Some(i);
        }
        i = i + 1;
    }
    proof {
        lemma_first_binding_none(bindings@, gesture);
    }
    None
}

impl AppConfig {
    /// The action bound to `gesture`: that of the first binding naming it,
    /// else the gesture's default action.
    pub fn action_for(&self, gesture: GestureId) -> (r: ActionKind)
        ensures
            r == bound_action(self.gesture_bindings@, gesture),
    {
        match find_binding(&self.gesture_bindings, gesture) {
            Some(i) => self.gesture_bindings[i].action,
            None => default_action(gesture),
        }
    }

    /// Binds `gesture` to `action`: the first binding naming the gesture
    /// takes the action, or a new binding is appended. Nothing else changes.
    pub fn set_action(&mut self, gesture: GestureId, action: ActionKind)
        ensures
            final(self).gesture_bindings@ == rebound(old(self).gesture_bindings@, gesture, action),
            final(self).schema_version == old(self).schema_version,
            same_settings(*old(self), *final(self)),
            bound_action(final(self).gesture_bindings@, gesture) == action,
            forall|h: GestureId|
                h != gesture ==> #[trigger] bound_action(final(self).gesture_bindings@, h) == bound_action(
                    old(self).gesture_bindings@,
                    h,
                ),
            forall|normalizable: Seq<bool>|
                #[trigger] config_problem(*old(self), normalizable) is None ==> config_problem(
                    *final(self),
                    normalizable,
                ) is None,
    {
        proof {
            lemma_bound_after_rebind(self.gesture_bindings@, gesture, action);
            assert forall|h: GestureId| h != gesture implies #[trigger] bound_action(
                rebound(self.gesture_bindings@, gesture, action),
                h,
            ) == bound_action(self.gesture_bindings@, h) by {
                lemma_rebind_keeps_others(self.gesture_bindings@, gesture, action, h);
            }
        }
        let ghost before = *self;
        let binding = GestureBinding { gesture, action };
        match find_binding(&self.gesture_bindings, gesture) {
            Some(i) => {
                self.gesture_bindings.set(i, binding);
            },
            None => {
                self.gesture_bindings.push(binding);
            },
        }
        proof {
            assert forall|normalizable: Seq<bool>| #[trigger] config_problem(before, normalizable) is None
                implies config_problem(*self, normalizable) is None by {
                lemma_set_action_keeps_valid(before, *self, normalizable, gesture, action);
            }
        }
    }
}

/// Binding a gesture to an action and then asking for its action gives that
/// action.
pub proof fn lemma_bound_after_rebind(b: Seq<GestureBinding>, g: GestureId, a: ActionKind)
    ensures
        bound_action(rebound(b, g, a), g) == a,
{
    lemma_first_binding(b, g);
    let r = rebound(b, g, a);
    match first_binding(b, g) {
        Some(i) => {
            assert forall|j: int| 0 <= j < i implies (#[trigger] r[j]).gesture != g by {
                assert(r[j] == b[j]);
            }
            lemma_first_binding_at(r, g, i);
        },
        None => {
            assert forall|j: int| 0 <= j < b.len() implies (#[trigger] r[j]).gesture != g by {
                assert(r[j] == b[j]);
            }
            lemma_first_binding_at(r, g, b.len() as int);
        },
    }
}

/// Binding a gesture leaves the action of every other gesture unchanged.
pub proof fn lemma_rebind_keeps_others(b: Seq<GestureBinding>, g: GestureId, a: ActionKind, h: GestureId)
    requires
        h != g,
    ensures
        bound_action(rebound(b, g, a), h) == bound_action(b, h),
{
    lemma_first_binding(b, g);
    lemma_first_binding(b, h);
    let r = rebound(b, g, a);
    assert(r.len() >= b.len());
    assert forall|j: int| 0 <= j < b.len() implies (#[trigger] r[j]).gesture == h <==> b[j].gesture == h by {
        if first_binding(b, g) == Some(j) {
            assert(b[j].gesture == g);
        } else {
            assert(r[j] == b[j]);
        }
    }
    match first_binding(b, h) {
        Some(k) => {
            assert(r[k] == b[k]);
            assert forall|j: int| 0 <= j < k implies (#[trigger] r[j]).gesture != h by {
                assert(b[j].gesture != h);
            }
            lemma_first_binding_at(r, h, k);
        },
        None => {
            assert forall|j: int| 0 <= j < r.len() implies (#[trigger] r[j]).gesture != h by {
                if j < b.len() {
                    assert(b[j].gesture != h);
                }
            }
            lemma_first_binding_none(r, h);
        },
    }
}

/* Laws of the bindings */

/// Counting occurrences in a sequence with one more element.
proof fn lemma_count_push(gs: Seq<GestureId>, x: GestureId, h: GestureId)
    ensures
        gesture_count(gs.push(x), h) == gesture_count(gs, h) + if x == h {
            1nat
        } else {
            0nat
        },
{
    assert(gs.push(x).drop_last() =~= gs);
}

/// A gesture that no element equals occurs zero times.
proof fn lemma_count_absent(gs: Seq<GestureId>, h: GestureId)
    requires
        forall|j: int| 0 <= j < gs.len() ==> gs[j] != h,
    ensures
        gesture_count(gs, h) == 0,
    decreases gs.len(),
{
    if gs.len() > 0 {
        lemma_count_absent(gs.drop_last(), h);
    }
}

/// The occurrences of the nine gestures add up to the length.
proof fn lemma_count_total(gs: Seq<GestureId>)
    ensures
        gesture_count(gs, GestureId::Up) + gesture_count(gs, GestureId::LetterL) + gesture_count(
            gs,
            GestureId::LetterS,
        ) + gesture_count(gs, GestureId::LetterC) + gesture_count(gs, GestureId::LetterV)
            + gesture_count(gs, GestureId::Left) + gesture_count(gs, GestureId::Right)
            + gesture_count(gs, GestureId::Seven) + gesture_count(gs, GestureId::Circle) == gs.len(),
    decreases gs.len(),
{
    if gs.len() > 0 {
        lemma_count_total(gs.drop_last());
    }
}

/// No gesture from position `k` on exceeds the limit exactly when
/// `first_exceeding` finds none.
proof fn lemma_first_exceeding_none(gs: Seq<GestureId>, limit: nat, k: nat)
    requires
        k <= 9,
    ensures
        first_exceeding(gs, limit, k) is None <==> forall|j: int|
            k <= j < 9 ==> gesture_count(gs, #[trigger] gesture_order()[j]) <= limit,
    decreases 9 - k,
{
    if k < 9 {
        lemma_first_exceeding_none(gs, limit, k + 1);
    }
}

/// No gesture exceeds the limit exactly when each of them stays within it.
proof fn lemma_within_limit(gs: Seq<GestureId>, limit: nat)
    ensures
        first_exceeding(gs, limit, 0) is None <==> forall|h: GestureId|
            gesture_count(gs, h) <= limit,
{
    lemma_first_exceeding_none(gs, limit, 0);
    if first_exceeding(gs, limit, 0) is None {
        assert forall|h: GestureId| gesture_count(gs, h) <= limit by {
            lemma_gesture_order_complete(h);
            let j = choose|j: int| 0 <= j < 9 && gesture_order()[j] == h;
            assert(gesture_count(gs, gesture_order()[j]) <= limit);
        }
    }
}

/// Binding a gesture keeps valid bindings valid: no gesture bound twice,
/// no more bindings than gestures.
pub proof fn lemma_rebind_keeps_bindings_valid(b: Seq<GestureBinding>, g: GestureId, a: ActionKind)
    requires
        bindings_problem(b) is None,
    ensures
        bindings_problem(rebound(b, g, a)) is None,
{
    let gs = binding_gestures(b);
    let r = rebound(b, g, a);
    let rs = binding_gestures(r);
    lemma_within_limit(gs, 1);
    lemma_within_limit(rs, 1);
    lemma_first_binding(b, g);
    match first_binding(b, g) {
        Some(i) => {
            assert(rs =~= gs);
        },
        None => {
            assert(rs =~= gs.push(g));
            lemma_count_absent(gs, g);
            assert forall|h: GestureId| gesture_count(rs, h) <= 1 by {
                lemma_count_push(gs, g, h);
            }
            lemma_count_total(gs);
            assert(gs.len() <= 8);
        },
    }
}

/// Binding a gesture to an action keeps a valid configuration valid.
pub proof fn lemma_set_action_keeps_valid(
    before: AppConfig,
    after: AppConfig,
    normalizable: Seq<bool>,
    g: GestureId,
    a: ActionKind,
)
    requires
        config_problem(before, normalizable) is None,
        after.schema_version == before.schema_version,
        same_settings(before, after),
        after.gesture_bindings@ == rebound(before.gesture_bindings@, g, a),
    ensures
        config_problem(after, normalizable) is None,
{
    lemma_rebind_keeps_bindings_valid(before.gesture_bindings@, g, a);
}

/// The upgrade from the first schema changes the action of no gesture but
/// the two horizontal ones, and swaps those exactly when they still had
/// that schema's defaults; afterwards the 7 and circle gestures are bound.
pub proof fn lemma_migration_actions(b: Seq<GestureBinding>, h: GestureId)
    ensures
        ({
            let old_pair = bound_action(b, GestureId::Left) == ActionKind::SwitchDesktopLeft
                && bound_action(b, GestureId::Right) == ActionKind::SwitchDesktopRight;
            let m = migrated_bindings(b);
            &&& h == GestureId::Left && old_pair ==> bound_action(m, h) == ActionKind::SwitchDesktopRight
            &&& h == GestureId::Right && old_pair ==> bound_action(m, h) == ActionKind::SwitchDesktopLeft
            &&& !(old_pair && (h == GestureId::Left || h == GestureId::Right)) ==> bound_action(m, h)
                == bound_action(b, h)
            &&& first_binding(m, GestureId::Seven) is Some
            &&& first_binding(m, GestureId::Circle) is Some
        }),
{
    let old_pair = bound_action(b, GestureId::Left) == ActionKind::SwitchDesktopLeft
        && bound_action(b, GestureId::Right) == ActionKind::SwitchDesktopRight;
    let b1 = if old_pair {
        rebound(
            rebound(b, GestureId::Left, ActionKind::SwitchDesktopRight),
            GestureId::Right,
            ActionKind::SwitchDesktopLeft,
        )
    } else {
        b
    };
    if old_pair {
        let b0 = rebound(b, GestureId::Left, ActionKind::SwitchDesktopRight);
        lemma_bound_after_rebind(b, GestureId::Left, ActionKind::SwitchDesktopRight);
        lemma_rebind_keeps_others(b0, GestureId::Right, ActionKind::SwitchDesktopLeft, GestureId::Left);
        lemma_bound_after_rebind(b0, GestureId::Right, ActionKind::SwitchDesktopLeft);
        if h != GestureId::Left && h != GestureId::Right {
            lemma_rebind_keeps_others(b, GestureId::Left, ActionKind::SwitchDesktopRight, h);
            lemma_rebind_keeps_others(b0, GestureId::Right, ActionKind::SwitchDesktopLeft, h);
        }
    }
    // b1 gives every gesture its final action but for the added defaults.
    let b2 = if first_binding(b1, GestureId::Seven) is None {
        rebound(b1, GestureId::Seven, ActionKind::TaskManager)
    } else {
        b1
    };
    if first_binding(b1, GestureId::Seven) is None {
        lemma_bound_after_rebind(b1, GestureId::Seven, ActionKind::TaskManager);
        lemma_rebind_keeps_others(b1, GestureId::Seven, ActionKind::TaskManager, GestureId::Circle);
        if h != GestureId::Seven {
            lemma_rebind_keeps_others(b1, GestureId::Seven, ActionKind::TaskManager, h);
        }
        lemma_first_binding(b1, GestureId::Seven);
        lemma_first_binding_at(b2, GestureId::Seven, b1.len() as int);
    }
    let m = migrated_bindings(b);
    if first_binding(b2, GestureId::Circle) is None {
        lemma_bound_after_rebind(b2, GestureId::Circle, ActionKind::ScreenSnip);
        if h != GestureId::Circle {
            lemma_rebind_keeps_others(b2, GestureId::Circle, ActionKind::ScreenSnip, h);
        }
        lemma_first_binding(b2, GestureId::Circle);
        lemma_first_binding_at(m, GestureId::Circle, b2.len() as int);
        lemma_first_binding(b2, GestureId::Seven);
        lemma_first_binding(m, GestureId::Seven);
        let i = first_binding(b2, GestureId::Seven)->0;
        assert(m[i] == b2[i]);
        assert forall|j: int| 0 <= j < i implies (#[trigger] m[j]).gesture != GestureId::Seven by {
            assert(m[j] == b2[j]);
        }
        lemma_first_binding_at(m, GestureId::Seven, i);
    }
}

/// The default settings form a valid configuration.
pub proof fn lemma_default_config_valid(c: AppConfig)
    requires
        is_default_config(c),
    ensures
        config_problem(c, Seq::empty()) is None,
{
    lemma_scaled_strictly_increases(DISTANCE_MIN_BITS, DEFAULT_DISTANCE_BITS);
    lemma_scaled_strictly_increases(DEFAULT_DISTANCE_BITS, DISTANCE_MAX_BITS);
    lemma_scaled_strictly_increases(STROKE_MIN_BITS, DEFAULT_STROKE_BITS);
    lemma_scaled_strictly_increases(DEFAULT_STROKE_BITS, STROKE_MAX_BITS);
    lemma_scaled_strictly_increases(THRESHOLD_MIN_BITS, DEFAULT_THRESHOLD_BITS);
    lemma_scaled_strictly_increases(DEFAULT_THRESHOLD_BITS, THRESHOLD_MAX_BITS);
    reveal_strlit("https://www.google.com/search?q={query}");
    reveal_strlit("{query}");
    assert(DEFAULT_SEARCH_URL@.len() == 39);
    assert(c.search_url_template@.subrange(32, 39) =~= "{query}"@);
    assert(occurs_at(c.search_url_template@, "{query}"@, 32));
    let none: Seq<UserGestureTemplate> = c.custom_gestures@;
    assert(sample_gestures(none) =~= Seq::<GestureId>::empty());
    lemma_within_limit(sample_gestures(none), 3);
    let gs = binding_gestures(c.gesture_bindings@);
    assert(gs =~= gesture_order());
    lemma_within_limit(gs, 1);
    assert forall|h: GestureId| gesture_count(gs, h) <= 1 by {
        reveal_with_fuel(gesture_count, 10);
    }
}

/* Personalised samples */

/// The samples without the first `n` of gesture `g`, the others in order.
pub open spec fn without_oldest(s: Seq<UserGestureTemplate>, g: GestureId, n: nat) -> Seq<UserGestureTemplate>
    decreases s.len(),
{
    if s.len() == 0 {
        s
    } else {
        let kept = without_oldest(s.drop_last(), g, n);
        if s.last().gesture == g && gesture_count(sample_gestures(s.drop_last()), g) < n {
            kept
        } else {
            kept.push(s.last())
        }
    }
}

/// The samples after learning `sample`: the oldest samples of its gesture
/// go until two are left, then the new one is appended.
pub open spec fn learned(s: Seq<UserGestureTemplate>, sample: UserGestureTemplate) -> Seq<UserGestureTemplate> {
    let c = gesture_count(sample_gestures(s), sample.gesture);
    let n: nat = if c >= 3 {
        (c - 2) as nat
    } else {
        0
    };
    without_oldest(s, sample.gesture, n).push(sample)
}

/// Adds a recorded sample, keeping at most three per gesture: the oldest
/// samples of the same gesture are dropped first.
pub fn learn_sample(samples: &mut Vec<UserGestureTemplate>, sample: UserGestureTemplate)
    ensures
        final(samples)@ == learned(old(samples)@, sample),
{
    let g = sample.gesture;
    let gestures = sample_gesture_list(samples);
    let c = count_gesture(&gestures, g);
    let n: usize = if c >= 3 {
        c - 2
    } else {
        0
    };
    let mut previous: Vec<UserGestureTemplate> = Vec::new();
    std::mem::swap(&mut previous, samples);
    let ghost all = previous@;
    let total = previous.len();
    let mut seen: usize = 0;
    for t in it: previous.into_iter()
        invariant
            it.seq() == all,
            all.len() == total,
            seen == gesture_count(sample_gestures(all.take(it.index() as int)), g),
            seen <= it.index(),
            samples@ == without_oldest(all.take(it.index() as int), g, n as nat),
    {
        let ghost i = it.index() as int;
        proof {
            let t1 = all.take(i + 1);
            assert(t1.drop_last() =~= all.take(i));
            assert(t1.last() == t);
            assert(sample_gestures(t1) =~= sample_gestures(all.take(i)).push(t.gesture));
            assert(sample_gestures(t1).drop_last() =~= sample_gestures(all.take(i)));
        }
        if t.gesture == g {
            if seen < n {
                seen = seen + 1;
            } else {
                seen = seen + 1;
                samples.push(t);
            }
        } else {
            samples.push(t);
        }
    }
    assert(all.take(all.len() as int) =~= all);
    samples.push(sample);
}

/// Removes every sample of gesture `g`, keeping the others in order.
pub fn forget_samples(samples: &mut Vec<UserGestureTemplate>, g: GestureId)
    ensures
        final(samples)@ == old(samples)@.filter(|t: UserGestureTemplate| t.gesture != g),
{
    let mut previous: Vec<UserGestureTemplate> = Vec::new();
    std::mem::swap(&mut previous, samples);
    let ghost all = previous@;
    let ghost keep = |t: UserGestureTemplate| t.gesture != g;
    for t in it: previous.into_iter()
        invariant
            it.seq() == all,
            keep == (|t: UserGestureTemplate| t.gesture != g),
            samples@ == all.take(it.index() as int).filter(keep),
    {
        let ghost i = it.index() as int;
        proof {
            reveal(Seq::filter);
            let t1 = all.take(i + 1);
            assert(t1.drop_last() =~= all.take(i));
            assert(t1.last() == t);
        }
        if t.gesture != g {
            samples.push(t);
        }
    }
    assert(all.take(all.len() as int) =~= all);
}

/// After forgetting a gesture's samples none of them is left.
pub proof fn lemma_forgotten_gesture_has_no_samples(s: Seq<UserGestureTemplate>, g: GestureId)
    ensures
        gesture_count(sample_gestures(s.filter(|t: UserGestureTemplate| t.gesture != g)), g) == 0,
{
    let kept = s.filter(|t: UserGestureTemplate| t.gesture != g);
    s.filter_lemma(|t: UserGestureTemplate| t.gesture != g);
    assert forall|j: int| 0 <= j < kept.len() implies sample_gestures(kept)[j] != g by {
        assert((|t: UserGestureTemplate| t.gesture != g)(kept[j]));
    }
    lemma_count_absent(sample_gestures(kept), g);
}

/// How many samples of each gesture remain after dropping the first `n` of
/// gesture `g`.
proof fn lemma_without_oldest_counts(s: Seq<UserGestureTemplate>, g: GestureId, n: nat, h: GestureId)
    ensures
        gesture_count(sample_gestures(without_oldest(s, g, n)), h) == if h == g {
            if gesture_count(sample_gestures(s), g) >= n {
                (gesture_count(sample_gestures(s), g) - n) as nat
            } else {
                0nat
            }
        } else {
            gesture_count(sample_gestures(s), h)
        },
    decreases s.len(),
{
    if s.len() > 0 {
        let d = s.drop_last();
        let x = s.last();
        lemma_without_oldest_counts(d, g, n, h);
        lemma_without_oldest_counts(d, g, n, g);
        assert(sample_gestures(s) =~= sample_gestures(d).push(x.gesture));
        lemma_count_push(sample_gestures(d), x.gesture, h);
        lemma_count_push(sample_gestures(d), x.gesture, g);
        let prev = without_oldest(d, g, n);
        assert(sample_gestures(prev.push(x)) =~= sample_gestures(prev).push(x.gesture));
        lemma_count_push(sample_gestures(prev), x.gesture, h);
    } else {
        assert(sample_gestures(s) =~= Seq::<GestureId>::empty());
    }
}

/// Learning a sample leaves its gesture with at most three samples, the
/// two newest before it and itself, and every other gesture's samples as
/// they were; so a set of samples within the limits stays within them.
pub proof fn lemma_learned_limits(s: Seq<UserGestureTemplate>, sample: UserGestureTemplate, h: GestureId)
    ensures
        gesture_count(sample_gestures(learned(s, sample)), sample.gesture) == (if gesture_count(
            sample_gestures(s),
            sample.gesture,
        ) >= 2 {
            3
        } else {
            gesture_count(sample_gestures(s), sample.gesture) + 1
        }),
        h != sample.gesture ==> gesture_count(sample_gestures(learned(s, sample)), h)
            == gesture_count(sample_gestures(s), h),
        samples_within_limits(s) ==> samples_within_limits(learned(s, sample)),
{
    let g = sample.gesture;
    let c = gesture_count(sample_gestures(s), g);
    let n: nat = if c >= 3 {
        (c - 2) as nat
    } else {
        0
    };
    let kept = without_oldest(s, g, n);
    assert(sample_gestures(kept.push(sample)) =~= sample_gestures(kept).push(g));
    lemma_without_oldest_counts(s, g, n, h);
    lemma_without_oldest_counts(s, g, n, g);
    lemma_count_push(sample_gestures(kept), g, h);
    lemma_count_push(sample_gestures(kept), g, g);
    if samples_within_limits(s) {
        let l = learned(s, sample);
        lemma_within_limit(sample_gestures(s), 3);
        lemma_within_limit(sample_gestures(l), 3);
        assert forall|k: GestureId| gesture_count(sample_gestures(l), k) <= 3 by {
            lemma_without_oldest_counts(s, g, n, k);
            lemma_count_push(sample_gestures(kept), g, k);
        }
        lemma_count_total(sample_gestures(l));
        assert(sample_gestures(l).len() == l.len());
    }
}

/// At most three samples per gesture, and so at most 27 in all.
pub open spec fn samples_within_limits(s: Seq<UserGestureTemplate>) -> bool {
    s.len() <= 27 && first_exceeding(sample_gestures(s), 3, 0) is None
}

/// The upgrade from the first schema keeps valid bindings valid: it binds
/// no gesture twice and adds no more bindings than there are gestures.
pub proof fn lemma_migration_keeps_bindings_valid(b: Seq<GestureBinding>)
    requires
        bindings_problem(b) is None,
    ensures
        bindings_problem(migrated_bindings(b)) is None,
{
    let old_pair = bound_action(b, GestureId::Left) == ActionKind::SwitchDesktopLeft
        && bound_action(b, GestureId::Right) == ActionKind::SwitchDesktopRight;
    let b0 = rebound(b, GestureId::Left, ActionKind::SwitchDesktopRight);
    lemma_rebind_keeps_bindings_valid(b, GestureId::Left, ActionKind::SwitchDesktopRight);
    lemma_rebind_keeps_bindings_valid(b0, GestureId::Right, ActionKind::SwitchDesktopLeft);
    let b1 = if old_pair {
        rebound(b0, GestureId::Right, ActionKind::SwitchDesktopLeft)
    } else {
        b
    };
    lemma_rebind_keeps_bindings_valid(b1, GestureId::Seven, ActionKind::TaskManager);
    let b2 = if first_binding(b1, GestureId::Seven) is None {
        rebound(b1, GestureId::Seven, ActionKind::TaskManager)
    } else {
        b1
    };
    lemma_rebind_keeps_bindings_valid(b2, GestureId::Circle, ActionKind::ScreenSnip);
}

/* Validation */

/// Why a configuration was refused.
#[derive(Debug, Clone, Copy, PartialEq, Eq, Structural)]
pub enum ConfigError {
    /// The schema version is not the current one.
    UnsupportedVersion(u32),
    /// The activation delay is outside 50..=1000 ms.
    ActivationDelay,
    /// The activation distance is outside 4..=80 DIP.
    ActivationDistance,
    /// The minimum stroke length is outside 12..=160 DIP.
    MinimumStrokeLength,
    /// The recognition threshold is outside 0.60..=0.98.
    RecognitionThreshold,
    /// The search address lacks the `{query}` placeholder.
    SearchUrlTemplate,
    /// More personalised samples than three per gesture in all.
    TooManySamples,
    /// More than three personalised samples for this gesture.
    TooManySamplesFor(GestureId),
    /// A personalised sample is damaged.
    CorruptSample,
    /// More bindings than gestures.
    TooManyBindings,
    /// This gesture is bound more than once.
    DuplicateBinding(GestureId),
    /// The list of programs where gestures are off is too long or holds a
    /// blank or overlong name.
    GestureExclusions,
    /// The history size is outside 10..=10000 items.
    HistoryItems,
    /// The history disk limit is outside 16..=16384 MiB.
    HistoryDisk,
    /// The local application data folder is not known.
    MissingAppData,
}

/// The message shown for each configuration error.
pub open spec fn config_error_message(e: ConfigError) -> Seq<char> {
    match e {
        ConfigError::UnsupportedVersion(v) => "不支持的配置版本 "@ + decimal(v as nat),
        ConfigError::ActivationDelay => "触发延时必须在 50–1000 ms 之间"@,
        ConfigError::ActivationDistance => "触发距离必须在 4–80 DIP 之间"@,
        ConfigError::MinimumStrokeLength => "最短手势轨迹必须在 12–160 DIP 之间"@,
        ConfigError::RecognitionThreshold => "识别阈值必须在 0.60–0.98 之间"@,
        ConfigError::SearchUrlTemplate => "搜索网址必须包含 {query}"@,
        ConfigError::TooManySamples => "每条轨迹最多保存 3 个个性化手势样本"@,
        ConfigError::TooManySamplesFor(g) => gesture_short_label(g) + " 的个性化样本超过 3 个"@,
        ConfigError::CorruptSample => "个性化手势样本损坏"@,
        ConfigError::TooManyBindings => "手势动作映射数量无效"@,
        ConfigError::DuplicateBinding(g) => gesture_short_label(g) + " 存在重复动作映射"@,
        ConfigError::GestureExclusions => "手势排除程序列表无效"@,
        ConfigError::HistoryItems => "历史数量必须在 10–10000 之间"@,
        ConfigError::HistoryDisk => "历史磁盘上限必须在 16–16384 MiB 之间"@,
        ConfigError::MissingAppData => "找不到 LOCALAPPDATA"@,
    }
}

impl ConfigError {
    /// The message shown for this error.
    pub fn message(&self) -> (r: String)
        ensures
            r@ == config_error_message(*self),
    {
        match self {
            ConfigError::UnsupportedVersion(v) => {
                let mut m = String::from_str("不支持的配置版本 ");
                m.append(decimal_string(*v as u64).as_str());
                m
            },
            ConfigError::ActivationDelay => String::from_str("触发延时必须在 50–1000 ms 之间"),
            ConfigError::ActivationDistance => String::from_str("触发距离必须在 4–80 DIP 之间"),
            ConfigError::MinimumStrokeLength => String::from_str("最短手势轨迹必须在 12–160 DIP 之间"),
            ConfigError::RecognitionThreshold => String::from_str("识别阈值必须在 0.60–0.98 之间"),
            ConfigError::SearchUrlTemplate => String::from_str("搜索网址必须包含 {query}"),
            ConfigError::TooManySamples => String::from_str("每条轨迹最多保存 3 个个性化手势样本"),
            ConfigError::TooManySamplesFor(g) => {
                let mut m = String::from_str(g.short_label());
                m.append(" 的个性化样本超过 3 个");
                m
            },
            ConfigError::CorruptSample => String::from_str("个性化手势样本损坏"),
            ConfigError::TooManyBindings => String::from_str("手势动作映射数量无效"),
            ConfigError::DuplicateBinding(g) => {
                let mut m = String::from_str(g.short_label());
                m.append(" 存在重复动作映射");
                m
            },
            ConfigError::GestureExclusions => String::from_str("手势排除程序列表无效"),
            ConfigError::HistoryItems => String::from_str("历史数量必须在 10–10000 之间"),
            ConfigError::HistoryDisk => String::from_str("历史磁盘上限必须在 16–16384 MiB 之间"),
            ConfigError::MissingAppData => String::from_str("找不到 LOCALAPPDATA"),
        }
    }
}

/// The gestures of the samples, in order.
pub open spec fn sample_gestures(t: Seq<UserGestureTemplate>) -> Seq<GestureId> {
    t.map_values(|x: UserGestureTemplate| x.gesture)
}

/// The gestures of the bindings, in order.
pub open spec fn binding_gestures(b: Seq<GestureBinding>) -> Seq<GestureId> {
    b.map_values(|x: GestureBinding| x.gesture)
}

/// How many times `g` occurs in `gs`.
pub open spec fn gesture_count(gs: Seq<GestureId>, g: GestureId) -> nat
    decreases gs.len(),
{
    if gs.len() == 0 {
        0
    } else {
        gesture_count(gs.drop_last(), g) + if gs.last() == g {
            1nat
        } else {
            0nat
        }
    }
}

/// The first gesture, in the settings order from position `k` on, that
/// occurs in `gs` more than `limit` times.
pub open spec fn first_exceeding(gs: Seq<GestureId>, limit: nat, k: nat) -> Option<GestureId>
    decreases 9 - k,
{
    if k >= 9 {
        None
    } else if gesture_count(gs, gesture_order()[k as int]) > limit {
        Some(gesture_order()[k as int])
    } else {
        first_exceeding(gs, limit, k + 1)
    }
}

/// A name in the gesture exclusion list that is refused: blank, or longer
/// than 260 bytes in UTF-8.
pub open spec fn bad_exclusion(name: Seq<char>) -> bool {
    is_blank_text(name) || vstd::utf8::encode_utf8(name).len() > 260
}

/// The first problem of the samples, given which of them normalise.
pub open spec fn samples_problem(t: Seq<UserGestureTemplate>, normalizable: Seq<bool>) -> Option<ConfigError> {
    if t.len() > 27 {
        Some(ConfigError::TooManySamples)
    } else if let Some(g) = first_exceeding(sample_gestures(t), 3, 0) {
        Some(ConfigError::TooManySamplesFor(g))
    } else if exists|i: int| 0 <= i < t.len() && !(well_shaped((#[trigger] t[i]).points@) && normalizable[i]) {
        Some(ConfigError::CorruptSample)
    } else {
        None
    }
}

/// The first problem of the bindings.
pub open spec fn bindings_problem(b: Seq<GestureBinding>) -> Option<ConfigError> {
    if b.len() > 9 {
        Some(ConfigError::TooManyBindings)
    } else if let Some(g) = first_exceeding(binding_gestures(b), 1, 0) {
        Some(ConfigError::DuplicateBinding(g))
    } else {
        None
    }
}

/// Whether the gesture exclusion list is refused.
pub open spec fn exclusions_refused(list: Seq<String>) -> bool {
    list.len() > 256 || exists|i: int| 0 <= i < list.len() && bad_exclusion((#[trigger] list[i])@)
}

/// The first problem of a configuration, checked in a fixed order, given
/// which of its samples normalise; `None` when it is valid.
pub open spec fn config_problem(c: AppConfig, normalizable: Seq<bool>) -> Option<ConfigError> {
    if c.schema_version != CURRENT_SCHEMA_VERSION {
        Some(ConfigError::UnsupportedVersion(c.schema_version))
    } else if !(50 <= c.activation_delay_ms <= 1000) {
        Some(ConfigError::ActivationDelay)
    } else if !f32_within(c.activation_distance_dip, DISTANCE_MIN_BITS, DISTANCE_MAX_BITS) {
        Some(ConfigError::ActivationDistance)
    } else if !f32_within(c.minimum_stroke_length_dip, STROKE_MIN_BITS, STROKE_MAX_BITS) {
        Some(ConfigError::MinimumStrokeLength)
    } else if !f32_within(c.recognition_threshold, THRESHOLD_MIN_BITS, THRESHOLD_MAX_BITS) {
        Some(ConfigError::RecognitionThreshold)
    } else if !contains_text(c.search_url_template@, "{query}"@) {
        Some(ConfigError::SearchUrlTemplate)
    } else if let Some(e) = samples_problem(c.custom_gestures@, normalizable) {
        Some(e)
    } else if let Some(e) = bindings_problem(c.gesture_bindings@) {
        Some(e)
    } else if exclusions_refused(c.gesture_guard.excluded_processes@) {
        Some(ConfigError::GestureExclusions)
    } else if !(10 <= c.history.max_items <= 10_000) {
        Some(ConfigError::HistoryItems)
    } else if !(16 <= c.history.max_disk_mib <= 16_384) {
        Some(ConfigError::HistoryDisk)
    } else {
        None
    }
}

/// The result that `validate` gives for a problem, or its absence.
pub open spec fn outcome(p: Option<ConfigError>) -> Result<(), ConfigError> {
    match p {
        Some(e) => Err(e),
        None => Ok(()),
    }
}

/// How many times `g` occurs in `gs`.
fn count_gesture(gs: &Vec<GestureId>, g: GestureId) -> (r: usize)
    ensures
        r == gesture_count(gs@, g),
{
    let mut n: usize = 0;
    let mut i: usize = 0;
    while i < gs.len()
        invariant
            0 <= i <= gs@.len(),
            n == gesture_count(gs@.take(i as int), g),
            n <= i,
        decreases gs.len() - i,
    {
        assert(gs@.take(i + 1).drop_last() =~= gs@.take(i as int));
        if gs[i] == g {
            n = n + 1;
        }
        i = i + 1;
    }
    assert(gs@.take(gs@.len() as int) =~= gs@);
    n
}

/// The first gesture, in the settings order, that occurs in `gs` more than
/// `limit` times.
fn first_gesture_over(gs: &Vec<GestureId>, limit: usize) -> (r: Option<GestureId>)
    ensures
        r == first_exceeding(gs@, limit as nat, 0),
{
    let all = GestureId::all();
    let mut k: usize = 0;
    while k < all.len()
        invariant
            all@ == gesture_order(),
            0 <= k <= 9,
            first_exceeding(gs@, limit as nat, 0) == first_exceeding(gs@, limit as nat, k as nat),
        decreases all.len() - k,
    {
        if count_gesture(gs, all[k]) > limit {
            return Some(all[k]);
        }
        k = k + 1;
    }
    None
}

/// The gestures of the samples, in order.
fn sample_gesture_list(t: &Vec<UserGestureTemplate>) -> (r: Vec<GestureId>)
    ensures
        r@ == sample_gestures(t@),
{
    let mut r: Vec<GestureId> = Vec::new();
    let mut i: usize = 0;
    while i < t.len()
        invariant
            0 <= i <= t@.len(),
            r@ == sample_gestures(t@.take(i as int)),
        decreases t.len() - i,
    {
        r.push(t[i].gesture);
        assert(r@ =~= sample_gestures(t@.take(i + 1)));
        i = i + 1;
    }
    assert(t@.take(t@.len() as int) =~= t@);
    r
}

/// The gestures of the bindings, in order.
fn binding_gesture_list(b: &Vec<GestureBinding>) -> (r: Vec<GestureId>)
    ensures
        r@ == binding_gestures(b@),
{
    let mut r: Vec<GestureId> = Vec::new();
    let mut i: usize = 0;
    while i < b.len()
        invariant
            0 <= i <= b@.len(),
            r@ == binding_gestures(b@.take(i as int)),
        decreases b.len() - i,
    {
        r.push(b[i].gesture);
        assert(r@ =~= binding_gestures(b@.take(i + 1)));
        i = i + 1;
    }
    assert(b@.take(b@.len() as int) =~= b@);
    r
}

/// The first problem of the samples.
fn check_samples(t: &Vec<UserGestureTemplate>, normalizable: &Vec<bool>) -> (r: Option<ConfigError>)
    requires
        normalizable@.len() == t@.len(),
    ensures
        r == samples_problem(t@, normalizable@),
{
    if t.len() > 27 {
        return Some(ConfigError::TooManySamples);
    }
    let gestures = sample_gesture_list(t);
    if let Some(g) = first_gesture_over(&gestures, 3) {
        return Some(ConfigError::TooManySamplesFor(g));
    }
    let mut i: usize = 0;
    while i < t.len()
        invariant
            normalizable@.len() == t@.len(),
            t@.len() <= 27,
            first_exceeding(sample_gestures(t@), 3, 0) is None,
            0 <= i <= t@.len(),
            forall|j: int| 0 <= j < i ==> well_shaped((#[trigger] t@[j]).points@) && normalizable@[j],
        decreases t.len() - i,
    {
        if !t[i].is_valid(normalizable[i]) {
            assert(!(well_shaped(t@[i as int].points@) && normalizable@[i as int]));
            return Some(ConfigError::CorruptSample);
        }
        i = i + 1;
    }
    None
}

/// The first problem of the bindings.
fn check_bindings(b: &Vec<GestureBinding>) -> (r: Option<ConfigError>)
    ensures
        r == bindings_problem(b@),
{
    if b.len() > 9 {
        return Some(ConfigError::TooManyBindings);
    }
    let gestures = binding_gesture_list(b);
    match first_gesture_over(&gestures, 1) {
        Some(g) => Some(ConfigError::DuplicateBinding(g)),
        None => None,
    }
}

/// Whether the gesture exclusion list is refused.
fn check_exclusions(list: &Vec<String>) -> (r: bool)
    ensures
        r == exclusions_refused(list@),
{
    if list.len() > 256 {
        return true;
    }
    let mut i: usize = 0;
    while i < list.len()
        invariant
            0 <= i <= list@.len(),
            forall|j: int| 0 <= j < i ==> !bad_exclusion((#[trigger] list@[j])@),
        decreases list.len() - i,
    {
        let name = list[i].as_str();
        if is_blank(name) || name.as_bytes().len() > 260 {
            assert(bad_exclusion(list@[i as int]@));
            return true;
        }
        assert(name@ == list@[i as int]@);
        assert(!bad_exclusion(list@[i as int]@));
        i = i + 1;
    }
    false
}

impl AppConfig {
    /// Checks the configuration, in a fixed order, and gives the first
    /// problem found. `normalizable[i]` tells whether the stroke of the
    /// `i`-th personalised sample normalises to a direction vector, which
    /// takes float arithmetic and is computed by the caller.
    pub fn validate(&self, normalizable: &Vec<bool>) -> (r: Result<(), ConfigError>)
        requires
            normalizable@.len() == self.custom_gestures@.len(),
        ensures
            r == outcome(config_problem(*self, normalizable@)),
    {
        if self.schema_version != CURRENT_SCHEMA_VERSION {
            return Err(ConfigError::UnsupportedVersion(self.schema_version));
        }
        if !(50 <= self.activation_delay_ms && self.activation_delay_ms <= 1000) {
            return Err(ConfigError::ActivationDelay);
        }
        if !f32_in_range(self.activation_distance_dip, DISTANCE_MIN_BITS, DISTANCE_MAX_BITS) {
            return Err(ConfigError::ActivationDistance);
        }
        if !f32_in_range(self.minimum_stroke_length_dip, STROKE_MIN_BITS, STROKE_MAX_BITS) {
            return Err(ConfigError::MinimumStrokeLength);
        }
        if !f32_in_range(self.recognition_threshold, THRESHOLD_MIN_BITS, THRESHOLD_MAX_BITS) {
            return Err(ConfigError::RecognitionThreshold);
        }
        if !contains_str(self.search_url_template.as_str(), "{query}") {
            return Err(ConfigError::SearchUrlTemplate);
        }
        if let Some(e) = check_samples(&self.custom_gestures, normalizable) {
            return Err(e);
        }
        if let Some(e) = check_bindings(&self.gesture_bindings) {
            return Err(e);
        }
        if check_exclusions(&self.gesture_guard.excluded_processes) {
            return Err(ConfigError::GestureExclusions);
        }
        if !(10 <= self.history.max_items && self.history.max_items <= 10_000) {
            return Err(ConfigError::HistoryItems);
        }
        if !(16 <= self.history.max_disk_mib && self.history.max_disk_mib <= 16_384) {
            return Err(ConfigError::HistoryDisk);
        }
        Ok(())
    }
}

/* Upgrading stored configurations */

/// The bindings after the upgrade from the first schema: where the two
/// horizontal gestures still had that schema's defaults, they are swapped
/// to the current ones; the 7 and circle gestures, when unbound, get their
/// default actions.
pub open spec fn migrated_bindings(b: Seq<GestureBinding>) -> Seq<GestureBinding> {
    let b1 = if bound_action(b, GestureId::Left) == ActionKind::SwitchDesktopLeft && bound_action(
        b,
        GestureId::Right,
    ) == ActionKind::SwitchDesktopRight {
        rebound(
            rebound(b, GestureId::Left, ActionKind::SwitchDesktopRight),
            GestureId::Right,
            ActionKind::SwitchDesktopLeft,
        )
    } else {
        b
    };
    let b2 = if first_binding(b1, GestureId::Seven) is None {
        rebound(b1, GestureId::Seven, ActionKind::TaskManager)
    } else {
        b1
    };
    if first_binding(b2, GestureId::Circle) is None {
        rebound(b2, GestureId::Circle, ActionKind::ScreenSnip)
    } else {
        b2
    }
}

/// What the upgrade reports for a stored schema version: `Ok(false)` for
/// the current one, `Ok(true)` for the first one, an error otherwise.
pub open spec fn migration_outcome(version: u32) -> Result<bool, ConfigError> {
    if version == CURRENT_SCHEMA_VERSION {
        Ok(false)
    } else if version == 1 {
        Ok(true)
    } else {
        Err(ConfigError::UnsupportedVersion(version))
    }
}

/// Upgrades a configuration written under an older schema to the current
/// one. Gives whether anything changed; a configuration of an unknown
/// schema is refused and left as it was.
pub fn migrate_config(config: &mut AppConfig) -> (r: Result<bool, ConfigError>)
    ensures
        r == migration_outcome(old(config).schema_version),
        old(config).schema_version == 1 ==> {
            &&& final(config).schema_version == CURRENT_SCHEMA_VERSION
            &&& final(config).gesture_bindings@ == migrated_bindings(old(config).gesture_bindings@)
            &&& same_settings(*old(config), *final(config))
        },
        old(config).schema_version != 1 ==> *final(config) == *old(config),
{
    if config.schema_version == CURRENT_SCHEMA_VERSION {
        return Ok(false);
    }
    if config.schema_version != 1 {
        return Err(ConfigError::UnsupportedVersion(config.schema_version));
    }
    let ghost before = *config;
    let old_desktop_pair = config.action_for(GestureId::Left) == ActionKind::SwitchDesktopLeft
        && config.action_for(GestureId::Right) == ActionKind::SwitchDesktopRight;
    if old_desktop_pair {
        config.set_action(GestureId::Left, ActionKind::SwitchDesktopRight);
        config.set_action(GestureId::Right, ActionKind::SwitchDesktopLeft);
    }
    if find_binding(&config.gesture_bindings, GestureId::Seven).is_none() {
        config.set_action(GestureId::Seven, default_action(GestureId::Seven));
    }
    if find_binding(&config.gesture_bindings, GestureId::Circle).is_none() {
        config.set_action(GestureId::Circle, default_action(GestureId::Circle));
    }
    config.schema_version = CURRENT_SCHEMA_VERSION;
    assert(same_settings(before, *config));
    Ok(true)
}

/// The configuration as `load_or_create` keeps it after reading: upgraded
/// to the current schema, the earlier default search address replaced by
/// the current one, then validated. Gives whether it changed and so needs
/// to be written back. `normalizable` is as for `validate`.
pub fn upgrade_loaded_config(config: &mut AppConfig, normalizable: &Vec<bool>) -> (r: Result<bool, ConfigError>)
    requires
        normalizable@.len() == old(config).custom_gestures@.len(),
    ensures
        migration_outcome(old(config).schema_version) is Err ==> r == migration_outcome(
            old(config).schema_version,
        ),
        migration_outcome(old(config).schema_version) is Ok ==> {
            let legacy = old(config).search_url_template@ == LEGACY_BING_SEARCH_URL@;
            &&& final(config).schema_version == CURRENT_SCHEMA_VERSION
            &&& final(config).gesture_bindings@ == (if old(config).schema_version == 1 {
                migrated_bindings(old(config).gesture_bindings@)
            } else {
                old(config).gesture_bindings@
            })
            &&& final(config).search_url_template@ == (if legacy {
                DEFAULT_SEARCH_URL@
            } else {
                old(config).search_url_template@
            })
            &&& r == (match config_problem(*final(config), normalizable@) {
                Some(e) => Err(e),
                None => Ok(old(config).schema_version == 1 || legacy),
            })
        },
        migration_outcome(old(config).schema_version) is Err ==> *final(config) == *old(config),
        same_settings_but_search(*old(config), *final(config)),
{
    let migrated = migrate_config(config);
    let mut changed = match migrated {
        Ok(c) => c,
        Err(e) => {
            return Err(e);
        },
    };
    let legacy = String::from_str(LEGACY_BING_SEARCH_URL);
    if config.search_url_template == legacy {
        config.search_url_template = String::from_str(DEFAULT_SEARCH_URL);
        changed = true;
    }
    match config.validate(normalizable) {
        Ok(()) => Ok(changed),
        Err(e) => Err(e),
    }
}

/// The two configurations agree on every setting but the schema version,
/// the gesture bindings and the search address.
pub open spec fn same_settings_but_search(a: AppConfig, b: AppConfig) -> bool {
    &&& a.enabled == b.enabled
    &&& a.dark_mode == b.dark_mode
    &&& a.trigger == b.trigger
    &&& a.activation_delay_ms == b.activation_delay_ms
    &&& a.activation_distance_dip == b.activation_distance_dip
    &&& a.minimum_stroke_length_dip == b.minimum_stroke_length_dip
    &&& a.recognition_threshold == b.recognition_threshold
    &&& a.show_trail == b.show_trail
    &&& a.autostart == b.autostart
    &&& a.custom_gestures@ == b.custom_gestures@
    &&& a.gesture_guard.disable_in_fullscreen_apps == b.gesture_guard.disable_in_fullscreen_apps
    &&& a.gesture_guard.excluded_processes@ == b.gesture_guard.excluded_processes@
    &&& a.history.capture == b.history.capture
    &&& a.history.auto_paste == b.history.auto_paste
    &&& a.history.encrypt_content == b.history.encrypt_content
    &&& a.history.max_items == b.history.max_items
    &&& a.history.max_disk_mib == b.history.max_disk_mib
    &&& a.history.max_text_bytes == b.history.max_text_bytes
    &&& a.history.max_image_input_mib == b.history.max_image_input_mib
    &&& a.history.max_image_stored_mib == b.history.max_image_stored_mib
    &&& a.history.excluded_processes@ == b.history.excluded_processes@
}

} // verus!
