//! What the settings window and the history popup do with each event:
//! their state, and the steps the application carries out in turn. The
//! application creates and paints the windows, performs the steps and
//! reports back what came of them.

use vstd::prelude::*;
use crate::config::{AppConfig, ConfigError, TriggerButton};
use crate::gesture::GestureId;
use crate::storage::ClipKind;
use crate::text::{decimal, decimal_string};
use crate::window::{SettingsPage, CANVAS_LEFT, CANVAS_TOP, CANVAS_RIGHT, CANVAS_BOTTOM, contains};

verus! {

/* The settings window */

/// The choices the settings window edits.
#[derive(Debug, Clone, Copy, PartialEq, Eq, Structural)]
pub struct SettingsForm {
    pub enabled: bool,
    pub dark_mode: bool,
    pub trigger: TriggerButton,
    pub autostart: bool,
    pub capture: bool,
    pub encrypt_content: bool,
}

/// The choices of a configuration, as the settings window shows them.
pub open spec fn form_of(c: AppConfig) -> SettingsForm {
    SettingsForm {
        enabled: c.enabled,
        dark_mode: c.dark_mode,
        trigger: c.trigger,
        autostart: c.autostart,
        capture: c.history.capture,
        encrypt_content: c.history.encrypt_content,
    }
}

/// The choices of a configuration, as the settings window shows them.
pub fn settings_form(config: &AppConfig) -> (r: SettingsForm)
    ensures
        r == form_of(*config),
{
    SettingsForm {
        enabled: config.enabled,
        dark_mode: config.dark_mode,
        trigger: config.trigger,
        autostart: config.autostart,
        capture: config.history.capture,
        encrypt_content: config.history.encrypt_content,
    }
}

/// Takes the window's choices into a configuration, leaving every other
/// setting as it was.
pub fn apply_form(config: &mut AppConfig, form: SettingsForm)
    ensures
        form_of(*final(config)) == form,
        final(config).schema_version == old(config).schema_version,
        final(config).gesture_bindings@ == old(config).gesture_bindings@,
        final(config).activation_delay_ms == old(config).activation_delay_ms,
        final(config).activation_distance_dip == old(config).activation_distance_dip,
        final(config).minimum_stroke_length_dip == old(config).minimum_stroke_length_dip,
        final(config).recognition_threshold == old(config).recognition_threshold,
        final(config).show_trail == old(config).show_trail,
        final(config).search_url_template@ == old(config).search_url_template@,
        final(config).custom_gestures@ == old(config).custom_gestures@,
        final(config).gesture_guard.disable_in_fullscreen_apps == old(config).gesture_guard.disable_in_fullscreen_apps,
        final(config).gesture_guard.excluded_processes@ == old(config).gesture_guard.excluded_processes@,
        final(config).history.auto_paste == old(config).history.auto_paste,
        final(config).history.max_items == old(config).history.max_items,
        final(config).history.max_disk_mib == old(config).history.max_disk_mib,
        final(config).history.max_text_bytes == old(config).history.max_text_bytes,
        final(config).history.max_image_input_mib == old(config).history.max_image_input_mib,
        final(config).history.max_image_stored_mib == old(config).history.max_image_stored_mib,
        final(config).history.excluded_processes@ == old(config).history.excluded_processes@,
{
    config.enabled = form.enabled;
    config.dark_mode = form.dark_mode;
    config.trigger = form.trigger;
    config.autostart = form.autostart;
    config.history.capture = form.capture;
    config.history.encrypt_content = form.encrypt_content;
}

/// A switch of the settings window.
#[derive(Debug, Clone, Copy, PartialEq, Eq, Structural)]
pub enum SettingsToggle {
    Enabled,
    Autostart,
    Capture,
    EncryptContent,
    DarkMode,
}

/// The value of a switch in the form.
pub open spec fn toggle_value(form: SettingsForm, t: SettingsToggle) -> bool {
    match t {
        SettingsToggle::Enabled => form.enabled,
        SettingsToggle::Autostart => form.autostart,
        SettingsToggle::Capture => form.capture,
        SettingsToggle::EncryptContent => form.encrypt_content,
        SettingsToggle::DarkMode => form.dark_mode,
    }
}

/// The form with a switch flipped.
pub open spec fn flipped(form: SettingsForm, t: SettingsToggle) -> SettingsForm {
    match t {
        SettingsToggle::Enabled => SettingsForm { enabled: !form.enabled, ..form },
        SettingsToggle::Autostart => SettingsForm { autostart: !form.autostart, ..form },
        SettingsToggle::Capture => SettingsForm { capture: !form.capture, ..form },
        SettingsToggle::EncryptContent => SettingsForm { encrypt_content: !form.encrypt_content, ..form },
        SettingsToggle::DarkMode => SettingsForm { dark_mode: !form.dark_mode, ..form },
    }
}

/// What the settings window holds: the page shown, the choices being
/// edited, the choices of the configuration in force, the gesture whose
/// samples are being taught, and whether a sample is being drawn.
#[derive(Debug, Clone, Copy, PartialEq, Eq, Structural)]
pub struct SettingsState {
    pub page: SettingsPage,
    pub form: SettingsForm,
    pub saved: SettingsForm,
    pub training: GestureId,
    pub drawing: bool,
}

/// The most points a drawn sample keeps.
pub const MAX_TRAINING_POINTS: usize = 512;

/// The value brought into `lo..=hi`.
pub open spec fn clamped(v: i32, lo: i32, hi: i32) -> i32 {
    if v < lo {
        lo
    } else if v > hi {
        hi
    } else {
        v
    }
}

/// A point of a drawn sample, kept two pixels inside the canvas.
pub open spec fn canvas_point(x: i32, y: i32) -> (i32, i32) {
    (clamped(x, (CANVAS_LEFT + 2) as i32, (CANVAS_RIGHT - 2) as i32), clamped(y, (CANVAS_TOP + 2) as i32, (CANVAS_BOTTOM - 2) as i32))
}

/// A point of a drawn sample, kept two pixels inside the canvas.
pub fn clamp_to_canvas(x: i32, y: i32) -> (r: (i32, i32))
    ensures
        r == canvas_point(x, y),
{
    let cx = if x < CANVAS_LEFT + 2 {
        CANVAS_LEFT + 2
    } else if x > CANVAS_RIGHT - 2 {
        CANVAS_RIGHT - 2
    } else {
        x
    };
    let cy = if y < CANVAS_TOP + 2 {
        CANVAS_TOP + 2
    } else if y > CANVAS_BOTTOM - 2 {
        CANVAS_BOTTOM - 2
    } else {
        y
    };
    (cx, cy)
}

/// A notice the settings window shows.
#[derive(Debug, Clone, Copy, PartialEq, Eq, Structural)]
pub enum SettingsNotice {
    Saved,
    GesturesEnabled,
    GesturesPaused,
}

/// The text of each settings notice.
pub open spec fn settings_notice_text(n: SettingsNotice) -> Seq<char> {
    match n {
        SettingsNotice::Saved => "设置已保存"@,
        SettingsNotice::GesturesEnabled => "手势已启用"@,
        SettingsNotice::GesturesPaused => "手势已暂停"@,
    }
}

impl SettingsNotice {
    /// The text of the notice.
    pub fn text(self) -> (r: &'static str)
        ensures
            r@ == settings_notice_text(self),
    {
        match self {
            SettingsNotice::Saved => "设置已保存",
            SettingsNotice::GesturesEnabled => "手势已启用",
            SettingsNotice::GesturesPaused => "手势已暂停",
        }
    }
}

/// What happened to the settings window or the tray icon.
#[derive(Debug, Clone, Copy, PartialEq, Eq, Structural)]
pub enum SettingsEvent {
    /// A switch was clicked.
    Toggle(SettingsToggle),
    /// A trigger button was chosen.
    ChooseTrigger(TriggerButton),
    /// A page of the side bar was chosen.
    Navigate(SettingsPage),
    /// Save was clicked.
    Save,
    /// The saved configuration was written and autostart set.
    Saved,
    /// The configuration was refused.
    SaveRefused(ConfigError),
    /// Writing the configuration or setting autostart failed.
    SaveFailed,
    /// The configuration in force was loaded into the window.
    ConfigLoaded(SettingsForm),
    /// The clipboard changed; `own_update` when the program caused it,
    /// `suspended` while capture is paused.
    ClipboardUpdate { own_update: bool, suspended: bool },
    /// The left button went down at a point of the window.
    Press { x: i32, y: i32 },
    /// The mouse moved to a point of the window; the sample being drawn
    /// holds `points` points.
    Move { x: i32, y: i32, points: usize },
    /// The left button went up at a point of the window; the sample being
    /// drawn holds `points` points.
    Release { x: i32, y: i32, points: usize },
    /// A gesture was chosen to be taught.
    SelectTraining(GestureId),
    /// "Clear samples" was clicked.
    ClearSamples,
    /// "Clear history" was clicked.
    ClearHistory,
    /// "Open data folder" was clicked.
    OpenDataDir,
    /// A captured clipboard entry was stored.
    CaptureDone,
    /// The resource timer fired.
    ResourceTimer,
    /// The tray icon was clicked.
    TrayClick,
    /// The tray icon asked for its menu.
    TrayMenu,
    /// "Settings" was chosen from the tray menu.
    MenuSettings,
    /// "Clipboard history" was chosen from the tray menu.
    MenuHistory,
    /// "Pause gestures" was chosen from the tray menu.
    MenuPause,
    /// "Exit" was chosen from the tray menu.
    MenuExit,
    /// The window's close button was clicked.
    Close,
}

/// A step the application takes for the settings window.
#[derive(Debug, Clone, Copy, PartialEq, Eq, Structural)]
pub enum SettingsAction {
    /// Show a switch in the given position.
    SetToggle(SettingsToggle, bool),
    /// Switch the windows to the dark or the light theme.
    ApplyTheme(bool),
    /// Mark the chosen trigger button.
    SelectTrigger(TriggerButton),
    /// Show the page's controls and title, hiding the others.
    ShowPage(SettingsPage),
    /// Measure and show the resource figures.
    RefreshResources,
    /// Start the one-second resource timer.
    StartResourceTimer,
    /// Stop the resource timer.
    StopResourceTimer,
    /// Take the form into a copy of the configuration, validate it, write
    /// it and set autostart; report `Saved`, `SaveRefused` or `SaveFailed`.
    SaveForm(SettingsForm),
    /// Put the saved configuration in force.
    InstallSavedConfig,
    /// Show whether gestures run or are paused.
    RefreshStatus(bool),
    /// Show the choices in the window's controls.
    ShowForm(SettingsForm),
    /// Show a notice.
    Notice(SettingsNotice),
    /// Show why the configuration was refused.
    NoticeRefused(ConfigError),
    /// Show why saving failed.
    NoticeSaveFailed,
    /// Turn gestures on or off in the configuration in force.
    SetEnabled(bool),
    /// Capture the clipboard's content into the history.
    CaptureClipboard,
    /// Start recording a gesture sample at the point.
    StartTraining { x: i32, y: i32 },
    /// Add the point to the sample being drawn, unless it lies too close
    /// to the last one.
    AddTrainingPoint { x: i32, y: i32 },
    /// Check the drawn sample's length, learn it for the gesture being
    /// taught and save the configuration, or say why not.
    FinishTraining,
    /// Drop the drawn points and mark the gesture as the one taught.
    SelectTrainingChoice(GestureId),
    /// Ask whether to forget the learned samples of the gesture, and do so.
    ConfirmForgetSamples(GestureId),
    /// Ask whether to clear the clipboard history, and do so.
    ConfirmClearHistory,
    /// Open the folder that holds the data.
    OpenDataDirectory,
    /// Show the entry count and disk use of the history.
    RefreshUsage,
    /// Open the clipboard history.
    OpenHistory,
    /// Show the tray menu, with "Pause gestures" checked when paused.
    ShowTrayMenu { paused: bool },
    /// Show and bring forward the settings window.
    RestoreWindow,
    /// Hide the settings window.
    HideWindow,
    /// End the program.
    Quit,
    /// Let the system handle the event.
    PassOn,
}

/// The next state of the settings window and the steps it takes for an
/// event.
pub open spec fn settings_transition(s: SettingsState, e: SettingsEvent) -> (SettingsState, Seq<SettingsAction>) {
    match e {
        SettingsEvent::Toggle(t) => {
            let form = flipped(s.form, t);
            let shown = seq![SettingsAction::SetToggle(t, toggle_value(form, t))];
            (SettingsState { form, ..s }, if t == SettingsToggle::DarkMode {
                shown.push(SettingsAction::ApplyTheme(form.dark_mode))
            } else {
                shown
            })
        },
        SettingsEvent::ChooseTrigger(b) => (
            SettingsState { form: SettingsForm { trigger: b, ..s.form }, ..s },
            seq![SettingsAction::SelectTrigger(b)],
        ),
        SettingsEvent::Navigate(page) => (
            SettingsState { page, ..s },
            if page == SettingsPage::Resources {
                seq![
                    SettingsAction::ShowPage(page),
                    SettingsAction::RefreshResources,
                    SettingsAction::StartResourceTimer,
                ]
            } else {
                seq![SettingsAction::ShowPage(page), SettingsAction::StopResourceTimer]
            },
        ),
        SettingsEvent::Save => (s, seq![SettingsAction::SaveForm(s.form)]),
        SettingsEvent::Saved => (
            SettingsState { saved: s.form, ..s },
            seq![
                SettingsAction::InstallSavedConfig,
                SettingsAction::RefreshStatus(s.form.enabled),
                SettingsAction::Notice(SettingsNotice::Saved),
            ],
        ),
        SettingsEvent::SaveRefused(error) => (s, seq![SettingsAction::NoticeRefused(error)]),
        SettingsEvent::SaveFailed => (s, seq![SettingsAction::NoticeSaveFailed]),
        SettingsEvent::ConfigLoaded(form) => (
            SettingsState { form, saved: form, ..s },
            seq![
                SettingsAction::ShowForm(form),
                SettingsAction::ApplyTheme(form.dark_mode),
                SettingsAction::RefreshStatus(form.enabled),
            ],
        ),
        SettingsEvent::ClipboardUpdate { own_update, suspended } => (
            s,
            if !own_update && !suspended {
                seq![SettingsAction::CaptureClipboard]
            } else {
                seq![]
            },
        ),
        SettingsEvent::Press { x, y } => if s.page == SettingsPage::Gestures && CANVAS_LEFT <= x
            < CANVAS_RIGHT && CANVAS_TOP <= y < CANVAS_BOTTOM {
            (SettingsState { drawing: true, ..s }, seq![SettingsAction::StartTraining { x, y }])
        } else {
            (s, seq![SettingsAction::PassOn])
        },
        SettingsEvent::Move { x, y, points } => (s, if !s.drawing {
            seq![SettingsAction::PassOn]
        } else if points < MAX_TRAINING_POINTS {
            seq![SettingsAction::AddTrainingPoint { x: canvas_point(x, y).0, y: canvas_point(x, y).1 }]
        } else {
            seq![]
        }),
        SettingsEvent::Release { x, y, points } => if !s.drawing {
            (s, seq![SettingsAction::PassOn])
        } else {
            (SettingsState { drawing: false, ..s }, if points < MAX_TRAINING_POINTS {
                seq![
                    SettingsAction::AddTrainingPoint { x: canvas_point(x, y).0, y: canvas_point(x, y).1 },
                    SettingsAction::FinishTraining,
                ]
            } else {
                seq![SettingsAction::FinishTraining]
            })
        },
        SettingsEvent::SelectTraining(g) => (
            SettingsState { training: g, ..s },
            seq![SettingsAction::SelectTrainingChoice(g)],
        ),
        SettingsEvent::ClearSamples => (s, seq![SettingsAction::ConfirmForgetSamples(s.training)]),
        SettingsEvent::ClearHistory => (s, seq![SettingsAction::ConfirmClearHistory]),
        SettingsEvent::OpenDataDir => (s, seq![SettingsAction::OpenDataDirectory]),
        SettingsEvent::CaptureDone => (s, seq![SettingsAction::RefreshUsage]),
        SettingsEvent::ResourceTimer => (
            s,
            if s.page == SettingsPage::Resources {
                seq![SettingsAction::RefreshResources]
            } else {
                seq![]
            },
        ),
        SettingsEvent::TrayClick => (s, seq![SettingsAction::OpenHistory]),
        SettingsEvent::TrayMenu => (s, seq![SettingsAction::ShowTrayMenu { paused: !s.saved.enabled }]),
        SettingsEvent::MenuSettings => (s, seq![SettingsAction::RestoreWindow]),
        SettingsEvent::MenuHistory => (s, seq![SettingsAction::OpenHistory]),
        SettingsEvent::MenuPause => {
            let enabled = !s.saved.enabled;
            let saved = SettingsForm { enabled, ..s.saved };
            (
                SettingsState { form: saved, saved, ..s },
                seq![
                    SettingsAction::SetEnabled(enabled),
                    SettingsAction::ShowForm(saved),
                    SettingsAction::RefreshStatus(enabled),
                    SettingsAction::Notice(
                        if enabled {
                            SettingsNotice::GesturesEnabled
                        } else {
                            SettingsNotice::GesturesPaused
                        },
                    ),
                ],
            )
        },
        SettingsEvent::MenuExit => (s, seq![SettingsAction::Quit]),
        SettingsEvent::Close => (s, seq![SettingsAction::HideWindow]),
    }
}

fn flip(form: SettingsForm, t: SettingsToggle) -> (r: SettingsForm)
    ensures
        r == flipped(form, t),
{
    match t {
        SettingsToggle::Enabled => SettingsForm { enabled: !form.enabled, ..form },
        SettingsToggle::Autostart => SettingsForm { autostart: !form.autostart, ..form },
        SettingsToggle::Capture => SettingsForm { capture: !form.capture, ..form },
        SettingsToggle::EncryptContent => SettingsForm { encrypt_content: !form.encrypt_content, ..form },
        SettingsToggle::DarkMode => SettingsForm { dark_mode: !form.dark_mode, ..form },
    }
}

fn value_of(form: SettingsForm, t: SettingsToggle) -> (r: bool)
    ensures
        r == toggle_value(form, t),
{
    match t {
        SettingsToggle::Enabled => form.enabled,
        SettingsToggle::Autostart => form.autostart,
        SettingsToggle::Capture => form.capture,
        SettingsToggle::EncryptContent => form.encrypt_content,
        SettingsToggle::DarkMode => form.dark_mode,
    }
}

/// The step for an edit of the form, a page change or the saving of the form.
fn settings_form_step(s: SettingsState, event: SettingsEvent) -> (r: (SettingsState, Vec<SettingsAction>))
    requires
        event is Toggle
            || event is ChooseTrigger
            || event is Navigate
            || event is Save
            || event is Saved
            || event is SaveRefused
            || event is SaveFailed
            || event is ConfigLoaded,
    ensures
        (r.0, r.1@) == settings_transition(s, event),
{
    let r = match event {
        SettingsEvent::Toggle(t) => {
            let form = flip(s.form, t);
            let mut steps = vec![SettingsAction::SetToggle(t, value_of(form, t))];
            if t == SettingsToggle::DarkMode {
                steps.push(SettingsAction::ApplyTheme(form.dark_mode));
            }
            (SettingsState { form, ..s }, steps)
        },
        SettingsEvent::ChooseTrigger(b) => (
            SettingsState { form: SettingsForm { trigger: b, ..s.form }, ..s },
            vec![SettingsAction::SelectTrigger(b)],
        ),
        SettingsEvent::Navigate(page) => (
            SettingsState { page, ..s },
            if page == SettingsPage::Resources {
                vec![
                    SettingsAction::ShowPage(page),
                    SettingsAction::RefreshResources,
                    SettingsAction::StartResourceTimer,
                ]
            } else {
                vec![SettingsAction::ShowPage(page), SettingsAction::StopResourceTimer]
            },
        ),
        SettingsEvent::Save => (s, vec![SettingsAction::SaveForm(s.form)]),
        SettingsEvent::Saved => (
            SettingsState { saved: s.form, ..s },
            vec![
                SettingsAction::InstallSavedConfig,
                SettingsAction::RefreshStatus(s.form.enabled),
                SettingsAction::Notice(SettingsNotice::Saved),
            ],
        ),
        SettingsEvent::SaveRefused(error) => (s, vec![SettingsAction::NoticeRefused(error)]),
        SettingsEvent::SaveFailed => (s, vec![SettingsAction::NoticeSaveFailed]),
        SettingsEvent::ConfigLoaded(form) => (
            SettingsState { form, saved: form, ..s },
            vec![
                SettingsAction::ShowForm(form),
                SettingsAction::ApplyTheme(form.dark_mode),
                SettingsAction::RefreshStatus(form.enabled),
            ],
        ),
        _ => (s, vec![]),
    };
    assert(r.1@ =~= settings_transition(s, event).1);
    r
}

/// The step for the mouse on the window and for teaching gestures.
fn settings_pointer_step(s: SettingsState, event: SettingsEvent) -> (r: (SettingsState, Vec<SettingsAction>))
    requires
        event is Press
            || event is Move
            || event is Release
            || event is SelectTraining
            || event is ClearSamples,
    ensures
        (r.0, r.1@) == settings_transition(s, event),
{
    let r = match event {
        SettingsEvent::Press { x, y } => if s.page == SettingsPage::Gestures && contains(x, y) {
            (SettingsState { drawing: true, ..s }, vec![SettingsAction::StartTraining { x, y }])
        } else {
            (s, vec![SettingsAction::PassOn])
        },
        SettingsEvent::Move { x, y, points } => (s, if !s.drawing {
            vec![SettingsAction::PassOn]
        } else if points < MAX_TRAINING_POINTS {
            let (cx, cy) = clamp_to_canvas(x, y);
            vec![SettingsAction::AddTrainingPoint { x: cx, y: cy }]
        } else {
            vec![]
        }),
        SettingsEvent::Release { x, y, points } => if !s.drawing {
            (s, vec![SettingsAction::PassOn])
        } else {
            (SettingsState { drawing: false, ..s }, if points < MAX_TRAINING_POINTS {
                let (cx, cy) = clamp_to_canvas(x, y);
                vec![SettingsAction::AddTrainingPoint { x: cx, y: cy }, SettingsAction::FinishTraining]
            } else {
                vec![SettingsAction::FinishTraining]
            })
        },
        SettingsEvent::SelectTraining(g) => (
            SettingsState { training: g, ..s },
            vec![SettingsAction::SelectTrainingChoice(g)],
        ),
        SettingsEvent::ClearSamples => (s, vec![SettingsAction::ConfirmForgetSamples(s.training)]),
        _ => (s, vec![]),
    };
    assert(r.1@ =~= settings_transition(s, event).1);
    r
}

/// The step for the clipboard, the timer, the tray icon and its menu, and the other buttons.
fn settings_other_step(s: SettingsState, event: SettingsEvent) -> (r: (SettingsState, Vec<SettingsAction>))
    requires
        !(event is Toggle),
        !(event is ChooseTrigger),
        !(event is Navigate),
        !(event is Save),
        !(event is Saved),
        !(event is SaveRefused),
        !(event is SaveFailed),
        !(event is ConfigLoaded),
        !(event is Press),
        !(event is Move),
        !(event is Release),
        !(event is SelectTraining),
        !(event is ClearSamples),
    ensures
        (r.0, r.1@) == settings_transition(s, event),
{
    let r = match event {
        SettingsEvent::ClipboardUpdate { own_update, suspended } => (
            s,
            if !own_update && !suspended {
                vec![SettingsAction::CaptureClipboard]
            } else {
                vec![]
            },
        ),
        SettingsEvent::ClearHistory => (s, vec![SettingsAction::ConfirmClearHistory]),
        SettingsEvent::OpenDataDir => (s, vec![SettingsAction::OpenDataDirectory]),
        SettingsEvent::CaptureDone => (s, vec![SettingsAction::RefreshUsage]),
        SettingsEvent::ResourceTimer => (
            s,
            if s.page == SettingsPage::Resources {
                vec![SettingsAction::RefreshResources]
            } else {
                vec![]
            },
        ),
        SettingsEvent::TrayClick => (s, vec![SettingsAction::OpenHistory]),
        SettingsEvent::TrayMenu => (s, vec![SettingsAction::ShowTrayMenu { paused: !s.saved.enabled }]),
        SettingsEvent::MenuSettings => (s, vec![SettingsAction::RestoreWindow]),
        SettingsEvent::MenuHistory => (s, vec![SettingsAction::OpenHistory]),
        SettingsEvent::MenuPause => {
            let enabled = !s.saved.enabled;
            let saved = SettingsForm { enabled, ..s.saved };
            let notice = if enabled {
                SettingsNotice::GesturesEnabled
            } else {
                SettingsNotice::GesturesPaused
            };
            (
                SettingsState { form: saved, saved, ..s },
                vec![
                    SettingsAction::SetEnabled(enabled),
                    SettingsAction::ShowForm(saved),
                    SettingsAction::RefreshStatus(enabled),
                    SettingsAction::Notice(notice),
                ],
            )
        },
        SettingsEvent::MenuExit => (s, vec![SettingsAction::Quit]),
        SettingsEvent::Close => (s, vec![SettingsAction::HideWindow]),
        _ => (s, vec![]),
    };
    assert(r.1@ =~= settings_transition(s, event).1);
    r
}

/// The next state of the settings window and the steps it takes for an
/// event.
pub fn settings_step(state: &SettingsState, event: SettingsEvent) -> (r: (SettingsState, Vec<SettingsAction>))
    ensures
        (r.0, r.1@) == settings_transition(*state, event),
{
    match event {
        SettingsEvent::Toggle(_) | SettingsEvent::ChooseTrigger(_) | SettingsEvent::Navigate(_)
        | SettingsEvent::Save | SettingsEvent::Saved | SettingsEvent::SaveRefused(_)
        | SettingsEvent::SaveFailed | SettingsEvent::ConfigLoaded(_) => settings_form_step(*state, event),
        SettingsEvent::Press { .. } | SettingsEvent::Move { .. } | SettingsEvent::Release { .. }
        | SettingsEvent::SelectTraining(_) | SettingsEvent::ClearSamples => settings_pointer_step(*state, event),
        _ => settings_other_step(*state, event),
    }
}

/// Clicking a switch negates exactly that switch's choice in the form and
/// shows the switch in its new position; every other choice, and the
/// configuration in force, stay as they were.
pub proof fn lemma_toggle_flips_only_its_switch(s: SettingsState)
    ensures
        settings_transition(s, SettingsEvent::Toggle(SettingsToggle::Enabled)).0.form.enabled == !s.form.enabled,
        settings_transition(s, SettingsEvent::Toggle(SettingsToggle::Enabled)).0.form.autostart == s.form.autostart,
        settings_transition(s, SettingsEvent::Toggle(SettingsToggle::Enabled)).0.form.capture == s.form.capture,
        settings_transition(s, SettingsEvent::Toggle(SettingsToggle::Enabled)).0.form.encrypt_content == s.form.encrypt_content,
        settings_transition(s, SettingsEvent::Toggle(SettingsToggle::Enabled)).0.form.dark_mode == s.form.dark_mode,
        settings_transition(s, SettingsEvent::Toggle(SettingsToggle::Enabled)).0.form.trigger == s.form.trigger,
        settings_transition(s, SettingsEvent::Toggle(SettingsToggle::Enabled)).0.saved == s.saved,
        settings_transition(s, SettingsEvent::Toggle(SettingsToggle::Enabled)).1[0] == SettingsAction::SetToggle(SettingsToggle::Enabled, !s.form.enabled),
        settings_transition(s, SettingsEvent::Toggle(SettingsToggle::Autostart)).0.form.autostart == !s.form.autostart,
        settings_transition(s, SettingsEvent::Toggle(SettingsToggle::Autostart)).0.form.enabled == s.form.enabled,
        settings_transition(s, SettingsEvent::Toggle(SettingsToggle::Autostart)).0.form.capture == s.form.capture,
        settings_transition(s, SettingsEvent::Toggle(SettingsToggle::Autostart)).0.form.encrypt_content == s.form.encrypt_content,
        settings_transition(s, SettingsEvent::Toggle(SettingsToggle::Autostart)).0.form.dark_mode == s.form.dark_mode,
        settings_transition(s, SettingsEvent::Toggle(SettingsToggle::Autostart)).0.form.trigger == s.form.trigger,
        settings_transition(s, SettingsEvent::Toggle(SettingsToggle::Autostart)).0.saved == s.saved,
        settings_transition(s, SettingsEvent::Toggle(SettingsToggle::Autostart)).1[0] == SettingsAction::SetToggle(SettingsToggle::Autostart, !s.form.autostart),
        settings_transition(s, SettingsEvent::Toggle(SettingsToggle::Capture)).0.form.capture == !s.form.capture,
        settings_transition(s, SettingsEvent::Toggle(SettingsToggle::Capture)).0.form.enabled == s.form.enabled,
        settings_transition(s, SettingsEvent::Toggle(SettingsToggle::Capture)).0.form.autostart == s.form.autostart,
        settings_transition(s, SettingsEvent::Toggle(SettingsToggle::Capture)).0.form.encrypt_content == s.form.encrypt_content,
        settings_transition(s, SettingsEvent::Toggle(SettingsToggle::Capture)).0.form.dark_mode == s.form.dark_mode,
        settings_transition(s, SettingsEvent::Toggle(SettingsToggle::Capture)).0.form.trigger == s.form.trigger,
        settings_transition(s, SettingsEvent::Toggle(SettingsToggle::Capture)).0.saved == s.saved,
        settings_transition(s, SettingsEvent::Toggle(SettingsToggle::Capture)).1[0] == SettingsAction::SetToggle(SettingsToggle::Capture, !s.form.capture),
        settings_transition(s, SettingsEvent::Toggle(SettingsToggle::EncryptContent)).0.form.encrypt_content == !s.form.encrypt_content,
        settings_transition(s, SettingsEvent::Toggle(SettingsToggle::EncryptContent)).0.form.enabled == s.form.enabled,
        settings_transition(s, SettingsEvent::Toggle(SettingsToggle::EncryptContent)).0.form.autostart == s.form.autostart,
        settings_transition(s, SettingsEvent::Toggle(SettingsToggle::EncryptContent)).0.form.capture == s.form.capture,
        settings_transition(s, SettingsEvent::Toggle(SettingsToggle::EncryptContent)).0.form.dark_mode == s.form.dark_mode,
        settings_transition(s, SettingsEvent::Toggle(SettingsToggle::EncryptContent)).0.form.trigger == s.form.trigger,
        settings_transition(s, SettingsEvent::Toggle(SettingsToggle::EncryptContent)).0.saved == s.saved,
        settings_transition(s, SettingsEvent::Toggle(SettingsToggle::EncryptContent)).1[0] == SettingsAction::SetToggle(SettingsToggle::EncryptContent, !s.form.encrypt_content),
        settings_transition(s, SettingsEvent::Toggle(SettingsToggle::DarkMode)).0.form.dark_mode == !s.form.dark_mode,
        settings_transition(s, SettingsEvent::Toggle(SettingsToggle::DarkMode)).0.form.enabled == s.form.enabled,
        settings_transition(s, SettingsEvent::Toggle(SettingsToggle::DarkMode)).0.form.autostart == s.form.autostart,
        settings_transition(s, SettingsEvent::Toggle(SettingsToggle::DarkMode)).0.form.capture == s.form.capture,
        settings_transition(s, SettingsEvent::Toggle(SettingsToggle::DarkMode)).0.form.encrypt_content == s.form.encrypt_content,
        settings_transition(s, SettingsEvent::Toggle(SettingsToggle::DarkMode)).0.form.trigger == s.form.trigger,
        settings_transition(s, SettingsEvent::Toggle(SettingsToggle::DarkMode)).0.saved == s.saved,
        settings_transition(s, SettingsEvent::Toggle(SettingsToggle::DarkMode)).1[0] == SettingsAction::SetToggle(SettingsToggle::DarkMode, !s.form.dark_mode),
{
}

/// Pausing twice from the tray leaves gestures as they were.
pub proof fn lemma_pause_twice(s: SettingsState)
    ensures
        settings_transition(settings_transition(s, SettingsEvent::MenuPause).0, SettingsEvent::MenuPause).0.saved
            == s.saved,
{
}

/// A clipboard update is captured exactly when the program did not cause
/// it and capture is not suspended; it changes nothing in the window.
pub proof fn lemma_capture_only_foreign_updates(s: SettingsState, own_update: bool, suspended: bool)
    ensures
        settings_transition(s, SettingsEvent::ClipboardUpdate { own_update, suspended }).1.contains(
            SettingsAction::CaptureClipboard,
        ) <==> (!own_update && !suspended),
        settings_transition(s, SettingsEvent::ClipboardUpdate { own_update, suspended }).0 == s,
{
    let steps = settings_transition(s, SettingsEvent::ClipboardUpdate { own_update, suspended }).1;
    if !own_update && !suspended {
        assert(steps[0] == SettingsAction::CaptureClipboard);
    } else {
        assert(steps =~= Seq::<SettingsAction>::empty());
    }
}

/// The resource timer refreshes the figures only while the Resources page
/// is shown.
pub proof fn lemma_resources_refresh_only_on_their_page(s: SettingsState)
    ensures
        settings_transition(s, SettingsEvent::ResourceTimer).1.contains(SettingsAction::RefreshResources)
            <==> s.page == SettingsPage::Resources,
{
    let steps = settings_transition(s, SettingsEvent::ResourceTimer).1;
    if s.page == SettingsPage::Resources {
        assert(steps[0] == SettingsAction::RefreshResources);
    } else {
        assert(steps =~= Seq::<SettingsAction>::empty());
    }
}

/// The configuration in force changes only when a save succeeded, when it
/// is loaded, or when gestures are paused or resumed from the tray: a
/// refused or failed save, and every edit of the form, leave it as it was.
pub proof fn lemma_saved_changes_only_when_installed(s: SettingsState, e: SettingsEvent)
    requires
        !(e is Saved),
        !(e is ConfigLoaded),
        !(e is MenuPause),
    ensures
        settings_transition(s, e).0.saved == s.saved,
{
}

/* The history popup */

/// What the history popup holds: whether it is shown, the window to give
/// the focus back to, the search text, the id and pinned flag of each
/// listed entry, which is selected, the entry to select again after the
/// next listing, and the image entry under the mouse.
#[derive(Debug)]
pub struct HistoryPopupState {
    pub visible: bool,
    pub origin: isize,
    pub query: String,
    pub entries: Vec<(i64, bool)>,
    pub selected: Option<usize>,
    pub keep: Option<i64>,
    pub hovered: Option<i64>,
}

/// The history popup's state as plain values.
pub struct HistoryPopupView {
    pub visible: bool,
    pub origin: isize,
    pub query: Seq<char>,
    pub entries: Seq<(i64, bool)>,
    pub selected: Option<usize>,
    pub keep: Option<i64>,
    pub hovered: Option<i64>,
}

impl View for HistoryPopupState {
    type V = HistoryPopupView;

    open spec fn view(&self) -> HistoryPopupView {
        HistoryPopupView {
            visible: self.visible,
            origin: self.origin,
            query: self.query@,
            entries: self.entries@,
            selected: self.selected,
            keep: self.keep,
            hovered: self.hovered,
        }
    }
}

impl HistoryPopupState {
    /// A hidden popup with nothing listed.
    pub fn new() -> (r: HistoryPopupState)
        ensures
            !r@.visible,
            r@.origin == 0,
            r@.query == Seq::<char>::empty(),
            r@.entries == Seq::<(i64, bool)>::empty(),
            r@.selected is None,
            r@.keep is None,
            r@.hovered is None,
    {
        HistoryPopupState {
            visible: false,
            origin: 0,
            query: String::new(),
            entries: Vec::new(),
            selected: None,
            keep: None,
            hovered: None,
        }
    }
}

/// A notice the history popup shows.
#[derive(Debug, Clone, Copy, PartialEq, Eq, Structural)]
pub enum HistoryNotice {
    Copied,
    Cleared,
    Pinned,
    Unpinned,
    CopyFailed,
    DeleteFailed,
    ClearFailed,
    ListFailed,
    PinFailed,
    /// A pinned entry cannot be deleted.
    PinnedProtected,
    /// The history cannot be cleared while this many entries are pinned.
    PinnedBlockClear(u64),
}

/// The text of each history notice (a failure's cause follows it).
pub open spec fn history_notice_text(n: HistoryNotice) -> Seq<char> {
    match n {
        HistoryNotice::Copied => "已复制历史内容"@,
        HistoryNotice::Cleared => "剪贴板历史已清空"@,
        HistoryNotice::Pinned => "已置顶"@,
        HistoryNotice::Unpinned => "已取消置顶"@,
        HistoryNotice::CopyFailed => "复制历史失败："@,
        HistoryNotice::DeleteFailed => "删除历史失败："@,
        HistoryNotice::ClearFailed => "清空失败："@,
        HistoryNotice::ListFailed => "读取历史失败："@,
        HistoryNotice::PinFailed => "更新置顶状态失败："@,
        HistoryNotice::PinnedProtected => "置顶记录受保护，请先取消置顶再删除。"@,
        HistoryNotice::PinnedBlockClear(count) => "历史中有 "@ + decimal(count as nat)
            + " 条置顶记录，请先取消置顶再清空。"@,
    }
}

impl HistoryNotice {
    /// The text of the notice.
    pub fn text(self) -> (r: String)
        ensures
            r@ == history_notice_text(self),
    {
        match self {
            HistoryNotice::Copied => String::from_str("已复制历史内容"),
            HistoryNotice::Cleared => String::from_str("剪贴板历史已清空"),
            HistoryNotice::Pinned => String::from_str("已置顶"),
            HistoryNotice::Unpinned => String::from_str("已取消置顶"),
            HistoryNotice::CopyFailed => String::from_str("复制历史失败："),
            HistoryNotice::DeleteFailed => String::from_str("删除历史失败："),
            HistoryNotice::ClearFailed => String::from_str("清空失败："),
            HistoryNotice::ListFailed => String::from_str("读取历史失败："),
            HistoryNotice::PinFailed => String::from_str("更新置顶状态失败："),
            HistoryNotice::PinnedProtected => String::from_str("置顶记录受保护，请先取消置顶再删除。"),
            HistoryNotice::PinnedBlockClear(count) => {
                let mut text = String::from_str("历史中有 ");
                text.append(decimal_string(count).as_str());
                text.append(" 条置顶记录，请先取消置顶再清空。");
                text
            },
        }
    }
}

/// What happened to the history popup.
#[derive(Debug)]
pub enum HistoryEvent {
    /// The popup was asked for, from the given window (0 for none).
    Open { origin: isize },
    /// The search text changed to this.
    SearchChanged(String),
    /// The list was filled with these entries, by id and pinned flag.
    Listed(Vec<(i64, bool)>),
    /// Listing the entries failed.
    ListFailed,
    /// The selection of the list changed.
    SelectionChanged(Option<usize>),
    /// Copy was clicked, an entry double-clicked or Enter pressed.
    CopyRequested,
    /// Putting the entry on the clipboard ended, well or not.
    Copied(bool),
    /// Pin (or unpin) was clicked.
    PinRequested,
    /// Changing the pinned flag ended, well or not; `pinned` is the flag
    /// that was asked for.
    PinSet { ok: bool, pinned: bool },
    /// Delete was clicked or the Delete key pressed.
    DeleteRequested,
    /// The question whether to delete the entry at the index was answered.
    DeleteAnswered { index: usize, yes: bool },
    /// Removing the entry ended, well or not.
    Removed(bool),
    /// Clear was clicked; this many stored entries are pinned.
    ClearRequested { pinned_count: u64 },
    /// The question whether to clear the history was answered.
    ClearAnswered(bool),
    /// Clearing the history ended, well or not.
    Cleared(bool),
    /// The popup lost the focus to a window it owns or not.
    Deactivated { owned: bool },
    /// The popup was closed or Escape pressed.
    Close,
    /// The mouse is over the listed entry with this id and kind, or over
    /// no entry.
    Hover(Option<(i64, ClipKind)>),
    /// The mouse left the list.
    Leave,
    /// The preview of the entry with this id is ready.
    PreviewReady(i64),
}

/// A step the application takes for the history popup.
#[derive(Debug, Clone, Copy, PartialEq, Eq, Structural)]
pub enum HistoryAction {
    /// Empty the search box.
    ClearSearch,
    /// List the stored entries that match the popup's search text (as
    /// `filter_items` selects them, in `list_order`) and report `Listed`
    /// or `ListFailed`.
    Rebuild,
    /// Place the popup near the pointer, on top, and give it the focus.
    ShowNearPointer,
    /// Select the row.
    SelectRow(usize),
    /// Enable the buttons that need a selection or entries, and label the
    /// pin button by whether the selected entry is pinned.
    RefreshButtons { selected_pinned: bool },
    /// Show the entry count and disk use.
    RefreshUsage,
    /// Put the entry at the index on the clipboard and mark it used;
    /// report `Copied`.
    CopyItem(usize),
    /// Set the pinned flag of the entry at the index; report `PinSet`.
    SetPinned { index: usize, pinned: bool },
    /// Ask whether to delete the entry at the index; report
    /// `DeleteAnswered`.
    ConfirmDelete(usize),
    /// Remove the entry at the index; report `Removed`.
    RemoveItem(usize),
    /// Ask whether to clear the history; report `ClearAnswered`.
    ConfirmClear,
    /// Remove every entry; report `Cleared`.
    ClearAll,
    /// Empty the list.
    EmptyList,
    /// Hide the popup.
    HidePopup,
    /// Give the focus back to the window.
    FocusWindow(isize),
    /// Hide the image preview.
    HidePreview,
    /// Prepare the preview of the entry; report `PreviewReady`.
    RequestPreview(i64),
    /// Show the prepared preview beside the popup.
    ShowPreview,
    /// Show a notice for a moment.
    Notice(HistoryNotice),
    /// Show a notice in a message box.
    Inform(HistoryNotice),
}

/// The view with another image entry under the mouse.
pub open spec fn with_hovered(s: HistoryPopupView, hovered: Option<i64>) -> HistoryPopupView {
    HistoryPopupView { hovered, ..s }
}

/// The steps of hiding the popup and, where there is one, giving the focus
/// back to the window it was opened from.
pub open spec fn hide_steps(origin: isize) -> Seq<HistoryAction> {
    let hidden = seq![HistoryAction::HidePreview, HistoryAction::HidePopup];
    if origin != 0 {
        hidden.push(HistoryAction::FocusWindow(origin))
    } else {
        hidden
    }
}

/// The index where it names one of `count` listed entries.
pub open spec fn selection_within(sel: Option<usize>, count: nat) -> Option<usize> {
    match sel {
        Some(i) => if i < count { Some(i) } else { None },
        None => None,
    }
}

/// The selected entry's index, where it names a listed entry.
pub open spec fn chosen(s: HistoryPopupView) -> Option<usize> {
    selection_within(s.selected, s.entries.len())
}

/// Whether the entry at the selection is pinned.
pub open spec fn pinned_at(entries: Seq<(i64, bool)>, sel: Option<usize>) -> bool {
    match sel {
        Some(i) => i < entries.len() && entries[i as int].1,
        None => false,
    }
}

/// `i` is the first position of the entry with id `id`.
pub open spec fn first_at(entries: Seq<(i64, bool)>, id: i64, i: int) -> bool {
    0 <= i < entries.len() && entries[i].0 == id && forall|j: int| 0 <= j < i ==> entries[j].0 != id
}

/// The first position of the entry with id `id`, if it is listed.
pub open spec fn position_of(entries: Seq<(i64, bool)>, id: i64) -> Option<int> {
    if exists|i: int| first_at(entries, id, i) {
        Some(choose|i: int| first_at(entries, id, i))
    } else {
        None
    }
}

/// The row selected after listing: none when nothing is listed, else the
/// kept entry where it is still listed, else the first.
pub open spec fn relisted_selection(entries: Seq<(i64, bool)>, keep: Option<i64>) -> Option<usize> {
    if entries.len() == 0 {
        None
    } else {
        match keep {
            Some(id) => match position_of(entries, id) {
                Some(i) => Some(i as usize),
                None => Some(0usize),
            },
            None => Some(0usize),
        }
    }
}

/// The image entry under the mouse: text entries have no preview.
pub open spec fn image_under(over: Option<(i64, ClipKind)>) -> Option<i64> {
    match over {
        Some((id, kind)) => if kind == ClipKind::Image { Some(id) } else { None },
        None => None,
    }
}

/// The next state of the history popup and the steps it takes for an
/// event.
pub open spec fn history_transition(s: HistoryPopupView, e: HistoryEvent) -> (HistoryPopupView, Seq<HistoryAction>) {
    match e {
        HistoryEvent::Open { origin } => (
            HistoryPopupView { visible: true, origin, query: Seq::empty(), keep: None, hovered: None, ..s },
            seq![
                HistoryAction::HidePreview,
                HistoryAction::ClearSearch,
                HistoryAction::Rebuild,
                HistoryAction::ShowNearPointer,
            ],
        ),
        HistoryEvent::SearchChanged(text) => (
            HistoryPopupView { query: text@, keep: None, hovered: None, ..s },
            seq![HistoryAction::HidePreview, HistoryAction::Rebuild],
        ),
        HistoryEvent::Listed(listed) => {
            let selected = relisted_selection(listed@, s.keep);
            let refresh = seq![
                HistoryAction::RefreshButtons { selected_pinned: pinned_at(listed@, selected) },
                HistoryAction::RefreshUsage,
            ];
            (
                HistoryPopupView { entries: listed@, selected, keep: None, ..s },
                match selected {
                    Some(i) => seq![HistoryAction::SelectRow(i)] + refresh,
                    None => refresh,
                },
            )
        },
        HistoryEvent::ListFailed => (s, seq![HistoryAction::Notice(HistoryNotice::ListFailed)]),
        HistoryEvent::SelectionChanged(sel) => {
            let selected = selection_within(sel, s.entries.len());
            (
                HistoryPopupView { selected, ..s },
                seq![HistoryAction::RefreshButtons { selected_pinned: pinned_at(s.entries, selected) }],
            )
        },
        HistoryEvent::CopyRequested => (s, match chosen(s) {
            Some(i) => seq![HistoryAction::CopyItem(i)],
            None => seq![],
        }),
        HistoryEvent::Copied(ok) => if ok {
            (
                HistoryPopupView { visible: false, hovered: None, ..s },
                hide_steps(s.origin).push(HistoryAction::Notice(HistoryNotice::Copied)),
            )
        } else {
            (s, seq![HistoryAction::Notice(HistoryNotice::CopyFailed)])
        },
        HistoryEvent::PinRequested => match chosen(s) {
            Some(i) => (
                HistoryPopupView { keep: Some(s.entries[i as int].0), ..s },
                seq![HistoryAction::SetPinned { index: i, pinned: !s.entries[i as int].1 }],
            ),
            None => (s, seq![]),
        },
        HistoryEvent::PinSet { ok, pinned } => if ok {
            (
                with_hovered(s, None),
                seq![
                    HistoryAction::HidePreview,
                    HistoryAction::Rebuild,
                    HistoryAction::Notice(if pinned { HistoryNotice::Pinned } else { HistoryNotice::Unpinned }),
                ],
            )
        } else {
            (HistoryPopupView { keep: None, ..s }, seq![HistoryAction::Notice(HistoryNotice::PinFailed)])
        },
        HistoryEvent::DeleteRequested => (s, match chosen(s) {
            Some(i) => if s.entries[i as int].1 {
                seq![HistoryAction::Inform(HistoryNotice::PinnedProtected)]
            } else {
                seq![HistoryAction::ConfirmDelete(i)]
            },
            None => seq![],
        }),
        HistoryEvent::DeleteAnswered { index, yes } => (s, if yes {
            seq![HistoryAction::RemoveItem(index)]
        } else {
            seq![]
        }),
        HistoryEvent::Removed(ok) => if ok {
            (
                HistoryPopupView { keep: None, hovered: None, ..s },
                seq![HistoryAction::HidePreview, HistoryAction::Rebuild],
            )
        } else {
            (s, seq![HistoryAction::Notice(HistoryNotice::DeleteFailed)])
        },
        HistoryEvent::ClearRequested { pinned_count } => (s, if pinned_count > 0 {
            seq![HistoryAction::Inform(HistoryNotice::PinnedBlockClear(pinned_count))]
        } else {
            seq![HistoryAction::ConfirmClear]
        }),
        HistoryEvent::ClearAnswered(yes) => (s, if yes {
            seq![HistoryAction::ClearAll]
        } else {
            seq![]
        }),
        HistoryEvent::Cleared(ok) => if ok {
            (
                HistoryPopupView { entries: Seq::empty(), selected: None, ..s },
                seq![
                    HistoryAction::EmptyList,
                    HistoryAction::RefreshButtons { selected_pinned: false },
                    HistoryAction::RefreshUsage,
                    HistoryAction::Notice(HistoryNotice::Cleared),
                ],
            )
        } else {
            (s, seq![HistoryAction::Notice(HistoryNotice::ClearFailed)])
        },
        HistoryEvent::Deactivated { owned } => if owned {
            (s, seq![])
        } else {
            (
                HistoryPopupView { visible: false, hovered: None, ..s },
                seq![HistoryAction::HidePreview, HistoryAction::HidePopup],
            )
        },
        HistoryEvent::Close => (HistoryPopupView { visible: false, hovered: None, ..s }, hide_steps(s.origin)),
        HistoryEvent::Hover(over) => {
            let id = image_under(over);
            if id == s.hovered {
                (s, seq![])
            } else {
                (with_hovered(s, id), match id {
                    Some(i) => seq![HistoryAction::HidePreview, HistoryAction::RequestPreview(i)],
                    None => seq![HistoryAction::HidePreview],
                })
            }
        },
        HistoryEvent::Leave => (with_hovered(s, None), seq![HistoryAction::HidePreview]),
        HistoryEvent::PreviewReady(id) => (s, if s.hovered == Some(id) {
            seq![HistoryAction::ShowPreview]
        } else {
            seq![]
        }),
    }
}

fn hide_popup_steps(origin: isize) -> (r: Vec<HistoryAction>)
    ensures
        r@ == hide_steps(origin),
{
    let mut steps = vec![HistoryAction::HidePreview, HistoryAction::HidePopup];
    if origin != 0 {
        steps.push(HistoryAction::FocusWindow(origin));
    }
    steps
}

fn copy_entries(entries: &Vec<(i64, bool)>) -> (r: Vec<(i64, bool)>)
    ensures
        r@ == entries@,
{
    let mut r: Vec<(i64, bool)> = Vec::new();
    let mut i: usize = 0;
    while i < entries.len()
        invariant
            i <= entries@.len(),
            r@ == entries@.take(i as int),
        decreases entries.len() - i,
    {
        r.push(entries[i]);
        i = i + 1;
        assert(r@ =~= entries@.take(i as int));
    }
    assert(entries@.take(entries@.len() as int) =~= entries@);
    r
}

fn copy_state(state: &HistoryPopupState) -> (r: HistoryPopupState)
    ensures
        r@ == state@,
{
    HistoryPopupState {
        visible: state.visible,
        origin: state.origin,
        query: state.query.clone(),
        entries: copy_entries(&state.entries),
        selected: state.selected,
        keep: state.keep,
        hovered: state.hovered,
    }
}

/// The first position of the entry with id `id`, if it is listed.
fn find_entry(entries: &Vec<(i64, bool)>, id: i64) -> (r: Option<usize>)
    ensures
        match position_of(entries@, id) {
            Some(i) => r == Some(i as usize),
            None => r is None,
        },
{
    let mut i: usize = 0;
    while i < entries.len()
        invariant
            i <= entries@.len(),
            forall|j: int| 0 <= j < i ==> entries@[j].0 != id,
        decreases entries.len() - i,
    {
        if entries[i].0 == id {
            proof {
                assert(first_at(entries@, id, i as int));
                let c = choose|c: int| first_at(entries@, id, c);
                if c < i {
                    assert(entries@[c].0 != id);
                }
                if c > i {
                    assert(entries@[i as int].0 != id);
                }
            }
            return Some(i);
        }
        i = i + 1;
    }
    proof {
        assert forall|c: int| !first_at(entries@, id, c) by {
            if 0 <= c < entries@.len() {
                assert(entries@[c].0 != id);
            }
        }
    }
    None
}

fn is_pinned_at(entries: &Vec<(i64, bool)>, sel: Option<usize>) -> (r: bool)
    ensures
        r == pinned_at(entries@, sel),
{
    match sel {
        Some(i) => i < entries.len() && entries[i].1,
        None => false,
    }
}

fn chosen_index(s: &HistoryPopupState) -> (r: Option<usize>)
    ensures
        r == chosen(s@),
{
    match s.selected {
        Some(i) => if i < s.entries.len() {
            Some(i)
        } else {
            None
        },
        None => None,
    }
}

/// The step for the events that list, select and pin entries.
fn history_list_step(s: HistoryPopupState, event: HistoryEvent) -> (r: (HistoryPopupState, Vec<HistoryAction>))
    requires
        event is Open
            || event is SearchChanged
            || event is Listed
            || event is ListFailed
            || event is SelectionChanged
            || event is PinRequested
            || event is PinSet,
    ensures
        r.0@ == history_transition(s@, event).0,
        r.1@ == history_transition(s@, event).1,
{
    let ghost e = event;
    let ghost v = s@;
    let (next, steps) = match event {
        HistoryEvent::Open { origin } => (
            HistoryPopupState { visible: true, origin, query: String::new(), keep: None, hovered: None, ..s },
            vec![
                HistoryAction::HidePreview,
                HistoryAction::ClearSearch,
                HistoryAction::Rebuild,
                HistoryAction::ShowNearPointer,
            ],
        ),
        HistoryEvent::SearchChanged(text) => (
            HistoryPopupState { query: text, keep: None, hovered: None, ..s },
            vec![HistoryAction::HidePreview, HistoryAction::Rebuild],
        ),
        HistoryEvent::Listed(listed) => {
            let selected = if listed.len() == 0 {
                None
            } else {
                match s.keep {
                    Some(id) => match find_entry(&listed, id) {
                        Some(i) => Some(i),
                        None => Some(0),
                    },
                    None => Some(0),
                }
            };
            let selected_pinned = is_pinned_at(&listed, selected);
            let mut steps = match selected {
                Some(i) => vec![HistoryAction::SelectRow(i)],
                None => vec![],
            };
            steps.push(HistoryAction::RefreshButtons { selected_pinned });
            steps.push(HistoryAction::RefreshUsage);
            (HistoryPopupState { entries: listed, selected, keep: None, ..s }, steps)
        },
        HistoryEvent::ListFailed => (s, vec![HistoryAction::Notice(HistoryNotice::ListFailed)]),
        HistoryEvent::SelectionChanged(sel) => {
            let selected = match sel {
                Some(i) => if i < s.entries.len() { Some(i) } else { None },
                None => None,
            };
            let selected_pinned = is_pinned_at(&s.entries, selected);
            (HistoryPopupState { selected, ..s }, vec![HistoryAction::RefreshButtons { selected_pinned }])
        },
        HistoryEvent::PinRequested => match chosen_index(&s) {
            Some(i) => {
                let (id, pinned) = s.entries[i];
                (HistoryPopupState { keep: Some(id), ..s }, vec![HistoryAction::SetPinned { index: i, pinned: !pinned }])
            },
            None => (s, vec![]),
        },
        HistoryEvent::PinSet { ok, pinned } => if ok {
            let notice = if pinned {
                HistoryNotice::Pinned
            } else {
                HistoryNotice::Unpinned
            };
            (
                HistoryPopupState { hovered: None, ..s },
                vec![HistoryAction::HidePreview, HistoryAction::Rebuild, HistoryAction::Notice(notice)],
            )
        } else {
            (HistoryPopupState { keep: None, ..s }, vec![HistoryAction::Notice(HistoryNotice::PinFailed)])
        },
        _ => (s, vec![]),
    };
    proof {
        assert(next@ == history_transition(v, e).0);
        assert(steps@ =~= history_transition(v, e).1);
    }
    (next, steps)
}

/// The step for the other events: copying, deleting, clearing, focus and
/// previews.
fn history_other_step(s: HistoryPopupState, event: HistoryEvent) -> (r: (HistoryPopupState, Vec<HistoryAction>))
    requires
        !(event is Open),
        !(event is SearchChanged),
        !(event is Listed),
        !(event is ListFailed),
        !(event is SelectionChanged),
        !(event is PinRequested),
        !(event is PinSet),
    ensures
        r.0@ == history_transition(s@, event).0,
        r.1@ == history_transition(s@, event).1,
{
    let ghost e = event;
    let ghost v = s@;
    let (next, steps) = match event {
        HistoryEvent::CopyRequested => {
            let steps = match chosen_index(&s) {
                Some(i) => vec![HistoryAction::CopyItem(i)],
                None => vec![],
            };
            (s, steps)
        },
        HistoryEvent::Copied(ok) => if ok {
            let mut steps = hide_popup_steps(s.origin);
            steps.push(HistoryAction::Notice(HistoryNotice::Copied));
            (HistoryPopupState { visible: false, hovered: None, ..s }, steps)
        } else {
            (s, vec![HistoryAction::Notice(HistoryNotice::CopyFailed)])
        },
        HistoryEvent::DeleteRequested => {
            let steps = match chosen_index(&s) {
                Some(i) => if s.entries[i].1 {
                    vec![HistoryAction::Inform(HistoryNotice::PinnedProtected)]
                } else {
                    vec![HistoryAction::ConfirmDelete(i)]
                },
                None => vec![],
            };
            (s, steps)
        },
        HistoryEvent::DeleteAnswered { index, yes } => (s, if yes {
            vec![HistoryAction::RemoveItem(index)]
        } else {
            vec![]
        }),
        HistoryEvent::Removed(ok) => if ok {
            (
                HistoryPopupState { keep: None, hovered: None, ..s },
                vec![HistoryAction::HidePreview, HistoryAction::Rebuild],
            )
        } else {
            (s, vec![HistoryAction::Notice(HistoryNotice::DeleteFailed)])
        },
        HistoryEvent::ClearRequested { pinned_count } => (s, if pinned_count > 0 {
            vec![HistoryAction::Inform(HistoryNotice::PinnedBlockClear(pinned_count))]
        } else {
            vec![HistoryAction::ConfirmClear]
        }),
        HistoryEvent::ClearAnswered(yes) => (s, if yes {
            vec![HistoryAction::ClearAll]
        } else {
            vec![]
        }),
        HistoryEvent::Cleared(ok) => if ok {
            (
                HistoryPopupState { entries: Vec::new(), selected: None, ..s },
                vec![
                    HistoryAction::EmptyList,
                    HistoryAction::RefreshButtons { selected_pinned: false },
                    HistoryAction::RefreshUsage,
                    HistoryAction::Notice(HistoryNotice::Cleared),
                ],
            )
        } else {
            (s, vec![HistoryAction::Notice(HistoryNotice::ClearFailed)])
        },
        HistoryEvent::Deactivated { owned } => if owned {
            (s, vec![])
        } else {
            (
                HistoryPopupState { visible: false, hovered: None, ..s },
                vec![HistoryAction::HidePreview, HistoryAction::HidePopup],
            )
        },
        HistoryEvent::Close => {
            let steps = hide_popup_steps(s.origin);
            (HistoryPopupState { visible: false, hovered: None, ..s }, steps)
        },
        HistoryEvent::Hover(over) => {
            let id = match over {
                Some((id, kind)) => if kind == ClipKind::Image { Some(id) } else { None },
                None => None,
            };
            let same = match (id, s.hovered) {
                (Some(a), Some(b)) => a == b,
                (None, None) => true,
                _ => false,
            };
            if same {
                (s, vec![])
            } else {
                let steps = match id {
                    Some(i) => vec![HistoryAction::HidePreview, HistoryAction::RequestPreview(i)],
                    None => vec![HistoryAction::HidePreview],
                };
                (HistoryPopupState { hovered: id, ..s }, steps)
            }
        },
        HistoryEvent::Leave => (HistoryPopupState { hovered: None, ..s }, vec![HistoryAction::HidePreview]),
        HistoryEvent::PreviewReady(id) => {
            let shown = match s.hovered {
                Some(h) => h == id,
                None => false,
            };
            (s, if shown {
                vec![HistoryAction::ShowPreview]
            } else {
                vec![]
            })
        },
        _ => (s, vec![]),
    };
    proof {
        assert(next@ == history_transition(v, e).0);
        assert(steps@ =~= history_transition(v, e).1);
    }
    (next, steps)
}

/// The next state of the history popup and the steps it takes for an
/// event.
pub fn history_popup_step(state: &HistoryPopupState, event: HistoryEvent) -> (r: (HistoryPopupState, Vec<HistoryAction>))
    ensures
        r.0@ == history_transition(state@, event).0,
        r.1@ == history_transition(state@, event).1,
{
    let s = copy_state(state);
    match event {
        HistoryEvent::Open { .. } | HistoryEvent::SearchChanged(_) | HistoryEvent::Listed(_)
        | HistoryEvent::ListFailed | HistoryEvent::SelectionChanged(_) | HistoryEvent::PinRequested
        | HistoryEvent::PinSet { .. } => history_list_step(s, event),
        _ => history_other_step(s, event),
    }
}

/// The popup event for a key pressed while the popup has the focus: Enter
/// copies, Delete deletes and Escape closes; other keys go to the control.
pub fn history_key_event(virtual_key: u16) -> (r: Option<HistoryEvent>)
    ensures
        virtual_key == 0x0D ==> r matches Some(HistoryEvent::CopyRequested),
        virtual_key == 0x2E ==> r matches Some(HistoryEvent::DeleteRequested),
        virtual_key == 0x1B ==> r matches Some(HistoryEvent::Close),
        virtual_key != 0x0D && virtual_key != 0x2E && virtual_key != 0x1B ==> r is None,
{
    if virtual_key == 0x0D {
        Some(HistoryEvent::CopyRequested)
    } else if virtual_key == 0x2E {
        Some(HistoryEvent::DeleteRequested)
    } else if virtual_key == 0x1B {
        Some(HistoryEvent::Close)
    } else {
        None
    }
}

/// Closing the popup, in any state, hides it and leaves the search text,
/// the listed entries and the selection as they were.
pub proof fn lemma_close_hides(s: HistoryPopupView)
    ensures
        !history_transition(s, HistoryEvent::Close).0.visible,
        history_transition(s, HistoryEvent::Close).0.query == s.query,
        history_transition(s, HistoryEvent::Close).0.entries == s.entries,
        history_transition(s, HistoryEvent::Close).0.selected == s.selected,
{
}

/// The popup hides when the focus moves to a window it does not own, and
/// stays as it is when the focus moves to one of its own dialogs.
pub proof fn lemma_foreign_focus_dismisses(s: HistoryPopupView)
    ensures
        !history_transition(s, HistoryEvent::Deactivated { owned: false }).0.visible,
        history_transition(s, HistoryEvent::Deactivated { owned: true }).0 == s,
        history_transition(s, HistoryEvent::Deactivated { owned: true }).1.len() == 0,
{
}

/// A selection the popup holds always names a listed entry: every event
/// keeps the selected index below the number of entries listed.
pub proof fn lemma_selection_within_list(s: HistoryPopupView, e: HistoryEvent)
    requires
        s.selected matches Some(i) ==> i < s.entries.len(),
    ensures
        history_transition(s, e).0.selected matches Some(i) ==> i < history_transition(s, e).0.entries.len(),
{
    if let HistoryEvent::Listed(listed) = e {
        if let Some(id) = s.keep {
            if exists|i: int| first_at(listed@, id, i) {
                let c = choose|i: int| first_at(listed@, id, i);
                assert(first_at(listed@, id, c));
            }
        }
    }
}

/// A pinned entry is never put up for deletion, and the history is never
/// put up for clearing while any entry is pinned: the popup says why
/// instead.
pub proof fn lemma_pinned_entries_protected(s: HistoryPopupView, pinned_count: u64)
    ensures
        pinned_at(s.entries, chosen(s)) ==> history_transition(s, HistoryEvent::DeleteRequested).1 == seq![
            HistoryAction::Inform(HistoryNotice::PinnedProtected),
        ],
        pinned_count > 0 ==> history_transition(s, HistoryEvent::ClearRequested { pinned_count }).1 == seq![
            HistoryAction::Inform(HistoryNotice::PinnedBlockClear(pinned_count)),
        ],
{
}

/// Pinning the selected entry and listing again keeps that entry selected
/// wherever it is listed now.
pub proof fn lemma_pin_keeps_selection(s: HistoryPopupView, pinned: bool, listed: Vec<(i64, bool)>)
    requires
        chosen(s) is Some,
        exists|j: int| 0 <= j < listed@.len() && listed@[j].0 == s.entries[chosen(s)->0 as int].0,
    ensures
        ({
            let id = s.entries[chosen(s)->0 as int].0;
            let asked = history_transition(s, HistoryEvent::PinRequested).0;
            let set = history_transition(asked, HistoryEvent::PinSet { ok: true, pinned }).0;
            let relisted = history_transition(set, HistoryEvent::Listed(listed)).0;
            relisted.selected matches Some(t) && t < listed@.len() && listed@[t as int].0 == id
        }),
{
    let id = s.entries[chosen(s)->0 as int].0;
    let j = choose|j: int| 0 <= j < listed@.len() && listed@[j].0 == id;
    lemma_first_position_exists(listed@, id, j);
    let c = choose|i: int| first_at(listed@, id, i);
    assert(first_at(listed@, id, c));
    let asked = history_transition(s, HistoryEvent::PinRequested).0;
    assert(asked.keep == Some(id));
    let set = history_transition(asked, HistoryEvent::PinSet { ok: true, pinned }).0;
    assert(set.keep == Some(id));
    assert(position_of(listed@, id) == Some(c));
    assert(listed@.len() == listed.len());
    assert(relisted_selection(listed@, set.keep) == Some(c as usize));
    let relisted = history_transition(set, HistoryEvent::Listed(listed)).0;
    assert(relisted.selected == Some(c as usize));
}

/// An entry listed somewhere has a first position.
proof fn lemma_first_position_exists(entries: Seq<(i64, bool)>, id: i64, j: int)
    requires
        0 <= j < entries.len(),
        entries[j].0 == id,
    ensures
        exists|i: int| first_at(entries, id, i),
    decreases j,
{
    if exists|k: int| 0 <= k < j && entries[k].0 == id {
        let k = choose|k: int| 0 <= k < j && entries[k].0 == id;
        lemma_first_position_exists(entries, id, k);
    } else {
        assert(first_at(entries, id, j));
    }
}

/// A preview is shown only for the image entry that is under the mouse at
/// the time it becomes ready.
pub proof fn lemma_preview_only_for_hovered(s: HistoryPopupView, id: i64)
    ensures
        history_transition(s, HistoryEvent::PreviewReady(id)).1.contains(HistoryAction::ShowPreview)
            ==> s.hovered == Some(id),
{
    if history_transition(s, HistoryEvent::PreviewReady(id)).1.contains(HistoryAction::ShowPreview) {
        if s.hovered != Some(id) {
            assert(history_transition(s, HistoryEvent::PreviewReady(id)).1 =~= Seq::<HistoryAction>::empty());
        }
    }
}

} // verus!
