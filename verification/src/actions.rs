//! What carrying out an action takes: which window to bring forward, which
//! keys to send, and which notice to show; and the wait for the copied
//! selection that the search action reads through the clipboard.
//!
//! Sending the keys, changing windows and reading the clipboard are the
//! application's part; it performs the steps decided here.

use vstd::prelude::*;
use crate::action::ActionKind;

verus! {

/// Virtual-key codes of the Win32 API used by the actions.
pub const VK_TAB: u16 = 0x09;
/// `VK_ESCAPE`.
pub const VK_ESCAPE: u16 = 0x1B;
/// `VK_LEFT`.
pub const VK_LEFT: u16 = 0x25;
/// `VK_RIGHT`.
pub const VK_RIGHT: u16 = 0x27;
/// `VK_BROWSER_BACK`.
pub const VK_BROWSER_BACK: u16 = 0xA6;
/// `VK_BROWSER_FORWARD`.
pub const VK_BROWSER_FORWARD: u16 = 0xA7;
/// `VK_VOLUME_MUTE`.
pub const VK_VOLUME_MUTE: u16 = 0xAD;
/// `VK_VOLUME_DOWN`.
pub const VK_VOLUME_DOWN: u16 = 0xAE;
/// `VK_VOLUME_UP`.
pub const VK_VOLUME_UP: u16 = 0xAF;
/// `VK_MEDIA_PLAY_PAUSE`.
pub const VK_MEDIA_PLAY_PAUSE: u16 = 0xB3;

/// `SW_MAXIMIZE`: show a window maximised.
pub const SW_MAXIMIZE: i32 = 3;
/// `SW_MINIMIZE`: minimise a window.
pub const SW_MINIMIZE: i32 = 6;
/// `SW_RESTORE`: restore a window to its normal size.
pub const SW_RESTORE: i32 = 9;

/// The notice shown after an action.
#[derive(Debug, Clone, Copy, PartialEq, Eq, Structural)]
pub enum ActionNotice {
    SentCloseTab,
    Copied,
    SwitchedLeft,
    SwitchedRight,
    Pasted,
    WentBack,
    WentForward,
    Minimized,
    Resized,
    DesktopShown,
    TaskViewOpened,
    TaskManagerOpened,
    SnipOpened,
    MuteToggled,
    VolumeLowered,
    VolumeRaised,
    PlaybackToggled,
}

/// The text of each notice.
pub open spec fn notice_text(n: ActionNotice) -> Seq<char> {
    match n {
        ActionNotice::SentCloseTab => "已发送 Ctrl+W"@,
        ActionNotice::Copied => "已复制"@,
        ActionNotice::SwitchedLeft => "已切换到左侧桌面"@,
        ActionNotice::SwitchedRight => "已切换到右侧桌面"@,
        ActionNotice::Pasted => "已粘贴"@,
        ActionNotice::WentBack => "已后退"@,
        ActionNotice::WentForward => "已前进"@,
        ActionNotice::Minimized => "已最小化"@,
        ActionNotice::Resized => "已切换窗口大小"@,
        ActionNotice::DesktopShown => "已显示桌面"@,
        ActionNotice::TaskViewOpened => "已打开任务视图"@,
        ActionNotice::TaskManagerOpened => "已打开任务管理器"@,
        ActionNotice::SnipOpened => "已打开截图工具"@,
        ActionNotice::MuteToggled => "已切换静音"@,
        ActionNotice::VolumeLowered => "已降低音量"@,
        ActionNotice::VolumeRaised => "已提高音量"@,
        ActionNotice::PlaybackToggled => "已切换播放状态"@,
    }
}

impl ActionNotice {
    /// The text of the notice.
    pub fn text(self) -> (r: &'static str)
        ensures
            r@ == notice_text(self),
    {
        match self {
            ActionNotice::SentCloseTab => "已发送 Ctrl+W",
            ActionNotice::Copied => "已复制",
            ActionNotice::SwitchedLeft => "已切换到左侧桌面",
            ActionNotice::SwitchedRight => "已切换到右侧桌面",
            ActionNotice::Pasted => "已粘贴",
            ActionNotice::WentBack => "已后退",
            ActionNotice::WentForward => "已前进",
            ActionNotice::Minimized => "已最小化",
            ActionNotice::Resized => "已切换窗口大小",
            ActionNotice::DesktopShown => "已显示桌面",
            ActionNotice::TaskViewOpened => "已打开任务视图",
            ActionNotice::TaskManagerOpened => "已打开任务管理器",
            ActionNotice::SnipOpened => "已打开截图工具",
            ActionNotice::MuteToggled => "已切换静音",
            ActionNotice::VolumeLowered => "已降低音量",
            ActionNotice::VolumeRaised => "已提高音量",
            ActionNotice::PlaybackToggled => "已切换播放状态",
        }
    }
}

/// One step of carrying out an action.
#[derive(Debug, Clone, Copy, PartialEq, Eq, Structural)]
pub enum ActionStep {
    /// Bring the window under the gesture to the foreground; fail if it is
    /// gone or does not take the focus.
    ActivateTarget,
    /// Press Ctrl and the key, then release both.
    CtrlChord(u16),
    /// Press Ctrl, Shift and the key, then release them.
    CtrlShiftChord(u16),
    /// Press the Windows key and the key, then release both.
    WindowsChord(u16),
    /// Press the Windows key, Shift and the key, then release them.
    WindowsShiftChord(u16),
    /// Press and release the key.
    Key(u16),
    /// Press Windows, Ctrl and the arrow key, then release them.
    DesktopSwitch(u16),
    /// Show the target window with the given command; fail if it is gone.
    ShowWindow(i32),
    /// Put the target window on top of the others, or take it off.
    ToggleTopmost,
    /// Search the web for the selected text.
    SearchSelection,
    /// Show the clipboard history.
    ShowHistory,
    /// Show the notice.
    Notice(ActionNotice),
}

/// The steps that carry out an action, given whether the target window is
/// maximised; the steps stop at the first that fails.
pub open spec fn action_steps_of(action: ActionKind, target_zoomed: bool) -> Seq<ActionStep> {
    match action {
        ActionKind::Disabled => seq![],
        ActionKind::ToggleTopmost => seq![ActionStep::ToggleTopmost],
        ActionKind::CloseTab => seq![
            ActionStep::ActivateTarget,
            ActionStep::CtrlChord(0x57),
            ActionStep::Notice(ActionNotice::SentCloseTab),
        ],
        ActionKind::CopySelection => seq![
            ActionStep::ActivateTarget,
            ActionStep::CtrlChord(0x43),
            ActionStep::Notice(ActionNotice::Copied),
        ],
        ActionKind::SearchSelection => seq![ActionStep::ActivateTarget, ActionStep::SearchSelection],
        ActionKind::OpenHistory => seq![ActionStep::ShowHistory],
        ActionKind::SwitchDesktopLeft => seq![
            ActionStep::DesktopSwitch(VK_LEFT),
            ActionStep::Notice(ActionNotice::SwitchedLeft),
        ],
        ActionKind::SwitchDesktopRight => seq![
            ActionStep::DesktopSwitch(VK_RIGHT),
            ActionStep::Notice(ActionNotice::SwitchedRight),
        ],
        ActionKind::Paste => seq![
            ActionStep::ActivateTarget,
            ActionStep::CtrlChord(0x56),
            ActionStep::Notice(ActionNotice::Pasted),
        ],
        ActionKind::BrowserBack => seq![
            ActionStep::ActivateTarget,
            ActionStep::Key(VK_BROWSER_BACK),
            ActionStep::Notice(ActionNotice::WentBack),
        ],
        ActionKind::BrowserForward => seq![
            ActionStep::ActivateTarget,
            ActionStep::Key(VK_BROWSER_FORWARD),
            ActionStep::Notice(ActionNotice::WentForward),
        ],
        ActionKind::MinimizeWindow => seq![
            ActionStep::ShowWindow(SW_MINIMIZE),
            ActionStep::Notice(ActionNotice::Minimized),
        ],
        ActionKind::MaximizeRestore => seq![
            ActionStep::ShowWindow(
                if target_zoomed {
                    SW_RESTORE
                } else {
                    SW_MAXIMIZE
                },
            ),
            ActionStep::Notice(ActionNotice::Resized),
        ],
        ActionKind::ShowDesktop => seq![
            ActionStep::WindowsChord(0x44),
            ActionStep::Notice(ActionNotice::DesktopShown),
        ],
        ActionKind::TaskView => seq![
            ActionStep::WindowsChord(VK_TAB),
            ActionStep::Notice(ActionNotice::TaskViewOpened),
        ],
        ActionKind::TaskManager => seq![
            ActionStep::CtrlShiftChord(VK_ESCAPE),
            ActionStep::Notice(ActionNotice::TaskManagerOpened),
        ],
        ActionKind::ScreenSnip => seq![
            ActionStep::WindowsShiftChord(0x53),
            ActionStep::Notice(ActionNotice::SnipOpened),
        ],
        ActionKind::VolumeMute => seq![
            ActionStep::Key(VK_VOLUME_MUTE),
            ActionStep::Notice(ActionNotice::MuteToggled),
        ],
        ActionKind::VolumeDown => seq![
            ActionStep::Key(VK_VOLUME_DOWN),
            ActionStep::Notice(ActionNotice::VolumeLowered),
        ],
        ActionKind::VolumeUp => seq![
            ActionStep::Key(VK_VOLUME_UP),
            ActionStep::Notice(ActionNotice::VolumeRaised),
        ],
        ActionKind::MediaPlayPause => seq![
            ActionStep::Key(VK_MEDIA_PLAY_PAUSE),
            ActionStep::Notice(ActionNotice::PlaybackToggled),
        ],
    }
}

/// The input each action sends, by its Windows virtual-key code: Ctrl+W
/// closes a tab, Ctrl+C copies, Ctrl+V pastes, the browser keys go back
/// (0xA6) and forward (0xA7) in the window under the gesture after it is
/// brought forward, Ctrl+Win with the left (0x25) or right (0x27) arrow
/// switches desktops, Win+D shows the desktop, Win+Tab opens task view,
/// Ctrl+Shift+Esc opens the task manager, Win+Shift+S the snipping tool,
/// and the media keys mute (0xAD), lower (0xAE) and raise (0xAF) the volume
/// and play or pause (0xB3). Minimising shows the window with command 6;
/// the maximise gesture restores (9) a maximised window and maximises (3)
/// any other.
pub proof fn lemma_action_inputs(zoomed: bool)
    ensures
        action_steps_of(ActionKind::CloseTab, zoomed)[0] == ActionStep::ActivateTarget,
        action_steps_of(ActionKind::CloseTab, zoomed)[1] == ActionStep::CtrlChord(0x57),
        action_steps_of(ActionKind::CopySelection, zoomed)[0] == ActionStep::ActivateTarget,
        action_steps_of(ActionKind::CopySelection, zoomed)[1] == ActionStep::CtrlChord(0x43),
        action_steps_of(ActionKind::Paste, zoomed)[0] == ActionStep::ActivateTarget,
        action_steps_of(ActionKind::Paste, zoomed)[1] == ActionStep::CtrlChord(0x56),
        action_steps_of(ActionKind::BrowserBack, zoomed)[0] == ActionStep::ActivateTarget,
        action_steps_of(ActionKind::BrowserBack, zoomed)[1] == ActionStep::Key(0xA6),
        action_steps_of(ActionKind::BrowserForward, zoomed)[0] == ActionStep::ActivateTarget,
        action_steps_of(ActionKind::BrowserForward, zoomed)[1] == ActionStep::Key(0xA7),
        action_steps_of(ActionKind::SwitchDesktopLeft, zoomed)[0] == ActionStep::DesktopSwitch(0x25),
        action_steps_of(ActionKind::SwitchDesktopRight, zoomed)[0] == ActionStep::DesktopSwitch(0x27),
        action_steps_of(ActionKind::ShowDesktop, zoomed)[0] == ActionStep::WindowsChord(0x44),
        action_steps_of(ActionKind::TaskView, zoomed)[0] == ActionStep::WindowsChord(0x09),
        action_steps_of(ActionKind::TaskManager, zoomed)[0] == ActionStep::CtrlShiftChord(0x1B),
        action_steps_of(ActionKind::ScreenSnip, zoomed)[0] == ActionStep::WindowsShiftChord(0x53),
        action_steps_of(ActionKind::VolumeMute, zoomed)[0] == ActionStep::Key(0xAD),
        action_steps_of(ActionKind::VolumeDown, zoomed)[0] == ActionStep::Key(0xAE),
        action_steps_of(ActionKind::VolumeUp, zoomed)[0] == ActionStep::Key(0xAF),
        action_steps_of(ActionKind::MediaPlayPause, zoomed)[0] == ActionStep::Key(0xB3),
        action_steps_of(ActionKind::MinimizeWindow, zoomed)[0] == ActionStep::ShowWindow(6),
        action_steps_of(ActionKind::MaximizeRestore, zoomed)[0] == ActionStep::ShowWindow(
            if zoomed {
                9
            } else {
                3
            },
        ),
        action_steps_of(ActionKind::Disabled, zoomed).len() == 0,
{
}

/// No two actions send the same key or chord: the back gesture never sends
/// the forward key, and so on.
pub proof fn lemma_action_inputs_distinct(a: ActionKind, b: ActionKind, zoomed: bool, i: int, j: int)
    requires
        a != b,
        0 <= i < action_steps_of(a, zoomed).len(),
        0 <= j < action_steps_of(b, zoomed).len(),
        !(action_steps_of(a, zoomed)[i] is ActivateTarget),
        !(action_steps_of(a, zoomed)[i] is Notice),
        !(action_steps_of(a, zoomed)[i] is ShowWindow),
        !(action_steps_of(a, zoomed)[i] is ToggleTopmost),
        !(action_steps_of(a, zoomed)[i] is SearchSelection),
        !(action_steps_of(a, zoomed)[i] is ShowHistory),
    ensures
        action_steps_of(a, zoomed)[i] != action_steps_of(b, zoomed)[j],
{
}

/// The steps that carry out `action`, given whether the target window is
/// maximised.
pub fn action_steps(action: ActionKind, target_zoomed: bool) -> (r: Vec<ActionStep>)
    ensures
        r@ == action_steps_of(action, target_zoomed),
{
    let r = match action {
        ActionKind::Disabled => vec![],
        ActionKind::ToggleTopmost => vec![ActionStep::ToggleTopmost],
        ActionKind::CloseTab => vec![
            ActionStep::ActivateTarget,
            ActionStep::CtrlChord(0x57),
            ActionStep::Notice(ActionNotice::SentCloseTab),
        ],
        ActionKind::CopySelection => vec![
            ActionStep::ActivateTarget,
            ActionStep::CtrlChord(0x43),
            ActionStep::Notice(ActionNotice::Copied),
        ],
        ActionKind::SearchSelection => vec![ActionStep::ActivateTarget, ActionStep::SearchSelection],
        ActionKind::OpenHistory => vec![ActionStep::ShowHistory],
        ActionKind::SwitchDesktopLeft => vec![
            ActionStep::DesktopSwitch(VK_LEFT),
            ActionStep::Notice(ActionNotice::SwitchedLeft),
        ],
        ActionKind::SwitchDesktopRight => vec![
            ActionStep::DesktopSwitch(VK_RIGHT),
            ActionStep::Notice(ActionNotice::SwitchedRight),
        ],
        ActionKind::Paste => vec![
            ActionStep::ActivateTarget,
            ActionStep::CtrlChord(0x56),
            ActionStep::Notice(ActionNotice::Pasted),
        ],
        ActionKind::BrowserBack => vec![
            ActionStep::ActivateTarget,
            ActionStep::Key(VK_BROWSER_BACK),
            ActionStep::Notice(ActionNotice::WentBack),
        ],
        ActionKind::BrowserForward => vec![
            ActionStep::ActivateTarget,
            ActionStep::Key(VK_BROWSER_FORWARD),
            ActionStep::Notice(ActionNotice::WentForward),
        ],
        ActionKind::MinimizeWindow => vec![
            ActionStep::ShowWindow(SW_MINIMIZE),
            ActionStep::Notice(ActionNotice::Minimized),
        ],
        ActionKind::MaximizeRestore => {
            let command = if target_zoomed {
                SW_RESTORE
            } else {
                SW_MAXIMIZE
            };
            vec![ActionStep::ShowWindow(command), ActionStep::Notice(ActionNotice::Resized)]
        },
        ActionKind::ShowDesktop => vec![
            ActionStep::WindowsChord(0x44),
            ActionStep::Notice(ActionNotice::DesktopShown),
        ],
        ActionKind::TaskView => vec![
            ActionStep::WindowsChord(VK_TAB),
            ActionStep::Notice(ActionNotice::TaskViewOpened),
        ],
        ActionKind::TaskManager => vec![
            ActionStep::CtrlShiftChord(VK_ESCAPE),
            ActionStep::Notice(ActionNotice::TaskManagerOpened),
        ],
        ActionKind::ScreenSnip => vec![
            ActionStep::WindowsShiftChord(0x53),
            ActionStep::Notice(ActionNotice::SnipOpened),
        ],
        ActionKind::VolumeMute => vec![
            ActionStep::Key(VK_VOLUME_MUTE),
            ActionStep::Notice(ActionNotice::MuteToggled),
        ],
        ActionKind::VolumeDown => vec![
            ActionStep::Key(VK_VOLUME_DOWN),
            ActionStep::Notice(ActionNotice::VolumeLowered),
        ],
        ActionKind::VolumeUp => vec![
            ActionStep::Key(VK_VOLUME_UP),
            ActionStep::Notice(ActionNotice::VolumeRaised),
        ],
        ActionKind::MediaPlayPause => vec![
            ActionStep::Key(VK_MEDIA_PLAY_PAUSE),
            ActionStep::Notice(ActionNotice::PlaybackToggled),
        ],
    };
    assert(r@ =~= action_steps_of(action, target_zoomed));
    r
}

/// Every action that sends keys to the window under the gesture brings that
/// window forward first.
pub proof fn lemma_keys_to_target_follow_activation(action: ActionKind, zoomed: bool, i: int)
    requires
        0 <= i < action_steps_of(action, zoomed).len(),
        action_steps_of(action, zoomed)[i] matches ActionStep::CtrlChord(_),
    ensures
        i > 0 && action_steps_of(action, zoomed)[0] == ActionStep::ActivateTarget,
{
}

/* Reading the selection through the clipboard */

/// How long the search waits for the copied selection, in milliseconds.
pub const COPY_WAIT_MS: u64 = 1_500;

/// How long the search sleeps between looks at the clipboard.
pub const COPY_POLL_MS: u64 = 15;

/// How long the search waits after putting the clipboard back.
pub const RESTORE_SETTLE_MS: u64 = 80;

/// What the wait for the copied selection has seen so far: whether the
/// clipboard changed since Ctrl+C was sent, and whether a read failed.
#[derive(Debug, Clone, Copy, PartialEq, Eq, Structural)]
pub struct CopyProbe {
    pub changed: bool,
    pub read_failed: bool,
}

/// What the application does next while waiting for the copied selection.
#[derive(Debug, Clone, Copy, PartialEq, Eq, Structural)]
pub enum ProbeStep {
    /// Sleep for the given milliseconds, then look again.
    Sleep(u64),
    /// Read the clipboard's text and report whether it is non-blank.
    ReadText,
    /// The selection has been read.
    Found,
    /// Time is up and nothing could be read: no selection.
    GiveUp,
    /// Time is up after a read failed.
    Fail,
}

/// The wait before anything was seen.
pub open spec fn probe_start() -> CopyProbe {
    CopyProbe { changed: false, read_failed: false }
}

/// The next state and step of the wait. Without a read result this is a
/// look at the clipboard `elapsed_ms` after Ctrl+C, `sequence_changed`
/// telling whether its sequence number moved: when time is up the wait
/// ends, failing if a read failed; otherwise the text is read once the
/// clipboard has changed. With a read result (`Ok(true)` for non-blank
/// text, `Ok(false)` for none or blank, `Err` for a failed read) the wait
/// ends on text and otherwise sleeps, remembering a failure.
pub open spec fn copy_probe_of(
    state: CopyProbe,
    elapsed_ms: u64,
    sequence_changed: bool,
    read: Option<Result<bool, ()>>,
) -> (CopyProbe, ProbeStep) {
    match read {
        None => if elapsed_ms >= COPY_WAIT_MS {
            (state, if state.read_failed {
                ProbeStep::Fail
            } else {
                ProbeStep::GiveUp
            })
        } else {
            let next = CopyProbe { changed: state.changed || sequence_changed, ..state };
            (next, if next.changed {
                ProbeStep::ReadText
            } else {
                ProbeStep::Sleep(COPY_POLL_MS)
            })
        },
        Some(Ok(true)) => (state, ProbeStep::Found),
        Some(Ok(false)) => (state, ProbeStep::Sleep(COPY_POLL_MS)),
        Some(Err(())) => (CopyProbe { read_failed: true, ..state }, ProbeStep::Sleep(COPY_POLL_MS)),
    }
}

/// The wait before anything was seen.
pub fn copy_probe_start() -> (r: CopyProbe)
    ensures
        r == probe_start(),
{
    CopyProbe { changed: false, read_failed: false }
}

/// The next state and step of the wait for the copied selection.
pub fn copy_probe_step(
    state: CopyProbe,
    elapsed_ms: u64,
    sequence_changed: bool,
    read: Option<Result<bool, ()>>,
) -> (r: (CopyProbe, ProbeStep))
    ensures
        r == copy_probe_of(state, elapsed_ms, sequence_changed, read),
{
    match read {
        None => {
            if elapsed_ms >= COPY_WAIT_MS {
                let step = if state.read_failed {
                    ProbeStep::Fail
                } else {
                    ProbeStep::GiveUp
                };
                (state, step)
            } else {
                let next = CopyProbe {
                    changed: state.changed || sequence_changed,
                    read_failed: state.read_failed,
                };
                let step = if next.changed {
                    ProbeStep::ReadText
                } else {
                    ProbeStep::Sleep(COPY_POLL_MS)
                };
                (next, step)
            }
        },
        Some(Ok(true)) => (state, ProbeStep::Found),
        Some(Ok(false)) => (state, ProbeStep::Sleep(COPY_POLL_MS)),
        Some(Err(())) => (
            CopyProbe { changed: state.changed, read_failed: true },
            ProbeStep::Sleep(COPY_POLL_MS),
        ),
    }
}

/// A step taken once the wait has ended.
#[derive(Debug, Clone, Copy, PartialEq, Eq, Structural)]
pub enum CleanupStep {
    /// Put back the text the clipboard held before Ctrl+C.
    RestoreClipboard,
    /// Sleep for the given milliseconds.
    Sleep(u64),
    /// Stop ignoring the clipboard updates caused by the search.
    ClearIgnoredUpdates,
}

/// The steps after the wait, the same whatever it ended with: the
/// clipboard is put back first.
pub open spec fn cleanup_of(outcome: ProbeStep) -> Seq<CleanupStep> {
    seq![
        CleanupStep::RestoreClipboard,
        CleanupStep::Sleep(RESTORE_SETTLE_MS),
        CleanupStep::ClearIgnoredUpdates,
    ]
}

/// The steps after the wait ended with `outcome`.
pub fn cleanup_steps(outcome: ProbeStep) -> (r: Vec<CleanupStep>)
    ensures
        r@ == cleanup_of(outcome),
{
    let r = vec![
        CleanupStep::RestoreClipboard,
        CleanupStep::Sleep(RESTORE_SETTLE_MS),
        CleanupStep::ClearIgnoredUpdates,
    ];
    assert(r@ =~= cleanup_of(outcome));
    r
}

/// The clipboard is put back after every way the wait can end.
pub proof fn lemma_restore_follows_every_outcome(a: ProbeStep, b: ProbeStep)
    ensures
        cleanup_of(a) == cleanup_of(b),
        cleanup_of(a)[0] == CleanupStep::RestoreClipboard,
{
}

/// What the search reads as the selection, once the clipboard was put back
/// (or failed to be).
#[derive(Debug, Clone, Copy, PartialEq, Eq, Structural)]
pub enum ProbeResult {
    /// The text that was read is the selection.
    Selected,
    /// Nothing is selected.
    NoSelection,
    /// The clipboard changed but its text could not be read.
    Unreadable,
    /// Putting the clipboard back failed; this is reported first.
    RestoreFailed,
}

/// The result of the search's read of the selection: a failure to put the
/// clipboard back is reported first, then the wait's outcome.
pub open spec fn probe_result_of(outcome: ProbeStep, restored: bool) -> ProbeResult {
    if !restored {
        ProbeResult::RestoreFailed
    } else {
        match outcome {
            ProbeStep::Found => ProbeResult::Selected,
            ProbeStep::Fail => ProbeResult::Unreadable,
            _ => ProbeResult::NoSelection,
        }
    }
}

/// The result of the search's read of the selection.
pub fn probe_result(outcome: ProbeStep, restored: bool) -> (r: ProbeResult)
    ensures
        r == probe_result_of(outcome, restored),
{
    if !restored {
        ProbeResult::RestoreFailed
    } else {
        match outcome {
            ProbeStep::Found => ProbeResult::Selected,
            ProbeStep::Fail => ProbeResult::Unreadable,
            _ => ProbeResult::NoSelection,
        }
    }
}

} // verus!
