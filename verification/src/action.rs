//! What a recognised gesture can do.

use vstd::prelude::*;

verus! {

/// An action that a gesture can be bound to.
#[derive(Debug, Clone, Copy, PartialEq, Eq, Structural)]
pub enum ActionKind {
    Disabled,
    ToggleTopmost,
    CloseTab,
    SearchSelection,
    CopySelection,
    OpenHistory,
    SwitchDesktopLeft,
    SwitchDesktopRight,
    Paste,
    BrowserBack,
    BrowserForward,
    MinimizeWindow,
    MaximizeRestore,
    ShowDesktop,
    TaskView,
    TaskManager,
    ScreenSnip,
    VolumeMute,
    VolumeDown,
    VolumeUp,
    MediaPlayPause,
}

/// The label shown for each action in the settings.
pub open spec fn action_label(a: ActionKind) -> Seq<char> {
    match a {
        ActionKind::Disabled => "不执行动作"@,
        ActionKind::ToggleTopmost => "置顶 / 取消置顶窗口"@,
        ActionKind::CloseTab => "关闭当前标签页"@,
        ActionKind::SearchSelection => "搜索选中文本"@,
        ActionKind::CopySelection => "复制选中内容"@,
        ActionKind::OpenHistory => "打开剪贴板历史"@,
        ActionKind::SwitchDesktopLeft => "切换到左侧桌面"@,
        ActionKind::SwitchDesktopRight => "切换到右侧桌面"@,
        ActionKind::Paste => "粘贴"@,
        ActionKind::BrowserBack => "浏览器后退"@,
        ActionKind::BrowserForward => "浏览器前进"@,
        ActionKind::MinimizeWindow => "最小化窗口"@,
        ActionKind::MaximizeRestore => "最大化 / 还原窗口"@,
        ActionKind::ShowDesktop => "显示桌面"@,
        ActionKind::TaskView => "任务视图"@,
        ActionKind::TaskManager => "打开任务管理器"@,
        ActionKind::ScreenSnip => "打开截图工具"@,
        ActionKind::VolumeMute => "静音 / 取消静音"@,
        ActionKind::VolumeDown => "降低音量"@,
        ActionKind::VolumeUp => "提高音量"@,
        ActionKind::MediaPlayPause => "播放 / 暂停媒体"@,
    }
}

impl ActionKind {
    /// Every action, in the order the settings list them.
    pub const ALL: [ActionKind; 21] = [
        ActionKind::Disabled,
        ActionKind::ToggleTopmost,
        ActionKind::CloseTab,
        ActionKind::SearchSelection,
        ActionKind::CopySelection,
        ActionKind::OpenHistory,
        ActionKind::Paste,
        ActionKind::BrowserBack,
        ActionKind::BrowserForward,
        ActionKind::MinimizeWindow,
        ActionKind::MaximizeRestore,
        ActionKind::SwitchDesktopLeft,
        ActionKind::SwitchDesktopRight,
        ActionKind::ShowDesktop,
        ActionKind::TaskView,
        ActionKind::TaskManager,
        ActionKind::ScreenSnip,
        ActionKind::VolumeMute,
        ActionKind::VolumeDown,
        ActionKind::VolumeUp,
        ActionKind::MediaPlayPause,
    ];

    /// The label shown for this action.
    pub fn label(self) -> (r: &'static str)
        ensures
            r@ == action_label(self),
    {
        match self {
            ActionKind::Disabled => "不执行动作",
            ActionKind::ToggleTopmost => "置顶 / 取消置顶窗口",
            ActionKind::CloseTab => "关闭当前标签页",
            ActionKind::SearchSelection => "搜索选中文本",
            ActionKind::CopySelection => "复制选中内容",
            ActionKind::OpenHistory => "打开剪贴板历史",
            ActionKind::SwitchDesktopLeft => "切换到左侧桌面",
            ActionKind::SwitchDesktopRight => "切换到右侧桌面",
            ActionKind::Paste => "粘贴",
            ActionKind::BrowserBack => "浏览器后退",
            ActionKind::BrowserForward => "浏览器前进",
            ActionKind::MinimizeWindow => "最小化窗口",
            ActionKind::MaximizeRestore => "最大化 / 还原窗口",
            ActionKind::ShowDesktop => "显示桌面",
            ActionKind::TaskView => "任务视图",
            ActionKind::TaskManager => "打开任务管理器",
            ActionKind::ScreenSnip => "打开截图工具",
            ActionKind::VolumeMute => "静音 / 取消静音",
            ActionKind::VolumeDown => "降低音量",
            ActionKind::VolumeUp => "提高音量",
            ActionKind::MediaPlayPause => "播放 / 暂停媒体",
        }
    }
}

/// Every action has a label, and no two actions share one.
pub proof fn lemma_action_labels_distinct(a: ActionKind, b: ActionKind)
    ensures
        action_label(a).len() > 0,
        a != b ==> action_label(a) != action_label(b),
{
    reveal_strlit("不执行动作");
    reveal_strlit("置顶 / 取消置顶窗口");
    reveal_strlit("关闭当前标签页");
    reveal_strlit("搜索选中文本");
    reveal_strlit("复制选中内容");
    reveal_strlit("打开剪贴板历史");
    reveal_strlit("切换到左侧桌面");
    reveal_strlit("切换到右侧桌面");
    reveal_strlit("粘贴");
    reveal_strlit("浏览器后退");
    reveal_strlit("浏览器前进");
    reveal_strlit("最小化窗口");
    reveal_strlit("最大化 / 还原窗口");
    reveal_strlit("显示桌面");
    reveal_strlit("任务视图");
    reveal_strlit("打开任务管理器");
    reveal_strlit("打开截图工具");
    reveal_strlit("静音 / 取消静音");
    reveal_strlit("降低音量");
    reveal_strlit("提高音量");
    reveal_strlit("播放 / 暂停媒体");
    let la = action_label(a);
    let lb = action_label(b);
    assert(la.len() > 0);
    if a != b && la == lb {
        assert(la[0] == lb[0]);
        if la.len() > 3 {
            assert(la[3] == lb[3]);
        }
    }
}

} // verus!
