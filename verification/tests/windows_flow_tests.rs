use xmouse::config::{AppConfig, ConfigError, TriggerButton};
use xmouse::gesture::GestureId;
use xmouse::hook::Rect;
use xmouse::storage::{
    eviction_victim, list_order, relative_time_text, ClipItem, ClipKind, StorageStats,
};
use xmouse::window::{toast_origin, SettingsPage};
use xmouse::windows_flow::{
    apply_form, clamp_to_canvas, history_key_event, history_popup_step, settings_form, settings_step,
    HistoryAction, HistoryEvent, HistoryNotice, HistoryPopupState, SettingsAction, SettingsEvent,
    SettingsForm, SettingsNotice, SettingsState, SettingsToggle,
};

fn form() -> SettingsForm {
    settings_form(&AppConfig::default())
}

fn settings_state(page: SettingsPage) -> SettingsState {
    SettingsState { page, form: form(), saved: form(), training: GestureId::Up, drawing: false }
}

fn popup(selected: Option<usize>, count: usize) -> HistoryPopupState {
    HistoryPopupState {
        visible: true,
        origin: 77,
        query: "abc".to_string(),
        entries: (0..count as i64).map(|id| (id + 10, false)).collect(),
        selected,
        keep: None,
        hovered: None,
    }
}

#[test]
fn settings_form_reads_the_configuration() {
    let config = AppConfig::default();
    let f = settings_form(&config);
    assert_eq!(f.enabled, config.enabled);
    assert_eq!(f.dark_mode, config.dark_mode);
    assert_eq!(f.trigger, config.trigger);
    assert_eq!(f.autostart, config.autostart);
    assert_eq!(f.capture, config.history.capture);
    assert_eq!(f.encrypt_content, config.history.encrypt_content);
}

#[test]
fn apply_form_changes_only_the_form_fields() {
    let mut config = AppConfig::default();
    let before = config.clone();
    let f = SettingsForm {
        enabled: !before.enabled,
        dark_mode: !before.dark_mode,
        trigger: TriggerButton::X2,
        autostart: !before.autostart,
        capture: !before.history.capture,
        encrypt_content: !before.history.encrypt_content,
    };
    apply_form(&mut config, f);
    assert_eq!(settings_form(&config), f);
    assert_eq!(config.history.max_items, before.history.max_items);
    assert_eq!(config.search_url_template, before.search_url_template);
    assert_eq!(config.activation_delay_ms, before.activation_delay_ms);
}

#[test]
fn toggling_dark_mode_switches_the_theme() {
    let s = settings_state(SettingsPage::General);
    let (next, steps) = settings_step(&s, SettingsEvent::Toggle(SettingsToggle::DarkMode));
    assert_eq!(next.form.dark_mode, !s.form.dark_mode);
    assert_eq!(
        steps,
        vec![
            SettingsAction::SetToggle(SettingsToggle::DarkMode, !s.form.dark_mode),
            SettingsAction::ApplyTheme(!s.form.dark_mode),
        ]
    );
    let (again, _) = settings_step(&next, SettingsEvent::Toggle(SettingsToggle::DarkMode));
    assert_eq!(again.form, s.form);
}

#[test]
fn choosing_a_trigger_marks_it() {
    let s = settings_state(SettingsPage::General);
    let (next, steps) = settings_step(&s, SettingsEvent::ChooseTrigger(TriggerButton::X1));
    assert_eq!(next.form.trigger, TriggerButton::X1);
    assert_eq!(next.saved, s.saved);
    assert_eq!(steps, vec![SettingsAction::SelectTrigger(TriggerButton::X1)]);
}

#[test]
fn resource_page_starts_and_others_stop_the_timer() {
    let s = settings_state(SettingsPage::General);
    let (on, steps) = settings_step(&s, SettingsEvent::Navigate(SettingsPage::Resources));
    assert_eq!(on.page, SettingsPage::Resources);
    assert_eq!(
        steps,
        vec![
            SettingsAction::ShowPage(SettingsPage::Resources),
            SettingsAction::RefreshResources,
            SettingsAction::StartResourceTimer,
        ]
    );
    let (_, tick) = settings_step(&on, SettingsEvent::ResourceTimer);
    assert_eq!(tick, vec![SettingsAction::RefreshResources]);
    let (off, steps) = settings_step(&on, SettingsEvent::Navigate(SettingsPage::History));
    assert_eq!(steps, vec![SettingsAction::ShowPage(SettingsPage::History), SettingsAction::StopResourceTimer]);
    let (_, tick) = settings_step(&off, SettingsEvent::ResourceTimer);
    assert!(tick.is_empty());
}

#[test]
fn saving_installs_the_form_only_once_written() {
    let mut s = settings_state(SettingsPage::General);
    s.form.enabled = !s.saved.enabled;
    let (same, steps) = settings_step(&s, SettingsEvent::Save);
    assert_eq!(same, s);
    assert_eq!(steps, vec![SettingsAction::SaveForm(s.form)]);
    let (refused, steps) = settings_step(&s, SettingsEvent::SaveRefused(ConfigError::ActivationDelay));
    assert_eq!(refused.saved, s.saved);
    assert_eq!(steps, vec![SettingsAction::NoticeRefused(ConfigError::ActivationDelay)]);
    let (failed, steps) = settings_step(&s, SettingsEvent::SaveFailed);
    assert_eq!(failed.saved, s.saved);
    assert_eq!(steps, vec![SettingsAction::NoticeSaveFailed]);
    let (saved, steps) = settings_step(&s, SettingsEvent::Saved);
    assert_eq!(saved.saved, s.form);
    assert_eq!(
        steps,
        vec![
            SettingsAction::InstallSavedConfig,
            SettingsAction::RefreshStatus(s.form.enabled),
            SettingsAction::Notice(SettingsNotice::Saved),
        ]
    );
}

#[test]
fn pausing_from_the_tray_flips_gestures() {
    let mut s = settings_state(SettingsPage::General);
    s.saved.enabled = true;
    let (paused, steps) = settings_step(&s, SettingsEvent::MenuPause);
    assert!(!paused.saved.enabled);
    assert_eq!(paused.form, paused.saved);
    assert_eq!(steps[0], SettingsAction::SetEnabled(false));
    assert_eq!(steps[3], SettingsAction::Notice(SettingsNotice::GesturesPaused));
    assert_eq!(SettingsNotice::GesturesPaused.text(), "手势已暂停");
    let (_, menu) = settings_step(&paused, SettingsEvent::TrayMenu);
    assert_eq!(menu, vec![SettingsAction::ShowTrayMenu { paused: true }]);
    let (resumed, steps) = settings_step(&paused, SettingsEvent::MenuPause);
    assert!(resumed.saved.enabled);
    assert_eq!(steps[3], SettingsAction::Notice(SettingsNotice::GesturesEnabled));
}

#[test]
fn clipboard_updates_are_captured_unless_own_or_suspended() {
    let s = settings_state(SettingsPage::General);
    let (_, steps) = settings_step(&s, SettingsEvent::ClipboardUpdate { own_update: false, suspended: false });
    assert_eq!(steps, vec![SettingsAction::CaptureClipboard]);
    let (_, steps) = settings_step(&s, SettingsEvent::ClipboardUpdate { own_update: true, suspended: false });
    assert!(steps.is_empty());
    let (_, steps) = settings_step(&s, SettingsEvent::ClipboardUpdate { own_update: false, suspended: true });
    assert!(steps.is_empty());
}

#[test]
fn canvas_clicks_on_the_gestures_page_start_training() {
    let general = settings_state(SettingsPage::General);
    let (_, steps) = settings_step(&general, SettingsEvent::Press { x: 300, y: 300 });
    assert_eq!(steps, vec![SettingsAction::PassOn]);
    let gestures = settings_state(SettingsPage::Gestures);
    let (_, steps) = settings_step(&gestures, SettingsEvent::Press { x: 10, y: 10 });
    assert_eq!(steps, vec![SettingsAction::PassOn]);
    let (drawing, steps) = settings_step(&gestures, SettingsEvent::Press { x: 300, y: 300 });
    assert!(drawing.drawing);
    assert_eq!(steps, vec![SettingsAction::StartTraining { x: 300, y: 300 }]);
    let (_, steps) = settings_step(&drawing, SettingsEvent::Move { x: 0, y: 900, points: 3 });
    assert_eq!(steps, vec![SettingsAction::AddTrainingPoint { x: 234, y: 544 }]);
    let (_, steps) = settings_step(&drawing, SettingsEvent::Move { x: 400, y: 400, points: 512 });
    assert!(steps.is_empty());
    let (done, steps) = settings_step(&drawing, SettingsEvent::Release { x: 900, y: 100, points: 10 });
    assert!(!done.drawing);
    assert_eq!(
        steps,
        vec![SettingsAction::AddTrainingPoint { x: 830, y: 258 }, SettingsAction::FinishTraining]
    );
    let (_, steps) = settings_step(&done, SettingsEvent::Release { x: 300, y: 300, points: 0 });
    assert_eq!(steps, vec![SettingsAction::PassOn]);
}

#[test]
fn teaching_choice_and_forgetting_follow_the_chosen_gesture() {
    let s = settings_state(SettingsPage::Gestures);
    let (chosen, steps) = settings_step(&s, SettingsEvent::SelectTraining(GestureId::Circle));
    assert_eq!(chosen.training, GestureId::Circle);
    assert_eq!(steps, vec![SettingsAction::SelectTrainingChoice(GestureId::Circle)]);
    let (_, steps) = settings_step(&chosen, SettingsEvent::ClearSamples);
    assert_eq!(steps, vec![SettingsAction::ConfirmForgetSamples(GestureId::Circle)]);
}

#[test]
fn tray_and_buttons_map_to_their_steps() {
    let s = settings_state(SettingsPage::General);
    let cases = [
        (SettingsEvent::TrayClick, SettingsAction::OpenHistory),
        (SettingsEvent::MenuHistory, SettingsAction::OpenHistory),
        (SettingsEvent::MenuSettings, SettingsAction::RestoreWindow),
        (SettingsEvent::MenuExit, SettingsAction::Quit),
        (SettingsEvent::Close, SettingsAction::HideWindow),
        (SettingsEvent::ClearHistory, SettingsAction::ConfirmClearHistory),
        (SettingsEvent::OpenDataDir, SettingsAction::OpenDataDirectory),
        (SettingsEvent::CaptureDone, SettingsAction::RefreshUsage),
    ];
    for (event, action) in cases {
        let (next, steps) = settings_step(&s, event);
        assert_eq!(next, s);
        assert_eq!(steps, vec![action]);
    }
}

#[test]
fn canvas_points_stay_inside() {
    assert_eq!(clamp_to_canvas(0, 0), (234, 258));
    assert_eq!(clamp_to_canvas(500, 400), (500, 400));
    assert_eq!(clamp_to_canvas(2000, 2000), (830, 544));
}

#[test]
fn opening_the_popup_clears_the_search_and_lists() {
    let s = HistoryPopupState::new();
    let (open, steps) = history_popup_step(&s, HistoryEvent::Open { origin: 42 });
    assert!(open.visible);
    assert_eq!(open.origin, 42);
    assert_eq!(open.query, "");
    assert_eq!(
        steps,
        vec![
            HistoryAction::HidePreview,
            HistoryAction::ClearSearch,
            HistoryAction::Rebuild,
            HistoryAction::ShowNearPointer,
        ]
    );
    let (listed, steps) =
        history_popup_step(&open, HistoryEvent::Listed(vec![(7, false), (5, false), (2, false)]));
    assert_eq!(listed.entries, vec![(7, false), (5, false), (2, false)]);
    assert_eq!(listed.selected, Some(0));
    assert_eq!(
        steps,
        vec![
            HistoryAction::SelectRow(0),
            HistoryAction::RefreshButtons { selected_pinned: false },
            HistoryAction::RefreshUsage,
        ]
    );
    let (empty, steps) = history_popup_step(&open, HistoryEvent::Listed(vec![]));
    assert_eq!(empty.selected, None);
    assert_eq!(
        steps,
        vec![HistoryAction::RefreshButtons { selected_pinned: false }, HistoryAction::RefreshUsage]
    );
}

#[test]
fn search_changes_rebuild_with_the_new_text() {
    let s = popup(Some(1), 4);
    let (next, steps) = history_popup_step(&s, HistoryEvent::SearchChanged("xyz".to_string()));
    assert_eq!(next.query, "xyz");
    assert_eq!(steps, vec![HistoryAction::HidePreview, HistoryAction::Rebuild]);
    let (_, steps) = history_popup_step(&s, HistoryEvent::ListFailed);
    assert_eq!(steps, vec![HistoryAction::Notice(HistoryNotice::ListFailed)]);
}

#[test]
fn copy_needs_a_selection_and_hides_on_success() {
    let none = popup(None, 4);
    let (_, steps) = history_popup_step(&none, HistoryEvent::CopyRequested);
    assert!(steps.is_empty());
    let s = popup(Some(2), 4);
    let (_, steps) = history_popup_step(&s, HistoryEvent::CopyRequested);
    assert_eq!(steps, vec![HistoryAction::CopyItem(2)]);
    let (hidden, steps) = history_popup_step(&s, HistoryEvent::Copied(true));
    assert!(!hidden.visible);
    assert_eq!(
        steps,
        vec![
            HistoryAction::HidePreview,
            HistoryAction::HidePopup,
            HistoryAction::FocusWindow(77),
            HistoryAction::Notice(HistoryNotice::Copied),
        ]
    );
    let (still, steps) = history_popup_step(&s, HistoryEvent::Copied(false));
    assert!(still.visible);
    assert_eq!(steps, vec![HistoryAction::Notice(HistoryNotice::CopyFailed)]);
    assert_eq!(HistoryNotice::Copied.text(), "已复制历史内容");
}

#[test]
fn delete_asks_first_then_rebuilds() {
    let s = popup(Some(1), 4);
    let (_, steps) = history_popup_step(&s, HistoryEvent::DeleteRequested);
    assert_eq!(steps, vec![HistoryAction::ConfirmDelete(1)]);
    let (_, steps) = history_popup_step(&s, HistoryEvent::DeleteAnswered { index: 1, yes: false });
    assert!(steps.is_empty());
    let (_, steps) = history_popup_step(&s, HistoryEvent::DeleteAnswered { index: 1, yes: true });
    assert_eq!(steps, vec![HistoryAction::RemoveItem(1)]);
    let (after, steps) = history_popup_step(&s, HistoryEvent::Removed(true));
    assert_eq!(after.query, "abc");
    assert_eq!(steps, vec![HistoryAction::HidePreview, HistoryAction::Rebuild]);
    let (_, steps) = history_popup_step(&s, HistoryEvent::Removed(false));
    assert_eq!(steps, vec![HistoryAction::Notice(HistoryNotice::DeleteFailed)]);
}

#[test]
fn clear_asks_first_and_empties_the_list() {
    let s = popup(Some(1), 4);
    let (_, steps) = history_popup_step(&s, HistoryEvent::ClearRequested { pinned_count: 0 });
    assert_eq!(steps, vec![HistoryAction::ConfirmClear]);
    let (_, steps) = history_popup_step(&s, HistoryEvent::ClearAnswered(false));
    assert!(steps.is_empty());
    let (_, steps) = history_popup_step(&s, HistoryEvent::ClearAnswered(true));
    assert_eq!(steps, vec![HistoryAction::ClearAll]);
    let (cleared, steps) = history_popup_step(&s, HistoryEvent::Cleared(true));
    assert!(cleared.entries.is_empty());
    assert_eq!(cleared.selected, None);
    assert_eq!(
        steps,
        vec![
            HistoryAction::EmptyList,
            HistoryAction::RefreshButtons { selected_pinned: false },
            HistoryAction::RefreshUsage,
            HistoryAction::Notice(HistoryNotice::Cleared),
        ]
    );
    let (_, steps) = history_popup_step(&s, HistoryEvent::Cleared(false));
    assert_eq!(steps, vec![HistoryAction::Notice(HistoryNotice::ClearFailed)]);
}

#[test]
fn losing_focus_to_a_foreign_window_dismisses() {
    let s = popup(Some(1), 4);
    let (kept, steps) = history_popup_step(&s, HistoryEvent::Deactivated { owned: true });
    assert!(kept.visible);
    assert!(steps.is_empty());
    let (gone, steps) = history_popup_step(&s, HistoryEvent::Deactivated { owned: false });
    assert!(!gone.visible);
    assert_eq!(steps, vec![HistoryAction::HidePreview, HistoryAction::HidePopup]);
    let (closed, steps) = history_popup_step(&s, HistoryEvent::Close);
    assert!(!closed.visible);
    assert_eq!(closed.selected, Some(1));
    assert_eq!(
        steps,
        vec![HistoryAction::HidePreview, HistoryAction::HidePopup, HistoryAction::FocusWindow(77)]
    );
    let mut nowhere = popup(None, 0);
    nowhere.origin = 0;
    let (_, steps) = history_popup_step(&nowhere, HistoryEvent::Close);
    assert_eq!(steps, vec![HistoryAction::HidePreview, HistoryAction::HidePopup]);
}

#[test]
fn selection_stays_within_the_list() {
    let s = popup(Some(1), 4);
    let (next, _) = history_popup_step(&s, HistoryEvent::SelectionChanged(Some(3)));
    assert_eq!(next.selected, Some(3));
    let (next, steps) = history_popup_step(&s, HistoryEvent::SelectionChanged(Some(4)));
    assert_eq!(next.selected, None);
    assert_eq!(steps, vec![HistoryAction::RefreshButtons { selected_pinned: false }]);
}

#[test]
fn previews_follow_the_image_under_the_mouse() {
    let s = popup(Some(0), 4);
    let (text, steps) = history_popup_step(&s, HistoryEvent::Hover(Some((5, ClipKind::Text))));
    assert_eq!(text.hovered, None);
    assert!(steps.is_empty());
    let (over, steps) = history_popup_step(&s, HistoryEvent::Hover(Some((5, ClipKind::Image))));
    assert_eq!(over.hovered, Some(5));
    assert_eq!(steps, vec![HistoryAction::HidePreview, HistoryAction::RequestPreview(5)]);
    let (_, steps) = history_popup_step(&over, HistoryEvent::Hover(Some((5, ClipKind::Image))));
    assert!(steps.is_empty());
    let (_, steps) = history_popup_step(&over, HistoryEvent::PreviewReady(5));
    assert_eq!(steps, vec![HistoryAction::ShowPreview]);
    let (_, steps) = history_popup_step(&over, HistoryEvent::PreviewReady(6));
    assert!(steps.is_empty());
    let (left, steps) = history_popup_step(&over, HistoryEvent::Leave);
    assert_eq!(left.hovered, None);
    assert_eq!(steps, vec![HistoryAction::HidePreview]);
    let (_, steps) = history_popup_step(&left, HistoryEvent::PreviewReady(5));
    assert!(steps.is_empty());
}

#[test]
fn popup_keys_copy_delete_and_close() {
    assert!(matches!(history_key_event(0x0D), Some(HistoryEvent::CopyRequested)));
    assert!(matches!(history_key_event(0x2E), Some(HistoryEvent::DeleteRequested)));
    assert!(matches!(history_key_event(0x1B), Some(HistoryEvent::Close)));
    assert!(history_key_event(0x41).is_none());
}

#[test]
fn entry_details_name_the_source_and_size() {
    let mut item = ClipItem {
        id: 1,
        kind: ClipKind::Text,
        text: Some("hi".to_string()),
        thumbnail_png: None,
        source_exe: String::new(),
        width: None,
        height: None,
        byte_size: 1025,
        last_used_at: 0,
        pinned: false,
    };
    assert_eq!(item.details("刚刚"), "未知来源 · 刚刚 · 2 KiB");
    item.source_exe = "notepad.exe".to_string();
    item.byte_size = 2048;
    assert_eq!(item.details("3 分钟前"), "notepad.exe · 3 分钟前 · 2 KiB");
    item.byte_size = 0;
    assert_eq!(item.details("x"), "notepad.exe · x · 0 KiB");
}

#[test]
fn notices_sit_at_the_bottom_centre() {
    let work = Rect { left: 0, top: 0, right: 1920, bottom: 1040 };
    assert_eq!(toast_origin(work), (780, 960));
    let second = Rect { left: 1920, top: 0, right: 3200, bottom: 1024 };
    assert_eq!(toast_origin(second), (2380, 944));
    let narrow = Rect { left: 0, top: 0, right: 301, bottom: 200 };
    assert_eq!(toast_origin(narrow), (-29, 120));
}

#[test]
fn usage_line_counts_entries_and_kib() {
    let on_disk = StorageStats { item_count: 12, pinned_count: 0, content_bytes: 10, disk_bytes: 4097 };
    assert_eq!(on_disk.usage_text(), "12 条 · 5 KiB");
    let in_database = StorageStats { item_count: 3, pinned_count: 0, content_bytes: 2048, disk_bytes: 0 };
    assert_eq!(in_database.usage_text(), "3 条 · 2 KiB");
    assert_eq!(StorageStats::default().usage_text(), "0 条 · 0 KiB");
}

#[test]
fn usage_line_names_pinned_entries() {
    let stats = StorageStats { item_count: 9, pinned_count: 2, content_bytes: 0, disk_bytes: 1024 };
    assert_eq!(stats.usage_text(), "9 条 · 2 置顶 · 1 KiB");
}

#[test]
fn pinned_entries_are_listed_first() {
    let rows = vec![(1, 500, false), (2, 100, true), (3, 900, false), (4, 100, true), (5, 900, false)];
    assert_eq!(list_order(&rows), vec![3, 1, 4, 2, 0]);
    assert!(list_order(&vec![]).is_empty());
}

#[test]
fn eviction_spares_pinned_entries() {
    let rows = vec![(1, 50, true), (2, 300, false), (3, 200, false), (4, 200, false)];
    assert_eq!(eviction_victim(&rows), Some(2));
    assert_eq!(eviction_victim(&vec![(1, 50, true), (2, 10, true)]), None);
    assert_eq!(eviction_victim(&vec![]), None);
}

#[test]
fn relative_times_round_down() {
    assert_eq!(relative_time_text(-5), "刚刚");
    assert_eq!(relative_time_text(59_999), "刚刚");
    assert_eq!(relative_time_text(60_000), "1 分钟前");
    assert_eq!(relative_time_text(3_599_999), "59 分钟前");
    assert_eq!(relative_time_text(7_200_000), "2 小时前");
    assert_eq!(relative_time_text(86_400_000 * 3 + 5), "3 天前");
}

#[test]
fn pinning_asks_storage_and_keeps_the_selection() {
    let mut s = popup(Some(1), 3);
    s.entries[1].1 = false;
    let (asked, steps) = history_popup_step(&s, HistoryEvent::PinRequested);
    assert_eq!(asked.keep, Some(11));
    assert_eq!(steps, vec![HistoryAction::SetPinned { index: 1, pinned: true }]);
    let (set, steps) = history_popup_step(&asked, HistoryEvent::PinSet { ok: true, pinned: true });
    assert_eq!(
        steps,
        vec![
            HistoryAction::HidePreview,
            HistoryAction::Rebuild,
            HistoryAction::Notice(HistoryNotice::Pinned),
        ]
    );
    let (listed, steps) =
        history_popup_step(&set, HistoryEvent::Listed(vec![(11, true), (10, false), (12, false)]));
    assert_eq!(listed.selected, Some(0));
    assert_eq!(listed.keep, None);
    assert_eq!(
        steps,
        vec![
            HistoryAction::SelectRow(0),
            HistoryAction::RefreshButtons { selected_pinned: true },
            HistoryAction::RefreshUsage,
        ]
    );
    let (failed, steps) = history_popup_step(&asked, HistoryEvent::PinSet { ok: false, pinned: true });
    assert_eq!(failed.keep, None);
    assert_eq!(steps, vec![HistoryAction::Notice(HistoryNotice::PinFailed)]);
    let (_, steps) = history_popup_step(&popup(None, 3), HistoryEvent::PinRequested);
    assert!(steps.is_empty());
    assert_eq!(HistoryNotice::Unpinned.text(), "已取消置顶");
}

#[test]
fn a_missing_kept_entry_selects_the_first() {
    let mut s = popup(Some(0), 1);
    s.keep = Some(99);
    let (listed, _) = history_popup_step(&s, HistoryEvent::Listed(vec![(3, false), (4, true)]));
    assert_eq!(listed.selected, Some(0));
}

#[test]
fn pinned_entries_refuse_delete_and_clear() {
    let mut s = popup(Some(2), 3);
    s.entries[2].1 = true;
    let (_, steps) = history_popup_step(&s, HistoryEvent::DeleteRequested);
    assert_eq!(steps, vec![HistoryAction::Inform(HistoryNotice::PinnedProtected)]);
    let (_, steps) = history_popup_step(&s, HistoryEvent::ClearRequested { pinned_count: 4 });
    assert_eq!(steps, vec![HistoryAction::Inform(HistoryNotice::PinnedBlockClear(4))]);
    assert_eq!(
        HistoryNotice::PinnedBlockClear(4).text(),
        "历史中有 4 条置顶记录，请先取消置顶再清空。"
    );
    let (_, steps) = history_popup_step(&s, HistoryEvent::SelectionChanged(Some(2)));
    assert_eq!(steps, vec![HistoryAction::RefreshButtons { selected_pinned: true }]);
}
