use xmouse::action::ActionKind;
use xmouse::actions::{
    action_steps, cleanup_steps, copy_probe_start, copy_probe_step, probe_result, ActionNotice,
    ActionStep, CleanupStep, CopyProbe, ProbeResult, ProbeStep, SW_MAXIMIZE, SW_RESTORE,
    VK_LEFT, VK_VOLUME_UP,
};

#[test]
fn actions_decide_their_steps() {
    assert_eq!(
        action_steps(ActionKind::CloseTab, false),
        vec![ActionStep::ActivateTarget, ActionStep::CtrlChord(b'W' as u16), ActionStep::Notice(ActionNotice::SentCloseTab)]
    );
    assert_eq!(
        action_steps(ActionKind::Paste, true),
        vec![ActionStep::ActivateTarget, ActionStep::CtrlChord(b'V' as u16), ActionStep::Notice(ActionNotice::Pasted)]
    );
    assert_eq!(action_steps(ActionKind::CopySelection, false)[1], ActionStep::CtrlChord(b'C' as u16));
    assert_eq!(action_steps(ActionKind::OpenHistory, false), vec![ActionStep::ShowHistory]);
    assert_eq!(action_steps(ActionKind::ToggleTopmost, false), vec![ActionStep::ToggleTopmost]);
    assert_eq!(action_steps(ActionKind::MaximizeRestore, true)[0], ActionStep::ShowWindow(SW_RESTORE));
    assert_eq!(action_steps(ActionKind::MaximizeRestore, false)[0], ActionStep::ShowWindow(SW_MAXIMIZE));
    assert_eq!(action_steps(ActionKind::SwitchDesktopLeft, false)[0], ActionStep::DesktopSwitch(VK_LEFT));
    assert_eq!(action_steps(ActionKind::VolumeUp, false)[0], ActionStep::Key(VK_VOLUME_UP));
    assert!(action_steps(ActionKind::Disabled, false).is_empty());
    assert_eq!(ActionNotice::SentCloseTab.text(), "已发送 Ctrl+W");
}

#[test]
fn labels_are_distinct() {
    for a in ActionKind::ALL {
        assert!(!a.label().is_empty());
        for b in ActionKind::ALL {
            if a != b {
                assert_ne!(a.label(), b.label());
            }
        }
    }
}

#[test]
fn copied_selection_wait() {
    let start = copy_probe_start();
    assert_eq!(start, CopyProbe { changed: false, read_failed: false });
    let (s, step) = copy_probe_step(start, 10, false, None);
    assert_eq!(step, ProbeStep::Sleep(15));
    let (s, step) = copy_probe_step(s, 40, true, None);
    assert_eq!(step, ProbeStep::ReadText);
    let (s, step) = copy_probe_step(s, 40, true, Some(Err(())));
    assert_eq!(step, ProbeStep::Sleep(15));
    assert!(s.read_failed);
    let (s2, step) = copy_probe_step(s, 60, false, None);
    assert_eq!(step, ProbeStep::ReadText);
    assert_eq!(copy_probe_step(s2, 60, false, Some(Ok(true))).1, ProbeStep::Found);
    assert_eq!(copy_probe_step(s2, 60, false, Some(Ok(false))).1, ProbeStep::Sleep(15));
    assert_eq!(copy_probe_step(s2, 1500, false, None).1, ProbeStep::Fail);
    assert_eq!(copy_probe_step(start, 1500, true, None).1, ProbeStep::GiveUp);
    for outcome in [ProbeStep::Found, ProbeStep::GiveUp, ProbeStep::Fail] {
        assert_eq!(
            cleanup_steps(outcome),
            vec![CleanupStep::RestoreClipboard, CleanupStep::Sleep(80), CleanupStep::ClearIgnoredUpdates]
        );
        assert_eq!(probe_result(outcome, false), ProbeResult::RestoreFailed);
    }
    assert_eq!(probe_result(ProbeStep::Found, true), ProbeResult::Selected);
    assert_eq!(probe_result(ProbeStep::GiveUp, true), ProbeResult::NoSelection);
    assert_eq!(probe_result(ProbeStep::Fail, true), ProbeResult::Unreadable);
}
