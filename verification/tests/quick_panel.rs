use muxy_app::model::Quitting;
use muxy_app::quick_panel::{
    shortcut_status, CheckedStep, CloseCheck, CloseStep, Closing, QuickPanel, QuickToggle, ShowAction,
    ShowEvent,
    ShortcutState,
};

fn shown() -> QuickPanel {
    QuickPanel {
        visible: true,
        closing: None,
    }
}

#[test]
fn the_shortcut_toggles_only_while_running_and_enabled() {
    let mut p = shown();
    assert_eq!(p.toggle(Quitting::Quit, true), QuickToggle::Nothing);
    assert_eq!(p.toggle(Quitting::Idle, false), QuickToggle::Nothing);
    assert!(p.visible);
    assert_eq!(p.toggle(Quitting::Idle, true), QuickToggle::Hide);
    assert!(!p.visible);
    assert_eq!(p.toggle(Quitting::Idle, true), QuickToggle::Show);
}

#[test]
fn quick_terminal_close_prompts_only_for_commands() {
    let mut p = shown();
    assert_eq!(
        p.request_close(9, Some(4), Some(70), false, true, true),
        CloseStep::AskServer
    );
    assert_eq!(p.closing, Some(Closing { tab: 9, pane: 4 }));
    assert_eq!(
        p.request_close(10, Some(4), Some(70), false, true, true),
        CloseStep::Nothing
    );
    assert_eq!(p.close_checked(CloseCheck::Command), CheckedStep::Confirm);
    assert!(p.closing.is_some());
    assert_eq!(p.close_checked(CloseCheck::Shell), CheckedStep::Close);
    assert_eq!(p, QuickPanel { visible: false, closing: None });

    for check in [CloseCheck::NoProcess, CloseCheck::MissingSession] {
        let mut p = shown();
        assert_eq!(
            p.request_close(1, Some(2), Some(3), false, true, false),
            CloseStep::CheckHere
        );
        assert_eq!(p.close_checked(check), CheckedStep::Close);
        assert!(!p.visible);
    }

    let mut p = shown();
    p.request_close(1, Some(2), Some(3), false, true, true);
    assert_eq!(
        p.close_checked(CloseCheck::Failed("lost".into())),
        CheckedStep::Fail("lost".into())
    );
    assert_eq!(p, QuickPanel { visible: true, closing: None });
    p.request_close(1, Some(2), Some(3), false, true, true);
    assert_eq!(p.close_checked(CloseCheck::Unsent), CheckedStep::Nothing);
    assert_eq!(p.closing, None);
}

#[test]
fn panes_close_at_once_without_a_confirmation_to_ask() {
    for (session, used_outside, confirm) in
        [(None, false, true), (Some(3), true, true), (Some(3), false, false)]
    {
        let mut p = shown();
        assert_eq!(
            p.request_close(1, Some(2), session, used_outside, confirm, true),
            CloseStep::Close
        );
        assert_eq!(p, QuickPanel { visible: false, closing: None });
    }
    let mut p = shown();
    assert_eq!(
        p.request_close(1, None, Some(3), false, true, true),
        CloseStep::Nothing
    );
    assert!(p.visible);
}

#[test]
fn the_shortcut_status_prefers_the_registration_error() {
    assert_eq!(shortcut_status(None, ShortcutState::Stopped), "Inactive");
    assert_eq!(shortcut_status(None, ShortcutState::Unavailable), "Unavailable");
    assert_eq!(
        shortcut_status(None, ShortcutState::Registered),
        "Active system-wide"
    );
    assert_eq!(
        shortcut_status(Some("Taken by another app"), ShortcutState::Registered),
        "Taken by another app"
    );
}

#[test]
fn the_panel_shows_only_once_prepared_and_saved() {
    let mut p = QuickPanel {
        visible: false,
        closing: None,
    };
    assert_eq!(
        p.show(ShowEvent::Start {
            disconnected: true,
            panel_open: false
        }),
        ShowAction::Prepare {
            connect: true,
            open_window: true
        }
    );
    assert_eq!(
        p.show(ShowEvent::Start {
            disconnected: false,
            panel_open: true
        }),
        ShowAction::Prepare {
            connect: false,
            open_window: false
        }
    );
    assert_eq!(
        p.show(ShowEvent::PanelReady(Err("no window".into()))),
        ShowAction::Fail("no window".into())
    );
    assert_eq!(p.show(ShowEvent::PanelReady(Ok(()))), ShowAction::Save);
    assert_eq!(
        p.show(ShowEvent::Saved(false)),
        ShowAction::Fail("Could not save Quick Terminal session".into())
    );
    assert!(!p.visible);
    assert_eq!(p.show(ShowEvent::Saved(true)), ShowAction::Shown);
    assert!(p.visible);
}
