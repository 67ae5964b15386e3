use muxy_app::model::{
    change_id, items, is_server_change, newer_build, AppModel, Category, Change, MenuItem,
    PickerKind, Project, Quitting, ServerPreferences, ServerSettings, SessionEntry, SessionListing, Tab,
    TabAction, TabCloseScope, TabSide,
};
use muxy_app::quick_terminal::{ChordModifiers, KeyCombo, QuickTerminalShortcut};

fn tab(id: u64, pinned: bool) -> Tab {
    Tab {
        id,
        custom_title: None,
        color: None,
        pinned,
    }
}

fn model() -> AppModel {
    AppModel {
        quitting: Quitting::Idle,
        update_ready: None,
        update_checking: false,
        update_scheduled: false,
        update_sessions: 0,
        update_reconnect_failed: false,
        server_preferences: ServerPreferences {
            busy: false,
            control_busy: false,
            row: String::new(),
            pending: Vec::new(),
        },
        projects: Vec::new(),
        current_project: 1,
        visible_panes: Vec::new(),
        quick_pane: None,
        quick_visible: false,
        quick_shortcut: QuickTerminalShortcut::Unassigned,
        session_references: Vec::new(),
        existing_sessions: Vec::new(),
    }
}

#[test]
fn bulk_close_targets_follow_project_order_and_skip_pinned_tabs() {
    let (first, second, third, fourth) = (1, 2, 3, 4);
    let home = Project {
        id: 10,
        tabs: vec![tab(first, true), tab(second, false), tab(third, false), tab(fourth, false)],
    };
    assert_eq!(home.closable_tabs(third, TabCloseScope::Other), [second, fourth]);
    assert_eq!(home.closable_tabs(third, TabCloseScope::Left), [second]);
    assert_eq!(home.closable_tabs(third, TabCloseScope::Right), [fourth]);
    assert!(home.closable_tabs(first, TabCloseScope::Left).is_empty());
    assert!(home.closable_tabs(99, TabCloseScope::Other).is_empty());
}

fn labels(items: &[MenuItem]) -> Vec<&'static str> {
    items.iter().map(|item| item.label).collect()
}

#[test]
fn the_tab_menu_offers_what_the_tab_allows() {
    let mut project = Project {
        id: 10,
        tabs: vec![tab(1, false), tab(2, false)],
    };
    let menu = items(&project, 1);
    assert_eq!(
        labels(&menu),
        [
            "New Tab to the Left",
            "New Tab to the Right",
            "Rename Tab",
            "Set Tab Color…",
            "Pin Tab",
            "Close Tab",
            "Close Other Tabs",
            "Close Tabs to the Left",
            "Close Tabs to the Right",
        ]
    );
    assert!(menu.iter().all(|item| item.tab == 1));
    assert_eq!(menu[0].action, TabAction::New(TabSide::Left));
    assert!(!menu[6].disabled && menu[7].disabled && !menu[8].disabled);
    assert!(menu[2].separated && menu[4].separated && !menu[6].separated);
    project.tabs[0].pinned = true;
    project.tabs[0].custom_title = Some("Build".into());
    project.tabs[0].color = Some(0x7a_a2_f7);
    let menu = items(&project, 1);
    assert_eq!(
        labels(&menu),
        [
            "New Tab to the Left",
            "New Tab to the Right",
            "Rename Tab",
            "Reset Title",
            "Set Tab Color…",
            "Reset Tab Color",
            "Unpin Tab",
            "Close Other Tabs",
            "Close Tabs to the Left",
            "Close Tabs to the Right",
        ]
    );
    assert!(menu[7].separated);
    assert_eq!(menu[9].action, TabAction::CloseTabs(TabCloseScope::Right));
    assert!(items(&project, 3).is_empty());
}

#[test]
fn tabs_are_found_in_their_project() {
    let mut app = model();
    app.projects = vec![
        Project {
            id: 1,
            tabs: vec![tab(5, false)],
        },
        Project {
            id: 2,
            tabs: vec![tab(6, true), tab(7, false)],
        },
    ];
    assert_eq!(app.tab(6), Some(&tab(6, true)));
    assert_eq!(app.tab(5), Some(&tab(5, false)));
    assert_eq!(app.tab(8), None);
}

#[test]
fn the_update_status_follows_the_update_state() {
    let mut app = model();
    assert_eq!(app.update_status(), None);
    app.update_checking = true;
    assert_eq!(app.update_status().as_deref(), Some("Checking for updates…"));
    app.update_ready = Some("2.1".into());
    assert_eq!(app.update_status().as_deref(), Some("Restart to Update…"));
    app.quitting = Quitting::Update;
    assert_eq!(app.update_status().as_deref(), Some("Installing update…"));
    app.quitting = Quitting::Quit;
    assert_eq!(app.update_status().as_deref(), Some("Restart to Update…"));
}

#[test]
fn incompatible_update_waits_and_can_be_cancelled_without_shutdown() {
    let mut app = model();
    app.update_ready = Some("2.0.0-beta-1234".into());
    app.update_sessions = 2;
    app.update_scheduled = true;
    assert!(app
        .update_status()
        .expect("status")
        .contains("2 terminal sessions"));
    app.update_sessions = 1;
    assert!(app.update_status().expect("status").contains("1 terminal session "));
    app.update_scheduled = false;
    assert_eq!(app.update_status().as_deref(), Some("Restart to Update…"));
    assert_eq!(app.quitting, Quitting::Idle);
}

#[test]
fn only_update_notifications_reconnect_other_clients_and_queue_new_terminals() {
    let mut app = model();
    app.update_ready = Some("2.0.0-beta-1234".into());
    app.reconnect_after_update_ended(Err("start failed".into()));
    assert!(app.update_reconnect_failed);
    assert!(app.update_status().expect("status").contains("Retry"));
    app.update_scheduled = true;
    assert!(app.update_status().expect("status").contains("Retry"));
    app.quitting = Quitting::Update;
    assert_eq!(app.update_status().as_deref(), Some("Installing update…"));
    app.quitting = Quitting::Idle;
    app.reconnect_after_update_ended(Ok(()));
    assert!(!app.update_reconnect_failed);
    app.update_ready = None;
    app.reconnect_after_update_ended(Err("again".into()));
    assert_eq!(app.update_status(), None);
}

#[test]
fn only_a_newer_known_build_is_newer() {
    assert!(newer_build(Some(4), Some(5)));
    assert!(!newer_build(Some(5), Some(5)));
    assert!(!newer_build(Some(6), Some(5)));
    assert!(!newer_build(None, Some(5)));
    assert!(!newer_build(Some(4), None));
}

#[test]
fn queued_server_changes_keep_one_per_row() {
    let mut preferences = ServerPreferences {
        busy: true,
        control_busy: false,
        row: "server".into(),
        pending: Vec::new(),
    };
    preferences.queue(Change::Field("history-budget".into(), "1".into()));
    preferences.queue(Change::ShellIntegration(true));
    preferences.queue(Change::Field("history-budget".into(), "2".into()));
    assert_eq!(
        preferences.pending,
        vec![
            Change::ShellIntegration(true),
            Change::Field("history-budget".into(), "2".into()),
        ]
    );
    let mut app = model();
    app.server_preferences = preferences;
    let mut fields = app.pending_server_fields();
    fields.sort();
    assert_eq!(fields, ["history-budget", "server", "shell-integration"]);
    app.server_preferences.row = "shell-integration".into();
    assert_eq!(app.pending_server_fields().len(), 2);
    app.server_preferences.busy = false;
    assert_eq!(app.pending_server_fields().len(), 2);
}

#[test]
fn changes_name_their_rows() {
    assert_eq!(change_id(&Change::Sidebar(true)), "sidebar");
    assert_eq!(change_id(&Change::StatusBar(true)), "status-bar");
    assert_eq!(change_id(&Change::ConfirmProcess(true)), "confirm-process");
    assert_eq!(change_id(&Change::CopyOnSelect(true)), "copy-on-select");
    assert_eq!(change_id(&Change::Directory("home".into())), "directory");
    assert_eq!(change_id(&Change::Binding("new_tab".into(), None)), "new_tab");
    assert!(is_server_change(&Change::ShellIntegration(false)));
    assert!(is_server_change(&Change::Field("default-shell".into(), String::new())));
    assert!(!is_server_change(&Change::Field("width".into(), "80".into())));
}

#[test]
fn the_quick_terminal_pane_is_attached_while_visible() {
    let mut app = model();
    app.visible_panes = vec![1, 2];
    app.quick_pane = Some(9);
    assert!(app.is_quick_terminal(9));
    assert!(!app.is_quick_terminal(1));
    assert_eq!(app.attached_panes(), [1, 2]);
    app.quick_visible = true;
    assert_eq!(app.attached_panes(), [1, 2, 9]);
}

#[test]
fn chords_that_match_the_quick_shortcut_are_refused() {
    let mut app = model();
    assert_eq!(app.validate_quick_conflict("cmd-k"), Ok(()));
    app.quick_shortcut = QuickTerminalShortcut::KeyCombo {
        key_combo: KeyCombo {
            key: "k".into(),
            modifiers: ChordModifiers {
                command: true,
                ..ChordModifiers::default()
            },
        },
        registration_identity: Some(1),
    };
    assert_eq!(
        app.validate_quick_conflict("cmd-k"),
        Err("Shortcut conflicts with Quick Terminal".to_string())
    );
    assert_eq!(app.validate_quick_conflict("cmd-shift-k"), Ok(()));
    assert_eq!(app.validate_quick_conflict("cmd-"), Ok(()));
}

#[test]
fn reusable_sessions_are_neither_shown_nor_attached() {
    let mut app = model();
    assert_eq!(app.existing_terminal_count(), 0);
    app.existing_sessions = vec![
        SessionListing {
            project: 2,
            entries: vec![SessionEntry {
                id: 1,
                attached: false,
            }],
        },
        SessionListing {
            project: 1,
            entries: vec![
                SessionEntry {
                    id: 1,
                    attached: false,
                },
                SessionEntry {
                    id: 2,
                    attached: true,
                },
                SessionEntry {
                    id: 3,
                    attached: false,
                },
            ],
        },
    ];
    app.session_references = vec![3];
    assert_eq!(app.existing_terminal_count(), 1);
}

#[test]
fn categories_and_pickers_have_stable_names() {
    assert_eq!(Category::Appearance.label(), "Appearance");
    assert_eq!(Category::Terminal.label(), "Terminal");
    assert_eq!(Category::Keyboard.label(), "Keyboard");
    assert_eq!(Category::Server.label(), "Server");
    assert_eq!(PickerKind::FontFamily.id(), "font-family");
    assert_eq!(PickerKind::Theme(false).id(), "light-theme");
    assert_eq!(PickerKind::Theme(true).id(), "dark-theme");
}

fn preferences(busy: bool) -> ServerPreferences {
    ServerPreferences {
        busy,
        control_busy: false,
        row: String::new(),
        pending: Vec::new(),
    }
}

fn server_settings() -> ServerSettings {
    ServerSettings {
        shell_integration: false,
        default_shell: Some(b"/bin/zsh".to_vec()),
        history_budget_bytes: 64 * 1024 * 1024,
    }
}

fn field(id: &str, value: &str) -> Change {
    Change::Field(id.into(), value.into())
}

#[test]
fn server_settings_edits_follow_each_field() {
    let p = preferences(false);
    let doc = Some(server_settings());
    let edited = p.edit(&doc, true, &Change::ShellIntegration(true)).unwrap();
    assert!(edited.shell_integration);
    let edited = p.edit(&doc, true, &field("default-shell", "")).unwrap();
    assert_eq!(edited.default_shell, None);
    let edited = p.edit(&doc, true, &field("default-shell", "/bin/fish")).unwrap();
    assert_eq!(edited.default_shell, Some(b"/bin/fish".to_vec()));
    let edited = p.edit(&doc, true, &field("history-budget", "3")).unwrap();
    assert_eq!(edited.history_budget_bytes, 3 * 1024 * 1024);
    assert_eq!(edited.default_shell, Some(b"/bin/zsh".to_vec()));
    assert_eq!(
        p.edit(&doc, true, &field("history-budget", "x")),
        Err("invalid digit found in string".into())
    );
    assert_eq!(
        p.edit(&doc, true, &field("history-budget", "")),
        Err("cannot parse integer from empty string".into())
    );
    assert_eq!(
        p.edit(&doc, true, &field("history-budget", "17592186044416")),
        Err("History budget is too large".into())
    );
    assert_eq!(
        p.edit(&doc, true, &field("width", "3")),
        Err("Unknown server setting".into())
    );
    assert_eq!(
        p.edit(&doc, true, &Change::Sidebar(true)),
        Err("Unknown server setting".into())
    );
    assert_eq!(
        p.edit(&None, true, &Change::ShellIntegration(true)),
        Err("Load server settings first".into())
    );
    assert_eq!(
        p.edit(&doc, false, &Change::ShellIntegration(true)),
        Err("Connect to the server before editing its settings".into())
    );
}

#[test]
fn server_changes_wait_while_busy_and_leave_first_in_first_out() {
    let mut p = preferences(true);
    assert_eq!(p.route(Change::Sidebar(true)), Some(Change::Sidebar(true)));
    assert_eq!(p.route(field("default-shell", "/bin/sh")), None);
    assert_eq!(p.route(Change::ShellIntegration(true)), None);
    assert_eq!(p.route(field("default-shell", "/bin/bash")), None);
    assert_eq!(p.pending.len(), 2);
    assert_eq!(p.next_pending(), None);
    p.finish();
    assert_eq!(p.next_pending(), Some(Change::ShellIntegration(true)));
    p.start("shell-integration".into(), true);
    assert_eq!(p.next_pending(), None);
    p.finish();
    assert_eq!(p.next_pending(), Some(field("default-shell", "/bin/bash")));
    assert_eq!(p.next_pending(), None);
    assert_eq!(p.route(field("history-budget", "1")), Some(field("history-budget", "1")));
}

#[test]
fn server_operations_guard_reads_stops_and_quitting() {
    let mut p = preferences(false);
    assert!(p.may_read(true));
    assert!(!p.may_read(false));
    assert!(p.may_control(true, false));
    assert!(!p.may_control(true, true));
    assert_eq!(p.before_quit(), Ok(()));
    p.control_busy = true;
    assert!(!p.may_read(true));
    assert_eq!(
        p.before_quit(),
        Err("Wait for the server settings operation to finish before quitting".into())
    );
    assert_eq!(p.stopped(Err("refused".into())), Some("Could not stop server: refused".into()));
    assert!(!p.control_busy);
    assert_eq!(p.stopped(Ok(())), None);
    p.start("server".into(), true);
    assert!(p.busy);
    assert_eq!(p.row, "server");
    assert!(!p.may_control(true, false));
}
