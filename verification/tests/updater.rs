use muxy_app::model::Quitting;
use muxy_app::updater::{
    check_build, check_info_value, team_identifier, InstallEvent, InstallStep, Installation,
    UpdateAction, Updater,
};

fn updater() -> Updater {
    Updater {
        installed: true,
        unavailable: None,
        checking: false,
        manual: false,
        ready: None,
    }
}

#[test]
fn native_verification_checks_literal_requirement_and_nested_code() {
    let installation = Installation {
        bundle: "/Applications/Muxy Beta.app".into(),
        team: "ABCDE12345".into(),
    };
    assert_eq!(
        installation.verify_signature(false),
        "anchor apple generic and certificate leaf[subject.OU] = \"ABCDE12345\""
    );
    assert_eq!(
        installation.verify_signature(true),
        "anchor apple generic and certificate leaf[subject.OU] = \"ABCDE12345\" and identifier \"com.muxy-beta.app\""
    );
}

#[test]
fn the_signing_team_comes_from_the_first_team_line() {
    assert_eq!(
        team_identifier("Executable=/x\r\nTeamIdentifier=ABCDE12345\r\nSealed=1"),
        Some("ABCDE12345".to_string())
    );
    assert_eq!(team_identifier("TeamIdentifier=abcde12345\n"), None);
    assert_eq!(team_identifier("TeamIdentifier=not set\nTeamIdentifier=ABCDE12345"), None);
    assert_eq!(team_identifier("TeamIdentifier=ABCDE12345\r"), None);
    assert_eq!(team_identifier("Authority=Apple"), None);
}

#[test]
fn a_manual_check_is_answered_when_it_ends() {
    let mut updates = updater();
    assert_eq!(updates.check_for_updates(Quitting::Idle, false), UpdateAction::Prepare);
    assert!(updates.checking);
    assert_eq!(updates.check_for_updates(Quitting::Idle, true), UpdateAction::Nothing);
    assert_eq!(
        updates.receive_prepared(Ok(None)),
        UpdateAction::Message("You’re running the latest Muxy 2.x beta.".into())
    );
    assert!(!updates.checking && !updates.manual);
    assert_eq!(updates.check_for_updates(Quitting::Idle, true), UpdateAction::Prepare);
    assert_eq!(updates.receive_prepared(Ok(Some("2.1".into()))), UpdateAction::Confirm);
    assert_eq!(updates.ready, Some("2.1".to_string()));
    assert_eq!(updates.check_for_updates(Quitting::Idle, true), UpdateAction::Confirm);
    assert_eq!(updates.check_for_updates(Quitting::Idle, false), UpdateAction::Nothing);
    assert_eq!(updates.check_for_updates(Quitting::Update, true), UpdateAction::Nothing);
}

#[test]
fn failed_checks_speak_only_to_whoever_asked() {
    let mut updates = updater();
    updates.check_for_updates(Quitting::Idle, false);
    assert_eq!(updates.receive_prepared(Err("offline".into())), UpdateAction::Nothing);
    updates.check_for_updates(Quitting::Idle, true);
    assert_eq!(
        updates.receive_prepared(Err("offline".into())),
        UpdateAction::Message("Could not check for updates: offline".into())
    );
}

#[test]
fn without_an_installation_a_request_is_told_why() {
    let mut updates = Updater {
        installed: false,
        ..updater()
    };
    assert_eq!(
        updates.check_for_updates(Quitting::Idle, true),
        UpdateAction::Message("The updater is starting. Try again shortly.".into())
    );
    updates.unavailable = Some("Automatic updates are unavailable".into());
    assert_eq!(
        updates.check_for_updates(Quitting::Idle, true),
        UpdateAction::Message("Automatic updates are unavailable".into())
    );
    assert_eq!(updates.check_for_updates(Quitting::Idle, false), UpdateAction::Nothing);
    assert!(!updates.manual);
}

#[test]
fn updates_start_only_when_connected_with_settings_at_rest() {
    let mut u = updater();
    let mut quitting = Quitting::Idle;
    let begin = |settings_busy, connected| InstallEvent::Begin {
        settings_busy,
        connected,
    };
    assert_eq!(u.install_event(&mut quitting, begin(false, true)), InstallStep::Nothing);
    u.ready = Some("2.0.0-beta-7".into());
    assert_eq!(
        u.install_event(&mut quitting, begin(true, true)),
        InstallStep::Fail("Wait for the server settings operation to finish before quitting".into())
    );
    assert_eq!(
        u.install_event(&mut quitting, begin(false, false)),
        InstallStep::Fail(
            "Connect to the server before installing the update so running sessions can be stopped safely"
                .into()
        )
    );
    assert_eq!(quitting, Quitting::Idle);
    assert_eq!(u.install_event(&mut quitting, begin(false, true)), InstallStep::Flush);
    assert_eq!(quitting, Quitting::Update);
    assert_eq!(u.install_event(&mut quitting, begin(false, true)), InstallStep::Nothing);
}

#[test]
fn a_prepared_update_is_installed_and_the_app_quits() {
    let mut u = updater();
    u.ready = Some("2.0.0-beta-7".into());
    let mut quitting = Quitting::Update;
    assert_eq!(
        u.install_event(&mut quitting, InstallEvent::Flushed { pending: true }),
        InstallStep::Flush
    );
    assert_eq!(
        u.install_event(&mut quitting, InstallEvent::Flushed { pending: false }),
        InstallStep::Prepare
    );
    assert_eq!(
        u.install_event(&mut quitting, InstallEvent::Prepared(Ok(()))),
        InstallStep::Disconnect(Some("2.0.0-beta-7".into()))
    );
    assert_eq!(u.ready, None);
    assert_eq!(quitting, Quitting::Update);
    assert_eq!(
        u.install_event(&mut quitting, InstallEvent::Installed(Ok(()))),
        InstallStep::Quit
    );
}

#[test]
fn failures_on_the_way_to_an_update_leave_the_app_running() {
    let mut u = updater();
    u.ready = Some("2.0.0-beta-7".into());
    let mut quitting = Quitting::Update;
    assert_eq!(
        u.install_event(&mut quitting, InstallEvent::Prepared(Err("busy".into()))),
        InstallStep::Fail("Could not prepare the update: busy".into())
    );
    assert_eq!(quitting, Quitting::Idle);
    assert_eq!(u.ready, Some("2.0.0-beta-7".into()));
    assert_eq!(
        u.install_event(&mut quitting, InstallEvent::Prepared(Ok(()))),
        InstallStep::Nothing
    );
    quitting = Quitting::Update;
    assert_eq!(
        u.install_event(&mut quitting, InstallEvent::SendFailed),
        InstallStep::Nothing
    );
    assert_eq!(quitting, Quitting::Idle);
    quitting = Quitting::Update;
    assert_eq!(
        u.install_event(&mut quitting, InstallEvent::Installed(Err("no space".into()))),
        InstallStep::Fail("Could not install the beta: no space".into())
    );
    assert_eq!(quitting, Quitting::Idle);
    u.ready = None;
    quitting = Quitting::Update;
    assert_eq!(
        u.install_event(&mut quitting, InstallEvent::Prepared(Ok(()))),
        InstallStep::Disconnect(None)
    );
    assert_eq!(quitting, Quitting::Idle);
}

#[test]
fn info_values_are_trimmed_and_compared() {
    assert_eq!(
        check_info_value("CFBundleIdentifier", " com.muxy-beta.app\n", "com.muxy-beta.app"),
        Ok(())
    );
    assert_eq!(
        check_info_value("CFBundleExecutable", "muxy", "muxy-app"),
        Err("The signed beta has an unexpected CFBundleExecutable".into())
    );
    assert_eq!(check_build("1234\n", Some(1234)), Ok(()));
    assert_eq!(check_build("+1234", Some(1234)), Ok(()));
    assert_eq!(
        check_build("1235", Some(1234)),
        Err("The signed beta build number does not match the update feed".into())
    );
    assert_eq!(
        check_build("12a", Some(12)),
        Err("The signed beta build number does not match the update feed".into())
    );
    assert_eq!(check_build("", None), Ok(()));
    assert!(check_build("7", None).is_err());
}
