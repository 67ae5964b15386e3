use muxy_app::install::LinkCheck;
use muxy_app::server_control::{
    reconnect, replaces_server, retryable_restart, server_plan, stop_timeout_message, stop_wait,
    ClientFailure, IoKind, Reconnect, ServerPlan, StopWait, UpdateMode,
};

#[test]
fn restarts_retry_only_transient_failures() {
    for error in [
        ClientFailure::Disconnected,
        ClientFailure::Timeout,
        ClientFailure::Io(IoKind::WouldBlock),
        ClientFailure::Io(IoKind::NotFound),
        ClientFailure::Io(IoKind::ConnectionRefused),
        ClientFailure::Io(IoKind::TimedOut),
    ] {
        assert!(retryable_restart(&error));
        assert_eq!(reconnect(Err(error), 1, false), Reconnect::Retry);
        assert_eq!(reconnect(Err(error), 1, true), Reconnect::Failed);
    }
    for error in [ClientFailure::Io(IoKind::Other), ClientFailure::Other] {
        assert!(!retryable_restart(&error));
        assert_eq!(reconnect(Err(error), 1, false), Reconnect::Failed);
    }
}

#[test]
fn reconnecting_waits_for_a_new_server_instance() {
    assert_eq!(reconnect(Ok(2), 1, false), Reconnect::Connected);
    assert_eq!(reconnect(Ok(2), 1, true), Reconnect::Connected);
    assert_eq!(reconnect(Ok(1), 1, false), Reconnect::Retry);
    assert_eq!(reconnect(Ok(1), 1, true), Reconnect::TimedOut);
}

#[test]
fn a_stopped_server_leaves_or_replaces_its_socket() {
    let identity = (5, 9);
    assert_eq!(stop_wait(LinkCheck::Missing, identity, false), StopWait::Stopped);
    assert_eq!(
        stop_wait(LinkCheck::Present { device: 5, inode: 10 }, identity, false),
        StopWait::Stopped
    );
    assert_eq!(
        stop_wait(LinkCheck::Present { device: 5, inode: 9 }, identity, false),
        StopWait::Wait
    );
    assert_eq!(
        stop_wait(LinkCheck::Present { device: 5, inode: 9 }, identity, true),
        StopWait::TimedOut
    );
    assert_eq!(stop_wait(LinkCheck::Failed, identity, false), StopWait::Failed);
    assert_eq!(
        stop_timeout_message(),
        "Server has not finished stopping. Use Connect after shutdown completes."
    );
}

#[test]
fn updates_treat_the_server_as_their_mode_says() {
    assert_eq!(
        server_plan(false, UpdateMode::EndSessions, true),
        Err("The server changed. Review the update again.".into())
    );
    assert_eq!(server_plan(true, UpdateMode::Preserve, true), Ok(ServerPlan::Keep));
    assert_eq!(
        server_plan(true, UpdateMode::Preserve, false),
        Err("This update requires a server restart".into())
    );
    assert_eq!(server_plan(true, UpdateMode::WhenIdle, false), Ok(ServerPlan::StopIfIdle));
    assert_eq!(server_plan(true, UpdateMode::EndSessions, false), Ok(ServerPlan::Stop));
    assert!(replaces_server(true, 0, true));
    assert!(!replaces_server(true, 1, true));
    assert!(!replaces_server(false, 0, true));
    assert!(!replaces_server(true, 0, false));
}
