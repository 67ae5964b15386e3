//! Decisions of stopping, replacing and reconnecting to the server: which failures are worth
//! another try, when a stopped server's socket is gone, and what an update asks of the server.

use vstd::prelude::*;

use crate::install::LinkCheck;

verus! {

/// The kind of an I/O error, as far as the decisions here tell kinds apart.
#[derive(Clone, Copy, Debug, PartialEq, Eq, Structural)]
pub enum IoKind {
    WouldBlock,
    NotFound,
    ConnectionRefused,
    TimedOut,
    Other,
}

/// A failure to talk to the server: the connection dropped, a reply timed out, an I/O error
/// of some kind, or another failure.
#[derive(Clone, Copy, Debug, PartialEq, Eq, Structural)]
pub enum ClientFailure {
    Disconnected,
    Timeout,
    Io(IoKind),
    Other,
}

/// Whether a failure to reach the restarting server is worth another try: the connection
/// dropped or timed out, or the socket would block, is missing, refuses or times out.
pub open spec fn retryable(error: ClientFailure) -> bool {
    match error {
        ClientFailure::Disconnected | ClientFailure::Timeout => true,
        ClientFailure::Io(kind) => kind != IoKind::Other,
        ClientFailure::Other => false,
    }
}

/// Whether a failure to reach the restarting server is worth another try, as `retryable` says.
pub fn retryable_restart(error: &ClientFailure) -> (r: bool)
    ensures
        r == retryable(*error),
{
    match error {
        ClientFailure::Disconnected | ClientFailure::Timeout => true,
        ClientFailure::Io(kind) => match kind {
            IoKind::WouldBlock | IoKind::NotFound | IoKind::ConnectionRefused | IoKind::TimedOut => true,
            IoKind::Other => false,
        },
        ClientFailure::Other => false,
    }
}

/// What an attempt to reach the server after an update leads to.
#[derive(Clone, Copy, Debug, PartialEq, Eq, Structural)]
pub enum Reconnect {
    /// A new server answered: use its connection.
    Connected,
    /// Only the old server answered until the deadline.
    TimedOut,
    /// Give up with the attempt's failure.
    Failed,
    /// Wait a moment and try again.
    Retry,
}

/// An attempt to reach the server after an update, which reached the server instance given,
/// or failed; `previous` is the instance from before the update and `past_deadline` tells
/// whether the time for the restart has run out: a new instance is the restarted server; the
/// old one is waited for until the deadline; a failure is tried again only before the
/// deadline, and only where it is retryable.
pub open spec fn reconnect_step(result: Result<u64, ClientFailure>, previous: u64, past_deadline: bool) -> Reconnect {
    match result {
        Ok(instance) => if instance != previous {
            Reconnect::Connected
        } else if past_deadline {
            Reconnect::TimedOut
        } else {
            Reconnect::Retry
        },
        Err(e) => if !past_deadline && retryable(e) {
            Reconnect::Retry
        } else {
            Reconnect::Failed
        },
    }
}

/// An attempt to reach the server after an update, as `reconnect_step` says.
pub fn reconnect(result: Result<u64, ClientFailure>, previous: u64, past_deadline: bool) -> (r: Reconnect)
    ensures
        r == reconnect_step(result, previous, past_deadline),
{
    match result {
        Ok(instance) => if instance != previous {
            Reconnect::Connected
        } else if past_deadline {
            Reconnect::TimedOut
        } else {
            Reconnect::Retry
        },
        Err(e) => if !past_deadline && retryable_restart(&e) {
            Reconnect::Retry
        } else {
            Reconnect::Failed
        },
    }
}

/// What a look at the socket of a server being stopped leads to.
#[derive(Clone, Copy, Debug, PartialEq, Eq, Structural)]
pub enum StopWait {
    /// The server is gone.
    Stopped,
    /// The look failed: give up with its error.
    Failed,
    /// The server still holds its socket after the deadline.
    TimedOut,
    /// Wait a moment and look again.
    Wait,
}

/// A look at the socket of a server being stopped, which held the socket `identity` (device
/// and inode) when asked to stop: the server is gone once the socket is missing or another
/// file; a failed look ends the wait; otherwise the wait ends at the deadline.
pub open spec fn stop_wait_step(probe: LinkCheck, identity: (u64, u64), past_deadline: bool) -> StopWait {
    match probe {
        LinkCheck::Missing => StopWait::Stopped,
        LinkCheck::Failed => StopWait::Failed,
        LinkCheck::Present { device, inode } => if device != identity.0 || inode != identity.1 {
            StopWait::Stopped
        } else if past_deadline {
            StopWait::TimedOut
        } else {
            StopWait::Wait
        },
    }
}

/// A look at the socket of a server being stopped, as `stop_wait_step` says.
pub fn stop_wait(probe: LinkCheck, identity: (u64, u64), past_deadline: bool) -> (r: StopWait)
    ensures
        r == stop_wait_step(probe, identity, past_deadline),
{
    match probe {
        LinkCheck::Missing => StopWait::Stopped,
        LinkCheck::Failed => StopWait::Failed,
        LinkCheck::Present { device, inode } => if device != identity.0 || inode != identity.1 {
            StopWait::Stopped
        } else if past_deadline {
            StopWait::TimedOut
        } else {
            StopWait::Wait
        },
    }
}

/// The message of a server that does not stop in time.
pub fn stop_timeout_message() -> (r: &'static str)
    ensures
        r@ == "Server has not finished stopping. Use Connect after shutdown completes."@,
{
    "Server has not finished stopping. Use Connect after shutdown completes."
}

/// How an update treats the running server: keep it, stop it once idle, or end its sessions.
#[derive(Clone, Copy, Debug, PartialEq, Eq, Structural)]
pub enum UpdateMode {
    Preserve,
    WhenIdle,
    EndSessions,
}

/// What the update does with the server once it holds the update lock.
#[derive(Clone, Copy, Debug, PartialEq, Eq, Structural)]
pub enum ServerPlan {
    /// Install while the server keeps running.
    Keep,
    /// Stop the server if it is idle; install only if it stopped.
    StopIfIdle,
    /// Stop the server, ending its sessions, then install.
    Stop,
}

/// What an update does with the server, or why it must not go on: the server must still be
/// the one the update was reviewed against, over this connection and a fresh one; a server
/// kept running must be compatible with the update.
pub open spec fn server_plan_step(same_server: bool, mode: UpdateMode, compatible: bool) -> Result<ServerPlan, Seq<char>> {
    if !same_server {
        Err("The server changed. Review the update again."@)
    } else {
        match mode {
            UpdateMode::Preserve => if compatible {
                Ok(ServerPlan::Keep)
            } else {
                Err("This update requires a server restart"@)
            },
            UpdateMode::WhenIdle => Ok(ServerPlan::StopIfIdle),
            UpdateMode::EndSessions => Ok(ServerPlan::Stop),
        }
    }
}

/// What an update does with the server, as `server_plan_step` says.
pub fn server_plan(same_server: bool, mode: UpdateMode, compatible: bool) -> (r: Result<ServerPlan, String>)
    ensures
        match server_plan_step(same_server, mode, compatible) {
            Ok(p) => r == Ok::<ServerPlan, String>(p),
            Err(m) => r matches Err(e) && e@ == m,
        },
{
    if !same_server {
        return Err(String::from_str("The server changed. Review the update again."));
    }
    match mode {
        UpdateMode::Preserve => if compatible {
            Ok(ServerPlan::Keep)
        } else {
            Err(String::from_str("This update requires a server restart"))
        },
        UpdateMode::WhenIdle => Ok(ServerPlan::StopIfIdle),
        UpdateMode::EndSessions => Ok(ServerPlan::Stop),
    }
}

/// Whether a newer app replaces the running server at startup: where asked to, the server has
/// no sessions, and the app's build is newer than the server's.
pub fn replaces_server(replace: bool, sessions: usize, newer: bool) -> (r: bool)
    ensures
        r == (replace && sessions == 0 && newer),
{
    replace && sessions == 0 && newer
}

/// An update goes on only with the server it was reviewed against; it ends the server's
/// sessions only where asked to, and keeps the server running only where it is compatible;
/// and past the deadline a restart is no longer waited for.
pub proof fn lemma_updates_stop_servers_only_as_asked(
    same_server: bool,
    mode: UpdateMode,
    compatible: bool,
    result: Result<u64, ClientFailure>,
    previous: u64,
)
    ensures
        server_plan_step(same_server, mode, compatible) == Ok::<ServerPlan, Seq<char>>(ServerPlan::Stop)
            ==> same_server && mode == UpdateMode::EndSessions,
        server_plan_step(same_server, mode, compatible) == Ok::<ServerPlan, Seq<char>>(ServerPlan::Keep)
            ==> same_server && compatible,
        server_plan_step(same_server, mode, compatible) is Ok ==> same_server,
        reconnect_step(result, previous, true) != Reconnect::Retry,
{
}

} // verus!
