//! The installed app's signing identity, and the code requirements its updates
//! must meet.

use vstd::prelude::*;
use vstd::string::*;

use crate::scan::{find_char, is_char, lemma_position, parse_uint, parse_uint_in, position, trim, trim_bounds};
use crate::model::Quitting;
use crate::text::{chars_of, str_eq};

verus! {

broadcast use vstd::string::group_string_axioms;

/// An installed app: its bundle and the team that signed it.
#[derive(Clone, Debug, PartialEq, Eq)]
pub struct Installation {
    pub bundle: String,
    pub team: String,
}

/// The code requirement of a signature by `team`; an app must also carry the app's
/// identifier.
pub open spec fn requirement(team: Seq<char>, app: bool) -> Seq<char> {
    "anchor apple generic and certificate leaf[subject.OU] = \""@ + team + "\""@ + if app {
        " and identifier \"com.muxy-beta.app\""@
    } else {
        Seq::empty()
    }
}

impl Installation {
    /// The verification of a signature, as far as it is decided here: the code requirement
    /// that `codesign --verify -R` checks a signed update against, as `requirement` says
    /// (signed by the installed app's team, and for an app, with the app's identifier). The
    /// run of `codesign` itself is input and output, and takes this requirement.
    pub fn verify_signature(&self, app: bool) -> (r: String)
        ensures
            r@ == requirement(self.team@, app),
    {
        let mut requirement = String::from_str("anchor apple generic and certificate leaf[subject.OU] = \"");
        requirement.append(self.team.as_str());
        requirement.append("\"");
        if app {
            requirement.append(" and identifier \"com.muxy-beta.app\"");
        } else {
            assert(requirement@ + Seq::<char>::empty() =~= requirement@);
        }
        requirement
    }
}

/// The number `s` writes, as std reads a `u64`, if it writes one.
pub open spec fn read_u64(s: Seq<char>) -> Option<u64> {
    match parse_uint(s, 10, u64::MAX as nat) {
        Ok(n) => Some(n as u64),
        Err(_) => None,
    }
}

/// Checks a value that an update's `Info.plist` holds under `key`: trimmed, it must be the
/// expected one.
pub fn check_info_value(key: &str, actual: &str, expected: &str) -> (r: Result<(), String>)
    ensures
        r is Ok <==> trim(actual@) == expected@,
        r matches Err(m) ==> m@ == "The signed beta has an unexpected "@ + key@,
{
    let cs = chars_of(actual);
    let (a, b) = trim_bounds(&cs, 0, cs.len());
    assert(cs@.subrange(0, cs@.len() as int) =~= actual@);
    if str_eq(actual.substring_char(a, b), expected) {
        Ok(())
    } else {
        let mut message = String::from_str("The signed beta has an unexpected ");
        message.append(key);
        Err(message)
    }
}

/// Checks the build count of an update's `Info.plist` against the build number of the
/// version the update feed announced: the trimmed count, read as a `u64`, must be that number,
/// where either is missing both must be.
pub fn check_build(count: &str, build: Option<u64>) -> (r: Result<(), String>)
    ensures
        r is Ok <==> read_u64(trim(count@)) == build,
        r matches Err(m) ==> m@ == "The signed beta build number does not match the update feed"@,
{
    let cs = chars_of(count);
    let (a, b) = trim_bounds(&cs, 0, cs.len());
    assert(cs@.subrange(0, cs@.len() as int) =~= count@);
    let read = match parse_uint_in(&cs, a, b, 10, u64::MAX) {
        Ok(n) => Some(n),
        Err(_) => None,
    };
    if read == build {
        Ok(())
    } else {
        Err(String::from_str("The signed beta build number does not match the update feed"))
    }
}

/// `line` without the carriage return that ends it, if any.
pub open spec fn strip_cr(line: Seq<char>) -> Seq<char> {
    if line.len() > 0 && line.last() == '\r' {
        line.drop_last()
    } else {
        line
    }
}

/// The prefix of the line that names the signing team.
pub open spec fn team_prefix() -> Seq<char> {
    "TeamIdentifier="@
}

/// What follows `TeamIdentifier=` on the first line of `s` that starts with it, as
/// `str::lines` splits `s`: at newlines, a line that ends with one losing a carriage return
/// before it.
pub open spec fn team_line(s: Seq<char>) -> Option<Seq<char>>
    decreases s.len(),
{
    let i = position(s, is_char('\n'));
    let line = if i < 0 {
        s
    } else {
        strip_cr(s.take(i))
    };
    if line.len() >= 15 && line.take(15) == team_prefix() {
        Some(line.skip(15))
    } else if i < 0 {
        None
    } else {
        proof {
            lemma_position(s, is_char('\n'));
        }
        team_line(s.skip(i + 1))
    }
}

/// A team identifier: ten uppercase ASCII letters or digits.
pub open spec fn valid_team(t: Seq<char>) -> bool {
    t.len() == 10 && forall|i: int|
        0 <= i < 10 ==> ('A' <= #[trigger] t[i] && t[i] <= 'Z') || ('0' <= t[i] && t[i] <= '9')
}

/// Whether the range `lo..hi` is a team identifier.
fn team_in(cs: &Vec<char>, lo: usize, hi: usize) -> (r: bool)
    requires
        lo <= hi <= cs@.len(),
    ensures
        r == valid_team(cs@.subrange(lo as int, hi as int)),
{
    let ghost t = cs@.subrange(lo as int, hi as int);
    if hi - lo != 10 {
        return false;
    }
    let mut i = lo;
    while i < hi
        invariant
            lo <= i <= hi <= cs@.len(),
            hi - lo == 10,
            t == cs@.subrange(lo as int, hi as int),
            forall|j: int|
                0 <= j < i - lo ==> ('A' <= #[trigger] t[j] && t[j] <= 'Z') || ('0' <= t[j] && t[j]
                    <= '9'),
        decreases hi - i,
    {
        let c = cs[i];
        if !(('A' <= c && c <= 'Z') || ('0' <= c && c <= '9')) {
            assert(t[i - lo] == c);
            return false;
        }
        i = i + 1;
    }
    true
}

/// The signing team that the first `TeamIdentifier=` line of a signature's details names,
/// if it is a valid team identifier.
pub fn team_identifier(details: &str) -> (r: Option<String>)
    ensures
        match team_line(details@) {
            Some(t) if valid_team(t) => r matches Some(s) && s@ == t,
            _ => r is None,
        },
{
    let cs = chars_of(details);
    let n = cs.len();
    assert(cs@.subrange(0, n as int) =~= details@);
    proof {
        reveal_strlit("TeamIdentifier=");
    }
    let mut start: usize = 0;
    loop
        invariant
            start <= n == cs@.len(),
            cs@ == details@,
            team_line(details@) == team_line(cs@.subrange(start as int, n as int)),
        decreases n - start,
    {
        let ghost u = cs@.subrange(start as int, n as int);
        let next = find_char(&cs, start, n, '\n');
        let mut end = match next {
            Some(k) => k,
            None => n,
        };
        proof {
            lemma_position(u, is_char('\n'));
            if next is Some {
                assert(u.take(end - start) =~= cs@.subrange(start as int, end as int));
                assert(u.skip(end - start + 1) =~= cs@.subrange(end + 1, n as int));
            } else {
                assert(u =~= cs@.subrange(start as int, end as int));
            }
        }
        if next.is_some() && end > start && cs[end - 1] == '\r' {
            assert(cs@.subrange(start as int, end as int).drop_last() =~= cs@.subrange(
                start as int,
                end - 1,
            ));
            end = end - 1;
        }
        let ghost line = cs@.subrange(start as int, end as int);
        if end - start >= 15 {
            let head = details.substring_char(start, start + 15);
            assert(head@ =~= line.take(15));
            if str_eq(head, "TeamIdentifier=") {
                assert(line.skip(15) =~= cs@.subrange(start + 15, end as int));
                if !team_in(&cs, start + 15, end) {
                    return None;
                }
                return Some(details.substring_char(start + 15, end).to_owned());
            }
        }
        match next {
            None => {
                return None;
            },
            Some(k) => {
                start = k + 1;
            },
        }
    }
}

/// The update checks: whether the installation was detected, why updates are unavailable,
/// whether a check runs and whether someone asked for it, and the version of the update
/// that is ready to install.
#[derive(Clone, Debug, PartialEq, Eq)]
pub struct Updater {
    pub installed: bool,
    pub unavailable: Option<String>,
    pub checking: bool,
    pub manual: bool,
    pub ready: Option<String>,
}

/// What the app does after an update decision.
#[derive(Clone, Debug, PartialEq, Eq)]
pub enum UpdateAction {
    Nothing,
    Confirm,
    Message(String),
    Prepare,
}

/// An update action with text as characters.
pub enum ActionView {
    Nothing,
    Confirm,
    Message(Seq<char>),
    Prepare,
}

/// The view of an action.
pub open spec fn action_view(a: UpdateAction) -> ActionView {
    match a {
        UpdateAction::Nothing => ActionView::Nothing,
        UpdateAction::Confirm => ActionView::Confirm,
        UpdateAction::Message(m) => ActionView::Message(m@),
        UpdateAction::Prepare => ActionView::Prepare,
    }
}

/// The fields of the update checks, with text as characters.
pub struct UpdaterView {
    pub installed: bool,
    pub unavailable: Option<Seq<char>>,
    pub checking: bool,
    pub manual: bool,
    pub ready: Option<Seq<char>>,
}

/// Optional text as characters.
pub open spec fn text_view(t: Option<String>) -> Option<Seq<char>> {
    match t {
        Some(s) => Some(s@),
        None => None,
    }
}

impl View for Updater {
    type V = UpdaterView;

    open spec fn view(&self) -> UpdaterView {
        UpdaterView {
            installed: self.installed,
            unavailable: text_view(self.unavailable),
            checking: self.checking,
            manual: self.manual,
            ready: text_view(self.ready),
        }
    }
}

/// A request to check for updates, `manual` where someone asked: nothing while quitting; an
/// update that is ready is confirmed on request; a request during a check is remembered for
/// its end; without an installation a request is told why; otherwise a check starts.
pub open spec fn check_step(u: UpdaterView, quitting: Quitting, manual: bool) -> (UpdaterView, ActionView) {
    if quitting != Quitting::Idle {
        (u, ActionView::Nothing)
    } else if u.ready is Some {
        (u, if manual {
            ActionView::Confirm
        } else {
            ActionView::Nothing
        })
    } else if u.checking {
        (UpdaterView { manual: u.manual || manual, ..u }, ActionView::Nothing)
    } else if !u.installed {
        (UpdaterView { manual: false, ..u }, if manual {
            ActionView::Message(
                match u.unavailable {
                    Some(m) => m,
                    None => "The updater is starting. Try again shortly."@,
                },
            )
        } else {
            ActionView::Nothing
        })
    } else {
        (UpdaterView { checking: true, manual: u.manual || manual, ..u }, ActionView::Prepare)
    }
}

/// The end of a check, with the version of the update it prepared, if any, or its error:
/// the check stops, a prepared update is kept, and whoever asked is answered.
pub open spec fn prepared_step(u: UpdaterView, result: Result<Option<Seq<char>>, Seq<char>>) -> (
    UpdaterView,
    ActionView,
) {
    match result {
        Ok(update) => (
            UpdaterView { checking: false, manual: false, ready: update, ..u },
            if !u.manual {
                ActionView::Nothing
            } else if update is Some {
                ActionView::Confirm
            } else {
                ActionView::Message("You’re running the latest Muxy 2.x beta."@)
            },
        ),
        Err(e) => (
            UpdaterView { checking: false, manual: false, ..u },
            if u.manual {
                ActionView::Message("Could not check for updates: "@ + e)
            } else {
                ActionView::Nothing
            },
        ),
    }
}

/// The view of a check's result.
pub open spec fn prepared_view(r: Result<Option<String>, String>) -> Result<Option<Seq<char>>, Seq<char>> {
    match r {
        Ok(v) => Ok(text_view(v)),
        Err(e) => Err(e@),
    }
}

impl Updater {
    /// Handles a request to check for updates, as `check_step` says.
    pub fn check_for_updates(&mut self, quitting: Quitting, manual: bool) -> (r: UpdateAction)
        ensures
            final(self)@ == check_step(old(self)@, quitting, manual).0,
            action_view(r) == check_step(old(self)@, quitting, manual).1,
    {
        if quitting != Quitting::Idle {
            return UpdateAction::Nothing;
        }
        if self.ready.is_some() {
            return if manual {
                UpdateAction::Confirm
            } else {
                UpdateAction::Nothing
            };
        }
        if self.checking {
            self.manual = self.manual || manual;
            return UpdateAction::Nothing;
        }
        if !self.installed {
            self.manual = false;
            if !manual {
                return UpdateAction::Nothing;
            }
            return UpdateAction::Message(
                match &self.unavailable {
                    Some(m) => m.clone(),
                    None => String::from_str("The updater is starting. Try again shortly."),
                },
            );
        }
        self.manual = self.manual || manual;
        self.checking = true;
        UpdateAction::Prepare
    }

    /// Handles the end of a check, as `prepared_step` says.
    pub fn receive_prepared(&mut self, result: Result<Option<String>, String>) -> (r: UpdateAction)
        ensures
            final(self)@ == prepared_step(old(self)@, prepared_view(result)).0,
            action_view(r) == prepared_step(old(self)@, prepared_view(result)).1,
    {
        self.checking = false;
        let manual = self.manual;
        self.manual = false;
        match result {
            Ok(update) => {
                let found = update.is_some();
                self.ready = update;
                if !manual {
                    UpdateAction::Nothing
                } else if found {
                    UpdateAction::Confirm
                } else {
                    UpdateAction::Message(String::from_str("You’re running the latest Muxy 2.x beta."))
                }
            },
            Err(error) => {
                if manual {
                    let mut message = String::from_str("Could not check for updates: ");
                    message.append(error.as_str());
                    UpdateAction::Message(message)
                } else {
                    UpdateAction::Nothing
                }
            },
        }
    }
}

/// A request for an update check while the app runs is answered: at once, or, where a check
/// starts or is under way, when that check ends, whatever its outcome.
pub proof fn lemma_manual_checks_are_answered(u: UpdaterView, result: Result<Option<Seq<char>>, Seq<char>>)
    ensures
        ({
            let (next, action) = check_step(u, Quitting::Idle, true);
            action !is Nothing || (next.checking && next.manual && prepared_step(next, result).1
                !is Nothing)
        }),
{
}

/// An event on the way to installing a prepared update.
#[derive(Debug, PartialEq, Eq)]
pub enum InstallEvent {
    /// Someone confirmed the update; whether the server's settings are still being read,
    /// written or stopped, and whether the app is connected to the server.
    Begin { settings_busy: bool, connected: bool },
    /// The server flushed its sessions; whether sessions are still created or discarded.
    Flushed { pending: bool },
    /// A request to the server could not be sent.
    SendFailed,
    /// The server prepared for the update and handed over its lock, or failed to.
    Prepared(Result<(), String>),
    /// The update was installed, or could not be.
    Installed(Result<(), String>),
}

/// What the app does next on the way to installing an update.
#[derive(Clone, Debug, PartialEq, Eq)]
pub enum InstallStep {
    Nothing,
    /// Report this failure.
    Fail(String),
    /// Ask the server to flush its sessions.
    Flush,
    /// Save the session and ask the server to prepare for the update.
    Prepare,
    /// Disconnect from the server, then install the update of this version, if one is kept.
    Disconnect(Option<String>),
    /// Quit, keeping the previous bundle until the app exits.
    Quit,
}

/// An install step with text as characters.
pub enum InstallStepView {
    Nothing,
    Fail(Seq<char>),
    Flush,
    Prepare,
    Disconnect(Option<Seq<char>>),
    Quit,
}

/// The view of an install step.
pub open spec fn install_step_view(s: InstallStep) -> InstallStepView {
    match s {
        InstallStep::Nothing => InstallStepView::Nothing,
        InstallStep::Fail(m) => InstallStepView::Fail(m@),
        InstallStep::Flush => InstallStepView::Flush,
        InstallStep::Prepare => InstallStepView::Prepare,
        InstallStep::Disconnect(v) => InstallStepView::Disconnect(text_view(v)),
        InstallStep::Quit => InstallStepView::Quit,
    }
}

/// An install event with text as characters.
pub enum InstallEventView {
    Begin { settings_busy: bool, connected: bool },
    Flushed { pending: bool },
    SendFailed,
    Prepared(Result<(), Seq<char>>),
    Installed(Result<(), Seq<char>>),
}

/// A result with its error as characters.
pub open spec fn outcome_view(r: Result<(), String>) -> Result<(), Seq<char>> {
    match r {
        Ok(()) => Ok(()),
        Err(e) => Err(e@),
    }
}

/// The view of an install event.
pub open spec fn install_event_view(e: InstallEvent) -> InstallEventView {
    match e {
        InstallEvent::Begin { settings_busy, connected } => InstallEventView::Begin {
            settings_busy,
            connected,
        },
        InstallEvent::Flushed { pending } => InstallEventView::Flushed { pending },
        InstallEvent::SendFailed => InstallEventView::SendFailed,
        InstallEvent::Prepared(r) => InstallEventView::Prepared(outcome_view(r)),
        InstallEvent::Installed(r) => InstallEventView::Installed(outcome_view(r)),
    }
}

/// The next state of the update, what is quitting and the next step, after an event:
/// an update starts only while the app runs, with an update ready, the server's settings at
/// rest and the server connected; the server then flushes until no session is pending, and
/// prepares; a prepared update is taken out and installed, and the app quits once it is.
/// A failure, or a request that cannot be sent, leaves the app running.
pub open spec fn install_step(u: UpdaterView, q: Quitting, e: InstallEventView) -> (
    UpdaterView,
    Quitting,
    InstallStepView,
) {
    match e {
        InstallEventView::Begin { settings_busy, connected } => if q != Quitting::Idle
            || u.ready is None {
            (u, q, InstallStepView::Nothing)
        } else if settings_busy {
            (u, q, InstallStepView::Fail("Wait for the server settings operation to finish before quitting"@))
        } else if !connected {
            (
                u,
                q,
                InstallStepView::Fail(
                    "Connect to the server before installing the update so running sessions can be stopped safely"@,
                ),
            )
        } else {
            (u, Quitting::Update, InstallStepView::Flush)
        },
        InstallEventView::Flushed { pending } => (u, q, if pending {
            InstallStepView::Flush
        } else {
            InstallStepView::Prepare
        }),
        InstallEventView::SendFailed => (u, Quitting::Idle, InstallStepView::Nothing),
        InstallEventView::Prepared(r) => if q != Quitting::Update {
            (u, q, InstallStepView::Nothing)
        } else {
            match r {
                Err(m) => (
                    u,
                    Quitting::Idle,
                    InstallStepView::Fail("Could not prepare the update: "@ + m),
                ),
                Ok(()) => (
                    UpdaterView { ready: None, ..u },
                    if u.ready is None {
                        Quitting::Idle
                    } else {
                        q
                    },
                    InstallStepView::Disconnect(u.ready),
                ),
            }
        },
        InstallEventView::Installed(r) => match r {
            Ok(()) => (u, q, InstallStepView::Quit),
            Err(m) => (u, Quitting::Idle, InstallStepView::Fail("Could not install the beta: "@ + m)),
        },
    }
}

impl Updater {
    /// Takes an event on the way to installing the update, as `install_step` says.
    pub fn install_event(&mut self, quitting: &mut Quitting, event: InstallEvent) -> (r: InstallStep)
        ensures
            (final(self)@, *final(quitting), install_step_view(r)) == install_step(
                old(self)@,
                *old(quitting),
                install_event_view(event),
            ),
    {
        match event {
            InstallEvent::Begin { settings_busy, connected } => {
                if *quitting != Quitting::Idle || self.ready.is_none() {
                    InstallStep::Nothing
                } else if settings_busy {
                    InstallStep::Fail(String::from_str("Wait for the server settings operation to finish before quitting"))
                } else if !connected {
                    InstallStep::Fail(
                        String::from_str("Connect to the server before installing the update so running sessions can be stopped safely"),
                    )
                } else {
                    *quitting = Quitting::Update;
                    InstallStep::Flush
                }
            },
            InstallEvent::Flushed { pending } => if pending {
                InstallStep::Flush
            } else {
                InstallStep::Prepare
            },
            InstallEvent::SendFailed => {
                *quitting = Quitting::Idle;
                InstallStep::Nothing
            },
            InstallEvent::Prepared(result) => {
                if *quitting != Quitting::Update {
                    return InstallStep::Nothing;
                }
                match result {
                    Err(error) => {
                        *quitting = Quitting::Idle;
                        let mut message = String::from_str("Could not prepare the update: ");
                        message.append(error.as_str());
                        InstallStep::Fail(message)
                    },
                    Ok(()) => {
                        let ready = self.ready.take();
                        if ready.is_none() {
                            *quitting = Quitting::Idle;
                        }
                        InstallStep::Disconnect(ready)
                    },
                }
            },
            InstallEvent::Installed(result) => match result {
                Ok(()) => InstallStep::Quit,
                Err(error) => {
                    *quitting = Quitting::Idle;
                    let mut message = String::from_str("Could not install the beta: ");
                    message.append(error.as_str());
                    InstallStep::Fail(message)
                },
            },
        }
    }
}

/// The app starts an update only when asked while it runs, with an update ready, the
/// server's settings at rest and the server connected; and every failure on the way leaves
/// the app running.
pub proof fn lemma_updates_start_safely_and_failures_leave_the_app_running(
    u: UpdaterView,
    q: Quitting,
    e: InstallEventView,
)
    ensures
        ({
            let (next, nq, step) = install_step(u, q, e);
            &&& (q != Quitting::Update && nq == Quitting::Update) ==> {
                &&& q == Quitting::Idle
                &&& u.ready is Some
                &&& e == (InstallEventView::Begin { settings_busy: false, connected: true })
            }
            &&& step is Fail ==> nq != Quitting::Update
            &&& step is Disconnect ==> next.ready is None
        }),
{
}

/// A check keeps what it finds, whoever asked for it: when a check ends with an update, or
/// with none, that is the update ready from then on, for an automatic check as for one asked
/// for; a failed check leaves the update ready as it was. So an idle, installed updater that
/// starts a check, automatic or asked for, offers the update that check finds.
pub proof fn lemma_checks_keep_what_they_find(
    u: UpdaterView,
    update: Option<Seq<char>>,
    error: Seq<char>,
    manual: bool,
)
    ensures
        prepared_step(u, Ok(update)).0.ready == update,
        prepared_step(u, Err(error)).0.ready == u.ready,
        !prepared_step(u, Ok(update)).0.checking && !prepared_step(u, Err(error)).0.checking,
        (u.installed && !u.checking && u.ready is None) ==> {
            let (started, action) = check_step(u, Quitting::Idle, manual);
            &&& action == ActionView::Prepare
            &&& started.checking
            &&& prepared_step(started, Ok(update)).0.ready == update
        },
{
}

} // verus!
