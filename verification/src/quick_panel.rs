//! The Quick Terminal panel's decisions: showing and hiding it, and closing its pane, with a
//! confirmation where a command still runs there.

use vstd::prelude::*;
use vstd::string::*;

use crate::model::Quitting;

verus! {

/// What the panel's state holds for its decisions: whether it is shown, and the close under
/// way, as the tab that checks it and the pane it closes.
#[derive(Clone, Copy, Debug, PartialEq, Eq, Structural)]
pub struct QuickPanel {
    pub visible: bool,
    pub closing: Option<Closing>,
}

/// A close under way: the tab that checks it and the pane it closes.
#[derive(Clone, Copy, Debug, PartialEq, Eq, Structural)]
pub struct Closing {
    pub tab: u64,
    pub pane: u64,
}

/// What a press of the Quick Terminal shortcut does.
#[derive(Clone, Copy, Debug, PartialEq, Eq, Structural)]
pub enum QuickToggle {
    Nothing,
    Hide,
    Show,
}

/// What a request to close the Quick Terminal's pane does next.
#[derive(Clone, Copy, Debug, PartialEq, Eq, Structural)]
pub enum CloseStep {
    Nothing,
    /// Close the pane and its session.
    Close,
    /// Check the pane's foreground process here: the server is not connected.
    CheckHere,
    /// Ask the server for the pane's foreground process.
    AskServer,
}

/// What the check of the pane's foreground process found.
#[derive(Clone, Debug, PartialEq, Eq)]
pub enum CloseCheck {
    /// A command other than the shell runs.
    Command,
    /// Only the shell runs.
    Shell,
    /// No process is known.
    NoProcess,
    /// The pane's session no longer exists.
    MissingSession,
    /// The check failed with this error.
    Failed(String),
    /// The request for the check could not be sent.
    Unsent,
}

/// What follows the check.
#[derive(Clone, Debug, PartialEq, Eq)]
pub enum CheckedStep {
    Nothing,
    /// Ask whether to close the pane while its command runs.
    Confirm,
    /// Close the pane and its session.
    Close,
    /// Report this failure.
    Fail(String),
}

/// The panel once hidden: not shown, and no close under way.
pub open spec fn hidden(p: QuickPanel) -> QuickPanel {
    QuickPanel { visible: false, closing: None }
}

/// A press of the shortcut: nothing while the app quits or the Quick Terminal is disabled;
/// otherwise the panel hides if shown, and shows if hidden.
pub open spec fn toggle_step(p: QuickPanel, quitting: Quitting, enabled: bool) -> (QuickPanel, QuickToggle) {
    if quitting != Quitting::Idle || !enabled {
        (p, QuickToggle::Nothing)
    } else if p.visible {
        (hidden(p), QuickToggle::Hide)
    } else {
        (p, QuickToggle::Show)
    }
}

/// A request to close the pane, `pane` if the Quick Terminal has one and `session` if it is
/// attached to one: nothing while a close is under way or without a pane; the pane closes at
/// once without a session, where its session is shown elsewhere too, or where running
/// processes need no confirmation; otherwise the close, checked by `tab`, waits for the
/// foreground process, asked of the server where it is connected.
pub open spec fn close_request_step(
    p: QuickPanel,
    tab: u64,
    pane: Option<u64>,
    session: Option<u64>,
    used_outside: bool,
    confirm_running: bool,
    connected: bool,
) -> (QuickPanel, CloseStep) {
    if p.closing is Some || pane is None {
        (p, CloseStep::Nothing)
    } else if session is None || used_outside || !confirm_running {
        (hidden(p), CloseStep::Close)
    } else {
        (
            QuickPanel { closing: Some(Closing { tab, pane: pane->0 }), ..p },
            if connected {
                CloseStep::AskServer
            } else {
                CloseStep::CheckHere
            },
        )
    }
}

/// The end of the check: a running command asks for confirmation; a shell, no process or
/// a session that no longer exists closes the pane; a failure is reported and ends the close.
pub open spec fn close_checked_step(p: QuickPanel, check: CloseCheck) -> (QuickPanel, CheckedStep) {
    match check {
        CloseCheck::Command => (p, CheckedStep::Confirm),
        CloseCheck::Shell | CloseCheck::NoProcess | CloseCheck::MissingSession => (
            hidden(p),
            CheckedStep::Close,
        ),
        CloseCheck::Failed(m) => (QuickPanel { closing: None, ..p }, CheckedStep::Fail(m)),
        CloseCheck::Unsent => (QuickPanel { closing: None, ..p }, CheckedStep::Nothing),
    }
}

impl QuickPanel {
    /// Hides the panel, and ends any close under way.
    pub fn conceal(&mut self)
        ensures
            *final(self) == hidden(*old(self)),
    {
        self.visible = false;
        self.closing = None;
    }

    /// A press of the shortcut, as `toggle_step` says.
    pub fn toggle(&mut self, quitting: Quitting, enabled: bool) -> (r: QuickToggle)
        ensures
            (*final(self), r) == toggle_step(*old(self), quitting, enabled),
    {
        if quitting != Quitting::Idle || !enabled {
            return QuickToggle::Nothing;
        }
        if self.visible {
            self.conceal();
            QuickToggle::Hide
        } else {
            QuickToggle::Show
        }
    }

    /// A request to close the pane, as `close_request_step` says.
    pub fn request_close(
        &mut self,
        tab: u64,
        pane: Option<u64>,
        session: Option<u64>,
        used_outside: bool,
        confirm_running: bool,
        connected: bool,
    ) -> (r: CloseStep)
        ensures
            (*final(self), r) == close_request_step(
                *old(self),
                tab,
                pane,
                session,
                used_outside,
                confirm_running,
                connected,
            ),
    {
        if self.closing.is_some() {
            return CloseStep::Nothing;
        }
        let pane = match pane {
            Some(pane) => pane,
            None => {
                return CloseStep::Nothing;
            },
        };
        if session.is_none() || used_outside || !confirm_running {
            self.conceal();
            return CloseStep::Close;
        }
        self.closing = Some(Closing { tab, pane });
        if connected {
            CloseStep::AskServer
        } else {
            CloseStep::CheckHere
        }
    }

    /// The end of the check, as `close_checked_step` says.
    pub fn close_checked(&mut self, check: CloseCheck) -> (r: CheckedStep)
        ensures
            (*final(self), r) == close_checked_step(*old(self), check),
    {
        match check {
            CloseCheck::Command => CheckedStep::Confirm,
            CloseCheck::Shell | CloseCheck::NoProcess | CloseCheck::MissingSession => {
                self.conceal();
                CheckedStep::Close
            },
            CloseCheck::Failed(message) => {
                self.closing = None;
                CheckedStep::Fail(message)
            },
            CloseCheck::Unsent => {
                self.closing = None;
                CheckedStep::Nothing
            },
        }
    }
}

/// An event on the way to showing the panel.
#[derive(Debug, PartialEq, Eq)]
pub enum ShowEvent {
    /// The panel is to show: whether the app is disconnected from the server, and whether the
    /// panel's window exists.
    Start { disconnected: bool, panel_open: bool },
    /// The panel's window was opened where needed and prepared, or this went wrong.
    PanelReady(Result<(), String>),
    /// The session with the Quick Terminal's pane was saved, or could not be.
    Saved(bool),
}

/// What showing the panel does next.
#[derive(Clone, Debug, PartialEq, Eq)]
pub enum ShowAction {
    /// Connect to the server where asked, open the panel's window where asked, and prepare it.
    Prepare { connect: bool, open_window: bool },
    /// Save the session with the Quick Terminal's pane.
    Save,
    /// The panel shows: begin its show transition and focus its terminal.
    Shown,
    /// Report this failure; the panel stays hidden.
    Fail(String),
}

/// A show action with text as characters.
pub enum ShowActionView {
    Prepare { connect: bool, open_window: bool },
    Save,
    Shown,
    Fail(Seq<char>),
}

/// The view of a show action.
pub open spec fn show_action_view(a: ShowAction) -> ShowActionView {
    match a {
        ShowAction::Prepare { connect, open_window } => ShowActionView::Prepare { connect, open_window },
        ShowAction::Save => ShowActionView::Save,
        ShowAction::Shown => ShowActionView::Shown,
        ShowAction::Fail(m) => ShowActionView::Fail(m@),
    }
}

/// A step of showing the panel: it connects where disconnected and opens its window where
/// there is none, then prepares it; a prepared panel saves the session; a saved session
/// shows the panel; any failure is reported, and the panel shows only once all went well.
pub open spec fn show_step(p: QuickPanel, event: ShowEvent) -> (QuickPanel, ShowActionView) {
    match event {
        ShowEvent::Start { disconnected, panel_open } => (
            p,
            ShowActionView::Prepare { connect: disconnected, open_window: !panel_open },
        ),
        ShowEvent::PanelReady(r) => match r {
            Ok(()) => (p, ShowActionView::Save),
            Err(e) => (p, ShowActionView::Fail(e@)),
        },
        ShowEvent::Saved(saved) => if saved {
            (QuickPanel { visible: true, ..p }, ShowActionView::Shown)
        } else {
            (p, ShowActionView::Fail("Could not save Quick Terminal session"@))
        },
    }
}

impl QuickPanel {
    /// A step of showing the panel, as `show_step` says.
    pub fn show(&mut self, event: ShowEvent) -> (r: ShowAction)
        ensures
            (*final(self), show_action_view(r)) == show_step(*old(self), event),
    {
        match event {
            ShowEvent::Start { disconnected, panel_open } => ShowAction::Prepare {
                connect: disconnected,
                open_window: !panel_open,
            },
            ShowEvent::PanelReady(r) => match r {
                Ok(()) => ShowAction::Save,
                Err(e) => ShowAction::Fail(e),
            },
            ShowEvent::Saved(saved) => if saved {
                self.visible = true;
                ShowAction::Shown
            } else {
                ShowAction::Fail(String::from_str("Could not save Quick Terminal session"))
            },
        }
    }
}

/// The state of the system-wide registration of the Quick Terminal's shortcut.
#[derive(Clone, Copy, Debug, PartialEq, Eq, Structural)]
pub enum ShortcutState {
    Stopped,
    Unavailable,
    Registered,
}

/// The status line of the shortcut: the registration's error, if it has one, else its state.
pub open spec fn shortcut_status_text(error: Option<Seq<char>>, state: ShortcutState) -> Seq<char> {
    match error {
        Some(e) => e,
        None => match state {
            ShortcutState::Stopped => "Inactive"@,
            ShortcutState::Unavailable => "Unavailable"@,
            ShortcutState::Registered => "Active system-wide"@,
        },
    }
}

/// The status line of the shortcut, as `shortcut_status_text` says.
pub fn shortcut_status(error: Option<&str>, state: ShortcutState) -> (r: String)
    ensures
        r@ == shortcut_status_text(
            match error {
                Some(e) => Some(e@),
                None => None,
            },
            state,
        ),
{
    match error {
        Some(e) => e.to_string(),
        None => String::from_str(
            match state {
                ShortcutState::Stopped => "Inactive",
                ShortcutState::Unavailable => "Unavailable",
                ShortcutState::Registered => "Active system-wide",
            },
        ),
    }
}

/// Closing the Quick Terminal asks for confirmation only where a command other than the
/// shell runs in it, its session is shown nowhere else, and running processes are to be
/// confirmed; and a pane that closes leaves the panel hidden with no close under way.
pub proof fn lemma_close_prompts_only_for_commands(
    p: QuickPanel,
    tab: u64,
    pane: Option<u64>,
    session: Option<u64>,
    used_outside: bool,
    confirm_running: bool,
    connected: bool,
    check: CloseCheck,
)
    ensures
        ({
            let (q, step) = close_request_step(p, tab, pane, session, used_outside, confirm_running, connected);
            &&& (step == CloseStep::CheckHere || step == CloseStep::AskServer) ==> {
                &&& session is Some
                &&& !used_outside
                &&& confirm_running
                &&& q.closing == Some(Closing { tab, pane: pane->0 })
            }
            &&& step == CloseStep::Close ==> q == hidden(p)
        }),
        close_checked_step(p, check).1 == CheckedStep::Confirm <==> check == CloseCheck::Command,
        close_checked_step(p, check).1 == CheckedStep::Close ==> close_checked_step(p, check).0
            == hidden(p),
        close_checked_step(p, check).1 != CheckedStep::Confirm ==> close_checked_step(p, check).0.closing is None,
{
}

} // verus!
