//! The application model's decisions: the update status, builds, queued server
//! settings, Quick Terminal panes, tabs and their menu, and the reusable sessions.

use vstd::prelude::*;
use vstd::string::*;
use vstd::utf8::encode_utf8;

use crate::quick_terminal::{chord_combo, combo_from_chord, combos_conflict, QuickTerminalShortcut};
use crate::fonts::strings;
use crate::scan::{int_error_text, parse_uint, parse_uint_in};
use crate::text::{append_decimal, chars_of, dec_chars, str_eq, utf8_bytes};

verus! {

broadcast use vstd::string::group_string_axioms;

/// Whether the app is quitting, and why.
#[derive(Clone, Copy, Debug, PartialEq, Eq, Structural)]
pub enum Quitting {
    Idle,
    Quit,
    Update,
}

/// Whether a build number is newer than the running one; false where either is unknown.
pub fn newer_build(running: Option<u64>, installed: Option<u64>) -> (r: bool)
    ensures
        r == (running matches Some(a) && installed matches Some(b) && b > a),
{
    match (running, installed) {
        (Some(running), Some(installed)) => installed > running,
        _ => false,
    }
}

/// A settings category.
#[derive(Clone, Copy, Debug, PartialEq, Eq, Structural)]
pub enum Category {
    Appearance,
    Terminal,
    Keyboard,
    Server,
}

/// The label of a category.
pub open spec fn category_label(c: Category) -> Seq<char> {
    match c {
        Category::Appearance => "Appearance"@,
        Category::Terminal => "Terminal"@,
        Category::Keyboard => "Keyboard"@,
        Category::Server => "Server"@,
    }
}

impl Category {
    /// The label of the category.
    pub fn label(self) -> (r: &'static str)
        ensures
            r@ == category_label(self),
    {
        match self {
            Category::Appearance => "Appearance",
            Category::Terminal => "Terminal",
            Category::Keyboard => "Keyboard",
            Category::Server => "Server",
        }
    }
}

/// A picker of the settings: the font family, or the theme of the light or dark mode.
#[derive(Clone, Copy, Debug, PartialEq, Eq, Structural)]
pub enum PickerKind {
    FontFamily,
    Theme(bool),
}

/// The identifier of a picker.
pub open spec fn picker_id(k: PickerKind) -> Seq<char> {
    match k {
        PickerKind::FontFamily => "font-family"@,
        PickerKind::Theme(false) => "light-theme"@,
        PickerKind::Theme(true) => "dark-theme"@,
    }
}

impl PickerKind {
    /// The identifier of the picker.
    pub fn id(self) -> (r: &'static str)
        ensures
            r@ == picker_id(self),
    {
        match self {
            PickerKind::FontFamily => "font-family",
            PickerKind::Theme(false) => "light-theme",
            PickerKind::Theme(true) => "dark-theme",
        }
    }
}

/// A change the settings ask for. A field names its row; a binding names its shortcut and
/// gives its chord, if any; the pane directory is given as its setting's text.
#[derive(Clone, Debug, PartialEq, Eq)]
pub enum Change {
    Sidebar(bool),
    StatusBar(bool),
    ConfirmProcess(bool),
    CopyOnSelect(bool),
    Directory(String),
    Field(String, String),
    Binding(String, Option<String>),
    ShellIntegration(bool),
}

/// The row a change belongs to.
pub open spec fn change_key(c: Change) -> Seq<char> {
    match c {
        Change::Sidebar(_) => "sidebar"@,
        Change::StatusBar(_) => "status-bar"@,
        Change::ConfirmProcess(_) => "confirm-process"@,
        Change::CopyOnSelect(_) => "copy-on-select"@,
        Change::Directory(_) => "directory"@,
        Change::Field(id, _) => id@,
        Change::Binding(id, _) => id@,
        Change::ShellIntegration(_) => "shell-integration"@,
    }
}

/// The row a change belongs to.
pub fn change_id(change: &Change) -> (r: &str)
    ensures
        r@ == change_key(*change),
{
    match change {
        Change::Sidebar(_) => "sidebar",
        Change::StatusBar(_) => "status-bar",
        Change::ConfirmProcess(_) => "confirm-process",
        Change::CopyOnSelect(_) => "copy-on-select",
        Change::Directory(_) => "directory",
        Change::Field(id, _) => id.as_str(),
        Change::Binding(id, _) => id.as_str(),
        Change::ShellIntegration(_) => "shell-integration",
    }
}

/// Whether a change is one of the server's settings: shell integration, the default shell
/// or the history budget.
pub open spec fn server_change(c: Change) -> bool {
    match c {
        Change::ShellIntegration(_) => true,
        Change::Field(id, _) => id@ == "default-shell"@ || id@ == "history-budget"@,
        _ => false,
    }
}

/// Whether a change is one of the server's settings.
pub fn is_server_change(change: &Change) -> (r: bool)
    ensures
        r == server_change(*change),
{
    match change {
        Change::ShellIntegration(_) => true,
        Change::Field(id, _) => str_eq(id.as_str(), "default-shell") || str_eq(
            id.as_str(),
            "history-budget",
        ),
        _ => false,
    }
}

/// The rows of the changes, in order.
pub open spec fn change_keys(v: Seq<Change>) -> Seq<Seq<char>> {
    v.map_values(|c: Change| change_key(c))
}

/// The state of the server's settings: whether a read or write is under way, whether the
/// server is being stopped, the row of the operation under way, and the changes that wait
/// for it, at most one per row.
pub struct ServerPreferences {
    pub busy: bool,
    pub control_busy: bool,
    pub row: String,
    pub pending: Vec<Change>,
}

impl ServerPreferences {
    /// At most one waiting change per row.
    pub open spec fn wf(&self) -> bool {
        change_keys(self.pending@).no_duplicates()
    }

    /// Queues a change behind the operation under way: a waiting change of the same row is
    /// replaced, and the new one waits last.
    pub fn queue(&mut self, change: Change)
        requires
            old(self).wf(),
        ensures
            final(self).wf(),
            final(self).pending@ == old(self).pending@.filter(same_row_as(change_key(change))).push(
                change,
            ),
            final(self).busy == old(self).busy,
            final(self).control_busy == old(self).control_busy,
            final(self).row == old(self).row,
    {
        let ghost key = change_key(change);
        let mut kept: Vec<Change> = Vec::new();
        let mut i: usize = 0;
        let id = change_id(&change);
        while i < self.pending.len()
            invariant
                i <= self.pending@.len(),
                id@ == key,
                kept@ == self.pending@.take(i as int).filter(same_row_as(key)),
            decreases self.pending@.len() - i,
        {
            proof {
                reveal(Seq::filter);
            }
            assert(self.pending@.take(i + 1).drop_last() =~= self.pending@.take(i as int));
            if !str_eq(change_id(&self.pending[i]), id) {
                kept.push(copy_change(&self.pending[i]));
                assert(kept@ =~= self.pending@.take(i as int).filter(same_row_as(key)).push(
                    self.pending@[i as int],
                ));
            }
            i = i + 1;
        }
        assert(self.pending@.take(self.pending@.len() as int) =~= self.pending@);
        proof {
            lemma_filter_keys_distinct(self.pending@, key);
        }
        let ghost filtered = kept@;
        kept.push(change);
        proof {
            assert(change_keys(kept@) =~= change_keys(filtered).push(key));
            assert forall|a: int, b: int|
                0 <= a < b < change_keys(kept@).len() implies change_keys(kept@)[a]
                != change_keys(kept@)[b] by {
                if b == change_keys(kept@).len() - 1 {
                    assert(change_keys(filtered)[a] == change_key(filtered[a]));
                    lemma_filter_all(self.pending@, key, a);
                }
            }
        }
        self.pending = kept;
    }
}

impl ServerPreferences {
    /// Whether the app may quit as far as the server's settings go: not while a read, a write
    /// or a stop of the server is under way.
    pub fn before_quit(&self) -> (r: Result<(), String>)
        ensures
            r is Ok <==> !self.busy && !self.control_busy,
            r matches Err(m) ==> m@ == "Wait for the server settings operation to finish before quitting"@,
    {
        if self.busy || self.control_busy {
            return Err(String::from_str("Wait for the server settings operation to finish before quitting"));
        }
        Ok(())
    }
}

/// The server's settings that the app edits: shell integration, the default shell as a path
/// of bytes, if one is set, and the budget of scrollback history in bytes.
#[derive(Clone, Debug, PartialEq, Eq)]
pub struct ServerSettings {
    pub shell_integration: bool,
    pub default_shell: Option<Vec<u8>>,
    pub history_budget_bytes: u64,
}

/// The server's settings, with the shell as bytes.
pub struct ServerSettingsView {
    pub shell_integration: bool,
    pub default_shell: Option<Seq<u8>>,
    pub history_budget_bytes: nat,
}

impl View for ServerSettings {
    type V = ServerSettingsView;

    open spec fn view(&self) -> ServerSettingsView {
        ServerSettingsView {
            shell_integration: self.shell_integration,
            default_shell: match self.default_shell {
                Some(b) => Some(b@),
                None => None,
            },
            history_budget_bytes: self.history_budget_bytes as nat,
        }
    }
}

/// A mebibyte.
pub const MEBIBYTE: u64 = 1048576;

/// The server's settings after a change, or why the change cannot be made: the server must
/// be connected and not being stopped, and its settings loaded; shell integration is set as
/// given; an empty default shell unsets it, another is the text's UTF-8 bytes; the history
/// budget is a count of mebibytes, read as std reads a `u64`, and must fit in a `u64` in bytes.
pub open spec fn server_edit(
    document: Option<ServerSettingsView>,
    connected: bool,
    control_busy: bool,
    change: Change,
) -> Result<ServerSettingsView, Seq<char>> {
    if !connected || control_busy {
        Err("Connect to the server before editing its settings"@)
    } else if document is None {
        Err("Load server settings first"@)
    } else {
        let d = document->0;
        match change {
            Change::ShellIntegration(v) => Ok(ServerSettingsView { shell_integration: v, ..d }),
            Change::Field(id, value) => if id@ == "default-shell"@ {
                Ok(
                    ServerSettingsView {
                        default_shell: if value@.len() == 0 {
                            None
                        } else {
                            Some(encode_utf8(value@))
                        },
                        ..d
                    },
                )
            } else if id@ == "history-budget"@ {
                match parse_uint(value@, 10, u64::MAX as nat) {
                    Err(e) => Err(int_error_text(e)),
                    Ok(n) => if n * MEBIBYTE > u64::MAX {
                        Err("History budget is too large"@)
                    } else {
                        Ok(ServerSettingsView { history_budget_bytes: (n * MEBIBYTE) as nat, ..d })
                    },
                }
            } else {
                Err("Unknown server setting"@)
            },
            _ => Err("Unknown server setting"@),
        }
    }
}

/// Optional server settings by their view.
pub open spec fn document_view(d: Option<ServerSettings>) -> Option<ServerSettingsView> {
    match d {
        Some(s) => Some(s@),
        None => None,
    }
}

/// A copy of the server's settings.
fn copy_settings(d: &ServerSettings) -> (r: ServerSettings)
    ensures
        r@ == d@,
{
    ServerSettings {
        shell_integration: d.shell_integration,
        default_shell: match &d.default_shell {
            Some(b) => Some(b.clone()),
            None => None,
        },
        history_budget_bytes: d.history_budget_bytes,
    }
}

impl ServerPreferences {
    /// The server's settings after a change, as `server_edit` says; `document` is the server's
    /// settings as last read.
    pub fn edit(&self, document: &Option<ServerSettings>, connected: bool, change: &Change) -> (r:
        Result<ServerSettings, String>)
        ensures
            match server_edit(document_view(*document), connected, self.control_busy, *change) {
                Ok(d) => r matches Ok(s) && s@ == d,
                Err(m) => r matches Err(e) && e@ == m,
            },
    {
        if !connected || self.control_busy {
            return Err(String::from_str("Connect to the server before editing its settings"));
        }
        let mut settings = match document {
            Some(d) => copy_settings(d),
            None => {
                return Err(String::from_str("Load server settings first"));
            },
        };
        match change {
            Change::ShellIntegration(v) => {
                settings.shell_integration = *v;
                Ok(settings)
            },
            Change::Field(id, value) => {
                if str_eq(id.as_str(), "default-shell") {
                    settings.default_shell = if value.as_str().is_empty() {
                        None
                    } else {
                        Some(utf8_bytes(value.as_str()))
                    };
                    Ok(settings)
                } else if str_eq(id.as_str(), "history-budget") {
                    let cs = chars_of(value.as_str());
                    assert(cs@.subrange(0, cs@.len() as int) =~= value@);
                    match parse_uint_in(&cs, 0, cs.len(), 10, u64::MAX) {
                        Err(e) => Err(e.message()),
                        Ok(n) => match n.checked_mul(MEBIBYTE) {
                            None => Err(String::from_str("History budget is too large")),
                            Some(bytes) => {
                                settings.history_budget_bytes = bytes;
                                Ok(settings)
                            },
                        },
                    }
                } else {
                    Err(String::from_str("Unknown server setting"))
                }
            },
            _ => Err(String::from_str("Unknown server setting")),
        }
    }

    /// Takes a change from the settings: a change of the server's settings waits, as `queue`
    /// says, while an operation of them is under way; any other change is handed back to be
    /// made at once.
    pub fn route(&mut self, change: Change) -> (r: Option<Change>)
        requires
            old(self).wf(),
        ensures
            final(self).wf(),
            final(self).busy == old(self).busy,
            final(self).control_busy == old(self).control_busy,
            final(self).row == old(self).row,
            if server_change(change) && old(self).busy {
                r is None && final(self).pending@ == old(self).pending@.filter(
                    same_row_as(change_key(change)),
                ).push(change)
            } else {
                r == Some(change) && final(self).pending@ == old(self).pending@
            },
    {
        if is_server_change(&change) && self.busy {
            self.queue(change);
            None
        } else {
            Some(change)
        }
    }

    /// Whether the server's settings may be read: while connected and no operation is under way.
    pub fn may_read(&self, connected: bool) -> (r: bool)
        ensures
            r == (connected && !self.busy && !self.control_busy),
    {
        connected && !self.busy && !self.control_busy
    }

    /// Records an operation of the server's settings on a row: under way if its request was
    /// sent.
    pub fn start(&mut self, row: String, sent: bool)
        ensures
            final(self).busy == sent,
            final(self).row == row,
            final(self).control_busy == old(self).control_busy,
            final(self).pending == old(self).pending,
    {
        self.busy = sent;
        self.row = row;
    }

    /// The end of a read or write of the server's settings: the operation is no longer under way.
    pub fn finish(&mut self)
        ensures
            !final(self).busy,
            final(self).row == old(self).row,
            final(self).control_busy == old(self).control_busy,
            final(self).pending == old(self).pending,
    {
        self.busy = false;
    }

    /// The next waiting change to make, first in first out, while no operation is under way.
    pub fn next_pending(&mut self) -> (r: Option<Change>)
        requires
            old(self).wf(),
        ensures
            final(self).wf(),
            final(self).busy == old(self).busy,
            final(self).control_busy == old(self).control_busy,
            final(self).row == old(self).row,
            if old(self).busy || old(self).pending@.len() == 0 {
                r is None && final(self).pending@ == old(self).pending@
            } else {
                r == Some(old(self).pending@[0]) && final(self).pending@ == old(self).pending@.drop_first()
            },
    {
        if self.busy || self.pending.len() == 0 {
            return None;
        }
        let first = self.pending.remove(0);
        proof {
            assert(change_keys(self.pending@) =~= change_keys(old(self).pending@).drop_first());
            assert forall|a: int, b: int|
                0 <= a < b < change_keys(self.pending@).len() implies change_keys(self.pending@)[a]
                != change_keys(self.pending@)[b] by {
                assert(change_keys(self.pending@)[a] == change_keys(old(self).pending@)[a + 1]);
                assert(change_keys(self.pending@)[b] == change_keys(old(self).pending@)[b + 1]);
            }
        }
        Some(first)
    }

    /// Whether the server may be stopped or restarted: while connected, with no operation of
    /// its settings under way and no prompt open.
    pub fn may_control(&self, connected: bool, prompt_open: bool) -> (r: bool)
        ensures
            r == (connected && !prompt_open && !self.busy && !self.control_busy),
    {
        connected && !prompt_open && !self.busy && !self.control_busy
    }

    /// The end of a stop of the server: no stop is under way; a failure is reported on the
    /// server's row.
    pub fn stopped(&mut self, result: Result<(), String>) -> (r: Option<String>)
        ensures
            !final(self).control_busy,
            final(self).busy == old(self).busy,
            final(self).row == old(self).row,
            final(self).pending == old(self).pending,
            match result {
                Ok(()) => r is None,
                Err(e) => r matches Some(m) && m@ == "Could not stop server: "@ + e@,
            },
    {
        self.control_busy = false;
        match result {
            Ok(()) => None,
            Err(error) => {
                let mut message = String::from_str("Could not stop server: ");
                message.append(error.as_str());
                Some(message)
            },
        }
    }
}

/// A copy of a change.
fn copy_change(c: &Change) -> (r: Change)
    ensures
        r == *c,
{
    match c {
        Change::Sidebar(b) => Change::Sidebar(*b),
        Change::StatusBar(b) => Change::StatusBar(*b),
        Change::ConfirmProcess(b) => Change::ConfirmProcess(*b),
        Change::CopyOnSelect(b) => Change::CopyOnSelect(*b),
        Change::Directory(d) => Change::Directory(d.clone()),
        Change::Field(id, value) => Change::Field(id.clone(), value.clone()),
        Change::Binding(id, chord) => Change::Binding(
            id.clone(),
            match chord {
                Some(c) => Some(c.clone()),
                None => None,
            },
        ),
        Change::ShellIntegration(b) => Change::ShellIntegration(*b),
    }
}

/// The predicate "belongs to another row than `key`".
pub open spec fn same_row_as(key: Seq<char>) -> spec_fn(Change) -> bool {
    |c: Change| change_key(c) != key
}

/// What `filter` keeps belongs to another row.
proof fn lemma_filter_all(v: Seq<Change>, key: Seq<char>, a: int)
    requires
        0 <= a < v.filter(same_row_as(key)).len(),
    ensures
        change_key(v.filter(same_row_as(key))[a]) != key,
{
    broadcast use vstd::seq_lib::group_filter_ensures;
    assert(same_row_as(key)(v.filter(same_row_as(key))[a]));
}

/// Filtering keeps the rows distinct.
proof fn lemma_filter_keys_distinct(v: Seq<Change>, key: Seq<char>)
    requires
        change_keys(v).no_duplicates(),
    ensures
        change_keys(v.filter(same_row_as(key))).no_duplicates(),
    decreases v.len(),
{
    reveal(Seq::filter);
    if v.len() > 0 {
        let init = v.drop_last();
        assert(change_keys(init) =~= change_keys(v).drop_last());
        lemma_filter_keys_distinct(init, key);
        let f = init.filter(same_row_as(key));
        if same_row_as(key)(v.last()) {
            assert(change_keys(v.filter(same_row_as(key))) =~= change_keys(f).push(
                change_key(v.last()),
            ));
            assert forall|a: int| 0 <= a < f.len() implies change_key(f[a]) != change_key(
                v.last(),
            ) by {
                assert(f.contains(f[a]));
                init.lemma_filter_contains_rev(same_row_as(key), f[a]);
                assert(init.contains(f[a]));
                let k = choose|k: int| 0 <= k < init.len() && init[k] == f[a];
                assert(change_keys(v)[k] == change_key(f[a]));
                assert(change_keys(v)[v.len() - 1] == change_key(v.last()));
            }
        }
    }
}

/// A change of the server's settings made while another operation is under way waits last
/// in the queue, and is the only waiting change of its row: a newer change of a row replaces
/// the older one.
pub proof fn lemma_latest_change_of_a_row_waits(pending: Seq<Change>, change: Change)
    ensures
        ({
            let q = pending.filter(same_row_as(change_key(change))).push(change);
            &&& q.last() == change
            &&& forall|i: int| 0 <= i < q.len() - 1 ==> change_key(#[trigger] q[i]) != change_key(change)
        }),
{
    let f = pending.filter(same_row_as(change_key(change)));
    let q = f.push(change);
    assert forall|i: int| 0 <= i < q.len() - 1 implies change_key(#[trigger] q[i]) != change_key(
        change,
    ) by {
        assert(q[i] == f[i]);
        lemma_filter_all(pending, change_key(change), i);
    }
}

/// The side of a tab where a new one opens.
#[derive(Clone, Copy, Debug, PartialEq, Eq, Structural)]
pub enum TabSide {
    Left,
    Right,
}

/// Which tabs a bulk close takes, relative to a tab.
#[derive(Clone, Copy, Debug, PartialEq, Eq, Structural)]
pub enum TabCloseScope {
    Other,
    Left,
    Right,
}

/// A tab: its identifier, the title and color the user gave it, and whether it is pinned.
#[derive(Clone, Debug, PartialEq, Eq)]
pub struct Tab {
    pub id: u64,
    pub custom_title: Option<String>,
    pub color: Option<u32>,
    pub pinned: bool,
}

/// A project and its tabs, in order.
#[derive(Clone, Debug, PartialEq, Eq)]
pub struct Project {
    pub id: u64,
    pub tabs: Vec<Tab>,
}

/// `k` is the index of the first tab with the identifier `id`.
pub open spec fn is_first_tab(tabs: Seq<Tab>, id: u64, k: int) -> bool {
    0 <= k < tabs.len() && tabs[k].id == id && forall|j: int| 0 <= j < k ==> tabs[j].id != id
}

/// The index of the first tab with the identifier `id`, or -1.
pub open spec fn tab_index(tabs: Seq<Tab>, id: u64) -> int {
    if exists|k: int| is_first_tab(tabs, id, k) {
        choose|k: int| is_first_tab(tabs, id, k)
    } else {
        -1
    }
}

/// The index of the first tab with the identifier `id`, if any.
fn find_tab(tabs: &Vec<Tab>, id: u64) -> (r: Option<usize>)
    ensures
        match r {
            Some(k) => k == tab_index(tabs@, id) && k < tabs@.len(),
            None => tab_index(tabs@, id) == -1 && forall|j: int|
                0 <= j < tabs@.len() ==> tabs@[j].id != id,
        },
{
    let mut i: usize = 0;
    while i < tabs.len()
        invariant
            i <= tabs@.len(),
            forall|j: int| 0 <= j < i ==> tabs@[j].id != id,
        decreases tabs@.len() - i,
    {
        if tabs[i].id == id {
            assert(is_first_tab(tabs@, id, i as int));
            proof {
                let c = choose|k: int| is_first_tab(tabs@, id, k);
                if c < i {
                    assert(tabs@[c].id != id);
                }
                if c > i {
                    assert(tabs@[i as int].id != id);
                }
            }
            return Some(i);
        }
        i = i + 1;
    }
    None
}

/// Whether a bulk close of `scope` around the tab at `a` takes the tab at `i`.
pub open spec fn in_scope(i: int, a: int, scope: TabCloseScope) -> bool {
    match scope {
        TabCloseScope::Other => i != a,
        TabCloseScope::Left => i < a,
        TabCloseScope::Right => i > a,
    }
}

/// The unpinned tabs among the first `n` that a bulk close around the tab at `a` takes.
pub open spec fn closable_prefix(tabs: Seq<Tab>, a: int, scope: TabCloseScope, n: int) -> Seq<u64>
    decreases n,
{
    if n <= 0 {
        Seq::empty()
    } else {
        let rest = closable_prefix(tabs, a, scope, n - 1);
        if in_scope(n - 1, a, scope) && !tabs[n - 1].pinned {
            rest.push(tabs[n - 1].id)
        } else {
            rest
        }
    }
}

/// The tabs a bulk close around `anchor` takes, in the project's order: those of the scope
/// that are not pinned; none where the project has no such tab.
pub open spec fn closable(tabs: Seq<Tab>, anchor: u64, scope: TabCloseScope) -> Seq<u64> {
    let a = tab_index(tabs, anchor);
    if a < 0 {
        Seq::empty()
    } else {
        closable_prefix(tabs, a, scope, tabs.len() as int)
    }
}

impl Project {
    /// The tabs a bulk close around `anchor` takes, as `closable` says.
    pub fn closable_tabs(&self, anchor: u64, scope: TabCloseScope) -> (r: Vec<u64>)
        ensures
            r@ == closable(self.tabs@, anchor, scope),
    {
        let a = match find_tab(&self.tabs, anchor) {
            None => {
                return Vec::new();
            },
            Some(a) => a,
        };
        let mut out: Vec<u64> = Vec::new();
        let mut i: usize = 0;
        while i < self.tabs.len()
            invariant
                i <= self.tabs@.len(),
                a < self.tabs@.len(),
                out@ == closable_prefix(self.tabs@, a as int, scope, i as int),
            decreases self.tabs@.len() - i,
        {
            let taken = match scope {
                TabCloseScope::Other => i != a,
                TabCloseScope::Left => i < a,
                TabCloseScope::Right => i > a,
            };
            if taken && !self.tabs[i].pinned {
                out.push(self.tabs[i].id);
            }
            i = i + 1;
        }
        out
    }
}

/// What a tab menu item does to its tab.
#[derive(Clone, Copy, Debug, PartialEq, Eq, Structural)]
pub enum TabAction {
    New(TabSide),
    Rename,
    ResetTitle,
    Color,
    ResetColor,
    TogglePin,
    Close,
    CloseTabs(TabCloseScope),
}

/// An item of a tab's menu: its label, the tab and action it stands for, whether a separator
/// sets it apart, and whether it is disabled.
#[derive(Clone, Copy, Debug, PartialEq, Eq)]
pub struct MenuItem {
    pub label: &'static str,
    pub tab: u64,
    pub action: TabAction,
    pub separated: bool,
    pub disabled: bool,
}

/// A menu item as its label, action, separation and disabling.
pub open spec fn item_view(i: MenuItem) -> (Seq<char>, TabAction, bool, bool) {
    (i.label@, i.action, i.separated, i.disabled)
}

/// Menu items as labels, actions, separation and disabling.
pub open spec fn items_view(v: Seq<MenuItem>) -> Seq<(Seq<char>, TabAction, bool, bool)> {
    v.map_values(|i: MenuItem| item_view(i))
}

/// The first items of a tab's menu: new tabs to either side, rename, reset the title where
/// there is one, color, and reset the color where there is one.
pub open spec fn menu_edits(t: Tab) -> Seq<(Seq<char>, TabAction, bool, bool)> {
    seq![
        ("New Tab to the Left"@, TabAction::New(TabSide::Left), false, false),
        ("New Tab to the Right"@, TabAction::New(TabSide::Right), false, false),
        ("Rename Tab"@, TabAction::Rename, true, false),
    ] + (if t.custom_title is Some {
        seq![("Reset Title"@, TabAction::ResetTitle, false, false)]
    } else {
        Seq::empty()
    }) + seq![("Set Tab Color…"@, TabAction::Color, false, false)] + (if t.color is Some {
        seq![("Reset Tab Color"@, TabAction::ResetColor, false, false)]
    } else {
        Seq::empty()
    })
}

/// The pin items of a tab's menu: pin or unpin, then close unless pinned.
pub open spec fn menu_pin(t: Tab) -> Seq<(Seq<char>, TabAction, bool, bool)> {
    seq![
        (if t.pinned {
            "Unpin Tab"@
        } else {
            "Pin Tab"@
        }, TabAction::TogglePin, true, false),
    ] + (if !t.pinned {
        seq![("Close Tab"@, TabAction::Close, true, false)]
    } else {
        Seq::empty()
    })
}

/// The bulk close items of a tab's menu, each disabled where it would take no tab.
pub open spec fn menu_bulk(tabs: Seq<Tab>, id: u64, t: Tab) -> Seq<(Seq<char>, TabAction, bool, bool)> {
    seq![
        (
            "Close Other Tabs"@,
            TabAction::CloseTabs(TabCloseScope::Other),
            t.pinned,
            closable(tabs, id, TabCloseScope::Other).len() == 0,
        ),
        (
            "Close Tabs to the Left"@,
            TabAction::CloseTabs(TabCloseScope::Left),
            false,
            closable(tabs, id, TabCloseScope::Left).len() == 0,
        ),
        (
            "Close Tabs to the Right"@,
            TabAction::CloseTabs(TabCloseScope::Right),
            false,
            closable(tabs, id, TabCloseScope::Right).len() == 0,
        ),
    ]
}

/// The menu of the tab `id` of a project: `menu_edits`, `menu_pin` and `menu_bulk` of its
/// first tab with that identifier; none where there is no such tab.
pub open spec fn tab_menu(tabs: Seq<Tab>, id: u64) -> Seq<(Seq<char>, TabAction, bool, bool)> {
    let a = tab_index(tabs, id);
    if a < 0 {
        Seq::empty()
    } else {
        menu_edits(tabs[a]) + menu_pin(tabs[a]) + menu_bulk(tabs, id, tabs[a])
    }
}

/// Appends an item of the tab `id`.
fn push_item(
    out: &mut Vec<MenuItem>,
    label: &'static str,
    id: u64,
    action: TabAction,
    separated: bool,
    disabled: bool,
)
    requires
        forall|k: int| 0 <= k < old(out)@.len() ==> (#[trigger] old(out)@[k]).tab == id,
    ensures
        items_view(final(out)@) == items_view(old(out)@).push((label@, action, separated, disabled)),
        forall|k: int| 0 <= k < final(out)@.len() ==> (#[trigger] final(out)@[k]).tab == id,
{
    let ghost before = out@;
    out.push(MenuItem { label, tab: id, action, separated, disabled });
    assert(items_view(out@) =~= items_view(before).push((label@, action, separated, disabled)));
}

/// Appends the first items of the menu of `tab`.
fn push_edits(out: &mut Vec<MenuItem>, tab: &Tab, id: u64)
    requires
        forall|k: int| 0 <= k < old(out)@.len() ==> (#[trigger] old(out)@[k]).tab == id,
    ensures
        items_view(final(out)@) == items_view(old(out)@) + menu_edits(*tab),
        forall|k: int| 0 <= k < final(out)@.len() ==> (#[trigger] final(out)@[k]).tab == id,
{
    let ghost start = items_view(out@);
    push_item(out, "New Tab to the Left", id, TabAction::New(TabSide::Left), false, false);
    push_item(out, "New Tab to the Right", id, TabAction::New(TabSide::Right), false, false);
    push_item(out, "Rename Tab", id, TabAction::Rename, true, false);
    if tab.custom_title.is_some() {
        push_item(out, "Reset Title", id, TabAction::ResetTitle, false, false);
    }
    push_item(out, "Set Tab Color…", id, TabAction::Color, false, false);
    if tab.color.is_some() {
        push_item(out, "Reset Tab Color", id, TabAction::ResetColor, false, false);
    }
    assert(items_view(out@) =~= start + menu_edits(*tab));
}

/// Appends the pin items of the menu of `tab`.
fn push_pin(out: &mut Vec<MenuItem>, tab: &Tab, id: u64)
    requires
        forall|k: int| 0 <= k < old(out)@.len() ==> (#[trigger] old(out)@[k]).tab == id,
    ensures
        items_view(final(out)@) == items_view(old(out)@) + menu_pin(*tab),
        forall|k: int| 0 <= k < final(out)@.len() ==> (#[trigger] final(out)@[k]).tab == id,
{
    let ghost start = items_view(out@);
    push_item(
        out,
        if tab.pinned {
            "Unpin Tab"
        } else {
            "Pin Tab"
        },
        id,
        TabAction::TogglePin,
        true,
        false,
    );
    if !tab.pinned {
        push_item(out, "Close Tab", id, TabAction::Close, true, false);
    }
    assert(items_view(out@) =~= start + menu_pin(*tab));
}

/// The menu of the tab `id` of a project, as `tab_menu` says; every item stands for that tab.
pub fn items(project: &Project, id: u64) -> (r: Vec<MenuItem>)
    ensures
        items_view(r@) == tab_menu(project.tabs@, id),
        forall|k: int| 0 <= k < r@.len() ==> (#[trigger] r@[k]).tab == id,
{
    let mut out: Vec<MenuItem> = Vec::new();
    assert(items_view(out@) =~= Seq::<(Seq<char>, TabAction, bool, bool)>::empty());
    let a = match find_tab(&project.tabs, id) {
        None => {
            return out;
        },
        Some(a) => a,
    };
    let tab = &project.tabs[a];
    push_edits(&mut out, tab, id);
    push_pin(&mut out, tab, id);
    let ghost start = items_view(out@);
    let other = project.closable_tabs(id, TabCloseScope::Other);
    push_item(
        &mut out,
        "Close Other Tabs",
        id,
        TabAction::CloseTabs(TabCloseScope::Other),
        tab.pinned,
        other.len() == 0,
    );
    let left = project.closable_tabs(id, TabCloseScope::Left);
    push_item(
        &mut out,
        "Close Tabs to the Left",
        id,
        TabAction::CloseTabs(TabCloseScope::Left),
        false,
        left.len() == 0,
    );
    let right = project.closable_tabs(id, TabCloseScope::Right);
    push_item(
        &mut out,
        "Close Tabs to the Right",
        id,
        TabAction::CloseTabs(TabCloseScope::Right),
        false,
        right.len() == 0,
    );
    assert(items_view(out@) =~= start + menu_bulk(project.tabs@, id, *tab));
    assert(items_view(out@) =~= tab_menu(project.tabs@, id));
    out
}

/// The labels of a menu's items.
pub open spec fn menu_labels(m: Seq<(Seq<char>, TabAction, bool, bool)>) -> Seq<Seq<char>> {
    m.map_values(|x: (Seq<char>, TabAction, bool, bool)| x.0)
}

/// A tab's menu lists, in order: New Tab to the Left, New Tab to the Right, Rename Tab,
/// Reset Title where the tab has a title of its own, Set Tab Color…, Reset Tab Color where it
/// has a color, Unpin Tab or Pin Tab, Close Tab unless it is pinned, then Close Other Tabs,
/// Close Tabs to the Left and Close Tabs to the Right, each disabled exactly where it would
/// close no tab; a tab the project does not have gets no menu.
pub proof fn lemma_tab_menu_lists_its_items(tabs: Seq<Tab>, id: u64)
    ensures
        tab_index(tabs, id) < 0 ==> tab_menu(tabs, id).len() == 0,
        tab_index(tabs, id) >= 0 ==> {
            let t = tabs[tab_index(tabs, id)];
            let m = tab_menu(tabs, id);
            &&& menu_labels(m) == seq!["New Tab to the Left"@, "New Tab to the Right"@, "Rename Tab"@]
                + (if t.custom_title is Some { seq!["Reset Title"@] } else { Seq::empty() })
                + seq!["Set Tab Color…"@]
                + (if t.color is Some { seq!["Reset Tab Color"@] } else { Seq::empty() })
                + seq![if t.pinned { "Unpin Tab"@ } else { "Pin Tab"@ }]
                + (if !t.pinned { seq!["Close Tab"@] } else { Seq::empty() })
                + seq!["Close Other Tabs"@, "Close Tabs to the Left"@, "Close Tabs to the Right"@]
            &&& m[m.len() - 3].3 == (closable(tabs, id, TabCloseScope::Other).len() == 0)
            &&& m[m.len() - 2].3 == (closable(tabs, id, TabCloseScope::Left).len() == 0)
            &&& m[m.len() - 1].3 == (closable(tabs, id, TabCloseScope::Right).len() == 0)
        },
{
    let a = tab_index(tabs, id);
    if a >= 0 {
        let t = tabs[a];
        let m = tab_menu(tabs, id);
        let e = menu_edits(t);
        let p = menu_pin(t);
        let b = menu_bulk(tabs, id, t);
        assert(m == e + p + b);
        assert(menu_labels(e + p + b) =~= menu_labels(e) + menu_labels(p) + menu_labels(b));
        assert(menu_labels(e) =~= seq!["New Tab to the Left"@, "New Tab to the Right"@, "Rename Tab"@]
            + (if t.custom_title is Some { seq!["Reset Title"@] } else { Seq::empty() })
            + seq!["Set Tab Color…"@]
            + (if t.color is Some { seq!["Reset Tab Color"@] } else { Seq::empty() }));
        assert(menu_labels(p) =~= seq![if t.pinned { "Unpin Tab"@ } else { "Pin Tab"@ }]
            + (if !t.pinned { seq!["Close Tab"@] } else { Seq::empty() }));
        assert(menu_labels(b) =~= seq!["Close Other Tabs"@, "Close Tabs to the Left"@, "Close Tabs to the Right"@]);
        assert(m[m.len() - 3] == b[0]);
        assert(m[m.len() - 2] == b[1]);
        assert(m[m.len() - 1] == b[2]);
    }
}


/// Whether a menu item's action is the one its label names: each label of a tab's menu
/// stands for one action.
pub open spec fn action_agrees(x: (Seq<char>, TabAction, bool, bool)) -> bool {
    &&& x.0 == "New Tab to the Left"@ ==> x.1 == TabAction::New(TabSide::Left)
    &&& x.0 == "New Tab to the Right"@ ==> x.1 == TabAction::New(TabSide::Right)
    &&& x.0 == "Rename Tab"@ ==> x.1 == TabAction::Rename
    &&& x.0 == "Reset Title"@ ==> x.1 == TabAction::ResetTitle
    &&& x.0 == "Set Tab Color…"@ ==> x.1 == TabAction::Color
    &&& x.0 == "Reset Tab Color"@ ==> x.1 == TabAction::ResetColor
    &&& x.0 == "Pin Tab"@ ==> x.1 == TabAction::TogglePin
    &&& x.0 == "Unpin Tab"@ ==> x.1 == TabAction::TogglePin
    &&& x.0 == "Close Tab"@ ==> x.1 == TabAction::Close
    &&& x.0 == "Close Other Tabs"@ ==> x.1 == TabAction::CloseTabs(TabCloseScope::Other)
    &&& x.0 == "Close Tabs to the Left"@ ==> x.1 == TabAction::CloseTabs(TabCloseScope::Left)
    &&& x.0 == "Close Tabs to the Right"@ ==> x.1 == TabAction::CloseTabs(TabCloseScope::Right)
}

/// The labels of a tab's menu differ from one another.
proof fn lemma_menu_labels_differ()
    ensures
        "New Tab to the Left"@ != "New Tab to the Right"@,
        "New Tab to the Left"@ != "Rename Tab"@,
        "New Tab to the Left"@ != "Reset Title"@,
        "New Tab to the Left"@ != "Set Tab Color…"@,
        "New Tab to the Left"@ != "Reset Tab Color"@,
        "New Tab to the Left"@ != "Pin Tab"@,
        "New Tab to the Left"@ != "Unpin Tab"@,
        "New Tab to the Left"@ != "Close Tab"@,
        "New Tab to the Left"@ != "Close Other Tabs"@,
        "New Tab to the Left"@ != "Close Tabs to the Left"@,
        "New Tab to the Left"@ != "Close Tabs to the Right"@,
        "New Tab to the Right"@ != "Rename Tab"@,
        "New Tab to the Right"@ != "Reset Title"@,
        "New Tab to the Right"@ != "Set Tab Color…"@,
        "New Tab to the Right"@ != "Reset Tab Color"@,
        "New Tab to the Right"@ != "Pin Tab"@,
        "New Tab to the Right"@ != "Unpin Tab"@,
        "New Tab to the Right"@ != "Close Tab"@,
        "New Tab to the Right"@ != "Close Other Tabs"@,
        "New Tab to the Right"@ != "Close Tabs to the Left"@,
        "New Tab to the Right"@ != "Close Tabs to the Right"@,
        "Rename Tab"@ != "Reset Title"@,
        "Rename Tab"@ != "Set Tab Color…"@,
        "Rename Tab"@ != "Reset Tab Color"@,
        "Rename Tab"@ != "Pin Tab"@,
        "Rename Tab"@ != "Unpin Tab"@,
        "Rename Tab"@ != "Close Tab"@,
        "Rename Tab"@ != "Close Other Tabs"@,
        "Rename Tab"@ != "Close Tabs to the Left"@,
        "Rename Tab"@ != "Close Tabs to the Right"@,
        "Reset Title"@ != "Set Tab Color…"@,
        "Reset Title"@ != "Reset Tab Color"@,
        "Reset Title"@ != "Pin Tab"@,
        "Reset Title"@ != "Unpin Tab"@,
        "Reset Title"@ != "Close Tab"@,
        "Reset Title"@ != "Close Other Tabs"@,
        "Reset Title"@ != "Close Tabs to the Left"@,
        "Reset Title"@ != "Close Tabs to the Right"@,
        "Set Tab Color…"@ != "Reset Tab Color"@,
        "Set Tab Color…"@ != "Pin Tab"@,
        "Set Tab Color…"@ != "Unpin Tab"@,
        "Set Tab Color…"@ != "Close Tab"@,
        "Set Tab Color…"@ != "Close Other Tabs"@,
        "Set Tab Color…"@ != "Close Tabs to the Left"@,
        "Set Tab Color…"@ != "Close Tabs to the Right"@,
        "Reset Tab Color"@ != "Pin Tab"@,
        "Reset Tab Color"@ != "Unpin Tab"@,
        "Reset Tab Color"@ != "Close Tab"@,
        "Reset Tab Color"@ != "Close Other Tabs"@,
        "Reset Tab Color"@ != "Close Tabs to the Left"@,
        "Reset Tab Color"@ != "Close Tabs to the Right"@,
        "Pin Tab"@ != "Unpin Tab"@,
        "Pin Tab"@ != "Close Tab"@,
        "Pin Tab"@ != "Close Other Tabs"@,
        "Pin Tab"@ != "Close Tabs to the Left"@,
        "Pin Tab"@ != "Close Tabs to the Right"@,
        "Unpin Tab"@ != "Close Tab"@,
        "Unpin Tab"@ != "Close Other Tabs"@,
        "Unpin Tab"@ != "Close Tabs to the Left"@,
        "Unpin Tab"@ != "Close Tabs to the Right"@,
        "Close Tab"@ != "Close Other Tabs"@,
        "Close Tab"@ != "Close Tabs to the Left"@,
        "Close Tab"@ != "Close Tabs to the Right"@,
        "Close Other Tabs"@ != "Close Tabs to the Left"@,
        "Close Other Tabs"@ != "Close Tabs to the Right"@,
        "Close Tabs to the Left"@ != "Close Tabs to the Right"@,
{
    reveal_strlit("New Tab to the Left");
    reveal_strlit("New Tab to the Right");
    reveal_strlit("Rename Tab");
    reveal_strlit("Reset Title");
    reveal_strlit("Set Tab Color…");
    reveal_strlit("Reset Tab Color");
    reveal_strlit("Pin Tab");
    reveal_strlit("Unpin Tab");
    reveal_strlit("Close Tab");
    reveal_strlit("Close Other Tabs");
    reveal_strlit("Close Tabs to the Left");
    reveal_strlit("Close Tabs to the Right");
    assert("New Tab to the Left"@.len() != "New Tab to the Right"@.len());
    assert("New Tab to the Left"@.len() != "Rename Tab"@.len());
    assert("New Tab to the Left"@.len() != "Reset Title"@.len());
    assert("New Tab to the Left"@.len() != "Set Tab Color…"@.len());
    assert("New Tab to the Left"@.len() != "Reset Tab Color"@.len());
    assert("New Tab to the Left"@.len() != "Pin Tab"@.len());
    assert("New Tab to the Left"@.len() != "Unpin Tab"@.len());
    assert("New Tab to the Left"@.len() != "Close Tab"@.len());
    assert("New Tab to the Left"@.len() != "Close Other Tabs"@.len());
    assert("New Tab to the Left"@.len() != "Close Tabs to the Left"@.len());
    assert("New Tab to the Left"@.len() != "Close Tabs to the Right"@.len());
    assert("New Tab to the Right"@.len() != "Rename Tab"@.len());
    assert("New Tab to the Right"@.len() != "Reset Title"@.len());
    assert("New Tab to the Right"@.len() != "Set Tab Color…"@.len());
    assert("New Tab to the Right"@.len() != "Reset Tab Color"@.len());
    assert("New Tab to the Right"@.len() != "Pin Tab"@.len());
    assert("New Tab to the Right"@.len() != "Unpin Tab"@.len());
    assert("New Tab to the Right"@.len() != "Close Tab"@.len());
    assert("New Tab to the Right"@.len() != "Close Other Tabs"@.len());
    assert("New Tab to the Right"@.len() != "Close Tabs to the Left"@.len());
    assert("New Tab to the Right"@.len() != "Close Tabs to the Right"@.len());
    assert("Rename Tab"@.len() != "Reset Title"@.len());
    assert("Rename Tab"@.len() != "Set Tab Color…"@.len());
    assert("Rename Tab"@.len() != "Reset Tab Color"@.len());
    assert("Rename Tab"@.len() != "Pin Tab"@.len());
    assert("Rename Tab"@.len() != "Unpin Tab"@.len());
    assert("Rename Tab"@.len() != "Close Tab"@.len());
    assert("Rename Tab"@.len() != "Close Other Tabs"@.len());
    assert("Rename Tab"@.len() != "Close Tabs to the Left"@.len());
    assert("Rename Tab"@.len() != "Close Tabs to the Right"@.len());
    assert("Reset Title"@.len() != "Set Tab Color…"@.len());
    assert("Reset Title"@.len() != "Reset Tab Color"@.len());
    assert("Reset Title"@.len() != "Pin Tab"@.len());
    assert("Reset Title"@.len() != "Unpin Tab"@.len());
    assert("Reset Title"@.len() != "Close Tab"@.len());
    assert("Reset Title"@.len() != "Close Other Tabs"@.len());
    assert("Reset Title"@.len() != "Close Tabs to the Left"@.len());
    assert("Reset Title"@.len() != "Close Tabs to the Right"@.len());
    assert("Set Tab Color…"@.len() != "Reset Tab Color"@.len());
    assert("Set Tab Color…"@.len() != "Pin Tab"@.len());
    assert("Set Tab Color…"@.len() != "Unpin Tab"@.len());
    assert("Set Tab Color…"@.len() != "Close Tab"@.len());
    assert("Set Tab Color…"@.len() != "Close Other Tabs"@.len());
    assert("Set Tab Color…"@.len() != "Close Tabs to the Left"@.len());
    assert("Set Tab Color…"@.len() != "Close Tabs to the Right"@.len());
    assert("Reset Tab Color"@.len() != "Pin Tab"@.len());
    assert("Reset Tab Color"@.len() != "Unpin Tab"@.len());
    assert("Reset Tab Color"@.len() != "Close Tab"@.len());
    assert("Reset Tab Color"@.len() != "Close Other Tabs"@.len());
    assert("Reset Tab Color"@.len() != "Close Tabs to the Left"@.len());
    assert("Reset Tab Color"@.len() != "Close Tabs to the Right"@.len());
    assert("Pin Tab"@.len() != "Unpin Tab"@.len());
    assert("Pin Tab"@.len() != "Close Tab"@.len());
    assert("Pin Tab"@.len() != "Close Other Tabs"@.len());
    assert("Pin Tab"@.len() != "Close Tabs to the Left"@.len());
    assert("Pin Tab"@.len() != "Close Tabs to the Right"@.len());
    assert("Unpin Tab"@[0] != "Close Tab"@[0]);
    assert("Unpin Tab"@.len() != "Close Other Tabs"@.len());
    assert("Unpin Tab"@.len() != "Close Tabs to the Left"@.len());
    assert("Unpin Tab"@.len() != "Close Tabs to the Right"@.len());
    assert("Close Tab"@.len() != "Close Other Tabs"@.len());
    assert("Close Tab"@.len() != "Close Tabs to the Left"@.len());
    assert("Close Tab"@.len() != "Close Tabs to the Right"@.len());
    assert("Close Other Tabs"@.len() != "Close Tabs to the Left"@.len());
    assert("Close Other Tabs"@.len() != "Close Tabs to the Right"@.len());
    assert("Close Tabs to the Left"@.len() != "Close Tabs to the Right"@.len());
}

/// Every item of a tab's menu does what its label says: New Tab to the Left opens a tab on
/// the left, New Tab to the Right on the right, Rename Tab renames, Reset Title and Reset Tab
/// Color reset, Set Tab Color… colors, Pin Tab and Unpin Tab toggle the pin, Close Tab closes
/// the tab, and Close Other Tabs, Close Tabs to the Left and Close Tabs to the Right close the
/// tabs of that scope.
pub proof fn lemma_menu_items_do_what_they_say(tabs: Seq<Tab>, id: u64)
    ensures
        forall|k: int| 0 <= k < tab_menu(tabs, id).len() ==> action_agrees(#[trigger] tab_menu(tabs, id)[k]),
{
    lemma_menu_labels_differ();
    let a = tab_index(tabs, id);
    if a >= 0 {
        let t = tabs[a];
        let e = menu_edits(t);
        let p = menu_pin(t);
        let b = menu_bulk(tabs, id, t);
        let m = tab_menu(tabs, id);
        assert(m == e + p + b);
        assert forall|k: int| 0 <= k < e.len() implies action_agrees(#[trigger] e[k]) by {
            let e1 = seq![
                ("New Tab to the Left"@, TabAction::New(TabSide::Left), false, false),
                ("New Tab to the Right"@, TabAction::New(TabSide::Right), false, false),
                ("Rename Tab"@, TabAction::Rename, true, false),
            ];
            let e2: Seq<(Seq<char>, TabAction, bool, bool)> = if t.custom_title is Some {
                seq![("Reset Title"@, TabAction::ResetTitle, false, false)]
            } else {
                Seq::empty()
            };
            let e3 = seq![("Set Tab Color…"@, TabAction::Color, false, false)];
            let e4: Seq<(Seq<char>, TabAction, bool, bool)> = if t.color is Some {
                seq![("Reset Tab Color"@, TabAction::ResetColor, false, false)]
            } else {
                Seq::empty()
            };
            assert(e == e1 + e2 + e3 + e4);
            if k < 3 {
                assert(e[k] == e1[k]);
            } else if k < 3 + e2.len() {
                assert(e[k] == e2[k - 3]);
            } else if k < 3 + e2.len() + 1 {
                assert(e[k] == e3[0]);
            } else {
                assert(e[k] == e4[k - 4 - e2.len()]);
            }
        }
        assert forall|k: int| 0 <= k < p.len() implies action_agrees(#[trigger] p[k]) by {
            if k == 0 {
                assert(p[0].1 == TabAction::TogglePin);
            } else {
                assert(p[k] == ("Close Tab"@, TabAction::Close, true, false));
            }
        }
        assert forall|k: int| 0 <= k < b.len() implies action_agrees(#[trigger] b[k]) by {}
        assert forall|k: int| 0 <= k < m.len() implies action_agrees(#[trigger] m[k]) by {
            if k < e.len() {
                assert(m[k] == e[k]);
            } else if k < e.len() + p.len() {
                assert(m[k] == p[k - e.len()]);
            } else {
                assert(m[k] == b[k - e.len() - p.len()]);
            }
        }
    }
}

/// A session of a project that the server keeps, and whether a client shows it.
#[derive(Clone, Copy, Debug, PartialEq, Eq)]
pub struct SessionEntry {
    pub id: u64,
    pub attached: bool,
}

/// The sessions the server listed for a project.
#[derive(Clone, Debug, PartialEq, Eq)]
pub struct SessionListing {
    pub project: u64,
    pub entries: Vec<SessionEntry>,
}

/// What the application decides from: whether it quits, the prepared update (its version)
/// and whether updates are being checked, the server's settings, the projects and the
/// current one, the panes on screen, the Quick Terminal's pane, visibility and shortcut, the
/// sessions that panes show, and the sessions the server listed per project.
pub struct AppModel {
    pub quitting: Quitting,
    pub update_ready: Option<String>,
    pub update_checking: bool,
    pub update_scheduled: bool,
    pub update_sessions: usize,
    pub update_reconnect_failed: bool,
    pub server_preferences: ServerPreferences,
    pub projects: Vec<Project>,
    pub current_project: u64,
    pub visible_panes: Vec<u64>,
    pub quick_pane: Option<u64>,
    pub quick_visible: bool,
    pub quick_shortcut: QuickTerminalShortcut,
    pub session_references: Vec<u64>,
    /// The sessions the server listed, one listing per project (`one_listing_per_project`).
    pub existing_sessions: Vec<SessionListing>,
}

/// How many terminal sessions an update waits for: "1 terminal session", or the number and
/// "terminal sessions".
pub open spec fn sessions_text(n: nat) -> Seq<char> {
    dec_chars(n) + if n == 1 {
        " terminal session"@
    } else {
        " terminal sessions"@
    }
}

/// The status line of updates: installing while quitting for an update; then, with an update
/// ready, an offer to retry where reconnecting to the server after an update failed, else the
/// sessions a scheduled update waits for, naming how many, else the prepared update; then a
/// check under way.
pub open spec fn update_text(
    quitting: Quitting,
    ready: bool,
    checking: bool,
    scheduled: bool,
    sessions: nat,
    reconnect_failed: bool,
) -> Option<Seq<char>> {
    if quitting == Quitting::Update {
        Some("Installing update…"@)
    } else if ready && reconnect_failed {
        Some("Could not reconnect after the update — Retry…"@)
    } else if ready && scheduled {
        Some("Update waits for "@ + sessions_text(sessions) + " to end"@)
    } else if ready {
        Some("Restart to Update…"@)
    } else if checking {
        Some("Checking for updates…"@)
    } else {
        None
    }
}

/// Without an update ready, the status line only tells of installing or of a check under way:
/// installing while quitting for an update, else checking where a check runs, else nothing.
pub proof fn lemma_status_without_a_ready_update(
    quitting: Quitting,
    ready: bool,
    checking: bool,
    scheduled: bool,
    sessions: nat,
    reconnect_failed: bool,
)
    requires
        quitting == Quitting::Update || !ready,
    ensures
        update_text(quitting, ready, checking, scheduled, sessions, reconnect_failed) == if quitting
            == Quitting::Update {
            Some("Installing update…"@)
        } else if checking {
            Some("Checking for updates…"@)
        } else {
            None
        },
{
}

/// The rows whose server settings are not settled: those of the waiting changes, and the row
/// of the operation under way.
pub open spec fn pending_rows(p: ServerPreferences) -> Set<Seq<char>> {
    let waiting = change_keys(p.pending@).to_set();
    if p.busy {
        waiting.insert(p.row@)
    } else {
        waiting
    }
}

/// Whether `out` holds `key`.
fn holds(out: &Vec<String>, key: &str) -> (r: bool)
    ensures
        r == strings(out@).contains(key@),
{
    let mut i: usize = 0;
    while i < out.len()
        invariant
            i <= out@.len(),
            forall|j: int| 0 <= j < i ==> strings(out@)[j] != key@,
        decreases out@.len() - i,
    {
        if str_eq(out[i].as_str(), key) {
            assert(strings(out@)[i as int] == key@);
            return true;
        }
        i = i + 1;
    }
    false
}

/// Adds `key` unless `out` holds it.
fn add_row(out: &mut Vec<String>, key: &str)
    requires
        strings(old(out)@).no_duplicates(),
    ensures
        strings(final(out)@).no_duplicates(),
        strings(final(out)@).to_set() == strings(old(out)@).to_set().insert(key@),
{
    let ghost before = strings(out@);
    if !holds(out, key) {
        out.push(key.to_owned());
        assert(strings(out@) =~= before.push(key@));
        assert(before.push(key@) =~= before + seq![key@]);
        proof {
            Seq::lemma_to_set_insert_commutes(before, key@);
        }
    } else {
        assert(before.to_set().insert(key@) =~= before.to_set());
    }
}

/// Whether `v` holds `x`.
fn contains_id(v: &Vec<u64>, x: u64) -> (r: bool)
    ensures
        r == v@.contains(x),
{
    let mut i: usize = 0;
    while i < v.len()
        invariant
            i <= v@.len(),
            forall|j: int| 0 <= j < i ==> v@[j] != x,
        decreases v@.len() - i,
    {
        if v[i] == x {
            return true;
        }
        i = i + 1;
    }
    false
}

/// The index of the first listing of `project`, or -1.
pub open spec fn listing_index(l: Seq<SessionListing>, project: u64) -> int {
    if exists|k: int| 0 <= k < l.len() && l[k].project == project && forall|j: int|
        0 <= j < k ==> l[j].project != project {
        choose|k: int|
            0 <= k < l.len() && l[k].project == project && forall|j: int|
                0 <= j < k ==> l[j].project != project
    } else {
        -1
    }
}

/// The first listing of a project is at the index before which none is of that project.
proof fn lemma_listing_index(l: Seq<SessionListing>, project: u64, k: int)
    requires
        0 <= k < l.len(),
        l[k].project == project,
        forall|j: int| 0 <= j < k ==> l[j].project != project,
    ensures
        listing_index(l, project) == k,
{
    let c = listing_index(l, project);
    assert(0 <= k < l.len() && l[k].project == project && forall|j: int|
        0 <= j < k ==> l[j].project != project);
    if c < k {
        assert(l[c].project != project);
    }
    if c > k {
        assert(l[k].project != project);
    }
}

/// The listings hold at most one per project: they stand for a map from projects to their
/// sessions.
pub open spec fn one_listing_per_project(l: Seq<SessionListing>) -> bool {
    forall|i: int, j: int| 0 <= i < j < l.len() ==> l[i].project != l[j].project
}

/// Where each project has at most one listing, the listing found for a project is its only
/// one: the listings read as a map from projects to sessions.
pub proof fn lemma_the_listing_of_a_project_is_its_only_one(l: Seq<SessionListing>, project: u64, k: int)
    requires
        one_listing_per_project(l),
        0 <= k < l.len(),
        l[k].project == project,
    ensures
        listing_index(l, project) == k,
{
    assert forall|j: int| 0 <= j < k implies l[j].project != project by {
        assert(l[j].project != l[k].project);
    }
    lemma_listing_index(l, project, k);
}

/// Whether a listed session can be opened again: no pane shows it and no client has it.
pub open spec fn reusable(e: SessionEntry, references: Seq<u64>) -> bool {
    !references.contains(e.id) && !e.attached
}

/// The number of the first `n` entries that can be opened again.
pub open spec fn reusable_count(entries: Seq<SessionEntry>, references: Seq<u64>, n: int) -> nat
    decreases n,
{
    if n <= 0 {
        0
    } else {
        reusable_count(entries, references, n - 1) + if reusable(entries[n - 1], references) {
            1nat
        } else {
            0nat
        }
    }
}

impl AppModel {
    /// The status line of updates, as `update_text` says.
    pub fn update_status(&self) -> (r: Option<String>)
        ensures
            match update_text(
                self.quitting,
                self.update_ready is Some,
                self.update_checking,
                self.update_scheduled,
                self.update_sessions as nat,
                self.update_reconnect_failed,
            ) {
                Some(t) => r matches Some(s) && s@ == t,
                None => r is None,
            },
    {
        if self.quitting == Quitting::Update {
            Some(String::from_str("Installing update…"))
        } else if self.update_ready.is_some() && self.update_reconnect_failed {
            Some(String::from_str("Could not reconnect after the update — Retry…"))
        } else if self.update_ready.is_some() && self.update_scheduled {
            let mut text = String::from_str("Update waits for ");
            append_decimal(&mut text, self.update_sessions as u64);
            if self.update_sessions == 1 {
                text.append(" terminal session");
            } else {
                text.append(" terminal sessions");
            }
            text.append(" to end");
            Some(text)
        } else if self.update_ready.is_some() {
            Some(String::from_str("Restart to Update…"))
        } else if self.update_checking {
            Some(String::from_str("Checking for updates…"))
        } else {
            None
        }
    }

    /// The end of reconnecting to the server after an update: a failure is offered for retry
    /// in the status line; a success, or a new attempt, clears that offer.
    pub fn reconnect_after_update_ended(&mut self, result: Result<(), String>)
        ensures
            final(self).update_reconnect_failed == result is Err,
            final(self).update_ready == old(self).update_ready,
            final(self).quitting == old(self).quitting,
            final(self).update_scheduled == old(self).update_scheduled,
            final(self).update_sessions == old(self).update_sessions,
            final(self).update_checking == old(self).update_checking,
    {
        self.update_reconnect_failed = result.is_err();
    }

    /// The rows whose server settings are not settled, each once.
    pub fn pending_server_fields(&self) -> (r: Vec<String>)
        ensures
            strings(r@).no_duplicates(),
            strings(r@).to_set() == pending_rows(self.server_preferences),
    {
        let pending = &self.server_preferences.pending;
        let mut out: Vec<String> = Vec::new();
        let mut i: usize = 0;
        assert(strings(out@).to_set() =~= change_keys(pending@.take(0)).to_set());
        while i < pending.len()
            invariant
                i <= pending@.len(),
                strings(out@).no_duplicates(),
                strings(out@).to_set() == change_keys(pending@.take(i as int)).to_set(),
            decreases pending@.len() - i,
        {
            add_row(&mut out, change_id(&pending[i]));
            assert(change_keys(pending@.take(i + 1)) =~= change_keys(pending@.take(i as int)).push(
                change_key(pending@[i as int]),
            ));
            proof {
                let prev = change_keys(pending@.take(i as int));
                assert(prev.push(change_key(pending@[i as int])) =~= prev + seq![change_key(pending@[i as int])]);
                Seq::lemma_to_set_insert_commutes(prev, change_key(pending@[i as int]));
            }
            i = i + 1;
        }
        assert(pending@.take(pending@.len() as int) =~= pending@);
        if self.server_preferences.busy {
            add_row(&mut out, self.server_preferences.row.as_str());
        }
        out
    }

    /// Whether `pane` is the Quick Terminal's pane.
    pub fn is_quick_terminal(&self, pane: u64) -> (r: bool)
        ensures
            r == (self.quick_pane == Some(pane)),
    {
        match self.quick_pane {
            Some(quick) => quick == pane,
            None => false,
        }
    }

    /// The panes whose sessions are shown: those on screen, then the Quick Terminal's while
    /// it is visible.
    pub fn attached_panes(&self) -> (r: Vec<u64>)
        ensures
            r@ == (match self.quick_pane {
                Some(q) if self.quick_visible => self.visible_panes@.push(q),
                _ => self.visible_panes@,
            }),
    {
        let mut panes = self.visible_panes.clone();
        if self.quick_visible {
            if let Some(quick) = self.quick_pane {
                panes.push(quick);
            }
        }
        panes
    }

    /// Refuses a keymap chord that conflicts with the Quick Terminal's key combination.
    pub fn validate_quick_conflict(&self, chord: &str) -> (r: Result<(), String>)
        ensures
            match (chord_combo(chord@), self.quick_shortcut) {
                (Some(c), QuickTerminalShortcut::KeyCombo { key_combo, .. }) if combos_conflict(
                    key_combo.parts(),
                    c,
                ) => r matches Err(e) && e@ == "Shortcut conflicts with Quick Terminal"@,
                _ => r is Ok,
            },
            r is Err ==> (chord_combo(chord@) matches Some(c) && self.quick_shortcut matches QuickTerminalShortcut::KeyCombo { key_combo, .. }
                && key_combo.key@ == c.0 && key_combo.modifiers == c.1),
    {
        if let Some(combo) = combo_from_chord(chord) {
            if let Some(quick) = self.quick_shortcut.key_combo() {
                if quick.conflicts_with(&combo) {
                    return Err(String::from_str("Shortcut conflicts with Quick Terminal"));
                }
            }
        }
        Ok(())
    }

    /// The tab `id`: the first such tab of the first project that has one.
    pub fn tab(&self, id: u64) -> (r: Option<&Tab>)
        ensures
            match r {
                Some(t) => exists|i: int|
                    0 <= i < self.projects@.len() && tab_index(self.projects@[i].tabs@, id) >= 0
                        && *t == self.projects@[i].tabs@[tab_index(self.projects@[i].tabs@, id)]
                        && forall|k: int| 0 <= k < i ==> tab_index(#[trigger] self.projects@[k].tabs@, id) < 0,
                None => forall|k: int|
                    0 <= k < self.projects@.len() ==> tab_index(#[trigger] self.projects@[k].tabs@, id) < 0,
            },
    {
        let mut i: usize = 0;
        while i < self.projects.len()
            invariant
                i <= self.projects@.len(),
                forall|k: int| 0 <= k < i ==> tab_index(#[trigger] self.projects@[k].tabs@, id) < 0,
            decreases self.projects@.len() - i,
        {
            if let Some(j) = find_tab(&self.projects[i].tabs, id) {
                return Some(&self.projects[i].tabs[j]);
            }
            i = i + 1;
        }
        None
    }

    /// The number of sessions of the current project that can be opened again: those the
    /// server listed that no pane shows and no client has.
    pub fn existing_terminal_count(&self) -> (r: usize)
        ensures
            r == (if listing_index(self.existing_sessions@, self.current_project) < 0 {
                0
            } else {
                let l = self.existing_sessions@[listing_index(self.existing_sessions@, self.current_project)];
                reusable_count(l.entries@, self.session_references@, l.entries@.len() as int)
            }),
    {
        let listings = &self.existing_sessions;
        let mut i: usize = 0;
        while i < listings.len()
            invariant
                i <= listings@.len(),
                listings@ == self.existing_sessions@,
                forall|j: int| 0 <= j < i ==> listings@[j].project != self.current_project,
            decreases listings@.len() - i,
        {
            if listings[i].project == self.current_project {
                proof {
                    lemma_listing_index(self.existing_sessions@, self.current_project, i as int);
                }
                let entries = &listings[i].entries;
                let mut count: usize = 0;
                let mut j: usize = 0;
                while j < entries.len()
                    invariant
                        j <= entries@.len(),
                        i < listings@.len(),
                        listing_index(self.existing_sessions@, self.current_project) == i,
                        entries@ == listings@[i as int].entries@,
                        count == reusable_count(entries@, self.session_references@, j as int),
                        count <= j,
                    decreases entries@.len() - j,
                {
                    if !contains_id(&self.session_references, entries[j].id) && !entries[j].attached {
                        count = count + 1;
                    }
                    j = j + 1;
                }
                return count;
            }
            i = i + 1;
        }
        0
    }
}

/// The tabs that a bulk close takes are tabs of the project, other than the one it was asked
/// around, and not pinned.
pub proof fn lemma_bulk_close_spares_pinned_tabs(tabs: Seq<Tab>, anchor: u64, scope: TabCloseScope)
    ensures
        forall|k: int|
            0 <= k < closable(tabs, anchor, scope).len() ==> exists|j: int|
                0 <= j < tabs.len() && j != tab_index(tabs, anchor) && !tabs[j].pinned && tabs[j].id
                    == #[trigger] closable(tabs, anchor, scope)[k],
{
    let a = tab_index(tabs, anchor);
    if a >= 0 {
        lemma_closable_prefix(tabs, a, scope, tabs.len() as int);
    }
}

/// A bulk close takes every unpinned tab of its scope: close other tabs every unpinned tab but
/// the one asked around, close tabs to the left those before it, close tabs to the right those
/// after it; around a tab the project does not have it takes nothing.
pub proof fn lemma_bulk_close_takes_every_unpinned_tab_of_its_scope(tabs: Seq<Tab>, anchor: u64, scope: TabCloseScope)
    ensures
        tab_index(tabs, anchor) < 0 ==> closable(tabs, anchor, scope).len() == 0,
        tab_index(tabs, anchor) >= 0 ==> forall|j: int|
            0 <= j < tabs.len() && !tabs[j].pinned && in_scope(j, tab_index(tabs, anchor), scope)
                ==> closable(tabs, anchor, scope).contains(#[trigger] tabs[j].id),
{
    let a = tab_index(tabs, anchor);
    if a >= 0 {
        lemma_closable_prefix_complete(tabs, a, scope, tabs.len() as int);
    }
}

/// Every unpinned tab of the scope among the first `n` is in the prefix.
proof fn lemma_closable_prefix_complete(tabs: Seq<Tab>, a: int, scope: TabCloseScope, n: int)
    requires
        n <= tabs.len(),
    ensures
        forall|j: int| 0 <= j < n && !tabs[j].pinned && in_scope(j, a, scope)
            ==> closable_prefix(tabs, a, scope, n).contains(#[trigger] tabs[j].id),
    decreases n,
{
    if n > 0 {
        lemma_closable_prefix_complete(tabs, a, scope, n - 1);
        let rest = closable_prefix(tabs, a, scope, n - 1);
        let c = closable_prefix(tabs, a, scope, n);
        assert forall|j: int| 0 <= j < n && !tabs[j].pinned && in_scope(j, a, scope)
            implies c.contains(#[trigger] tabs[j].id) by {
            if j < n - 1 {
                let w = choose|w: int| 0 <= w < rest.len() && rest[w] == tabs[j].id;
                if in_scope(n - 1, a, scope) && !tabs[n - 1].pinned {
                    assert(c[w] == tabs[j].id);
                }
            } else {
                assert(in_scope(j, a, scope));
                assert(c[rest.len() as int] == tabs[j].id);
            }
        }
    }
}

/// Each tab of a bulk close's prefix is one of the scope and not pinned.
proof fn lemma_closable_prefix(tabs: Seq<Tab>, a: int, scope: TabCloseScope, n: int)
    requires
        n <= tabs.len(),
    ensures
        forall|k: int|
            0 <= k < closable_prefix(tabs, a, scope, n).len() ==> exists|j: int|
                0 <= j < n && j != a && in_scope(j, a, scope) && !tabs[j].pinned && tabs[j].id
                    == #[trigger] closable_prefix(tabs, a, scope, n)[k],
    decreases n,
{
    if n > 0 {
        lemma_closable_prefix(tabs, a, scope, n - 1);
        let rest = closable_prefix(tabs, a, scope, n - 1);
        assert forall|k: int|
            0 <= k < closable_prefix(tabs, a, scope, n).len() implies exists|j: int|
                0 <= j < n && j != a && in_scope(j, a, scope) && !tabs[j].pinned && tabs[j].id
                    == #[trigger] closable_prefix(tabs, a, scope, n)[k] by {
            if k < rest.len() {
                assert(closable_prefix(tabs, a, scope, n)[k] == rest[k]);
                let j = choose|j: int|
                    0 <= j < n - 1 && j != a && in_scope(j, a, scope) && !tabs[j].pinned
                        && tabs[j].id == #[trigger] rest[k];
                assert(0 <= j < n);
            } else {
                assert(tabs[n - 1].id == closable_prefix(tabs, a, scope, n)[k]);
                assert(n - 1 != a);
            }
        }
    }
}

} // verus!
