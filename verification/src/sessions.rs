//! The listing of a project's sessions that panes may open again: when to ask the server for
//! it, what its picker shows, and which rows a filter keeps.

use vstd::prelude::*;

use crate::search::{contains_text, find_text, lowercase, to_lowercase};
use crate::text::{append_decimal, chars_of, dec_chars};

verus! {

broadcast use vstd::string::group_string_axioms;

/// What the app holds of a project's sessions: the entries the server listed, the revision
/// of the sessions they reflect, whether a request is under way, and the error of the last
/// request, if it failed.
pub struct ListingState<E> {
    pub entries: Vec<E>,
    pub revision: Option<u64>,
    pub pending: bool,
    pub error: Option<String>,
}

/// Whether a listing that reflects `revision`, with a request under way or not, is asked for
/// again while the sessions are at revision `current`: only where no request is under way and
/// the listing is older.
pub open spec fn wants_listing(revision: Option<u64>, pending: bool, current: u64) -> bool {
    !pending && !(revision matches Some(v) && v >= current)
}

impl<E> ListingState<E> {
    /// No entries, no revision, no request, no error.
    pub fn new() -> (r: Self)
        ensures
            r.entries@.len() == 0,
            r.revision is None,
            !r.pending,
            r.error is None,
    {
        ListingState { entries: Vec::new(), revision: None, pending: false, error: None }
    }

    /// Whether to ask the server for this listing, as `wants_listing` says.
    pub fn needs_request(&self, current: u64) -> (r: bool)
        ensures
            r == wants_listing(self.revision, self.pending, current),
    {
        if self.pending {
            return false;
        }
        match self.revision {
            Some(v) => v < current,
            None => true,
        }
    }

    /// A request for the listing was sent: it is under way, and the last error is forgotten.
    pub fn requested(&mut self)
        ensures
            final(self).pending,
            final(self).error is None,
            final(self).revision == old(self).revision,
            final(self).entries@ == old(self).entries@,
    {
        self.pending = true;
        self.error = None;
    }

    /// The server's answer, its entries and their revision or an error, while the sessions
    /// are at revision `current`: the request is over; entries replace the listing; an error
    /// empties it, is kept, and marks the listing as current so that it is not asked for again
    /// until the sessions change.
    pub fn received(&mut self, result: Result<(Vec<E>, u64), String>, current: u64)
        ensures
            !final(self).pending,
            match result {
                Ok((entries, revision)) => {
                    &&& final(self).entries@ == entries@
                    &&& final(self).revision == Some(revision)
                    &&& final(self).error is None
                },
                Err(e) => {
                    &&& final(self).entries@.len() == 0
                    &&& final(self).revision == Some(current)
                    &&& final(self).error matches Some(m) && m@ == e@
                },
            },
    {
        self.pending = false;
        match result {
            Ok((entries, revision)) => {
                self.entries = entries;
                self.revision = Some(revision);
                self.error = None;
            },
            Err(error) => {
                self.entries = Vec::new();
                self.revision = Some(current);
                self.error = Some(error);
            },
        }
    }
}

/// What the picker of existing sessions shows besides its rows.
#[derive(Clone, Debug, PartialEq, Eq)]
pub enum PickerStatus {
    Error(String),
    Loading(String),
    Empty(String),
    Ready,
}

/// A picker status with text as characters.
pub enum PickerStatusView {
    Error(Seq<char>),
    Loading(Seq<char>),
    Empty(Seq<char>),
    Ready,
}

/// The view of a picker status.
pub open spec fn picker_status_view(s: PickerStatus) -> PickerStatusView {
    match s {
        PickerStatus::Error(m) => PickerStatusView::Error(m@),
        PickerStatus::Loading(m) => PickerStatusView::Loading(m@),
        PickerStatus::Empty(m) => PickerStatusView::Empty(m@),
        PickerStatus::Ready => PickerStatusView::Ready,
    }
}

/// The picker's status: without a connection ready to list sessions, it asks to reconnect;
/// the listing's error is shown; a listing never received and asked for is loading; without
/// rows it says why; otherwise it is ready.
pub open spec fn picker_status_of(
    ready: bool,
    listing: Option<(Option<u64>, bool, Option<Seq<char>>)>,
    no_rows: bool,
    no_query: bool,
) -> PickerStatusView {
    if !ready {
        PickerStatusView::Error("Reconnect to see existing terminals"@)
    } else {
        match listing {
            None => PickerStatusView::Loading("Loading terminals…"@),
            Some((revision, pending, error)) => match error {
                Some(e) => PickerStatusView::Error(e),
                None => if revision is None && pending {
                    PickerStatusView::Loading("Loading terminals…"@)
                } else if no_rows {
                    PickerStatusView::Empty(
                        if no_query {
                            "No other terminals in this project"@
                        } else {
                            "No matching terminals"@
                        },
                    )
                } else {
                    PickerStatusView::Ready
                },
            },
        }
    }
}

/// The revision, request and error of a listing, with the error as characters.
pub open spec fn listing_summary<E>(l: ListingState<E>) -> (Option<u64>, bool, Option<Seq<char>>) {
    (l.revision, l.pending, match l.error {
        Some(e) => Some(e@),
        None => None,
    })
}

/// The picker's status, as `picker_status_of` says.
pub fn picker_status<E>(ready: bool, listing: Option<&ListingState<E>>, no_rows: bool, no_query: bool) -> (r: PickerStatus)
    ensures
        picker_status_view(r) == picker_status_of(
            ready,
            match listing {
                Some(l) => Some(listing_summary(*l)),
                None => None,
            },
            no_rows,
            no_query,
        ),
{
    if !ready {
        return PickerStatus::Error(String::from_str("Reconnect to see existing terminals"));
    }
    if let Some(l) = listing {
        if let Some(e) = &l.error {
            return PickerStatus::Error(e.clone());
        }
    }
    let loading = match listing {
        None => true,
        Some(l) => l.revision.is_none() && l.pending,
    };
    if loading {
        PickerStatus::Loading(String::from_str("Loading terminals…"))
    } else if no_rows {
        PickerStatus::Empty(
            String::from_str(
                if no_query {
                    "No other terminals in this project"
                } else {
                    "No matching terminals"
                },
            ),
        )
    } else {
        PickerStatus::Ready
    }
}

/// The title of a session's row.
pub open spec fn session_title_text(id: u64) -> Seq<char> {
    "Terminal "@ + dec_chars(id as nat)
}

/// The owner shown on a session's row.
pub open spec fn owner_text(owner: Option<Seq<char>>) -> Seq<char> {
    match owner {
        Some(o) => "Owner: "@ + o,
        None => "No owner"@,
    }
}

/// The title of a session's row, as `session_title_text` says.
pub fn session_title(id: u64) -> (r: String)
    ensures
        r@ == session_title_text(id),
{
    let mut title = String::from_str("Terminal ");
    append_decimal(&mut title, id);
    title
}

/// The owner shown on a session's row, as `owner_text` says; an owner is given as its text.
pub fn owner_label(owner: Option<&str>) -> (r: String)
    ensures
        r@ == owner_text(
            match owner {
                Some(o) => Some(o@),
                None => None,
            },
        ),
{
    match owner {
        Some(o) => {
            let mut label = String::from_str("Owner: ");
            label.append(o);
            label
        },
        None => String::from_str("No owner"),
    }
}

/// Whether a filter keeps a session's row: its title, directory and owner, separated by
/// spaces and in lowercase, hold the filter in lowercase.
pub open spec fn row_kept(id: u64, directory: Seq<char>, owner: Option<Seq<char>>, query: Seq<char>) -> bool {
    contains_text(
        lowercase(session_title_text(id) + " "@ + directory + " "@ + owner_text(owner)),
        lowercase(query),
    )
}

/// Whether a filter keeps a session's row, as `row_kept` says.
pub fn session_row_matches(id: u64, directory: &str, owner: Option<&str>, query: &str) -> (r: bool)
    ensures
        r == row_kept(
            id,
            directory@,
            match owner {
                Some(o) => Some(o@),
                None => None,
            },
            query@,
        ),
{
    let mut text = session_title(id);
    text.append(" ");
    text.append(directory);
    text.append(" ");
    let owner_part = owner_label(owner);
    text.append(owner_part.as_str());
    let hay = chars_of(to_lowercase(text.as_str()).as_str());
    let needle = chars_of(to_lowercase(query).as_str());
    find_text(&hay, &needle)
}

/// A listing whose request failed is not asked for again while the sessions stay at the
/// revision they had, and is asked for once they change.
pub proof fn lemma_failed_listings_wait_for_new_sessions(current: u64, next: u64)
    ensures
        !wants_listing(Some(current), false, current),
        next > current ==> wants_listing(Some(current), false, next),
{
}

} // verus!
