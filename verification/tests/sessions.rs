use muxy_app::model::SessionEntry;
use muxy_app::sessions::{
    owner_label, picker_status, session_row_matches, session_title, ListingState, PickerStatus,
};

fn entry(id: u64) -> SessionEntry {
    SessionEntry {
        id,
        attached: false,
    }
}

#[test]
fn listings_are_requested_once_per_revision() {
    let mut listing: ListingState<SessionEntry> = ListingState::new();
    assert!(listing.needs_request(0));
    listing.requested();
    assert!(!listing.needs_request(5));
    listing.received(Ok((vec![entry(3), entry(4)], 5)), 5);
    assert_eq!(listing.entries, vec![entry(3), entry(4)]);
    assert_eq!(listing.revision, Some(5));
    assert!(!listing.pending);
    assert!(!listing.needs_request(5));
    assert!(listing.needs_request(6));
}

#[test]
fn failed_listings_keep_their_error_until_the_sessions_change() {
    let mut listing: ListingState<SessionEntry> = ListingState::new();
    listing.received(Ok((vec![entry(3)], 2)), 2);
    listing.requested();
    listing.received(Err("connection lost".into()), 7);
    assert!(listing.entries.is_empty());
    assert_eq!(listing.revision, Some(7));
    assert_eq!(listing.error, Some("connection lost".to_string()));
    assert!(!listing.needs_request(7));
    assert!(listing.needs_request(8));
    listing.requested();
    assert_eq!(listing.error, None);
}

#[test]
fn the_session_picker_explains_what_it_shows() {
    let mut listing: ListingState<SessionEntry> = ListingState::new();
    assert_eq!(
        picker_status(false, Some(&listing), false, true),
        PickerStatus::Error("Reconnect to see existing terminals".into())
    );
    assert_eq!(
        picker_status::<SessionEntry>(true, None, true, true),
        PickerStatus::Loading("Loading terminals…".into())
    );
    listing.requested();
    assert_eq!(
        picker_status(true, Some(&listing), true, true),
        PickerStatus::Loading("Loading terminals…".into())
    );
    listing.received(Ok((Vec::new(), 1)), 1);
    assert_eq!(
        picker_status(true, Some(&listing), true, true),
        PickerStatus::Empty("No other terminals in this project".into())
    );
    assert_eq!(
        picker_status(true, Some(&listing), true, false),
        PickerStatus::Empty("No matching terminals".into())
    );
    assert_eq!(picker_status(true, Some(&listing), false, false), PickerStatus::Ready);
    listing.received(Err("refused".into()), 1);
    assert_eq!(
        picker_status(true, Some(&listing), false, false),
        PickerStatus::Error("refused".into())
    );
}

#[test]
fn session_rows_match_title_directory_and_owner_in_any_case() {
    assert_eq!(session_title(42), "Terminal 42");
    assert_eq!(owner_label(None), "No owner");
    assert_eq!(owner_label(Some("7")), "Owner: 7");
    assert!(session_row_matches(42, "/Users/Me/Code", Some("7"), "TERMINAL 42"));
    assert!(session_row_matches(42, "/Users/Me/Code", Some("7"), "me/code"));
    assert!(session_row_matches(42, "/Users/Me/Code", Some("7"), "owner: 7"));
    assert!(session_row_matches(42, "/tmp", None, "no owner"));
    assert!(session_row_matches(42, "/tmp", None, ""));
    assert!(!session_row_matches(42, "/tmp", None, "terminal 43"));
}
