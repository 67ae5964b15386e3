use muxy_app::includes::{include_error_message, record_included_key, IncludeQueue, PendingFile};

fn file(path: &str, optional: bool, depth: u32) -> PendingFile {
    PendingFile {
        path: path.as_bytes().to_vec(),
        optional,
        depth,
    }
}

#[test]
fn includes_are_read_first_in_first_out_one_level_deeper() {
    let mut queue = IncludeQueue::new(b"/c/ghostty.conf".to_vec());
    let root = queue.next().unwrap();
    assert_eq!(root, file("/c/ghostty.conf", false, 0));
    assert!(queue.accept(b"/c/ghostty.conf".to_vec(), root.depth));
    queue.enqueue(
        vec![(b"/c/a.conf".to_vec(), false), (b"/c/b.conf".to_vec(), true)],
        root.depth,
    );
    assert_eq!(queue.next(), Some(file("/c/a.conf", false, 1)));
    assert_eq!(queue.next(), Some(file("/c/b.conf", true, 1)));
    assert_eq!(queue.next(), None);
}

#[test]
fn files_are_read_once_and_no_deeper_than_the_limit() {
    let mut queue = IncludeQueue::new(b"/c/x".to_vec());
    assert!(queue.accept(b"/c/x".to_vec(), 0));
    assert!(!queue.accept(b"/c/x".to_vec(), 1));
    assert!(queue.accept(b"/c/y".to_vec(), 31));
    assert!(!queue.accept(b"/c/z".to_vec(), 32));
    assert!(!queue.accept(b"/c/z".to_vec(), 0));
    assert_eq!(queue.loaded.len(), 3);
    assert_eq!(
        include_error_message(),
        "config-file cycle or nesting exceeds 32 files"
    );
}

#[test]
fn included_files_supply_their_keys_once() {
    let mut keys = Vec::new();
    record_included_key(&mut keys, "font-size", false);
    assert!(keys.is_empty());
    record_included_key(&mut keys, "font-size", true);
    record_included_key(&mut keys, "config-file", true);
    record_included_key(&mut keys, "font-size", true);
    record_included_key(&mut keys, "font-family", true);
    assert_eq!(keys, vec!["font-size".to_string(), "font-family".to_string()]);
}
