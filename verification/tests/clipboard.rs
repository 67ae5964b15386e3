use muxy_app::clipboard::{contents, paste, paths, ClipboardContents};
use muxy_app::input::Modes;

#[test]
fn image_paste_is_a_control_key_even_in_bracketed_paste_mode() {
    for bracketed_paste in [false, true] {
        let modes = Modes {
            bracketed_paste,
            ..Modes::default()
        };
        let image = ClipboardContents {
            text: None,
            has_image: true,
        };
        assert_eq!(contents(&image, modes), Some(vec![0x16]));
        let text = ClipboardContents {
            text: Some("one\ntwo".into()),
            has_image: false,
        };
        assert_eq!(contents(&text, modes), Some(paste("one\ntwo", modes)));
        let empty = ClipboardContents {
            text: Some(String::new()),
            has_image: false,
        };
        assert_eq!(contents(&empty, modes), Some(Vec::new()));
    }
}

#[test]
fn paste_normalizes_newlines_and_removes_embedded_escape_sequences() {
    let text = "first\r\nsecond\n\x1b[201~\rthird\u{009b}201~界\t";
    for bracketed_paste in [false, true] {
        let bytes = paste(
            text,
            Modes {
                bracketed_paste,
                ..Modes::default()
            },
        );
        let expected = "first\rsecond\r[201~\rthird201~界\t";
        let expected = if bracketed_paste {
            format!("\x1b[200~{expected}\x1b[201~")
        } else {
            expected.to_owned()
        };
        assert_eq!(bytes, expected.as_bytes());
    }
    assert!(paste(
        "",
        Modes {
            bracketed_paste: true,
            ..Modes::default()
        }
    )
    .is_empty());
}

#[test]
fn an_empty_clipboard_pastes_nothing() {
    let nothing = ClipboardContents {
        text: None,
        has_image: false,
    };
    assert_eq!(contents(&nothing, Modes::default()), None);
}

#[test]
fn dropped_paths_are_quoted_for_the_shell() {
    let modes = Modes::default();
    let dropped = vec![b"/tmp/it's here".to_vec(), b"/a b".to_vec()];
    assert_eq!(
        paths(&dropped, modes),
        Some(b"'/tmp/it'\\''s here' '/a b'".to_vec())
    );
    let control = vec![b"/x\ny\\'".to_vec()];
    assert_eq!(
        paths(&control, modes),
        Some(b"$'/x\\x0ay\\\\\\''".to_vec())
    );
    assert_eq!(paths(&vec![b"relative".to_vec()], modes), None);
    assert_eq!(paths(&vec![b"/nul\0".to_vec()], modes), None);
    let bracketed = Modes {
        bracketed_paste: true,
        ..Modes::default()
    };
    assert_eq!(
        paths(&vec![b"/a".to_vec()], bracketed),
        Some(b"\x1b[200~'/a'\x1b[201~".to_vec())
    );
    assert_eq!(paths(&Vec::new(), bracketed), Some(Vec::new()));
}
