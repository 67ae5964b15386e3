use muxy_app::model::Category;
use muxy_app::search::{ResultItem, SettingsSearch};

fn search() -> SettingsSearch {
    SettingsSearch {
        query: String::new(),
        category: Category::Appearance,
    }
}

#[test]
fn without_a_query_only_the_chosen_category_shows() {
    let s = search();
    assert!(s.matches(Category::Appearance, "Theme"));
    assert!(!s.matches(Category::Terminal, "Font size"));
}

#[test]
fn queries_are_trimmed_lowercased_and_match_category_and_label() {
    let mut s = search();
    s.set_query("  FONT Size ");
    assert_eq!(s.query, "font size");
    assert_eq!(s.category, Category::Appearance);
    assert!(s.matches(Category::Terminal, "Font Size"));
    assert!(!s.matches(Category::Terminal, "Cursor style"));
    s.set_query("terminal cur");
    assert!(s.matches(Category::Terminal, "Cursor style"));
    assert!(!s.matches(Category::Appearance, "Cursor style"));
}

#[test]
fn showing_a_category_clears_the_query() {
    let mut s = search();
    s.set_query("font");
    s.show_category(Category::Server);
    assert_eq!(s.query, "");
    assert!(s.matches(Category::Server, "Port"));
    assert!(!s.matches(Category::Terminal, "Font size"));
}

#[test]
fn matching_shortcuts_keeps_their_order() {
    let names = vec![
        "New Tab".to_string(),
        "Close Tab".to_string(),
        "Zoom In".to_string(),
        "Next Tab".to_string(),
    ];
    let mut s = search();
    s.set_query("tab");
    assert_eq!(s.matching(&names), vec![0, 1, 3]);
    s.set_query("keyboard zoom");
    assert_eq!(s.matching(&names), vec![2]);
    s.show_category(Category::Keyboard);
    assert_eq!(s.matching(&names), vec![0, 1, 2, 3]);
    s.show_category(Category::Terminal);
    assert_eq!(s.matching(&names), Vec::<usize>::new());
}

#[test]
fn results_list_the_shown_category_or_every_match() {
    let names = vec!["New Tab".to_string(), "Zoom In".to_string()];
    let mut s = search();
    s.show_category(Category::Keyboard);
    let shortcuts = s.matching(&names);
    assert_eq!(
        s.result_items(&shortcuts, [true, true, false, true]),
        vec![
            ResultItem::KeyboardHeading,
            ResultItem::Shortcut(0),
            ResultItem::Shortcut(1),
            ResultItem::Divider,
            ResultItem::Footer
        ]
    );
    s.show_category(Category::Terminal);
    assert_eq!(
        s.result_items(&Vec::new(), [true, true, false, true]),
        vec![ResultItem::Section(Category::Terminal), ResultItem::Footer]
    );
    s.set_query("zoom");
    let shortcuts = s.matching(&names);
    assert_eq!(shortcuts, vec![1]);
    assert_eq!(
        s.result_items(&shortcuts, [false, true, false, true]),
        vec![
            ResultItem::Section(Category::Terminal),
            ResultItem::KeyboardHeading,
            ResultItem::Shortcut(1),
            ResultItem::Divider,
            ResultItem::Section(Category::Server),
            ResultItem::Footer
        ]
    );
    assert_eq!(
        s.result_items(&Vec::new(), [false, false, false, false]),
        vec![ResultItem::Empty, ResultItem::Footer]
    );
}
