use muxy_app::picker::{font_names, picker_rows, row_id, selected_index, PickerRow};

fn names(list: &[&str]) -> Vec<String> {
    list.iter().map(|name| name.to_string()).collect()
}

#[test]
fn font_lists_drop_system_names_sort_by_lowercase_and_drop_repeats() {
    let all = names(&["Menlo", ".SFNS", "arial", "Courier", "Menlo", "Arial", "."]);
    assert_eq!(font_names(&all), names(&["arial", "Arial", "Courier", "Menlo"]));
    assert_eq!(font_names(&Vec::new()), Vec::<String>::new());
    assert_eq!(font_names(&names(&["Zed", "zed", "Zed"])), names(&["Zed", "zed", "Zed"]));
}

#[test]
fn picker_rows_keep_names_holding_the_trimmed_filter_in_any_case() {
    let list = names(&["JetBrains Mono", "Menlo", "Monaco", "SF Mono"]);
    assert_eq!(
        picker_rows(&list, "Menlo", "  MONO "),
        vec![
            PickerRow { index: 0, current: false },
            PickerRow { index: 3, current: false }
        ]
    );
    assert_eq!(
        picker_rows(&list, "Menlo", "m"),
        vec![
            PickerRow { index: 0, current: false },
            PickerRow { index: 1, current: true },
            PickerRow { index: 2, current: false },
            PickerRow { index: 3, current: false }
        ]
    );
    assert_eq!(picker_rows(&list, "Menlo", "courier"), Vec::new());
}

#[test]
fn row_ids_choose_their_rows_back() {
    assert_eq!(row_id("font-", 12), "font-12");
    assert_eq!(row_id("theme-", 0), "theme-0");
    assert_eq!(selected_index("font-", &row_id("font-", 3), 4), Some(3));
    assert_eq!(selected_index("font-", "font-4", 4), None);
    assert_eq!(selected_index("font-", "theme-1", 4), None);
    assert_eq!(selected_index("font-", "font-", 4), None);
    assert_eq!(selected_index("font-", "font-x", 4), None);
    assert_eq!(selected_index("font-", "font-+2", 4), Some(2));
}
