use muxy_app::tab_drag::{TabDrag, TabDragState};

#[test]
fn a_press_becomes_a_drag_only_after_moving_far_enough() {
    let mut s = TabDragState::new();
    s.begin(1, 10);
    assert_eq!(s.pointer_moved(false, Some(11)), None);
    assert!(!s.is_active());
    assert_eq!(s.pointer_moved(true, Some(11)), Some((10, 11)));
    assert!(s.is_active());
    assert_eq!(s.pointer_moved(false, Some(11)), None);
    assert_eq!(s.pointer_moved(false, Some(10)), None);
    assert_eq!(
        s.gesture,
        Some(TabDrag {
            project: 1,
            tab: 10,
            active: true,
            last_target: None
        })
    );
    assert_eq!(s.pointer_moved(false, Some(11)), Some((10, 11)));
    assert_eq!(s.pointer_moved(false, None), None);
    assert_eq!(s.pointer_moved(false, Some(12)), Some((10, 12)));
    assert!(s.end());
    assert!(!s.end());
}

#[test]
fn drags_end_where_they_cannot_go_on() {
    let mut s = TabDragState::new();
    s.begin(1, 10);
    s.cancel_unavailable(1, false, true, false);
    assert!(s.gesture.is_some());
    s.cancel_unavailable(2, false, true, false);
    assert_eq!(s.gesture, None);
    for (missing, has_tab, blocked) in [(true, true, false), (false, false, false), (false, true, true)] {
        s.begin(1, 10);
        s.cancel_unavailable(1, missing, has_tab, blocked);
        assert_eq!(s.gesture, None);
    }
    s.begin(1, 10);
    assert!(!s.end());
}
