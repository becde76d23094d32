use gksrmf::config_store::WindowSize;
use gksrmf::editor_window::{
    editor_layout, initial_editor_layout, origin_needs_monitor_check, saved_origin, window_origin,
    ControlRect, CW_USEDEFAULT,
};
use gksrmf::tray_manager::{theme_is_light, themed_icon_id, tip_units, tray_action_for, ThemeQuery, TrayAction};

fn r(x: i32, y: i32, width: i32, height: i32) -> ControlRect {
    ControlRect { x, y, width, height }
}

#[test]
fn layout_for_a_normal_window() {
    let l = editor_layout(484, 461);
    assert_eq!(l.status_bar, r(0, 0, 484, 32));
    assert_eq!(l.mode_label, r(8, 8, 226, 24));
    assert_eq!(l.topmost_check, r(356, 8, 120, 24));
    assert_eq!(l.edit, r(8, 40, 468, 413));
}

#[test]
fn layout_for_a_tiny_window() {
    let l = editor_layout(0, 0);
    assert_eq!(l.status_bar, r(0, 0, 1, 32));
    assert_eq!(l.mode_label, r(8, 8, 60, 24));
    assert_eq!(l.topmost_check, r(8, 8, 120, 24));
    assert_eq!(l.edit, r(8, 40, 1, 1));
    let l = editor_layout(-7, 10);
    assert_eq!(l.mode_label, r(8, 8, 60, 24));
    let l = initial_editor_layout(484, 461);
    assert_eq!(l.status_bar, r(0, 0, 1, 32));
    assert_eq!(l.mode_label, r(8, 8, 80, 24));
    assert_eq!(l.topmost_check, r(0, 8, 120, 24));
    assert_eq!(l.edit, r(8, 40, 468, 413));
}

#[test]
fn window_origin_checks() {
    let w = WindowSize { x: Some(100), y: Some(50), width: 500, height: 500 };
    let o = saved_origin(&w);
    assert_eq!(o, (100, 50));
    assert!(origin_needs_monitor_check(o));
    assert_eq!(window_origin(o, true), (100, 50));
    assert_eq!(window_origin(o, false), (CW_USEDEFAULT, CW_USEDEFAULT));
    let o = saved_origin(&WindowSize { x: Some(100), y: None, width: 500, height: 500 });
    assert_eq!(o, (100, CW_USEDEFAULT));
    assert!(!origin_needs_monitor_check(o));
    assert_eq!(window_origin(o, false), (100, CW_USEDEFAULT));
}

#[test]
fn tray_theme_and_events() {
    let mut q = ThemeQuery { key_opened: true, value_read: true, is_dword: true, data_len: 4, data: [0, 0, 0, 0] };
    assert!(!theme_is_light(&q));
    q.data = [0, 0, 1, 0];
    assert!(theme_is_light(&q));
    q.data = [0, 0, 0, 0];
    q.data_len = 3;
    assert!(theme_is_light(&q));
    q.data_len = 4;
    q.key_opened = false;
    assert!(theme_is_light(&q));
    assert_eq!(themed_icon_id(true), 101);
    assert_eq!(themed_icon_id(false), 102);
    assert_eq!(tray_action_for(0x0203), TrayAction::ShowWindow);
    assert_eq!(tray_action_for(0x0205), TrayAction::ContextMenu);
    assert_eq!(tray_action_for(0x0202), TrayAction::Ignore);
    assert_eq!(tray_action_for((7 << 16) | 0x0205), TrayAction::ContextMenu);
    assert_eq!(tip_units(6, 128), 6);
    assert_eq!(tip_units(200, 128), 127);
}
