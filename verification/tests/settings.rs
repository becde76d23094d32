use gksrmf::config_store::{settle_loaded_config, AppConfig, ConfigRead, WindowSize};
use gksrmf::startup_registry::{sync_on_startup, unregister_succeeded, StartupAction};

#[test]
fn default_settings() {
    let c = AppConfig::default();
    assert!(!c.always_on_top);
    assert!(!c.start_with_windows);
    assert_eq!(c.window, WindowSize { x: None, y: None, width: 500, height: 500 });
}

#[test]
fn loading_settings() {
    let d = settle_loaded_config(ConfigRead::Unreadable);
    assert_eq!(d.config, AppConfig::default());
    assert!(!d.back_up_file);
    let d = settle_loaded_config(ConfigRead::Malformed);
    assert_eq!(d.config, AppConfig::default());
    assert!(d.back_up_file);
    let mut c = AppConfig::default();
    c.always_on_top = true;
    let d = settle_loaded_config(ConfigRead::Parsed(c));
    assert_eq!(d.config, c);
    assert!(!d.back_up_file);
}

#[test]
fn window_bounds_and_toggles() {
    let mut c = AppConfig::default();
    c.record_window_bounds(10, 20, 610, 420);
    assert_eq!(c.window, WindowSize { x: Some(10), y: Some(20), width: 600, height: 400 });
    c.toggle_always_on_top();
    assert!(c.always_on_top);
    c.toggle_always_on_top();
    assert!(!c.always_on_top);
    assert_eq!(c.begin_startup_toggle(), StartupAction::Register);
    assert!(c.start_with_windows);
    assert!(!c.finish_startup_toggle(false));
    assert!(!c.start_with_windows);
    assert_eq!(c.begin_startup_toggle(), StartupAction::Register);
    assert!(c.finish_startup_toggle(true));
    assert!(c.start_with_windows);
    assert_eq!(c.begin_startup_toggle(), StartupAction::Unregister);
}

#[test]
fn startup_sync() {
    assert_eq!(sync_on_startup(true, false), StartupAction::Register);
    assert_eq!(sync_on_startup(false, true), StartupAction::Unregister);
    assert_eq!(sync_on_startup(true, true), StartupAction::Keep);
    assert_eq!(sync_on_startup(false, false), StartupAction::Keep);
    assert!(unregister_succeeded(0));
    assert!(unregister_succeeded(2));
    assert!(!unregister_succeeded(5));
}
