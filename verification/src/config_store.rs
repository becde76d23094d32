//! The application settings kept in `config.json`, and the decisions made on
//! them. Reading, parsing and writing the file are done by the application.
use vstd::prelude::*;

use crate::startup_registry::StartupAction;

verus! {

/// The default window width and height.
pub const DEFAULT_WINDOW_EXTENT: i32 = 500;

fn default_window_width() -> (w: i32)
    ensures
        w == DEFAULT_WINDOW_EXTENT,
{
    DEFAULT_WINDOW_EXTENT
}

fn default_window_height() -> (h: i32)
    ensures
        h == DEFAULT_WINDOW_EXTENT,
{
    DEFAULT_WINDOW_EXTENT
}

/// Window position (when saved) and size.
#[derive(Debug, Clone, Copy, PartialEq, Eq, Structural)]
pub struct WindowSize {
    pub x: Option<i32>,
    pub y: Option<i32>,
    pub width: i32,
    pub height: i32,
}

impl Default for WindowSize {
    /// No saved position, 500 x 500.
    fn default() -> (w: Self)
        ensures
            w.x is None,
            w.y is None,
            w.width == DEFAULT_WINDOW_EXTENT,
            w.height == DEFAULT_WINDOW_EXTENT,
    {
        WindowSize { x: None, y: None, width: default_window_width(), height: default_window_height() }
    }
}

/// The settings.
#[derive(Debug, Clone, Copy, PartialEq, Eq, Structural)]
pub struct AppConfig {
    pub always_on_top: bool,
    pub start_with_windows: bool,
    pub window: WindowSize,
}

/// The default settings: not on top, not started with Windows, default window.
pub open spec fn default_config() -> AppConfig {
    AppConfig {
        always_on_top: false,
        start_with_windows: false,
        window: WindowSize {
            x: None,
            y: None,
            width: DEFAULT_WINDOW_EXTENT,
            height: DEFAULT_WINDOW_EXTENT,
        },
    }
}

impl Default for AppConfig {
    fn default() -> (c: Self)
        ensures
            c == default_config(),
    {
        AppConfig { always_on_top: false, start_with_windows: false, window: WindowSize::default() }
    }
}

/// What reading `config.json` gave.
#[derive(Debug, Clone, Copy, PartialEq, Eq, Structural)]
pub enum ConfigRead {
    /// The file could not be read (for instance, it does not exist).
    Unreadable,
    /// The file was read but is not a valid configuration.
    Malformed,
    /// The file held this configuration.
    Parsed(AppConfig),
}

/// The configuration to use after a read, and whether the file must be moved
/// aside as `config.json.bak`.
#[derive(Debug, Clone, Copy, PartialEq, Eq, Structural)]
pub struct LoadDecision {
    pub config: AppConfig,
    pub back_up_file: bool,
}

/// A missing or malformed file gives the defaults; a malformed one is backed
/// up first. A parsed file is used as it is.
pub fn settle_loaded_config(read: ConfigRead) -> (d: LoadDecision)
    ensures
        d.config == (match read {
            ConfigRead::Parsed(c) => c,
            _ => default_config(),
        }),
        d.back_up_file == (read is Malformed),
{
    match read {
        ConfigRead::Unreadable => LoadDecision { config: AppConfig::default(), back_up_file: false },
        ConfigRead::Malformed => LoadDecision { config: AppConfig::default(), back_up_file: true },
        ConfigRead::Parsed(c) => LoadDecision { config: c, back_up_file: false },
    }
}

/// `c` with "always on top" flipped.
pub open spec fn flip_always_on_top(c: AppConfig) -> AppConfig {
    AppConfig { always_on_top: !c.always_on_top, ..c }
}

/// `c` with "start with Windows" flipped.
pub open spec fn flip_start_with_windows(c: AppConfig) -> AppConfig {
    AppConfig { start_with_windows: !c.start_with_windows, ..c }
}

impl AppConfig {
    /// Stores the window's normal-position rectangle as its position and size.
    pub fn record_window_bounds(&mut self, left: i32, top: i32, right: i32, bottom: i32)
        requires
            i32::MIN <= right - left <= i32::MAX,
            i32::MIN <= bottom - top <= i32::MAX,
        ensures
            *final(self) == (AppConfig {
                window: WindowSize {
                    x: Some(left),
                    y: Some(top),
                    width: (right - left) as i32,
                    height: (bottom - top) as i32,
                },
                ..*old(self)
            }),
    {
        self.window.x = Some(left);
        self.window.y = Some(top);
        self.window.width = right - left;
        self.window.height = bottom - top;
    }

    /// Flips "always on top".
    pub fn toggle_always_on_top(&mut self)
        ensures
            *final(self) == flip_always_on_top(*old(self)),
    {
        self.always_on_top = !self.always_on_top;
    }

    /// Flips "start with Windows" and says which registry change makes it so.
    pub fn begin_startup_toggle(&mut self) -> (action: StartupAction)
        ensures
            *final(self) == flip_start_with_windows(*old(self)),
            action == (if final(self).start_with_windows {
                StartupAction::Register
            } else {
                StartupAction::Unregister
            }),
    {
        self.start_with_windows = !self.start_with_windows;
        if self.start_with_windows {
            StartupAction::Register
        } else {
            StartupAction::Unregister
        }
    }

    /// After the registry change: on success the setting stands and is to be
    /// saved (`true`); on failure the flip is undone and nothing is saved.
    pub fn finish_startup_toggle(&mut self, registry_ok: bool) -> (save: bool)
        ensures
            save == registry_ok,
            *final(self) == (if registry_ok {
                *old(self)
            } else {
                flip_start_with_windows(*old(self))
            }),
    {
        if !registry_ok {
            self.start_with_windows = !self.start_with_windows;
        }
        registry_ok
    }
}

/// Toggling "always on top" twice, or a "start with Windows" toggle whose
/// registry change failed, leaves the settings as they were.
pub proof fn lemma_toggles_undo(c: AppConfig)
    ensures
        flip_always_on_top(flip_always_on_top(c)) == c,
        flip_start_with_windows(flip_start_with_windows(c)) == c,
{
}

} // verus!
