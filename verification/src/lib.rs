//! gksrmf: type Hangul with the physical keys of an English keyboard.
//!
//! The library holds the logic of the editor: the two-set Hangul composition
//! (`hangul_engine`), the editor's key handling (`edit_session`), text as the
//! Win32 `W` functions take it (`wide_text`), the settings (`config_store`),
//! start-up registration (`startup_registry`), the window layout
//! (`editor_window`) and the tray icon's decisions (`tray_manager`).

pub mod config_store;
pub mod edit_session;
pub mod editor_window;
pub mod hangul_engine;
pub mod startup_registry;
pub mod tray_manager;
pub mod wide_text;
