//! The notification-area icon: its messages, its menu and its theme.
use vstd::prelude::*;

verus! {

/// The icon's callback message, `WM_APP + 1`.
pub const WM_TRAY: u32 = 0x8001;

/// Menu item "always on top".
pub const IDM_ALWAYS_ON_TOP: u32 = 1001;

/// Menu item "start with Windows".
pub const IDM_START_WITH_WINDOWS: u32 = 1002;

/// Menu item "exit".
pub const IDM_EXIT: u32 = 1003;

/// Icon resource for a light taskbar.
pub const IDI_GKSRMF_LIGHT: usize = 101;

/// Icon resource for a dark taskbar.
pub const IDI_GKSRMF_DARK: usize = 102;

/// The registry key holding the theme settings.
pub const PERSONALIZE_KEY: &'static str = "Software\\Microsoft\\Windows\\CurrentVersion\\Themes\\Personalize";

/// The registry value: non-zero when the taskbar uses the light theme.
pub const SYSTEM_USES_LIGHT_THEME: &'static str = "SystemUsesLightTheme";

/// The icon's tool tip.
pub const TRAY_TIP: &'static str = "gksrmf";

/// `WM_LBUTTONDBLCLK`.
pub const WM_LBUTTONDBLCLK: u32 = 0x0203;

/// `WM_RBUTTONUP`.
pub const WM_RBUTTONUP: u32 = 0x0205;

/// What the registry said about `SystemUsesLightTheme`.
#[derive(Debug, Clone, Copy)]
pub struct ThemeQuery {
    /// The key could be opened.
    pub key_opened: bool,
    /// The value could be read.
    pub value_read: bool,
    /// The value is a `REG_DWORD`.
    pub is_dword: bool,
    /// The number of bytes read.
    pub data_len: u32,
    /// The bytes read.
    pub data: [u8; 4],
}

/// The taskbar is light unless a 4-byte `REG_DWORD` value was read and its
/// little-endian value is zero; any failure counts as light.
pub open spec fn spec_theme_is_light(q: ThemeQuery) -> bool {
    if !q.key_opened || !q.value_read || !q.is_dword || q.data_len < 4 {
        true
    } else {
        q.data@[0] + 256 * q.data@[1] + 65536 * q.data@[2] + 16777216 * q.data@[3] != 0
    }
}

/// Whether the taskbar uses the light theme.
pub fn theme_is_light(q: &ThemeQuery) -> (light: bool)
    ensures
        light == spec_theme_is_light(*q),
{
    if !q.key_opened || !q.value_read || !q.is_dword || q.data_len < 4 {
        return true;
    }
    let b0 = q.data[0];
    let b1 = q.data[1];
    let b2 = q.data[2];
    let b3 = q.data[3];
    proof {
        assert(b0 == q.data@[0] && b1 == q.data@[1] && b2 == q.data@[2] && b3 == q.data@[3]);
    }
    b0 != 0 || b1 != 0 || b2 != 0 || b3 != 0
}

/// The icon resource for the theme: the light icon on a light taskbar.
pub fn themed_icon_id(light: bool) -> (id: usize)
    ensures
        id == (if light {
            IDI_GKSRMF_LIGHT
        } else {
            IDI_GKSRMF_DARK
        }),
{
    if light {
        IDI_GKSRMF_LIGHT
    } else {
        IDI_GKSRMF_DARK
    }
}

/// What a mouse event on the icon does.
#[derive(Debug, Clone, Copy, PartialEq, Eq, Structural)]
pub enum TrayAction {
    /// Nothing (a single click, for instance).
    Ignore,
    /// Show and focus the window.
    ShowWindow,
    /// Open the context menu.
    ContextMenu,
}

/// A double click shows the window, a right click opens the menu; the event is
/// the low word of the message's `lParam`.
pub fn tray_action_for(lparam: isize) -> (a: TrayAction)
    ensures
        a == (if (lparam as int) % 65536 == WM_LBUTTONDBLCLK {
            TrayAction::ShowWindow
        } else if (lparam as int) % 65536 == WM_RBUTTONUP {
            TrayAction::ContextMenu
        } else {
            TrayAction::Ignore
        }),
{
    let event = (lparam % 65536 + 65536) % 65536;
    proof {
        assert(event == (lparam as int) % 65536);
    }
    if event == WM_LBUTTONDBLCLK as isize {
        TrayAction::ShowWindow
    } else if event == WM_RBUTTONUP as isize {
        TrayAction::ContextMenu
    } else {
        TrayAction::Ignore
    }
}

/// The number of tool-tip code units copied into a buffer of `capacity` units,
/// which keeps one unit for the terminating zero.
pub fn tip_units(tip_len: usize, capacity: usize) -> (n: usize)
    requires
        capacity >= 1,
    ensures
        n == (if tip_len < capacity - 1 {
            tip_len
        } else {
            (capacity - 1) as usize
        }),
{
    if tip_len < capacity - 1 {
        tip_len
    } else {
        capacity - 1
    }
}

} // verus!
