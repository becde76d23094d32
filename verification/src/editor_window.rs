//! Geometry of the editor window: where the status bar, the mode button, the
//! "always on top" check box and the edit control go, and where the window opens.
use vstd::prelude::*;

use crate::config_store::WindowSize;

verus! {

/// Margin around the edit control.
pub const EDIT_OUTER_MARGIN: i32 = 8;

/// Height of the status bar above the edit control.
pub const STATUS_BAR_HEIGHT: i32 = 32;

/// Control id of the "always on top" check box.
pub const IDC_ALWAYS_ON_TOP_CHECK: u32 = 2001;

/// Control id of the Han/Eng mode button.
pub const IDC_MODE_TOGGLE: u32 = 2002;

/// Width of the "always on top" check box.
pub const CHECK_BOX_WIDTH: i32 = 120;

/// Width of the mode button when it is created.
pub const MODE_BUTTON_WIDTH: i32 = 80;

/// The `CW_USEDEFAULT` position: let Windows place the window.
pub const CW_USEDEFAULT: i32 = -2147483648i32;

/// A control's position and size in client coordinates.
#[derive(Debug, Clone, Copy, PartialEq, Eq, Structural)]
pub struct ControlRect {
    pub x: i32,
    pub y: i32,
    pub width: i32,
    pub height: i32,
}

/// The four controls of the editor window.
#[derive(Debug, Clone, Copy, PartialEq, Eq, Structural)]
pub struct EditorLayout {
    pub status_bar: ControlRect,
    pub mode_label: ControlRect,
    pub topmost_check: ControlRect,
    pub edit: ControlRect,
}

pub open spec fn max_int(a: int, b: int) -> int {
    if a >= b {
        a
    } else {
        b
    }
}

/// Rust's `/ 2` on a signed integer: rounds toward zero.
pub open spec fn half_toward_zero(a: int) -> int {
    if a >= 0 {
        a / 2
    } else {
        -((-a) / 2)
    }
}

/// The rectangle `(x, y, width, height)`.
pub open spec fn rect(x: int, y: int, width: int, height: int) -> ControlRect {
    ControlRect { x: x as i32, y: y as i32, width: width as i32, height: height as i32 }
}

/// Widths and heights for which the layout arithmetic stays within `i32`.
pub open spec fn layout_fits(width: i32, height: i32) -> bool {
    width >= i32::MIN + 128 && height >= i32::MIN + 48
}

/// Widths and heights for which the edit control's arithmetic stays within `i32`.
pub open spec fn edit_rect_fits(width: i32, height: i32) -> bool {
    width >= i32::MIN + 16 && height >= i32::MIN + 48
}

/// Whether the layout arithmetic stays within `i32` for a client area of `width` x `height`.
pub fn layout_fits_check(width: i32, height: i32) -> (r: bool)
    ensures
        r == layout_fits(width, height),
{
    width >= i32::MIN + 128 && height >= i32::MIN + 48
}

/// Whether the edit control's arithmetic stays within `i32` for a client area
/// of `width` x `height`.
pub fn edit_rect_fits_check(width: i32, height: i32) -> (r: bool)
    ensures
        r == edit_rect_fits(width, height),
{
    width >= i32::MIN + 16 && height >= i32::MIN + 48
}

/// The edit control fills the client area below the status bar, inside the margin,
/// and is at least 1 x 1.
pub open spec fn spec_edit_rect(width: int, height: int) -> ControlRect {
    rect(8, 40, max_int(width - 16, 1), max_int(height - 48, 1))
}

/// The edit control's rectangle for a client area of `width` x `height`.
pub fn edit_rect(width: i32, height: i32) -> (r: ControlRect)
    requires
        edit_rect_fits(width, height),
    ensures
        r == spec_edit_rect(width as int, height as int),
{
    let w = width - EDIT_OUTER_MARGIN * 2;
    let h = height - STATUS_BAR_HEIGHT - EDIT_OUTER_MARGIN * 2;
    ControlRect {
        x: EDIT_OUTER_MARGIN,
        y: STATUS_BAR_HEIGHT + EDIT_OUTER_MARGIN,
        width: if w > 1 {
            w
        } else {
            1
        },
        height: if h > 1 {
            h
        } else {
            1
        },
    }
}

/// The layout when the client area becomes `width` x `height`: the status bar
/// spans the top, the mode button takes the left half of it (at least 60 wide),
/// the check box sits at its right end (never left of the margin), and the edit
/// control fills the rest.
pub open spec fn spec_editor_layout(width: int, height: int) -> EditorLayout {
    EditorLayout {
        status_bar: rect(0, 0, max_int(width, 1), 32),
        mode_label: rect(8, 8, max_int(half_toward_zero(width) - 16, 60), 24),
        topmost_check: rect(max_int(width - 128, 8), 8, 120, 24),
        edit: spec_edit_rect(width, height),
    }
}

/// The layout for a client area of `width` x `height`.
pub fn editor_layout(width: i32, height: i32) -> (l: EditorLayout)
    requires
        layout_fits(width, height),
    ensures
        l == spec_editor_layout(width as int, height as int),
{
    let bar_w = if width > 1 {
        width
    } else {
        1
    };
    let half = width / 2;
    proof {
        assert(half == half_toward_zero(width as int));
    }
    let label_w = half - EDIT_OUTER_MARGIN * 2;
    let label_w = if label_w > 60 {
        label_w
    } else {
        60
    };
    let inner_h = STATUS_BAR_HEIGHT - EDIT_OUTER_MARGIN;
    let check_x = width - CHECK_BOX_WIDTH - EDIT_OUTER_MARGIN;
    let check_x = if check_x > EDIT_OUTER_MARGIN {
        check_x
    } else {
        EDIT_OUTER_MARGIN
    };
    EditorLayout {
        status_bar: ControlRect { x: 0, y: 0, width: bar_w, height: STATUS_BAR_HEIGHT },
        mode_label: ControlRect {
            x: EDIT_OUTER_MARGIN,
            y: EDIT_OUTER_MARGIN,
            width: label_w,
            height: if inner_h > 16 {
                inner_h
            } else {
                16
            },
        },
        topmost_check: ControlRect {
            x: check_x,
            y: EDIT_OUTER_MARGIN,
            width: CHECK_BOX_WIDTH,
            height: if inner_h > 16 {
                inner_h
            } else {
                16
            },
        },
        edit: edit_rect(width, height),
    }
}

/// The layout the controls are created with, in a client area of `width` x `height`:
/// a 1-pixel-wide status bar, an 80-wide mode button, the check box at the
/// left edge, and the edit control as after a resize.
pub fn initial_editor_layout(width: i32, height: i32) -> (l: EditorLayout)
    requires
        edit_rect_fits(width, height),
    ensures
        l == (EditorLayout {
            status_bar: rect(0, 0, 1, 32),
            mode_label: rect(8, 8, 80, 24),
            topmost_check: rect(0, 8, 120, 24),
            edit: spec_edit_rect(width as int, height as int),
        }),
{
    EditorLayout {
        status_bar: ControlRect { x: 0, y: 0, width: 1, height: STATUS_BAR_HEIGHT },
        mode_label: ControlRect {
            x: EDIT_OUTER_MARGIN,
            y: EDIT_OUTER_MARGIN,
            width: MODE_BUTTON_WIDTH,
            height: STATUS_BAR_HEIGHT - EDIT_OUTER_MARGIN,
        },
        topmost_check: ControlRect {
            x: 0,
            y: EDIT_OUTER_MARGIN,
            width: CHECK_BOX_WIDTH,
            height: STATUS_BAR_HEIGHT - EDIT_OUTER_MARGIN,
        },
        edit: edit_rect(width, height),
    }
}

/// The saved window position, with `CW_USEDEFAULT` for a coordinate not saved.
pub fn saved_origin(window: &WindowSize) -> (origin: (i32, i32))
    ensures
        origin == (
            match window.x {
                Some(x) => x,
                None => CW_USEDEFAULT,
            },
            match window.y {
                Some(y) => y,
                None => CW_USEDEFAULT,
            },
        ),
{
    let x = match window.x {
        Some(x) => x,
        None => CW_USEDEFAULT,
    };
    let y = match window.y {
        Some(y) => y,
        None => CW_USEDEFAULT,
    };
    (x, y)
}

/// Whether the saved position must be checked against the monitors: both
/// coordinates are real positions.
pub fn origin_needs_monitor_check(origin: (i32, i32)) -> (r: bool)
    ensures
        r == (origin.0 != CW_USEDEFAULT && origin.1 != CW_USEDEFAULT),
{
    origin.0 != CW_USEDEFAULT && origin.1 != CW_USEDEFAULT
}

/// Where the window opens: the saved position, unless it was checked and lies
/// on no monitor (a display was removed), in which case Windows places it.
pub fn window_origin(origin: (i32, i32), on_a_monitor: bool) -> (r: (i32, i32))
    ensures
        r == (if origin.0 != CW_USEDEFAULT && origin.1 != CW_USEDEFAULT && !on_a_monitor {
            (CW_USEDEFAULT, CW_USEDEFAULT)
        } else {
            origin
        }),
{
    if origin_needs_monitor_check(origin) && !on_a_monitor {
        (CW_USEDEFAULT, CW_USEDEFAULT)
    } else {
        origin
    }
}

/// What starting does about another running instance.
#[derive(Debug, Clone, Copy, PartialEq, Eq, Structural)]
pub enum InstanceStart {
    /// The named mutex could not be made: start without the guard.
    Unguarded,
    /// This is the only instance: start, keeping the mutex.
    Guarded,
    /// Another instance holds the mutex: bring its window forward, release the
    /// mutex and exit.
    FocusExisting,
}

/// The single-instance decision from creating the named mutex: whether it was
/// created, and whether it already existed.
pub fn instance_start(mutex_created: bool, already_exists: bool) -> (r: InstanceStart)
    ensures
        r == (if !mutex_created {
            InstanceStart::Unguarded
        } else if already_exists {
            InstanceStart::FocusExisting
        } else {
            InstanceStart::Guarded
        }),
{
    if !mutex_created {
        InstanceStart::Unguarded
    } else if already_exists {
        InstanceStart::FocusExisting
    } else {
        InstanceStart::Guarded
    }
}

} // verus!
