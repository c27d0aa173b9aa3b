//! Camera policy of the scrolling layout.
//!
//! Geometry is computed by the application in floating point; the policy
//! here decides, from how the focused window sits relative to the
//! viewport, which way the camera moves.

use vstd::prelude::*;

verus! {

/// Defines the camera tracking behavior when focusing on a window.
#[derive(Clone, Copy, Debug, PartialEq, Eq, Structural)]
pub enum FocusCenteringMode {
    /// Always keep the focused window in the absolute center of the screen.
    Always,
    /// Only move the camera the minimum amount necessary to keep the focused window visible.
    Never,
    /// Do not move the camera if the window is fully visible. Center it only
    /// when it is wider than the viewport; otherwise, when it is cut off on
    /// one side, move the camera the minimum amount to align that edge.
    OnOverflow,
}

/// How the camera moves to track the focused window.
#[derive(Clone, Copy, Debug, PartialEq, Eq, Structural)]
pub enum CameraMove {
    /// The camera stays where it is.
    Keep,
    /// The camera's left edge (inside the gap) aligns with the window's left edge.
    AlignLeft,
    /// The camera's right edge (inside the gap) aligns with the window's right edge.
    AlignRight,
    /// The window is centered on the screen.
    Center,
}

/// The camera move for a focused window, given the centering mode and
/// whether the window is wider than the viewport, starts left of it, or
/// ends right of it.
pub open spec fn camera_policy(
    mode: FocusCenteringMode,
    too_wide: bool,
    cut_left: bool,
    cut_right: bool,
) -> CameraMove {
    match mode {
        FocusCenteringMode::Always => CameraMove::Center,
        FocusCenteringMode::Never => if cut_left {
            CameraMove::AlignLeft
        } else if cut_right {
            CameraMove::AlignRight
        } else {
            CameraMove::Keep
        },
        FocusCenteringMode::OnOverflow => if too_wide {
            CameraMove::Center
        } else if cut_left {
            CameraMove::AlignLeft
        } else if cut_right {
            CameraMove::AlignRight
        } else {
            CameraMove::Keep
        },
    }
}

/// Decides how the camera tracks the focused window.
///
/// `too_wide`: the window is wider than the viewport; `cut_left`: the
/// window starts left of the viewport; `cut_right`: the window ends right
/// of the viewport.
pub fn camera_move(
    mode: FocusCenteringMode,
    too_wide: bool,
    cut_left: bool,
    cut_right: bool,
) -> (m: CameraMove)
    ensures
        m == camera_policy(mode, too_wide, cut_left, cut_right),
{
    match mode {
        FocusCenteringMode::Always => CameraMove::Center,
        FocusCenteringMode::Never => {
            if cut_left {
                CameraMove::AlignLeft
            } else if cut_right {
                CameraMove::AlignRight
            } else {
                CameraMove::Keep
            }
        },
        FocusCenteringMode::OnOverflow => {
            let is_fully_visible = !cut_left && !cut_right;
            if too_wide {
                CameraMove::Center
            } else if !is_fully_visible {
                if cut_left {
                    CameraMove::AlignLeft
                } else {
                    CameraMove::AlignRight
                }
            } else {
                CameraMove::Keep
            }
        },
    }
}


/// In `Always` mode the focused window is always centered.
pub proof fn lemma_always_centers(too_wide: bool, cut_left: bool, cut_right: bool)
    ensures
        camera_policy(FocusCenteringMode::Always, too_wide, cut_left, cut_right) == CameraMove::Center,
{
}

/// Outside `Always` mode, a window that fits and is fully visible never
/// moves the camera.
pub proof fn lemma_visible_window_keeps_camera(mode: FocusCenteringMode)
    requires
        mode != FocusCenteringMode::Always,
    ensures
        camera_policy(mode, false, false, false) == CameraMove::Keep,
{
}

/// Outside `Always` mode, a window that is cut off but is not centred (in
/// `Never` mode always, in `OnOverflow` mode when it fits the viewport)
/// moves the camera just enough to show the cut edge: a window cut off on
/// the left aligns the camera to its left edge, one cut off only on the
/// right aligns it to its right edge.
pub proof fn lemma_cut_window_aligns_edge(mode: FocusCenteringMode, too_wide: bool, cut_right: bool)
    requires
        mode == FocusCenteringMode::Never || (mode == FocusCenteringMode::OnOverflow && !too_wide),
    ensures
        camera_policy(mode, too_wide, true, cut_right) == CameraMove::AlignLeft,
        camera_policy(mode, too_wide, false, true) == CameraMove::AlignRight,
{
}

/// `Never` mode does not look at the window's width: a window that is
/// not cut off keeps the camera, however wide it is.
pub proof fn lemma_never_keeps_uncut_window(too_wide: bool)
    ensures
        camera_policy(FocusCenteringMode::Never, too_wide, false, false) == CameraMove::Keep,
{
}

/// In `OnOverflow` mode a window wider than the viewport is centred,
/// wherever it is.
pub proof fn lemma_overflowing_window_centers(cut_left: bool, cut_right: bool)
    ensures
        camera_policy(FocusCenteringMode::OnOverflow, true, cut_left, cut_right) == CameraMove::Center,
{
}

/// `Never` mode never centers: it moves the camera only as far as needed.
pub proof fn lemma_never_mode_minimal(too_wide: bool, cut_left: bool, cut_right: bool)
    ensures
        camera_policy(FocusCenteringMode::Never, too_wide, cut_left, cut_right) != CameraMove::Center,
{
}

} // verus!
