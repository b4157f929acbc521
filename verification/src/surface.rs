//! Surface bookkeeping of the renderer: when it is configured, how a resize
//! applies, and what to do with the outcome of acquiring a frame.
use vstd::prelude::*;
use crate::config::WindowSize;

verus! {

/// Failures when acquiring the frame of the surface.
#[derive(Clone, Copy, Debug, PartialEq, Eq, Structural)]
pub enum SurfaceError {
    /// The surface changed (resize); reconfigure with a resize.
    Outdated,
    /// The surface was lost; reconfigure with a resize.
    Lost,
    /// Internal validation error of the graphics backend.
    Validation,
}

impl SurfaceError {
    /// Human-readable description of the failure.
    pub fn message(&self) -> (text: &'static str)
        ensures
            *self == SurfaceError::Outdated ==> text@ == "surface outdated"@,
            *self == SurfaceError::Lost ==> text@ == "surface lost"@,
            *self == SurfaceError::Validation ==> text@ == "surface validation error"@,
    {
        match self {
            SurfaceError::Outdated => "surface outdated",
            SurfaceError::Lost => "surface lost",
            SurfaceError::Validation => "surface validation error",
        }
    }

    /// Whether the failure is cured by reconfiguring the surface (a resize to
    /// the current window size).
    pub fn needs_resize(&self) -> (resize: bool)
        ensures
            resize == (*self == SurfaceError::Outdated || *self == SurfaceError::Lost),
    {
        match self {
            SurfaceError::Outdated | SurfaceError::Lost => true,
            SurfaceError::Validation => false,
        }
    }
}

/// Result of asking the surface for its next texture.
#[derive(Clone, Copy, Debug, PartialEq, Eq, Structural)]
pub enum FrameStatus {
    Success,
    Suboptimal,
    Timeout,
    Occluded,
    Outdated,
    Lost,
    Validation,
}

/// What rendering does with an acquired frame: `Ok(true)` present it,
/// `Ok(false)` skip this frame silently, `Err` report the failure.
pub open spec fn frame_outcome_spec(status: FrameStatus) -> Result<bool, SurfaceError> {
    match status {
        FrameStatus::Success | FrameStatus::Suboptimal => Ok(true),
        FrameStatus::Timeout | FrameStatus::Occluded => Ok(false),
        FrameStatus::Outdated => Err(SurfaceError::Outdated),
        FrameStatus::Lost => Err(SurfaceError::Lost),
        FrameStatus::Validation => Err(SurfaceError::Validation),
    }
}

/// Classifies an acquired frame: usable frames are presented, a frame that is
/// temporarily unavailable (minimised window, timeout) is skipped without an
/// error, and the other outcomes are reported.
pub fn frame_outcome(status: FrameStatus) -> (outcome: Result<bool, SurfaceError>)
    ensures
        outcome == frame_outcome_spec(status),
{
    match status {
        FrameStatus::Success | FrameStatus::Suboptimal => Ok(true),
        FrameStatus::Timeout | FrameStatus::Occluded => Ok(false),
        FrameStatus::Outdated => Err(SurfaceError::Outdated),
        FrameStatus::Lost => Err(SurfaceError::Lost),
        FrameStatus::Validation => Err(SurfaceError::Validation),
    }
}

/// Size of the surface and whether it has been configured at least once.
#[derive(Clone, Copy, Debug, PartialEq, Eq, Structural)]
pub struct SurfaceState {
    pub size: WindowSize,
    pub configured: bool,
}

impl SurfaceState {
    /// A surface of `size`, not yet configured: nothing is drawn until the
    /// first resize.
    pub fn new(size: WindowSize) -> (s: Self)
        ensures
            s.size == size,
            !s.configured,
    {
        SurfaceState { size, configured: false }
    }

    /// Applies a resize to `width` x `height` unless one of them is zero
    /// (minimised window); returns whether it applied.
    pub fn resize(&mut self, width: u32, height: u32) -> (applied: bool)
        ensures
            applied == (width > 0 && height > 0),
            applied ==> *final(self) == (SurfaceState {
                size: WindowSize { width, height },
                configured: true,
            }),
            !applied ==> *final(self) == *old(self),
            old(self).configured ==> final(self).configured,
    {
        if width > 0 && height > 0 {
            self.size.width = width;
            self.size.height = height;
            self.configured = true;
            true
        } else {
            false
        }
    }

    /// Whether a frame may be rendered at all.
    pub fn can_render(&self) -> (ok: bool)
        ensures
            ok == self.configured,
    {
        self.configured
    }
}

} // verus!
