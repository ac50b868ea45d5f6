//! The WGpu backend's decisions.
use vstd::prelude::*;

verus! {

/// The most frames that the surface may queue.
pub const FRAMES_IN_FLIGHT: u32 = 2;

/// Picks the first of the surface's formats that is sRGB, given for each
/// format whether it is.
pub fn first_srgb_format(is_srgb: &[bool]) -> (index: Option<usize>)
    ensures
        match index {
            Some(i) => i < is_srgb@.len() && is_srgb@[i as int] && forall|j: int| 0 <= j < i ==> !is_srgb@[j],
            None => forall|j: int| 0 <= j < is_srgb@.len() ==> !is_srgb@[j],
        },
{
    let mut i: usize = 0;
    while i < is_srgb.len()
        invariant
            0 <= i <= is_srgb@.len(),
            forall|j: int| 0 <= j < i ==> !is_srgb@[j],
        decreases is_srgb@.len() - i,
    {
        if is_srgb[i] {
            return Some(i);
        }
        i += 1;
    }
    None
}

/// The size that the presentation surface is configured with.
#[derive(Clone, Copy, Debug, PartialEq, Eq, Structural)]
pub struct SurfaceSize {
    pub width: u32,
    pub height: u32,
}

impl SurfaceSize {
    /// Takes a new window size, unless either side is 0 (a minimised
    /// window); returns whether the surface must be configured anew.
    pub fn resize(&mut self, width: u32, height: u32) -> (changed: bool)
        ensures
            changed == (width > 0 && height > 0),
            *final(self) == if changed {
                SurfaceSize { width, height }
            } else {
                *old(self)
            },
    {
        if width > 0 && height > 0 {
            self.width = width;
            self.height = height;
            true
        } else {
            false
        }
    }
}

/// What asking the surface for its next texture gave.
#[derive(Clone, Copy, Debug, PartialEq, Eq, Structural)]
pub enum SurfaceStatus {
    Success,
    Suboptimal,
    Timeout,
    Occluded,
    Outdated,
    Lost,
    Validation,
}

/// What presenting does with the texture it was given.
#[derive(Clone, Copy, Debug, PartialEq, Eq, Structural)]
pub enum PresentPlan {
    /// Draw into the texture and present it.
    Render,
    /// Fit the surface to the window, then draw and present.
    ResizeThenRender,
    /// Present nothing this frame.
    Skip,
    /// Fit the surface to the window and present nothing this frame.
    ResizeAndSkip,
}

/// The surface is lost, or failed validation: nothing can be presented.
#[derive(Clone, Copy, Debug, PartialEq, Eq, Structural)]
pub struct SurfaceLost;

/// Decides what presenting does, given what the surface gave.
pub fn present_plan(status: SurfaceStatus) -> (r: Result<PresentPlan, SurfaceLost>)
    ensures
        r == match status {
            SurfaceStatus::Success => Ok(PresentPlan::Render),
            SurfaceStatus::Suboptimal => Ok(PresentPlan::ResizeThenRender),
            SurfaceStatus::Timeout | SurfaceStatus::Occluded => Ok(PresentPlan::Skip),
            SurfaceStatus::Outdated => Ok(PresentPlan::ResizeAndSkip),
            SurfaceStatus::Lost | SurfaceStatus::Validation => Err(SurfaceLost),
        },
{
    match status {
        SurfaceStatus::Success => Ok(PresentPlan::Render),
        SurfaceStatus::Suboptimal => Ok(PresentPlan::ResizeThenRender),
        SurfaceStatus::Timeout | SurfaceStatus::Occluded => Ok(PresentPlan::Skip),
        SurfaceStatus::Outdated => Ok(PresentPlan::ResizeAndSkip),
        SurfaceStatus::Lost | SurfaceStatus::Validation => Err(SurfaceLost),
    }
}

} // verus!
