//! The Vulkan backend's decisions.
use vstd::prelude::*;

pub mod device;
pub mod swapchain;

verus! {

/// The number of frames that may be in flight at once.
pub const FRAMES_IN_FLIGHT: usize = 3;

/// The windowing layer gave no function to load Vulkan's instance
/// functions with.
#[derive(Debug, Clone, Copy, PartialEq, Eq, Structural)]
pub struct VulkanProcAddressError;

impl VulkanProcAddressError {
    /// The error's text.
    pub fn message(&self) -> (text: &'static str)
        ensures
            text@ == "failed to retrieve Vulkan instance proc address"@,
    {
        "failed to retrieve Vulkan instance proc address"
    }
}

} // verus!
