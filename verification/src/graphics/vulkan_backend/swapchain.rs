//! The shape of the swapchain, worked out from what the surface supports.
use vstd::prelude::*;
use super::device::{DeviceQueues, QueueType};

verus! {

/// A width and a height in pixels.
#[derive(Clone, Copy, Debug, PartialEq, Eq, Structural)]
pub struct Extent2D {
    pub width: u32,
    pub height: u32,
}

/// What the surface allows a swapchain: bounds on the number of images
/// (a maximum of 0 meaning none) and on their size.
#[derive(Clone, Copy, Debug, PartialEq, Eq, Structural)]
pub struct SurfaceCapabilities {
    pub min_image_count: u32,
    pub max_image_count: u32,
    pub min_image_extent: Extent2D,
    pub max_image_extent: Extent2D,
}

/// A pixel format and a colour space, by their Vulkan numbers.
#[derive(Clone, Copy, Debug, PartialEq, Eq, Structural)]
pub struct SurfaceFormat {
    pub format: i32,
    pub color_space: i32,
}

/// The format that the swapchain's images use: `B8G8R8A8_SRGB`.
pub const DESIRED_FORMAT: i32 = 50;

/// The colour space that the swapchain's images use: `SRGB_NONLINEAR`.
pub const DESIRED_COLOR_SPACE: i32 = 0;

/// What a swapchain is created with.
#[derive(Clone, Copy, Debug, PartialEq, Eq, Structural)]
pub struct SwapchainPlan {
    pub extent: Extent2D,
    pub min_image_count: u32,
}

/// Why no swapchain can be created.
#[derive(Clone, Copy, Debug, PartialEq, Eq, Structural)]
pub enum SwapchainRefusal {
    /// The surface does not offer the desired format and colour space.
    UnsupportedFormat,
    /// Graphics and presentation use different queue families, which an
    /// exclusively owned swapchain cannot serve.
    SharedQueueFamilies,
}

/// `value` kept within `[min, max]`.
pub open spec fn clamp_spec(value: u32, min: u32, max: u32) -> u32 {
    if value < min {
        min
    } else if value > max {
        max
    } else {
        value
    }
}

/// Keeps `value` within `[min, max]`, as `u32::clamp` does, which panics
/// unless `min <= max`.
pub fn clamp_u32(value: u32, min: u32, max: u32) -> (clamped: u32)
    requires
        min <= max,
    ensures
        clamped == clamp_spec(value, min, max),
{
    if value < min {
        min
    } else if value > max {
        max
    } else {
        value
    }
}

/// The window's size kept within the surface's bounds.
pub open spec fn extent_spec(pixel_width: u32, pixel_height: u32, caps: SurfaceCapabilities) -> Extent2D {
    Extent2D {
        width: clamp_spec(pixel_width, caps.min_image_extent.width, caps.max_image_extent.width),
        height: clamp_spec(pixel_height, caps.min_image_extent.height, caps.max_image_extent.height),
    }
}

/// One image more than the surface's minimum, where its maximum allows.
pub open spec fn min_image_count_spec(caps: SurfaceCapabilities) -> u32 {
    let max = if caps.max_image_count == 0 {
        u32::MAX
    } else {
        caps.max_image_count
    };
    if caps.min_image_count + 1 <= max {
        (caps.min_image_count + 1) as u32
    } else {
        max
    }
}

/// A planned swapchain stays within the surface's bounds: its size within
/// the allowed extents, and its image count above the surface's minimum
/// and, where there is a maximum, not above it.
pub proof fn lemma_plan_within_bounds(pixel_width: u32, pixel_height: u32, caps: SurfaceCapabilities)
    requires
        caps.min_image_extent.width <= caps.max_image_extent.width,
        caps.min_image_extent.height <= caps.max_image_extent.height,
        caps.min_image_count < u32::MAX,
    ensures
        ({
            let extent = extent_spec(pixel_width, pixel_height, caps);
            &&& caps.min_image_extent.width <= extent.width <= caps.max_image_extent.width
            &&& caps.min_image_extent.height <= extent.height <= caps.max_image_extent.height
            &&& caps.max_image_count != 0 ==> min_image_count_spec(caps) <= caps.max_image_count
            &&& (caps.max_image_count == 0 || caps.min_image_count < caps.max_image_count)
                ==> min_image_count_spec(caps) == caps.min_image_count + 1
        }),
{
}

/// The planned size is the window's own, side by side: each of its width
/// and height is the window's where that fits the surface's bounds, and the
/// nearer bound where it does not.
pub proof fn lemma_extent_keeps_window_size(pixel_width: u32, pixel_height: u32, caps: SurfaceCapabilities)
    requires
        caps.min_image_extent.width <= caps.max_image_extent.width,
        caps.min_image_extent.height <= caps.max_image_extent.height,
    ensures
        ({
            let extent = extent_spec(pixel_width, pixel_height, caps);
            let (min, max) = (caps.min_image_extent, caps.max_image_extent);
            &&& min.width <= pixel_width <= max.width ==> extent.width == pixel_width
            &&& pixel_width < min.width ==> extent.width == min.width
            &&& pixel_width > max.width ==> extent.width == max.width
            &&& min.height <= pixel_height <= max.height ==> extent.height == pixel_height
            &&& pixel_height < min.height ==> extent.height == min.height
            &&& pixel_height > max.height ==> extent.height == max.height
        }),
{
}

/// Whether the surface offers the desired format in the desired colour
/// space.
pub open spec fn supports_desired_format(formats: Seq<SurfaceFormat>) -> bool {
    exists|i: int|
        0 <= i < formats.len() && #[trigger] formats[i] == (SurfaceFormat {
            format: DESIRED_FORMAT,
            color_space: DESIRED_COLOR_SPACE,
        })
}

/// Works out the swapchain for a window of the given size in pixels: the
/// surface must offer the desired format, and graphics and presentation
/// must share a queue family. The surface's bounds must be ordered and its
/// minimum image count below `u32::MAX`.
pub fn plan_swapchain(
    pixel_width: u32,
    pixel_height: u32,
    caps: SurfaceCapabilities,
    formats: &[SurfaceFormat],
    queues: &DeviceQueues,
) -> (r: Result<SwapchainPlan, SwapchainRefusal>)
    requires
        caps.min_image_extent.width <= caps.max_image_extent.width,
        caps.min_image_extent.height <= caps.max_image_extent.height,
        caps.min_image_count < u32::MAX,
    ensures
        !supports_desired_format(formats@) ==> r == Err::<SwapchainPlan, SwapchainRefusal>(
            SwapchainRefusal::UnsupportedFormat,
        ),
        supports_desired_format(formats@) && queues.present_index != queues.graphics_index ==> r
            == Err::<SwapchainPlan, SwapchainRefusal>(SwapchainRefusal::SharedQueueFamilies),
        supports_desired_format(formats@) && queues.present_index == queues.graphics_index ==> r
            == Ok::<SwapchainPlan, SwapchainRefusal>(
            SwapchainPlan {
                extent: extent_spec(pixel_width, pixel_height, caps),
                min_image_count: min_image_count_spec(caps),
            },
        ),        r matches Ok(plan) ==> {
            &&& caps.min_image_extent.width <= pixel_width <= caps.max_image_extent.width
                ==> plan.extent.width == pixel_width
            &&& caps.min_image_extent.height <= pixel_height <= caps.max_image_extent.height
                ==> plan.extent.height == pixel_height
        },
{
    proof {
        lemma_extent_keeps_window_size(pixel_width, pixel_height, caps);
    }
    let mut found = false;
    let mut i: usize = 0;
    while i < formats.len()
        invariant
            0 <= i <= formats@.len(),
            found ==> supports_desired_format(formats@),
            !found ==> forall|j: int| 0 <= j < i ==> formats@[j] != (SurfaceFormat {
                format: DESIRED_FORMAT,
                color_space: DESIRED_COLOR_SPACE,
            }),
        decreases formats@.len() - i,
    {
        if formats[i].format == DESIRED_FORMAT && formats[i].color_space == DESIRED_COLOR_SPACE {
            found = true;
        }
        i += 1;
    }
    if !found {
        return Err(SwapchainRefusal::UnsupportedFormat);
    }
    let extent = Extent2D {
        width: clamp_u32(pixel_width, caps.min_image_extent.width, caps.max_image_extent.width),
        height: clamp_u32(pixel_height, caps.min_image_extent.height, caps.max_image_extent.height),
    };
    let max_count = if caps.max_image_count == 0 {
        u32::MAX
    } else {
        caps.max_image_count
    };
    let min_image_count = if caps.min_image_count + 1 <= max_count {
        caps.min_image_count + 1
    } else {
        max_count
    };
    if queues.get_queue_family_index(QueueType::Presentation) != queues.get_queue_family_index(
        QueueType::Graphics,
    ) {
        return Err(SwapchainRefusal::SharedQueueFamilies);
    }
    Ok(SwapchainPlan { extent, min_image_count })
}

} // verus!
