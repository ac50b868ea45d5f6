use fern::graphics::vulkan_backend::device::{select_queue_family, DeviceQueues, QueueFamilySupport, QueueType};
use fern::graphics::vulkan_backend::swapchain::{
    clamp_u32, plan_swapchain, Extent2D, SurfaceCapabilities, SurfaceFormat, SwapchainPlan, SwapchainRefusal,
    DESIRED_COLOR_SPACE, DESIRED_FORMAT,
};
use fern::graphics::vulkan_backend::VulkanProcAddressError;
use fern::graphics::wgpu_backend::{first_srgb_format, present_plan, PresentPlan, SurfaceLost, SurfaceSize, SurfaceStatus};
use fern::graphics::{GraphicsSystem, GraphicsSystemImpl};

fn family(graphics: bool, present: Option<bool>) -> QueueFamilySupport {
    QueueFamilySupport { graphics, present }
}

fn caps(min_count: u32, max_count: u32) -> SurfaceCapabilities {
    SurfaceCapabilities {
        min_image_count: min_count,
        max_image_count: max_count,
        min_image_extent: Extent2D { width: 100, height: 50 },
        max_image_extent: Extent2D { width: 1000, height: 500 },
    }
}

fn srgb() -> SurfaceFormat {
    SurfaceFormat { format: DESIRED_FORMAT, color_space: DESIRED_COLOR_SPACE }
}

#[test]
fn picks_first_family_with_graphics_and_present() {
    let families = [family(true, Some(false)), family(false, Some(true)), family(true, None), family(true, Some(true)), family(true, Some(true))];
    assert_eq!(select_queue_family(&families), Some(3));
    assert_eq!(select_queue_family(&families[..3]), None);
    assert_eq!(select_queue_family(&[]), None);
}

#[test]
fn device_queues_by_type() {
    let queues = DeviceQueues { present_index: 1, present_queue: 10, graphics_index: 2, graphics_queue: 20 };
    assert_eq!(queues.get_queue_family_index(QueueType::Graphics), 2);
    assert_eq!(queues.get_queue_family_index(QueueType::Presentation), 1);
    assert_eq!(queues.get_queue_handle(QueueType::Graphics), 20);
    assert_eq!(queues.get_queue_handle(QueueType::Presentation), 10);
    let shared = DeviceQueues::shared(4, 7);
    assert_eq!(shared.get_queue_family_index(QueueType::Presentation), 4);
    assert_eq!(shared.get_queue_handle(QueueType::Graphics), 7);
}

#[test]
fn clamps_like_std() {
    assert_eq!(clamp_u32(5, 10, 20), 10);
    assert_eq!(clamp_u32(25, 10, 20), 20);
    assert_eq!(clamp_u32(15, 10, 20), 15);
}

#[test]
fn swapchain_plan_clamps_and_counts() {
    let queues = DeviceQueues::shared(0, 1);
    let plan = plan_swapchain(2000, 10, caps(2, 0), &[SurfaceFormat { format: 44, color_space: 0 }, srgb()], &queues);
    assert_eq!(plan, Ok(SwapchainPlan { extent: Extent2D { width: 1000, height: 50 }, min_image_count: 3 }));
    let plan = plan_swapchain(640, 480, caps(3, 3), &[srgb()], &queues);
    assert_eq!(plan, Ok(SwapchainPlan { extent: Extent2D { width: 640, height: 480 }, min_image_count: 3 }));
}

#[test]
fn swapchain_refusals() {
    let shared = DeviceQueues::shared(0, 1);
    let split = DeviceQueues { present_index: 1, present_queue: 1, graphics_index: 0, graphics_queue: 2 };
    let wrong_space = SurfaceFormat { format: DESIRED_FORMAT, color_space: 1 };
    assert_eq!(plan_swapchain(1, 1, caps(2, 0), &[wrong_space], &shared), Err(SwapchainRefusal::UnsupportedFormat));
    assert_eq!(plan_swapchain(1, 1, caps(2, 0), &[], &split), Err(SwapchainRefusal::UnsupportedFormat));
    assert_eq!(plan_swapchain(1, 1, caps(2, 0), &[srgb()], &split), Err(SwapchainRefusal::SharedQueueFamilies));
}

#[test]
fn first_srgb() {
    assert_eq!(first_srgb_format(&[false, true, true]), Some(1));
    assert_eq!(first_srgb_format(&[false, false]), None);
}

#[test]
fn resize_ignores_zero_sides() {
    let mut size = SurfaceSize { width: 800, height: 640 };
    assert!(!size.resize(0, 100));
    assert!(!size.resize(100, 0));
    assert_eq!(size, SurfaceSize { width: 800, height: 640 });
    assert!(size.resize(1024, 768));
    assert_eq!(size, SurfaceSize { width: 1024, height: 768 });
}

#[test]
fn present_plans() {
    assert_eq!(present_plan(SurfaceStatus::Success), Ok(PresentPlan::Render));
    assert_eq!(present_plan(SurfaceStatus::Suboptimal), Ok(PresentPlan::ResizeThenRender));
    assert_eq!(present_plan(SurfaceStatus::Timeout), Ok(PresentPlan::Skip));
    assert_eq!(present_plan(SurfaceStatus::Occluded), Ok(PresentPlan::Skip));
    assert_eq!(present_plan(SurfaceStatus::Outdated), Ok(PresentPlan::ResizeAndSkip));
    assert_eq!(present_plan(SurfaceStatus::Lost), Err(SurfaceLost));
    assert_eq!(present_plan(SurfaceStatus::Validation), Err(SurfaceLost));
}

#[test]
fn proc_address_error_text() {
    assert_eq!(VulkanProcAddressError.message(), "failed to retrieve Vulkan instance proc address");
}

struct Headless(u32);

impl GraphicsSystemImpl for Headless {}

#[test]
fn graphics_system_holds_its_backend() {
    let mut system = GraphicsSystem::new(Headless(7));
    assert_eq!(system.inner().0, 7);
    system.inner_mut().0 = 9;
    assert_eq!(system.inner().0, 9);
}
