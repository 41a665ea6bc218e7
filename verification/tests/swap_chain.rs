use image_views::queue_family::QueueFamilyIndices;
use image_views::swap_chain::{
    choose_image_sharing, choose_swap_extent, choose_swap_present_mode,
    choose_swap_surface_format, swap_chain_image_count, swap_chain_settings, Extent2D,
    ImageSharing, SurfaceCapabilities, SurfaceFormat, SwapChainSupportDetails, HEIGHT, WIDTH,
};

const B8G8R8A8_UNORM: i32 = 44;
const R8G8B8A8_SRGB: i32 = 43;
const SRGB_NONLINEAR: i32 = 0;
const IMMEDIATE: i32 = 0;
const MAILBOX: i32 = 1;
const FIFO: i32 = 2;
const FIFO_RELAXED: i32 = 3;

fn capabilities(min: u32, max: u32, current: Extent2D, min_extent: Extent2D) -> SurfaceCapabilities {
    SurfaceCapabilities {
        min_image_count: min,
        max_image_count: max,
        current_extent: current,
        min_image_extent: min_extent,
        max_image_extent: Extent2D { width: 4096, height: 4096 },
        current_transform: 1,
    }
}

#[test]
fn surface_format_prefers_bgra_srgb() {
    let formats = vec![
        SurfaceFormat { format: R8G8B8A8_SRGB, color_space: SRGB_NONLINEAR },
        SurfaceFormat { format: B8G8R8A8_UNORM, color_space: 1000104001 },
        SurfaceFormat { format: B8G8R8A8_UNORM, color_space: SRGB_NONLINEAR },
    ];
    assert_eq!(choose_swap_surface_format(&formats), formats[2]);
}

#[test]
fn surface_format_falls_back_to_first() {
    let formats = vec![
        SurfaceFormat { format: R8G8B8A8_SRGB, color_space: SRGB_NONLINEAR },
        SurfaceFormat { format: B8G8R8A8_UNORM, color_space: 1000104001 },
    ];
    assert_eq!(choose_swap_surface_format(&formats), formats[0]);
}

#[test]
fn present_mode_prefers_mailbox_else_fifo() {
    assert_eq!(choose_swap_present_mode(&vec![FIFO, MAILBOX, IMMEDIATE]), MAILBOX);
    assert_eq!(choose_swap_present_mode(&vec![IMMEDIATE, FIFO_RELAXED]), FIFO);
    assert_eq!(choose_swap_present_mode(&Vec::new()), FIFO);
}

#[test]
fn extent_is_current_unless_left_open() {
    let current = Extent2D { width: 1024, height: 768 };
    let caps = capabilities(2, 3, current, Extent2D { width: 1, height: 1 });
    assert_eq!(choose_swap_extent(&caps), current);
    let open = Extent2D { width: u32::MAX, height: u32::MAX };
    // window size within the surface's range: the window size
    let caps = capabilities(2, 3, open, Extent2D { width: 1, height: 1 });
    assert_eq!(choose_swap_extent(&caps), Extent2D { width: 800, height: 600 });
    // window smaller than the minimum: raised to the minimum
    let caps = capabilities(2, 3, open, Extent2D { width: 900, height: 700 });
    assert_eq!(choose_swap_extent(&caps), Extent2D { width: 900, height: 700 });
    // window larger than the maximum: lowered to the maximum
    let mut caps = capabilities(2, 3, open, Extent2D { width: 1, height: 1 });
    caps.max_image_extent = Extent2D { width: 640, height: 480 };
    assert_eq!(choose_swap_extent(&caps), Extent2D { width: 640, height: 480 });
    // mixed: width clamped down, height raised
    let mut caps = capabilities(2, 3, open, Extent2D { width: 100, height: 650 });
    caps.max_image_extent = Extent2D { width: 700, height: 1000 };
    assert_eq!(choose_swap_extent(&caps), Extent2D { width: 700, height: 650 });
    assert_eq!((WIDTH, HEIGHT), (800, 600));
}

#[test]
fn image_count_is_one_above_minimum_within_maximum() {
    let e = Extent2D { width: 800, height: 600 };
    assert_eq!(swap_chain_image_count(&capabilities(2, 8, e, e)), 3);
    assert_eq!(swap_chain_image_count(&capabilities(3, 3, e, e)), 3);
    assert_eq!(swap_chain_image_count(&capabilities(2, 0, e, e)), 3);
    assert_eq!(swap_chain_image_count(&capabilities(1, 2, e, e)), 2);
}

#[test]
fn sharing_is_concurrent_only_across_families() {
    let split = QueueFamilyIndices { graphics_family: Some(0), present_family: Some(2) };
    let (sharing, families) = choose_image_sharing(&split);
    assert_eq!(sharing, ImageSharing::Concurrent);
    assert_eq!(families, vec![0, 2]);
    let same = QueueFamilyIndices { graphics_family: Some(1), present_family: Some(1) };
    let (sharing, families) = choose_image_sharing(&same);
    assert_eq!(sharing, ImageSharing::Exclusive);
    assert!(families.is_empty());
}

#[test]
fn settings_combine_the_choices() {
    let current = Extent2D { width: 1280, height: 720 };
    let support = SwapChainSupportDetails {
        capabilities: capabilities(2, 0, current, Extent2D { width: 1, height: 1 }),
        formats: vec![SurfaceFormat { format: B8G8R8A8_UNORM, color_space: SRGB_NONLINEAR }],
        present_modes: vec![FIFO],
    };
    let indices = QueueFamilyIndices { graphics_family: Some(0), present_family: Some(1) };
    let settings = swap_chain_settings(&support, &indices);
    assert_eq!(settings.surface_format, support.formats[0]);
    assert_eq!(settings.present_mode, FIFO);
    assert_eq!(settings.image_extent, current);
    assert_eq!(settings.min_image_count, 3);
    assert_eq!(settings.image_sharing, ImageSharing::Concurrent);
    assert_eq!(settings.queue_family_indices, vec![0, 1]);
    assert_eq!(settings.pre_transform, 1);
}
