//! The swap chain: what the surface supports, and the format, present mode,
//! extent, image count and sharing that the application picks from it.
use vstd::prelude::*;
use crate::queue_family::{distinct_families, QueueFamilyIndices};
use crate::vulkan::{
    color_space_srgb_nonlinear,
    format_b8g8r8a8_unorm,
    present_mode_fifo,
    present_mode_mailbox,
};

verus! {

/// Width of the window, in pixels.
pub const WIDTH: u32 = 800;

/// Height of the window, in pixels.
pub const HEIGHT: u32 = 600;

/// Raw `VkFormat` value of `B8G8R8A8_UNORM`.
pub open spec fn bgra8_unorm() -> i32 {
    44
}

/// Raw `VkColorSpaceKHR` value of `SRGB_NONLINEAR`.
pub open spec fn srgb_nonlinear() -> i32 {
    0
}

/// Raw `VkPresentModeKHR` value of `MAILBOX`.
pub open spec fn mailbox() -> i32 {
    1
}

/// Raw `VkPresentModeKHR` value of `FIFO`.
pub open spec fn fifo() -> i32 {
    2
}

/// A surface format: pixel format and color space, as raw Vulkan values.
#[derive(Clone, Copy, Debug, PartialEq, Eq)]
pub struct SurfaceFormat {
    pub format: i32,
    pub color_space: i32,
}

/// A two-dimensional size in pixels.
#[derive(Clone, Copy, Debug, PartialEq, Eq)]
pub struct Extent2D {
    pub width: u32,
    pub height: u32,
}

/// The basic capabilities of a surface: image counts, image sizes and the
/// current transform.
#[derive(Clone, Copy, Debug, PartialEq, Eq)]
pub struct SurfaceCapabilities {
    pub min_image_count: u32,
    /// 0 means no limit.
    pub max_image_count: u32,
    pub current_extent: Extent2D,
    pub min_image_extent: Extent2D,
    pub max_image_extent: Extent2D,
    /// Raw `VkSurfaceTransformFlagBitsKHR`.
    pub current_transform: u32,
}

/// What a physical device supports for presenting to the surface.
#[derive(Debug)]
pub struct SwapChainSupportDetails {
    pub capabilities: SurfaceCapabilities,
    pub formats: Vec<SurfaceFormat>,
    /// Raw `VkPresentModeKHR` values.
    pub present_modes: Vec<i32>,
}

/// The preferred surface format: 8-bit BGRA in the sRGB color space.
pub open spec fn is_preferred_format(f: SurfaceFormat) -> bool {
    f.format == bgra8_unorm() && f.color_space == srgb_nonlinear()
}

/// The format chosen from a list: the first preferred one, else the first one.
pub open spec fn chosen_format(formats: Seq<SurfaceFormat>) -> SurfaceFormat {
    if exists|i: int| 0 <= i < formats.len() && is_preferred_format(#[trigger] formats[i]) {
        formats[choose|i: int| 0 <= i < formats.len() && is_preferred_format(formats[i])
            && forall|j: int| 0 <= j < i ==> !is_preferred_format(#[trigger] formats[j])]
    } else {
        formats[0]
    }
}

/// The chosen format is the first offered format that is 8-bit BGRA
/// (`B8G8R8A8_UNORM`, 44) in the sRGB color space (`SRGB_NONLINEAR`, 0),
/// and the first offered format when there is none such.
pub proof fn lemma_chosen_format_is_first_preferred_or_first(formats: Seq<SurfaceFormat>)
    requires
        formats.len() > 0,
    ensures
        (forall|i: int|
            0 <= i < formats.len() ==> !((#[trigger] formats[i]).format == 44 && formats[i].color_space
                == 0)) ==> chosen_format(formats) == formats[0],
        (exists|i: int|
            0 <= i < formats.len() && (#[trigger] formats[i]).format == 44 && formats[i].color_space
                == 0) ==> exists|k: int|
            0 <= k < formats.len() && chosen_format(formats) == formats[k] && formats[k].format == 44
                && formats[k].color_space == 0 && forall|j: int|
                0 <= j < k ==> !((#[trigger] formats[j]).format == 44 && formats[j].color_space == 0),
{
    if exists|i: int|
        0 <= i < formats.len() && (#[trigger] formats[i]).format == 44 && formats[i].color_space
            == 0 {
        let i = choose|i: int|
            0 <= i < formats.len() && (#[trigger] formats[i]).format == 44 && formats[i].color_space
                == 0;
        assert(is_preferred_format(formats[i]));
        lemma_first_preferred_exists(formats, i);
        let c = choose|c: int| 0 <= c < formats.len() && is_preferred_format(formats[c])
            && forall|j: int| 0 <= j < c ==> !is_preferred_format(#[trigger] formats[j]);
        assert(chosen_format(formats) == formats[c]);
    } else {
        assert forall|i: int| 0 <= i < formats.len() implies !is_preferred_format(
            #[trigger] formats[i],
        ) by {
            assert(!(formats[i].format == 44 && formats[i].color_space == 0));
        }
    }
}

/// Some offered format is preferred, so a first preferred one exists.
proof fn lemma_first_preferred_exists(formats: Seq<SurfaceFormat>, i: int)
    requires
        0 <= i < formats.len(),
        is_preferred_format(formats[i]),
    ensures
        exists|c: int| 0 <= c < formats.len() && is_preferred_format(formats[c])
            && forall|j: int| 0 <= j < c ==> !is_preferred_format(#[trigger] formats[j]),
    decreases i,
{
    if exists|j: int| 0 <= j < i && is_preferred_format(#[trigger] formats[j]) {
        let j = choose|j: int| 0 <= j < i && is_preferred_format(#[trigger] formats[j]);
        lemma_first_preferred_exists(formats, j);
    } else {
        assert(0 <= i < formats.len() && is_preferred_format(formats[i]) && forall|j: int|
            0 <= j < i ==> !is_preferred_format(#[trigger] formats[j]));
    }
}

/// Chooses the surface format: 8-bit BGRA in sRGB if the surface offers it,
/// otherwise the first format it offers.
pub fn choose_swap_surface_format(available_formats: &Vec<SurfaceFormat>) -> (r: SurfaceFormat)
    requires
        available_formats@.len() > 0,
    ensures
        r == chosen_format(available_formats@),
        available_formats@.contains(r),
        (forall|i: int|
            0 <= i < available_formats@.len() ==> !((#[trigger] available_formats@[i]).format == 44
                && available_formats@[i].color_space == 0)) ==> r == available_formats@[0],
        (exists|i: int|
            0 <= i < available_formats@.len() && (#[trigger] available_formats@[i]).format == 44
                && available_formats@[i].color_space == 0) ==> exists|k: int|
            0 <= k < available_formats@.len() && r == available_formats@[k] && r.format == 44
                && r.color_space == 0 && forall|j: int|
                0 <= j < k ==> !((#[trigger] available_formats@[j]).format == 44
                    && available_formats@[j].color_space == 0),
        (exists|i: int|
            0 <= i < available_formats@.len() && is_preferred_format(
                #[trigger] available_formats@[i],
            )) ==> is_preferred_format(r),
{
    let wanted_format = format_b8g8r8a8_unorm();
    let wanted_color_space = color_space_srgb_nonlinear();
    let mut i: usize = 0;
    while i < available_formats.len()
        invariant
            i <= available_formats@.len(),
            wanted_format == bgra8_unorm(),
            wanted_color_space == srgb_nonlinear(),
            forall|j: int| 0 <= j < i ==> !is_preferred_format(#[trigger] available_formats@[j]),
        decreases available_formats@.len() - i,
    {
        let format = available_formats[i];
        if format.format == wanted_format && format.color_space == wanted_color_space {
            proof {
                let formats = available_formats@;
                let c = choose|c: int| 0 <= c < formats.len() && is_preferred_format(formats[c])
                    && forall|j: int| 0 <= j < c ==> !is_preferred_format(#[trigger] formats[j]);
                assert(0 <= i < formats.len() && is_preferred_format(formats[i as int]) && forall|
                    j: int,
                | 0 <= j < i ==> !is_preferred_format(#[trigger] formats[j]));
                if c < i {
                    assert(!is_preferred_format(formats[c]));
                } else if c > i {
                    assert(!is_preferred_format(formats[i as int]));
                }
                assert(formats.contains(formats[i as int]));
            }
            return format;
        }
        i = i + 1;
    }
    assert(available_formats@.contains(available_formats@[0]));
    available_formats[0]
}

/// Chooses the present mode: `MAILBOX` if the surface offers it, else `FIFO`,
/// which every surface supports.
pub fn choose_swap_present_mode(available_present_modes: &Vec<i32>) -> (r: i32)
    ensures
        available_present_modes@.contains(mailbox()) ==> r == mailbox(),
        !available_present_modes@.contains(mailbox()) ==> r == fifo(),
        available_present_modes@.contains(1) ==> r == 1,
        !available_present_modes@.contains(1) ==> r == 2,
{
    let wanted = present_mode_mailbox();
    let mut i: usize = 0;
    while i < available_present_modes.len()
        invariant
            i <= available_present_modes@.len(),
            wanted == mailbox(),
            forall|j: int| 0 <= j < i ==> available_present_modes@[j] != mailbox(),
        decreases available_present_modes@.len() - i,
    {
        if available_present_modes[i] == wanted {
            return available_present_modes[i];
        }
        i = i + 1;
    }
    present_mode_fifo()
}

/// The larger of two sizes.
pub open spec fn max_u32(a: u32, b: u32) -> u32 {
    if a >= b { a } else { b }
}

/// The smaller of two sizes.
pub open spec fn min_u32(a: u32, b: u32) -> u32 {
    if a <= b { a } else { b }
}

/// The extent picked when the surface leaves it to the application: the
/// window size, each side clamped to the surface's range,
/// `max(min_side, min(max_side, window_side))`.
pub open spec fn free_extent(capabilities: SurfaceCapabilities) -> Extent2D {
    Extent2D {
        width: max_u32(
            capabilities.min_image_extent.width,
            min_u32(capabilities.max_image_extent.width, WIDTH),
        ),
        height: max_u32(
            capabilities.min_image_extent.height,
            min_u32(capabilities.max_image_extent.height, HEIGHT),
        ),
    }
}

fn max_of(a: u32, b: u32) -> (r: u32)
    ensures
        r == max_u32(a, b),
{
    if a >= b {
        a
    } else {
        b
    }
}

fn min_of(a: u32, b: u32) -> (r: u32)
    ensures
        r == min_u32(a, b),
{
    if a <= b {
        a
    } else {
        b
    }
}

/// Chooses the resolution of the swap chain images: the surface's current
/// extent, unless its width is the special value `u32::MAX`, which lets the
/// application pick; then the extent is the window's resolution, each side
/// clamped between the surface's minimum and maximum image extent.
pub fn choose_swap_extent(capabilities: &SurfaceCapabilities) -> (r: Extent2D)
    ensures
        capabilities.current_extent.width != u32::MAX ==> r == capabilities.current_extent,
        capabilities.current_extent.width == u32::MAX ==> r == free_extent(*capabilities),
{
    if capabilities.current_extent.width != u32::MAX {
        capabilities.current_extent
    } else {
        let mut actual_extent = Extent2D { width: WIDTH, height: HEIGHT };
        actual_extent.width = max_of(
            capabilities.min_image_extent.width,
            min_of(capabilities.max_image_extent.width, actual_extent.width),
        );
        actual_extent.height = max_of(
            capabilities.min_image_extent.height,
            min_of(capabilities.max_image_extent.height, actual_extent.height),
        );
        actual_extent
    }
}

/// When the surface leaves the extent to the application and its range is
/// well formed, the chosen extent lies within that range, and it is the
/// window size whenever the window size lies within it.
pub proof fn lemma_free_extent_in_range(capabilities: SurfaceCapabilities)
    requires
        capabilities.min_image_extent.width <= capabilities.max_image_extent.width,
        capabilities.min_image_extent.height <= capabilities.max_image_extent.height,
    ensures
        capabilities.min_image_extent.width <= free_extent(capabilities).width
            <= capabilities.max_image_extent.width,
        capabilities.min_image_extent.height <= free_extent(capabilities).height
            <= capabilities.max_image_extent.height,
        capabilities.min_image_extent.width <= WIDTH <= capabilities.max_image_extent.width
            ==> free_extent(capabilities).width == WIDTH,
        capabilities.min_image_extent.height <= HEIGHT <= capabilities.max_image_extent.height
            ==> free_extent(capabilities).height == HEIGHT,
{
}

/// The number of swap chain images asked for: one more than the minimum,
/// but no more than the maximum when the surface has one (0 means none).
pub open spec fn image_count_for(capabilities: SurfaceCapabilities) -> int {
    if capabilities.max_image_count > 0 && capabilities.min_image_count + 1
        > capabilities.max_image_count {
        capabilities.max_image_count as int
    } else {
        capabilities.min_image_count + 1
    }
}

/// The number of images to ask the swap chain for.
pub fn swap_chain_image_count(capabilities: &SurfaceCapabilities) -> (r: u32)
    requires
        capabilities.min_image_count < u32::MAX,
    ensures
        r == image_count_for(*capabilities),
{
    let mut image_count = capabilities.min_image_count + 1;
    if capabilities.max_image_count > 0 && image_count > capabilities.max_image_count {
        image_count = capabilities.max_image_count;
    }
    image_count
}

/// For capabilities whose minimum does not exceed their maximum, the image
/// count lies between the two, and exceeds the minimum when the maximum
/// leaves room.
pub proof fn lemma_image_count_in_bounds(capabilities: SurfaceCapabilities)
    requires
        capabilities.max_image_count == 0 || capabilities.min_image_count
            <= capabilities.max_image_count,
    ensures
        capabilities.min_image_count <= image_count_for(capabilities),
        capabilities.max_image_count > 0 ==> image_count_for(capabilities)
            <= capabilities.max_image_count,
        (capabilities.max_image_count == 0 || capabilities.min_image_count
            < capabilities.max_image_count) ==> image_count_for(capabilities)
            == capabilities.min_image_count + 1,
{
}

/// How the swap chain images are shared between queue families.
#[derive(Clone, Copy, Debug, PartialEq, Eq, Structural)]
pub enum ImageSharing {
    /// Owned by one queue family at a time.
    Exclusive,
    /// Usable by several queue families without ownership transfers.
    Concurrent,
}

/// The settings for creating the swap chain.
#[derive(Debug)]
pub struct SwapchainSettings {
    pub surface_format: SurfaceFormat,
    /// Raw `VkPresentModeKHR`.
    pub present_mode: i32,
    pub image_extent: Extent2D,
    pub min_image_count: u32,
    pub image_sharing: ImageSharing,
    /// The queue families sharing the images; empty for exclusive sharing.
    pub queue_family_indices: Vec<u32>,
    /// Raw `VkSurfaceTransformFlagBitsKHR`: the surface's current transform.
    pub pre_transform: u32,
}

/// The queue families that share the swap chain images: both families when
/// they differ, none (exclusive use) when they are the same.
pub open spec fn sharing_families(indices: QueueFamilyIndices) -> Seq<u32> {
    if indices.graphics_family != indices.present_family {
        seq![indices.graphics_family->0, indices.present_family->0]
    } else {
        seq![]
    }
}

/// Chooses how the swap chain images are shared: concurrently between the
/// graphics and the present family when those differ, else exclusively.
pub fn choose_image_sharing(indices: &QueueFamilyIndices) -> (r: (ImageSharing, Vec<u32>))
    requires
        indices.complete(),
    ensures
        r.0 == (if indices.graphics_family != indices.present_family {
            ImageSharing::Concurrent
        } else {
            ImageSharing::Exclusive
        }),
        r.1@ == sharing_families(*indices),
{
    let graphics = indices.graphics_family.unwrap();
    let present = indices.present_family.unwrap();
    if graphics != present {
        let mut families: Vec<u32> = Vec::new();
        families.push(graphics);
        families.push(present);
        (ImageSharing::Concurrent, families)
    } else {
        (ImageSharing::Exclusive, Vec::new())
    }
}

/// The swap chain images are shared by exactly the queue families for
/// which the logical device creates queues, when there are two of them;
/// with a single family they are used exclusively.
pub proof fn lemma_sharing_matches_device_queues(indices: QueueFamilyIndices)
    requires
        indices.complete(),
    ensures
        distinct_families(indices).len() == 2 ==> sharing_families(indices) == distinct_families(
            indices,
        ),
        distinct_families(indices).len() == 1 <==> sharing_families(indices).len() == 0,
{
}

/// The settings for the swap chain of a device: the chosen surface format,
/// present mode and extent, the image count, the image sharing, and the
/// surface's current transform.
pub fn swap_chain_settings(
    support: &SwapChainSupportDetails,
    indices: &QueueFamilyIndices,
) -> (r: SwapchainSettings)
    requires
        support.formats@.len() > 0,
        support.capabilities.min_image_count < u32::MAX,
        indices.complete(),
    ensures
        r.surface_format == chosen_format(support.formats@),
        support.present_modes@.contains(mailbox()) ==> r.present_mode == mailbox(),
        !support.present_modes@.contains(mailbox()) ==> r.present_mode == fifo(),
        support.capabilities.current_extent.width != u32::MAX ==> r.image_extent
            == support.capabilities.current_extent,
        support.capabilities.current_extent.width == u32::MAX ==> r.image_extent == free_extent(
            support.capabilities,
        ),
        r.min_image_count == image_count_for(support.capabilities),
        r.image_sharing == (if indices.graphics_family != indices.present_family {
            ImageSharing::Concurrent
        } else {
            ImageSharing::Exclusive
        }),
        r.queue_family_indices@ == sharing_families(*indices),
        r.pre_transform == support.capabilities.current_transform,
{
    let surface_format = choose_swap_surface_format(&support.formats);
    let present_mode = choose_swap_present_mode(&support.present_modes);
    let image_extent = choose_swap_extent(&support.capabilities);
    let min_image_count = swap_chain_image_count(&support.capabilities);
    let (image_sharing, queue_family_indices) = choose_image_sharing(indices);
    SwapchainSettings {
        surface_format,
        present_mode,
        image_extent,
        min_image_count,
        image_sharing,
        queue_family_indices,
        pre_transform: support.capabilities.current_transform,
    }
}

} // verus!
