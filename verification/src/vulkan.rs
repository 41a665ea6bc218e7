//! The values and small pure functions that the decisions take from `ash`
//! (Vulkan constants, flag tests, version packing) and from `std` (UTF-8
//! decoding). Each item below is trusted: its contract restates what the
//! `ash` 0.31 source or the `std` documentation shows.
use vstd::prelude::*;

verus! {

/// Whether the `GRAPHICS` bit is set in a queue family's flags.
pub open spec fn has_graphics_bit(queue_flags: u32) -> bool {
    queue_flags & 1u32 == 1u32
}

/// `ash::vk::QueueFlags::from_raw(flags).contains(QueueFlags::GRAPHICS)`.
/// In ash `GRAPHICS` is the bit `0b1` and `contains` is `self & other == other`,
/// so the result is whether bit 0 of `queue_flags` is set.
#[verifier::external_body]
pub(crate) fn queue_flags_contain_graphics(queue_flags: u32) -> (r: bool)
    ensures
        r == has_graphics_bit(queue_flags),
{
    ash::vk::QueueFlags::from_raw(queue_flags).contains(ash::vk::QueueFlags::GRAPHICS)
}

/// `ash::vk::Format::B8G8R8A8_UNORM`, whose raw value in ash is 44.
#[verifier::external_body]
pub(crate) fn format_b8g8r8a8_unorm() -> (r: i32)
    ensures
        r == 44,
{
    ash::vk::Format::B8G8R8A8_UNORM.as_raw()
}

/// `ash::vk::ColorSpaceKHR::SRGB_NONLINEAR`, whose raw value in ash is 0.
#[verifier::external_body]
pub(crate) fn color_space_srgb_nonlinear() -> (r: i32)
    ensures
        r == 0,
{
    ash::vk::ColorSpaceKHR::SRGB_NONLINEAR.as_raw()
}

/// `ash::vk::PresentModeKHR::MAILBOX`, whose raw value in ash is 1.
#[verifier::external_body]
pub(crate) fn present_mode_mailbox() -> (r: i32)
    ensures
        r == 1,
{
    ash::vk::PresentModeKHR::MAILBOX.as_raw()
}

/// `ash::vk::PresentModeKHR::FIFO`, whose raw value in ash is 2.
#[verifier::external_body]
pub(crate) fn present_mode_fifo() -> (r: i32)
    ensures
        r == 2,
{
    ash::vk::PresentModeKHR::FIFO.as_raw()
}

/// `ash::vk::make_version`: in ash it is
/// `(major << 22) | (minor << 12) | patch` on `u32`.
#[verifier::external_body]
pub(crate) fn make_version(major: u32, minor: u32, patch: u32) -> (r: u32)
    ensures
        r == (major << 22u32) | (minor << 12u32) | patch,
{
    ash::vk::make_version(major, minor, patch)
}

/// `ash::vk::version_major`: in ash it is `version >> 22`.
#[verifier::external_body]
pub(crate) fn version_major(version: u32) -> (r: u32)
    ensures
        r == version >> 22u32,
{
    ash::vk::version_major(version)
}

/// `ash::vk::version_minor`: in ash it is `(version >> 12) & 0x3ff`.
#[verifier::external_body]
pub(crate) fn version_minor(version: u32) -> (r: u32)
    ensures
        r == (version >> 12u32) & 0x3ffu32,
{
    ash::vk::version_minor(version)
}

/// `ash::extensions::khr::Surface::name()`: in ash the C string
/// `VK_KHR_surface`.
#[verifier::external_body]
pub(crate) fn surface_extension_name() -> (r: String)
    ensures
        r@ == "VK_KHR_surface"@,
{
    ash::extensions::khr::Surface::name().to_string_lossy().into_owned()
}

/// `ash::extensions::khr::Win32Surface::name()`: in ash the C string
/// `VK_KHR_win32_surface`.
#[verifier::external_body]
pub(crate) fn win32_surface_extension_name() -> (r: String)
    ensures
        r@ == "VK_KHR_win32_surface"@,
{
    ash::extensions::khr::Win32Surface::name().to_string_lossy().into_owned()
}

/// `ash::extensions::ext::DebugUtils::name()`: in ash the C string
/// `VK_EXT_debug_utils`.
#[verifier::external_body]
pub(crate) fn debug_utils_extension_name() -> (r: String)
    ensures
        r@ == "VK_EXT_debug_utils"@,
{
    ash::extensions::ext::DebugUtils::name().to_string_lossy().into_owned()
}

/// `ash::vk::DebugUtilsMessageSeverityFlagsEXT::VERBOSE`, whose raw value in ash is `0b1`.
#[verifier::external_body]
pub(crate) fn severity_verbose() -> (r: u32)
    ensures
        r == 0x1,
{
    ash::vk::DebugUtilsMessageSeverityFlagsEXT::VERBOSE.as_raw()
}

/// `ash::vk::DebugUtilsMessageSeverityFlagsEXT::INFO`, whose raw value in ash is `0b1_0000`.
#[verifier::external_body]
pub(crate) fn severity_info() -> (r: u32)
    ensures
        r == 0x10,
{
    ash::vk::DebugUtilsMessageSeverityFlagsEXT::INFO.as_raw()
}

/// `ash::vk::DebugUtilsMessageSeverityFlagsEXT::WARNING`, whose raw value in ash is `0b1_0000_0000`.
#[verifier::external_body]
pub(crate) fn severity_warning() -> (r: u32)
    ensures
        r == 0x100,
{
    ash::vk::DebugUtilsMessageSeverityFlagsEXT::WARNING.as_raw()
}

/// `ash::vk::DebugUtilsMessageSeverityFlagsEXT::ERROR`, whose raw value in ash is `0b1_0000_0000_0000`.
#[verifier::external_body]
pub(crate) fn severity_error() -> (r: u32)
    ensures
        r == 0x1000,
{
    ash::vk::DebugUtilsMessageSeverityFlagsEXT::ERROR.as_raw()
}

/// `ash::vk::DebugUtilsMessageTypeFlagsEXT::GENERAL`, whose raw value in ash is `0b1`.
#[verifier::external_body]
pub(crate) fn message_type_general() -> (r: u32)
    ensures
        r == 0x1,
{
    ash::vk::DebugUtilsMessageTypeFlagsEXT::GENERAL.as_raw()
}

/// `ash::vk::DebugUtilsMessageTypeFlagsEXT::VALIDATION`, whose raw value in ash is `0b10`.
#[verifier::external_body]
pub(crate) fn message_type_validation() -> (r: u32)
    ensures
        r == 0x2,
{
    ash::vk::DebugUtilsMessageTypeFlagsEXT::VALIDATION.as_raw()
}

/// `ash::vk::DebugUtilsMessageTypeFlagsEXT::PERFORMANCE`, whose raw value in ash is `0b100`.
#[verifier::external_body]
pub(crate) fn message_type_performance() -> (r: u32)
    ensures
        r == 0x4,
{
    ash::vk::DebugUtilsMessageTypeFlagsEXT::PERFORMANCE.as_raw()
}

/// `ash::vk::FALSE`, which ash defines as 0.
#[verifier::external_body]
pub(crate) fn vk_false() -> (r: u32)
    ensures
        r == 0,
{
    ash::vk::FALSE
}

} // verus!
