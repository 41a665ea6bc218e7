use image_views::device::{is_device_suitable, pick_physical_device, swap_chain_adequate};
use image_views::instance::{
    declared_api_version, get_required_extensions, instance_settings, InstanceVersion, TargetOs,
};
use image_views::debug_messages::{debug_message, message_kind_label, severity_label, MessageKind, Severity};
use image_views::lifecycle::{
    cleanup_steps, handle_event, CleanupStep, LiveObjects, LoopControl, LoopEvent,
};
use image_views::queue_family::QueueFamilyIndices;
use image_views::swap_chain::{Extent2D, SurfaceCapabilities, SurfaceFormat, SwapChainSupportDetails};

fn support(formats: usize, modes: usize) -> SwapChainSupportDetails {
    let e = Extent2D { width: 800, height: 600 };
    SwapChainSupportDetails {
        capabilities: SurfaceCapabilities {
            min_image_count: 2,
            max_image_count: 0,
            current_extent: e,
            min_image_extent: e,
            max_image_extent: e,
            current_transform: 1,
        },
        formats: vec![SurfaceFormat { format: 44, color_space: 0 }; formats],
        present_modes: vec![2; modes],
    }
}

#[test]
fn device_suitability() {
    let complete = QueueFamilyIndices { graphics_family: Some(0), present_family: Some(0) };
    let partial = QueueFamilyIndices { graphics_family: Some(0), present_family: None };
    assert!(swap_chain_adequate(&support(1, 1)));
    assert!(!swap_chain_adequate(&support(0, 1)));
    assert!(!swap_chain_adequate(&support(1, 0)));
    assert!(is_device_suitable(&complete, true, &Some(support(1, 1))));
    assert!(!is_device_suitable(&partial, true, &Some(support(1, 1))));
    assert!(!is_device_suitable(&complete, true, &Some(support(0, 1))));
    assert!(!is_device_suitable(&complete, false, &None));
}

#[test]
fn last_suitable_device_is_picked() {
    assert_eq!(pick_physical_device(&vec![true, false, true, false]), Some(2));
    assert_eq!(pick_physical_device(&vec![false, true]), Some(1));
    assert_eq!(pick_physical_device(&vec![false, false]), None);
    assert_eq!(pick_physical_device(&Vec::new()), None);
}

#[test]
fn declared_version_keeps_major_minor() {
    let v_1_2_135 = (1u32 << 22) | (2 << 12) | 135;
    assert_eq!(declared_api_version(InstanceVersion::Reported(v_1_2_135)), (1 << 22) | (2 << 12));
    assert_eq!(declared_api_version(InstanceVersion::QueryFailed), 1 << 22);
    assert_eq!(declared_api_version(InstanceVersion::Vulkan10), 1 << 22);
    let v_1_1_0 = (1u32 << 22) | (1 << 12);
    assert_eq!(declared_api_version(InstanceVersion::Reported(v_1_1_0)), v_1_1_0);
}

#[test]
fn window_system_extensions() {
    assert_eq!(
        get_required_extensions(TargetOs::Windows),
        vec![
            "VK_KHR_surface".to_string(),
            "VK_KHR_win32_surface".to_string(),
            "VK_EXT_debug_utils".to_string()
        ]
    );
    assert!(get_required_extensions(TargetOs::Other).is_empty());
}

#[test]
fn instance_settings_in_debug_and_release() {
    let debug = instance_settings(true, TargetOs::Other, InstanceVersion::Reported(1 << 22 | 3 << 12 | 7));
    assert_eq!(debug.api_version, 1 << 22 | 3 << 12);
    assert_eq!(debug.layers, vec!["VK_LAYER_KHRONOS_validation".to_string()]);
    assert!(debug.extensions.is_empty());
    assert!(debug.chain_debug_messenger);
    let release = instance_settings(false, TargetOs::Windows, InstanceVersion::Vulkan10);
    assert_eq!(release.api_version, 1 << 22);
    assert!(release.layers.is_empty());
    assert_eq!(release.extensions.len(), 3);
    assert!(!release.chain_debug_messenger);
}

#[test]
fn event_handling() {
    let closed = handle_event(LoopEvent::CloseRequested);
    assert_eq!(closed.control, LoopControl::Exit);
    assert!(!closed.release_application);
    let destroyed = handle_event(LoopEvent::LoopDestroyed);
    assert_eq!(destroyed.control, LoopControl::Wait);
    assert!(destroyed.release_application);
    for event in [LoopEvent::OtherWindowEvent, LoopEvent::RedrawRequested, LoopEvent::Other] {
        let r = handle_event(event);
        assert_eq!(r.control, LoopControl::Wait);
        assert!(!r.release_application);
    }
}

fn live(has_messenger: bool, has_instance: bool, views: usize, has_surface: bool) -> LiveObjects {
    LiveObjects {
        has_debug_messenger: has_messenger,
        has_debug_utils_loader: true,
        has_instance,
        image_view_count: views,
        has_swap_chain_loader: true,
        has_surface,
        has_device: true,
    }
}

#[test]
fn cleanup_order() {
    assert_eq!(
        cleanup_steps(&live(true, true, 2, true)),
        vec![
            CleanupStep::DestroyDebugMessenger,
            CleanupStep::DestroyImageView(0),
            CleanupStep::DestroyImageView(1),
            CleanupStep::DestroySwapchain,
            CleanupStep::DestroySurface,
            CleanupStep::DestroyDevice,
            CleanupStep::DestroyInstance,
        ]
    );
    assert_eq!(
        cleanup_steps(&live(false, true, 0, false)),
        vec![CleanupStep::DestroySwapchain, CleanupStep::DestroyDevice, CleanupStep::DestroyInstance]
    );
    assert_eq!(cleanup_steps(&live(true, false, 3, true)), vec![CleanupStep::DestroyDebugMessenger]);
    assert!(cleanup_steps(&live(false, false, 3, true)).is_empty());
}

#[test]
fn messenger_is_destroyed_whenever_it_exists() {
    let steps = cleanup_steps(&live(true, true, 0, true));
    assert_eq!(steps[0], CleanupStep::DestroyDebugMessenger);
    assert_eq!(steps.last(), Some(&CleanupStep::DestroyInstance));
}

#[test]
fn debug_message_labels() {
    assert_eq!(severity_label(0x1), Severity::Verbose);
    assert_eq!(severity_label(0x10), Severity::Info);
    assert_eq!(severity_label(0x100), Severity::Warning);
    assert_eq!(severity_label(0x1000), Severity::Error);
    assert_eq!(severity_label(0x1001), Severity::Default);
    assert_eq!(message_kind_label(0x1), MessageKind::General);
    assert_eq!(message_kind_label(0x2), MessageKind::Validation);
    assert_eq!(message_kind_label(0x4), MessageKind::Performance);
    assert_eq!(message_kind_label(0x6), MessageKind::Default);
    let outcome = debug_message(0x100, 0x2);
    assert_eq!(outcome.severity, Severity::Warning);
    assert_eq!(outcome.kind, MessageKind::Validation);
    assert_eq!(outcome.callback_result, 0);
}
