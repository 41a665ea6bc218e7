use image_views::names::{
    char2str, check_device_extension_support, check_validation_layer_support, device_extensions,
    validation_layers,
};

/// A name as the driver reports it: a fixed array padded with NULs.
fn raw_name(name: &str) -> Vec<u8> {
    let mut bytes = name.as_bytes().to_vec();
    bytes.resize(256, 0);
    bytes
}

#[test]
fn char2str_reads_up_to_the_first_nul() {
    let mut bytes = b"VK_KHR_swapchain".to_vec();
    bytes.push(0);
    bytes.extend_from_slice(b"junk\0");
    assert_eq!(char2str(&bytes), "VK_KHR_swapchain");
    assert_eq!(char2str(&[0u8, 65, 66]), "");
    assert_eq!(char2str(&raw_name("caf\u{e9}")), "caf\u{e9}");
}

#[test]
fn required_names() {
    assert_eq!(device_extensions(), vec!["VK_KHR_swapchain".to_string()]);
    assert_eq!(validation_layers(), vec!["VK_LAYER_KHRONOS_validation".to_string()]);
}

#[test]
fn device_extension_support_needs_swap_chain() {
    let offered = vec![raw_name("VK_KHR_maintenance1"), raw_name("VK_KHR_swapchain")];
    assert!(check_device_extension_support(&offered));
    let offered = vec![raw_name("VK_KHR_maintenance1"), raw_name("VK_KHR_swapchain_mutable_format")];
    assert!(!check_device_extension_support(&offered));
    let nothing: Vec<Vec<u8>> = Vec::new();
    assert!(!check_device_extension_support(&nothing));
    let twice = vec![raw_name("VK_KHR_swapchain"), raw_name("VK_KHR_swapchain")];
    assert!(check_device_extension_support(&twice));
}

#[test]
fn validation_layer_support_needs_khronos_layer() {
    let offered = vec![raw_name("VK_LAYER_LUNARG_api_dump"), raw_name("VK_LAYER_KHRONOS_validation")];
    assert!(check_validation_layer_support(&offered));
    let offered = vec![raw_name("VK_LAYER_LUNARG_api_dump")];
    assert!(!check_validation_layer_support(&offered));
    let nothing: Vec<Vec<u8>> = Vec::new();
    assert!(!check_validation_layer_support(&nothing));
}
