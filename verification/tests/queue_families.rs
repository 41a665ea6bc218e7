use image_views::queue_family::{
    find_queue_families, record_queue_family, unique_queue_families, QueueFamily, QueueFamilyIndices,
};

fn family(queue_flags: u32, present_support: bool) -> QueueFamily {
    QueueFamily { queue_flags, present_support }
}

#[test]
fn is_complete_needs_both_families() {
    let none = QueueFamilyIndices::default();
    assert!(!none.is_complete());
    let graphics_only = QueueFamilyIndices { graphics_family: Some(0), present_family: None };
    assert!(!graphics_only.is_complete());
    let present_only = QueueFamilyIndices { graphics_family: None, present_family: Some(1) };
    assert!(!present_only.is_complete());
    let both = QueueFamilyIndices { graphics_family: Some(0), present_family: Some(1) };
    assert!(both.is_complete());
}

#[test]
fn one_family_for_both_stops_at_first() {
    let families = vec![family(0b1, true), family(0b1, true)];
    let indices = find_queue_families(&families);
    assert_eq!(indices.graphics_family, Some(0));
    assert_eq!(indices.present_family, Some(0));
}

#[test]
fn graphics_and_present_in_different_families() {
    // compute|transfer with present support, then graphics only
    let families = vec![family(0b110, true), family(0b1, false)];
    let indices = find_queue_families(&families);
    assert_eq!(indices.graphics_family, Some(1));
    assert_eq!(indices.present_family, Some(0));
    assert!(indices.is_complete());
}

#[test]
fn later_family_replaces_earlier_until_complete() {
    let families = vec![family(0b1, false), family(0b11, false), family(0b100, true), family(0b1, true)];
    let indices = find_queue_families(&families);
    assert_eq!(indices.graphics_family, Some(1));
    assert_eq!(indices.present_family, Some(2));
}

#[test]
fn missing_graphics_family_stays_unset() {
    let families = vec![family(0b100, true), family(0b10, false)];
    let indices = find_queue_families(&families);
    assert_eq!(indices.graphics_family, None);
    assert_eq!(indices.present_family, Some(0));
    assert!(!indices.is_complete());
    let empty: Vec<QueueFamily> = Vec::new();
    assert_eq!(find_queue_families(&empty), QueueFamilyIndices::default());
}

#[test]
fn graphics_bit_is_bit_zero() {
    // every flag except GRAPHICS: no graphics family
    let families = vec![family(0xffff_fffe, true)];
    assert_eq!(find_queue_families(&families).graphics_family, None);
    let families = vec![family(0xffff_ffff, true)];
    assert_eq!(find_queue_families(&families).graphics_family, Some(0));
}

#[test]
fn unique_families_names_each_family_once() {
    let same = QueueFamilyIndices { graphics_family: Some(2), present_family: Some(2) };
    assert_eq!(unique_queue_families(&same), vec![2]);
    let different = QueueFamilyIndices { graphics_family: Some(0), present_family: Some(3) };
    assert_eq!(unique_queue_families(&different), vec![0, 3]);
}

#[test]
fn recording_families_one_by_one() {
    let mut indices = QueueFamilyIndices::default();
    record_queue_family(&mut indices, 0, family(0b10, true));
    assert_eq!(indices, QueueFamilyIndices { graphics_family: None, present_family: Some(0) });
    record_queue_family(&mut indices, 1, family(0b1, false));
    assert_eq!(indices, QueueFamilyIndices { graphics_family: Some(1), present_family: Some(0) });
}
