//! Creating the Vulkan instance: API version, layers and extensions.
use vstd::prelude::*;
use crate::names::{texts, validation_layers, required_validation_layers};
use crate::vulkan::{
    debug_utils_extension_name,
    make_version,
    surface_extension_name,
    version_major,
    version_minor,
    win32_surface_extension_name,
};

verus! {

/// A packed Vulkan version: major in bits 22 and up, minor in bits 12..22,
/// patch in bits 0..12.
pub open spec fn packed_version(major: u32, minor: u32, patch: u32) -> u32 {
    (major << 22u32) | (minor << 12u32) | patch
}

/// What asking the loader for the instance version gave.
#[derive(Clone, Copy, Debug, PartialEq, Eq, Structural)]
pub enum InstanceVersion {
    /// A Vulkan 1.1+ loader reported this packed version.
    Reported(u32),
    /// A Vulkan 1.0 loader, which cannot report a version.
    Vulkan10,
    /// The query failed.
    QueryFailed,
}

/// The version the application declares: the major and minor version of the
/// instance when the loader reports one, with patch 0; Vulkan 1.0.0 for a
/// Vulkan 1.0 loader or when asking for it failed.
pub open spec fn declared_version(instance_version: InstanceVersion) -> u32 {
    match instance_version {
        InstanceVersion::Reported(v) => packed_version(v >> 22u32, (v >> 12u32) & 0x3ffu32, 0),
        _ => packed_version(1, 0, 0),
    }
}

/// The version that the application declares as its own, its engine's and
/// the API version it uses, from what asking the loader for the instance
/// version gave.
pub fn declared_api_version(instance_version: InstanceVersion) -> (r: u32)
    ensures
        r == declared_version(instance_version),
{
    match instance_version {
        InstanceVersion::Reported(version) => {
            let major = version_major(version);
            let minor = version_minor(version);
            make_version(major, minor, 0)
        },
        _ => make_version(1, 0, 0),
    }
}

/// Declaring a reported instance version keeps its major and minor version
/// and clears its patch version.
pub proof fn lemma_declared_version_drops_patch(v: u32)
    ensures
        declared_version(InstanceVersion::Reported(v)) == v & 0xffff_f000u32,
        declared_version(InstanceVersion::Vulkan10) == 0x0040_0000u32,
        declared_version(InstanceVersion::QueryFailed) == 0x0040_0000u32,
{
    assert(packed_version(v >> 22u32, (v >> 12u32) & 0x3ffu32, 0) == v & 0xffff_f000u32)
        by (bit_vector);
    assert(packed_version(1, 0, 0) == 0x0040_0000u32) by (bit_vector);
}

/// The operating systems that the window surface code tells apart.
#[derive(Clone, Copy, Debug, PartialEq, Eq, Structural)]
pub enum TargetOs {
    Windows,
    MacOs,
    Android,
    Other,
}

/// The instance extensions the window system needs on an operating system.
pub open spec fn required_instance_extensions(os: TargetOs) -> Seq<Seq<char>> {
    if os == TargetOs::Windows {
        seq!["VK_KHR_surface"@, "VK_KHR_win32_surface"@, "VK_EXT_debug_utils"@]
    } else {
        seq![]
    }
}

/// The instance extensions to enable: on Windows the surface, Win32 surface
/// and debug utils extensions; none elsewhere. macOS and Android are not
/// supported.
pub fn get_required_extensions(os: TargetOs) -> (r: Vec<String>)
    requires
        os != TargetOs::MacOs,
        os != TargetOs::Android,
    ensures
        texts(r@) == required_instance_extensions(os),
{
    let mut names: Vec<String> = Vec::new();
    if os == TargetOs::Windows {
        names.push(surface_extension_name());
        names.push(win32_surface_extension_name());
        names.push(debug_utils_extension_name());
    }
    assert(texts(names@) =~= required_instance_extensions(os));
    names
}

/// What the instance is created with.
#[derive(Debug)]
pub struct InstanceSettings {
    /// Version declared for the application, the engine and the API.
    pub api_version: u32,
    /// Extensions to enable.
    pub extensions: Vec<String>,
    /// Layers to enable.
    pub layers: Vec<String>,
    /// Whether a debug messenger create info is chained into the instance
    /// create info, so that instance creation itself is reported.
    pub chain_debug_messenger: bool,
}

/// The instance settings: the declared version, the window system's
/// extensions, and in debug builds the validation layers and a chained debug
/// messenger.
pub fn instance_settings(
    debug: bool,
    os: TargetOs,
    instance_version: InstanceVersion,
) -> (r: InstanceSettings)
    requires
        os != TargetOs::MacOs,
        os != TargetOs::Android,
    ensures
        r.api_version == declared_version(instance_version),
        texts(r.extensions@) == required_instance_extensions(os),
        debug ==> texts(r.layers@) == required_validation_layers(),
        !debug ==> r.layers@.len() == 0,
        r.chain_debug_messenger == debug,
{
    let extensions = get_required_extensions(os);
    let layers = if debug {
        validation_layers()
    } else {
        Vec::new()
    };
    let api_version = declared_api_version(instance_version);
    InstanceSettings { api_version, extensions, layers, chain_debug_messenger: debug }
}

} // verus!
