//! Choosing the physical device.
use vstd::prelude::*;
use crate::queue_family::QueueFamilyIndices;
use crate::swap_chain::SwapChainSupportDetails;

verus! {

/// The surface offers at least one format and one present mode.
pub open spec fn adequate(details: SwapChainSupportDetails) -> bool {
    details.formats@.len() > 0 && details.present_modes@.len() > 0
}

/// Whether the swap chain support of a device is enough to present: at
/// least one surface format and one present mode.
pub fn swap_chain_adequate(details: &SwapChainSupportDetails) -> (r: bool)
    ensures
        r == adequate(*details),
        r == (details.formats@.len() > 0 && details.present_modes@.len() > 0),
{
    !details.formats.is_empty() && !details.present_modes.is_empty()
}

/// A device is suitable when it has a graphics and a present queue family,
/// offers the required extensions, and, those being offered, its swap chain
/// support is adequate. The swap chain support is only looked at (and only
/// needs to be known) when the extensions are offered.
pub open spec fn suitable(
    indices: QueueFamilyIndices,
    extensions_supported: bool,
    swap_chain_support: Option<SwapChainSupportDetails>,
) -> bool {
    &&& indices.complete()
    &&& extensions_supported
    &&& swap_chain_support matches Some(details) && adequate(details)
}

/// Whether a physical device can run the application, from its queue
/// families, whether it offers the required device extensions, and its
/// swap chain support (queried only when the extensions are offered).
pub fn is_device_suitable(
    indices: &QueueFamilyIndices,
    extensions_supported: bool,
    swap_chain_support: &Option<SwapChainSupportDetails>,
) -> (r: bool)
    requires
        extensions_supported ==> swap_chain_support is Some,
    ensures
        r == suitable(*indices, extensions_supported, *swap_chain_support),
        r == (indices.graphics_family is Some && indices.present_family is Some
            && extensions_supported && swap_chain_support is Some
            && swap_chain_support->0.formats@.len() > 0
            && swap_chain_support->0.present_modes@.len() > 0),
{
    let mut swap_chain_is_adequate = false;
    if extensions_supported {
        match swap_chain_support {
            Some(details) => {
                swap_chain_is_adequate = swap_chain_adequate(details);
            },
            None => {},
        }
    }
    indices.is_complete() && extensions_supported && swap_chain_is_adequate
}

/// A surface is adequate exactly when it offers at least one format and at
/// least one present mode, whatever those are.
pub proof fn lemma_adequate_means_nonempty(details: SwapChainSupportDetails)
    ensures
        adequate(details) <==> details.formats@.len() > 0 && details.present_modes@.len() > 0,
{
}

/// A device is suitable exactly when it has some graphics family and some
/// present family (the same one or two different ones), offers the
/// required extensions, and its swap chain support offers at least one
/// format and one present mode.
pub proof fn lemma_suitable_means(
    indices: QueueFamilyIndices,
    extensions_supported: bool,
    swap_chain_support: Option<SwapChainSupportDetails>,
)
    ensures
        suitable(indices, extensions_supported, swap_chain_support) <==> (
        indices.graphics_family is Some && indices.present_family is Some && extensions_supported
            && swap_chain_support is Some && swap_chain_support->0.formats@.len() > 0
            && swap_chain_support->0.present_modes@.len() > 0),
{
}

/// Picks the physical device among those the driver lists, given which of
/// them are suitable: the last suitable one, or none.
pub fn pick_physical_device(suitable: &Vec<bool>) -> (r: Option<usize>)
    ensures
        r matches Some(k) ==> k < suitable@.len() && suitable@[k as int] && forall|j: int|
            k < j < suitable@.len() ==> !suitable@[j],
        r is None <==> forall|j: int| 0 <= j < suitable@.len() ==> !suitable@[j],
{
    let mut picked: Option<usize> = None;
    let mut i: usize = 0;
    while i < suitable.len()
        invariant
            i <= suitable@.len(),
            picked matches Some(k) ==> k < i && suitable@[k as int] && forall|j: int|
                k < j < i ==> !suitable@[j],
            picked is None ==> forall|j: int| 0 <= j < i ==> !suitable@[j],
        decreases suitable@.len() - i,
    {
        if suitable[i] {
            picked = Some(i);
        }
        i = i + 1;
    }
    picked
}

} // verus!
