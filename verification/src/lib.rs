//! Setup decisions of a Vulkan swap-chain/image-view application: which
//! queue families, device, surface format, present mode, extent and image
//! count to use, which layers and extensions to ask for, and in which order
//! to tear everything down. The driver calls themselves are made by the
//! caller; this crate decides from the plain values they returned.
use vstd::prelude::*;

pub mod vulkan;
pub mod queue_family;
pub mod names;
pub mod swap_chain;
pub mod device;
pub mod instance;
pub mod lifecycle;
pub mod debug_messages;

verus! {

} // verus!
