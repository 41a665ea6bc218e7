//! Reading the messages that the validation layers send to the debug
//! callback: their severity and kind, and the callback's answer.
use vstd::prelude::*;
use crate::vulkan::{
    message_type_general,
    message_type_performance,
    message_type_validation,
    severity_error,
    severity_info,
    severity_verbose,
    severity_warning,
    vk_false,
};

verus! {

/// The severity of a debug message.
#[derive(Clone, Copy, Debug, PartialEq, Eq, Structural)]
pub enum Severity {
    Verbose,
    Info,
    Warning,
    Error,
    /// Any other combination of severity bits.
    Default,
}

/// The kind of a debug message.
#[derive(Clone, Copy, Debug, PartialEq, Eq, Structural)]
pub enum MessageKind {
    General,
    Validation,
    Performance,
    /// Any other combination of type bits.
    Default,
}

/// The severity named by raw `VkDebugUtilsMessageSeverityFlagsEXT`: a single
/// known bit names its level, anything else is `Default`.
pub open spec fn severity_of(flags: u32) -> Severity {
    if flags == 0x1 {
        Severity::Verbose
    } else if flags == 0x100 {
        Severity::Warning
    } else if flags == 0x1000 {
        Severity::Error
    } else if flags == 0x10 {
        Severity::Info
    } else {
        Severity::Default
    }
}

/// The kind named by raw `VkDebugUtilsMessageTypeFlagsEXT`: a single known
/// bit names its kind, anything else is `Default`.
pub open spec fn kind_of(flags: u32) -> MessageKind {
    if flags == 0x1 {
        MessageKind::General
    } else if flags == 0x4 {
        MessageKind::Performance
    } else if flags == 0x2 {
        MessageKind::Validation
    } else {
        MessageKind::Default
    }
}

/// The severity of a debug message from its raw severity flags.
pub fn severity_label(flags: u32) -> (r: Severity)
    ensures
        r == severity_of(flags),
        flags == 0x1 ==> r == Severity::Verbose,
        flags == 0x10 ==> r == Severity::Info,
        flags == 0x100 ==> r == Severity::Warning,
        flags == 0x1000 ==> r == Severity::Error,
        flags != 0x1 && flags != 0x10 && flags != 0x100 && flags != 0x1000 ==> r
            == Severity::Default,
{
    if flags == severity_verbose() {
        Severity::Verbose
    } else if flags == severity_warning() {
        Severity::Warning
    } else if flags == severity_error() {
        Severity::Error
    } else if flags == severity_info() {
        Severity::Info
    } else {
        Severity::Default
    }
}

/// The kind of a debug message from its raw type flags.
pub fn message_kind_label(flags: u32) -> (r: MessageKind)
    ensures
        r == kind_of(flags),
        flags == 0x1 ==> r == MessageKind::General,
        flags == 0x2 ==> r == MessageKind::Validation,
        flags == 0x4 ==> r == MessageKind::Performance,
        flags != 0x1 && flags != 0x2 && flags != 0x4 ==> r == MessageKind::Default,
{
    if flags == message_type_general() {
        MessageKind::General
    } else if flags == message_type_performance() {
        MessageKind::Performance
    } else if flags == message_type_validation() {
        MessageKind::Validation
    } else {
        MessageKind::Default
    }
}

/// What the debug callback makes of one message: its severity and kind for
/// the log, and the value it returns to the driver.
#[derive(Clone, Copy, Debug, PartialEq, Eq, Structural)]
pub struct DebugMessageOutcome {
    pub severity: Severity,
    pub kind: MessageKind,
    /// `VK_FALSE`: the call that caused the message is never aborted.
    pub callback_result: u32,
}

/// Handles one validation message: classifies it, and answers `VK_FALSE`
/// so that the Vulkan call that caused it goes on.
pub fn debug_message(severity_flags: u32, type_flags: u32) -> (r: DebugMessageOutcome)
    ensures
        r.severity == severity_of(severity_flags),
        r.kind == kind_of(type_flags),
        r.callback_result == 0,
{
    DebugMessageOutcome {
        severity: severity_label(severity_flags),
        kind: message_kind_label(type_flags),
        callback_result: vk_false(),
    }
}

} // verus!
