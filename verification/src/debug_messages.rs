use vstd::prelude::*;

use crate::text::{bytes_contain, bytes_find, bytes_start_with, occurs_at, spec_contains};

verus! {

// Bits of `VkDebugUtilsMessageSeverityFlagBitsEXT`.
pub const SEVERITY_VERBOSE: u32 = 0x1u32;
pub const SEVERITY_INFO: u32 = 0x10u32;
pub const SEVERITY_WARNING: u32 = 0x100u32;
pub const SEVERITY_ERROR: u32 = 0x1000u32;

// Bits of `VkDebugUtilsMessageTypeFlagBitsEXT`.
pub const MESSAGE_TYPE_GENERAL: u32 = 0x1u32;
pub const MESSAGE_TYPE_VALIDATION: u32 = 0x2u32;
pub const MESSAGE_TYPE_PERFORMANCE: u32 = 0x4u32;
pub const MESSAGE_TYPE_DEVICE_ADDRESS_BINDING: u32 = 0x8u32;

/// The bytes of `vkCreateDevice layer callstack setup to:`.
pub open spec fn setup_start() -> Seq<u8> {
    seq![118u8, 107u8, 67u8, 114u8, 101u8, 97u8, 116u8, 101u8, 68u8, 101u8, 118u8, 105u8, 99u8, 101u8, 32u8, 108u8, 97u8, 121u8, 101u8, 114u8, 32u8, 99u8, 97u8, 108u8, 108u8, 115u8, 116u8, 97u8, 99u8, 107u8, 32u8, 115u8, 101u8, 116u8, 117u8, 112u8, 32u8, 116u8, 111u8, 58u8]
}

/// The bytes of `<Device>`.
pub open spec fn device_tag() -> Seq<u8> {
    seq![60u8, 68u8, 101u8, 118u8, 105u8, 99u8, 101u8, 62u8]
}

/// The bytes of `Inserted device layer`.
pub open spec fn inserted_layer() -> Seq<u8> {
    seq![73u8, 110u8, 115u8, 101u8, 114u8, 116u8, 101u8, 100u8, 32u8, 100u8, 101u8, 118u8, 105u8, 99u8, 101u8, 32u8, 108u8, 97u8, 121u8, 101u8, 114u8]
}

/// The bytes of `Using "`.
pub open spec fn using_quote() -> Seq<u8> {
    seq![85u8, 115u8, 105u8, 110u8, 103u8, 32u8, 34u8]
}

/// The bytes of `with driver:`.
pub open spec fn with_driver() -> Seq<u8> {
    seq![119u8, 105u8, 116u8, 104u8, 32u8, 100u8, 114u8, 105u8, 118u8, 101u8, 114u8, 58u8]
}

/// The bytes of `"`.
pub open spec fn quote() -> Seq<u8> {
    seq![34u8]
}

/// The bytes of `vkCreateInstance`.
pub open spec fn create_instance() -> Seq<u8> {
    seq![118u8, 107u8, 67u8, 114u8, 101u8, 97u8, 116u8, 101u8, 73u8, 110u8, 115u8, 116u8, 97u8, 110u8, 99u8, 101u8]
}

/// The bytes of `vkCreateDevice`.
pub open spec fn create_device() -> Seq<u8> {
    seq![118u8, 107u8, 67u8, 114u8, 101u8, 97u8, 116u8, 101u8, 68u8, 101u8, 118u8, 105u8, 99u8, 101u8]
}

/// The bytes of `vkCreateSwapchain`.
pub open spec fn create_swapchain() -> Seq<u8> {
    seq![118u8, 107u8, 67u8, 114u8, 101u8, 97u8, 116u8, 101u8, 83u8, 119u8, 97u8, 112u8, 99u8, 104u8, 97u8, 105u8, 110u8]
}

/// The bytes of `success`.
pub open spec fn success() -> Seq<u8> {
    seq![115u8, 117u8, 99u8, 99u8, 101u8, 115u8, 115u8]
}

/// The bytes of `created`.
pub open spec fn created() -> Seq<u8> {
    seq![99u8, 114u8, 101u8, 97u8, 116u8, 101u8, 100u8]
}

/// The bytes of `Device`.
pub open spec fn device_word() -> Seq<u8> {
    seq![68u8, 101u8, 118u8, 105u8, 99u8, 101u8]
}

/// The bytes of `Queue`.
pub open spec fn queue_word() -> Seq<u8> {
    seq![81u8, 117u8, 101u8, 117u8, 101u8]
}

/// The bytes of `Swapchain`.
pub open spec fn swapchain_word() -> Seq<u8> {
    seq![83u8, 119u8, 97u8, 112u8, 99u8, 104u8, 97u8, 105u8, 110u8]
}

/// The bytes of `Memory`.
pub open spec fn memory_word() -> Seq<u8> {
    seq![77u8, 101u8, 109u8, 111u8, 114u8, 121u8]
}

/// The bytes of `surface`.
pub open spec fn surface_word() -> Seq<u8> {
    seq![115u8, 117u8, 114u8, 102u8, 97u8, 99u8, 101u8]
}

/// The bytes of `format`.
pub open spec fn format_word() -> Seq<u8> {
    seq![102u8, 111u8, 114u8, 109u8, 97u8, 116u8]
}
fn has_setup_start(m: &[u8]) -> (b: bool)
    ensures
        b == spec_contains(m@, setup_start()),
{
    let needle: [u8; 40] = [118u8, 107u8, 67u8, 114u8, 101u8, 97u8, 116u8, 101u8, 68u8, 101u8, 118u8, 105u8, 99u8, 101u8, 32u8, 108u8, 97u8, 121u8, 101u8, 114u8, 32u8, 99u8, 97u8, 108u8, 108u8, 115u8, 116u8, 97u8, 99u8, 107u8, 32u8, 115u8, 101u8, 116u8, 117u8, 112u8, 32u8, 116u8, 111u8, 58u8];
    assert(needle@ =~= setup_start());
    bytes_contain(m, needle.as_slice())
}

fn has_device_tag(m: &[u8]) -> (b: bool)
    ensures
        b == spec_contains(m@, device_tag()),
{
    let needle: [u8; 8] = [60u8, 68u8, 101u8, 118u8, 105u8, 99u8, 101u8, 62u8];
    assert(needle@ =~= device_tag());
    bytes_contain(m, needle.as_slice())
}

fn has_inserted_layer(m: &[u8]) -> (b: bool)
    ensures
        b == spec_contains(m@, inserted_layer()),
{
    let needle: [u8; 21] = [73u8, 110u8, 115u8, 101u8, 114u8, 116u8, 101u8, 100u8, 32u8, 100u8, 101u8, 118u8, 105u8, 99u8, 101u8, 32u8, 108u8, 97u8, 121u8, 101u8, 114u8];
    assert(needle@ =~= inserted_layer());
    bytes_contain(m, needle.as_slice())
}

fn has_using_quote(m: &[u8]) -> (b: bool)
    ensures
        b == spec_contains(m@, using_quote()),
{
    let needle: [u8; 7] = [85u8, 115u8, 105u8, 110u8, 103u8, 32u8, 34u8];
    assert(needle@ =~= using_quote());
    bytes_contain(m, needle.as_slice())
}

fn has_with_driver(m: &[u8]) -> (b: bool)
    ensures
        b == spec_contains(m@, with_driver()),
{
    let needle: [u8; 12] = [119u8, 105u8, 116u8, 104u8, 32u8, 100u8, 114u8, 105u8, 118u8, 101u8, 114u8, 58u8];
    assert(needle@ =~= with_driver());
    bytes_contain(m, needle.as_slice())
}

fn has_quote(m: &[u8]) -> (b: bool)
    ensures
        b == spec_contains(m@, quote()),
{
    let needle: [u8; 1] = [34u8];
    assert(needle@ =~= quote());
    bytes_contain(m, needle.as_slice())
}

fn has_create_instance(m: &[u8]) -> (b: bool)
    ensures
        b == spec_contains(m@, create_instance()),
{
    let needle: [u8; 16] = [118u8, 107u8, 67u8, 114u8, 101u8, 97u8, 116u8, 101u8, 73u8, 110u8, 115u8, 116u8, 97u8, 110u8, 99u8, 101u8];
    assert(needle@ =~= create_instance());
    bytes_contain(m, needle.as_slice())
}

fn has_create_device(m: &[u8]) -> (b: bool)
    ensures
        b == spec_contains(m@, create_device()),
{
    let needle: [u8; 14] = [118u8, 107u8, 67u8, 114u8, 101u8, 97u8, 116u8, 101u8, 68u8, 101u8, 118u8, 105u8, 99u8, 101u8];
    assert(needle@ =~= create_device());
    bytes_contain(m, needle.as_slice())
}

fn has_create_swapchain(m: &[u8]) -> (b: bool)
    ensures
        b == spec_contains(m@, create_swapchain()),
{
    let needle: [u8; 17] = [118u8, 107u8, 67u8, 114u8, 101u8, 97u8, 116u8, 101u8, 83u8, 119u8, 97u8, 112u8, 99u8, 104u8, 97u8, 105u8, 110u8];
    assert(needle@ =~= create_swapchain());
    bytes_contain(m, needle.as_slice())
}

fn has_success(m: &[u8]) -> (b: bool)
    ensures
        b == spec_contains(m@, success()),
{
    let needle: [u8; 7] = [115u8, 117u8, 99u8, 99u8, 101u8, 115u8, 115u8];
    assert(needle@ =~= success());
    bytes_contain(m, needle.as_slice())
}

fn has_created(m: &[u8]) -> (b: bool)
    ensures
        b == spec_contains(m@, created()),
{
    let needle: [u8; 7] = [99u8, 114u8, 101u8, 97u8, 116u8, 101u8, 100u8];
    assert(needle@ =~= created());
    bytes_contain(m, needle.as_slice())
}

fn has_device_word(m: &[u8]) -> (b: bool)
    ensures
        b == spec_contains(m@, device_word()),
{
    let needle: [u8; 6] = [68u8, 101u8, 118u8, 105u8, 99u8, 101u8];
    assert(needle@ =~= device_word());
    bytes_contain(m, needle.as_slice())
}

fn has_queue_word(m: &[u8]) -> (b: bool)
    ensures
        b == spec_contains(m@, queue_word()),
{
    let needle: [u8; 5] = [81u8, 117u8, 101u8, 117u8, 101u8];
    assert(needle@ =~= queue_word());
    bytes_contain(m, needle.as_slice())
}

fn has_swapchain_word(m: &[u8]) -> (b: bool)
    ensures
        b == spec_contains(m@, swapchain_word()),
{
    let needle: [u8; 9] = [83u8, 119u8, 97u8, 112u8, 99u8, 104u8, 97u8, 105u8, 110u8];
    assert(needle@ =~= swapchain_word());
    bytes_contain(m, needle.as_slice())
}

fn has_memory_word(m: &[u8]) -> (b: bool)
    ensures
        b == spec_contains(m@, memory_word()),
{
    let needle: [u8; 6] = [77u8, 101u8, 109u8, 111u8, 114u8, 121u8];
    assert(needle@ =~= memory_word());
    bytes_contain(m, needle.as_slice())
}

fn has_surface_word(m: &[u8]) -> (b: bool)
    ensures
        b == spec_contains(m@, surface_word()),
{
    let needle: [u8; 7] = [115u8, 117u8, 114u8, 102u8, 97u8, 99u8, 101u8];
    assert(needle@ =~= surface_word());
    bytes_contain(m, needle.as_slice())
}

fn has_format_word(m: &[u8]) -> (b: bool)
    ensures
        b == spec_contains(m@, format_word()),
{
    let needle: [u8; 6] = [102u8, 111u8, 114u8, 109u8, 97u8, 116u8];
    assert(needle@ =~= format_word());
    bytes_contain(m, needle.as_slice())
}

/// Whether the validation layers are describing the layers of a device being
/// created, and whether the device in use has been reported.
#[derive(Clone, Copy, PartialEq, Eq, Structural, Debug)]
pub struct DebugLogState {
    pub in_device_setup: bool,
    pub device_reported: bool,
}

/// How a printed message is labelled.
#[derive(Clone, Copy, PartialEq, Eq, Structural, Debug)]
pub enum DebugLabel {
    ValidationError,
    PerformanceError,
    GeneralError,
    Error,
    ValidationWarning,
    PerformanceWarning,
    GeneralWarning,
    Warning,
    Info,
    Validation,
    Performance,
}

/// What is printed for a message: the name of the device in use, found at
/// bytes `name_start..name_end` of the message, or the message itself under a
/// label.
#[derive(Clone, Copy, PartialEq, Eq, Structural, Debug)]
pub enum DebugLogLine {
    DeviceInUse { name_start: usize, name_end: usize },
    Message { label: DebugLabel },
}

/// The state after a message and what is printed for it.
#[derive(Clone, Copy, PartialEq, Eq, Structural, Debug)]
pub struct DebugDecision {
    pub state: DebugLogState,
    pub line: Option<DebugLogLine>,
}

/// The first position where `needle` occurs in `hay`.
#[verifier::opaque]
pub open spec fn first_occurrence(hay: Seq<u8>, needle: Seq<u8>) -> Option<int> {
    if spec_contains(hay, needle) {
        Some(choose|at: int| occurs_at(hay, needle, at) && forall|e: int| 0 <= e < at ==> !occurs_at(hay, needle, e))
    } else {
        None
    }
}

pub open spec fn error_label(ty: u32) -> DebugLabel {
    if ty == MESSAGE_TYPE_VALIDATION {
        DebugLabel::ValidationError
    } else if ty == MESSAGE_TYPE_PERFORMANCE {
        DebugLabel::PerformanceError
    } else if ty == MESSAGE_TYPE_GENERAL {
        DebugLabel::GeneralError
    } else {
        DebugLabel::Error
    }
}

pub open spec fn warning_label(ty: u32) -> DebugLabel {
    if ty == MESSAGE_TYPE_VALIDATION {
        DebugLabel::ValidationWarning
    } else if ty == MESSAGE_TYPE_PERFORMANCE {
        DebugLabel::PerformanceWarning
    } else if ty == MESSAGE_TYPE_GENERAL {
        DebugLabel::GeneralWarning
    } else {
        DebugLabel::Warning
    }
}

/// A general informational message is shown when it reports the creation of
/// the instance, the device or the swapchain as a success, or when it speaks
/// of devices, queues, swapchains, memory, surfaces or formats.
pub open spec fn shows_general_info(m: Seq<u8>) -> bool {
    if spec_contains(m, create_instance()) || spec_contains(m, create_device()) || spec_contains(m, create_swapchain()) {
        spec_contains(m, success()) || spec_contains(m, created())
    } else {
        spec_contains(m, device_word()) || spec_contains(m, queue_word()) || spec_contains(m, swapchain_word())
            || spec_contains(m, memory_word()) || spec_contains(m, surface_word()) || spec_contains(m, format_word())
    }
}

pub open spec fn by_severity(severity: u32, ty: u32, m: Seq<u8>) -> Option<DebugLogLine> {
    if severity == SEVERITY_ERROR {
        Some(DebugLogLine::Message { label: error_label(ty) })
    } else if severity == SEVERITY_WARNING {
        Some(DebugLogLine::Message { label: warning_label(ty) })
    } else if severity == SEVERITY_INFO {
        if ty == MESSAGE_TYPE_GENERAL {
            if shows_general_info(m) { Some(DebugLogLine::Message { label: DebugLabel::Info }) } else { None }
        } else if ty == MESSAGE_TYPE_VALIDATION {
            Some(DebugLogLine::Message { label: DebugLabel::Validation })
        } else if ty == MESSAGE_TYPE_PERFORMANCE {
            Some(DebugLogLine::Message { label: DebugLabel::Performance })
        } else {
            Some(DebugLogLine::Message { label: DebugLabel::Info })
        }
    } else {
        None
    }
}

/// The device report: the name between the first two quotes, printed once
/// for a general or validation message.
pub open spec fn device_report(state: DebugLogState, ty: u32, m: Seq<u8>) -> DebugDecision {
    let silent = DebugDecision { state, line: None };
    match first_occurrence(m, quote()) {
        None => silent,
        Some(start) => match first_occurrence(m.subrange(start + 1, m.len() as int), quote()) {
            None => silent,
            Some(end) => if ty == MESSAGE_TYPE_GENERAL || ty == MESSAGE_TYPE_VALIDATION {
                DebugDecision {
                    state: DebugLogState { device_reported: true, ..state },
                    line: Some(DebugLogLine::DeviceInUse {
                        name_start: (start + 1) as usize,
                        name_end: (start + 1 + end) as usize,
                    }),
                }
            } else {
                silent
            },
        },
    }
}

/// What the debug messenger does with a trimmed message `m` of the given
/// severity and type.
pub open spec fn spec_debug_decision(state: DebugLogState, severity: u32, ty: u32, m: Seq<u8>) -> DebugDecision {
    if spec_contains(m, setup_start()) {
        DebugDecision { state: DebugLogState { in_device_setup: true, ..state }, line: None }
    } else if occurs_at(m, device_tag(), 0) {
        DebugDecision { state: DebugLogState { in_device_setup: false, ..state }, line: None }
    } else if state.in_device_setup || spec_contains(m, inserted_layer()) {
        DebugDecision { state, line: None }
    } else if !state.device_reported && spec_contains(m, using_quote()) && spec_contains(m, with_driver()) {
        device_report(state, ty, m)
    } else {
        DebugDecision { state, line: by_severity(severity, ty, m) }
    }
}

proof fn lemma_first_occurrence(hay: Seq<u8>, needle: Seq<u8>, at: int)
    requires
        occurs_at(hay, needle, at),
        forall|e: int| 0 <= e < at ==> !occurs_at(hay, needle, e),
    ensures
        first_occurrence(hay, needle) == Some(at),
{
    reveal(first_occurrence);
    let c = choose|x: int| occurs_at(hay, needle, x) && forall|e: int| 0 <= e < x ==> !occurs_at(hay, needle, e);
    assert(occurs_at(hay, needle, c) && forall|e: int| 0 <= e < c ==> !occurs_at(hay, needle, e));
    if c < at {
        assert(!occurs_at(hay, needle, c));
    }
    if at < c {
        assert(!occurs_at(hay, needle, at));
    }
}

fn find_first(hay: &[u8], needle: &[u8]) -> (r: Option<usize>)
    ensures
        match r {
            Some(at) => first_occurrence(hay@, needle@) == Some(at as int) && occurs_at(hay@, needle@, at as int),
            None => first_occurrence(hay@, needle@) is None,
        },
{
    let r = bytes_find(hay, needle);
    proof {
        match r {
            Some(at) => {
                lemma_first_occurrence(hay@, needle@, at as int);
            },
            None => {
                reveal(first_occurrence);
            },
        }
    }
    r
}

fn by_severity_exec(severity: u32, ty: u32, m: &[u8]) -> (line: Option<DebugLogLine>)
    ensures
        line == by_severity(severity, ty, m@),
{
    if severity == SEVERITY_ERROR {
        let label = if ty == MESSAGE_TYPE_VALIDATION {
            DebugLabel::ValidationError
        } else if ty == MESSAGE_TYPE_PERFORMANCE {
            DebugLabel::PerformanceError
        } else if ty == MESSAGE_TYPE_GENERAL {
            DebugLabel::GeneralError
        } else {
            DebugLabel::Error
        };
        Some(DebugLogLine::Message { label })
    } else if severity == SEVERITY_WARNING {
        let label = if ty == MESSAGE_TYPE_VALIDATION {
            DebugLabel::ValidationWarning
        } else if ty == MESSAGE_TYPE_PERFORMANCE {
            DebugLabel::PerformanceWarning
        } else if ty == MESSAGE_TYPE_GENERAL {
            DebugLabel::GeneralWarning
        } else {
            DebugLabel::Warning
        };
        Some(DebugLogLine::Message { label })
    } else if severity == SEVERITY_INFO {
        if ty == MESSAGE_TYPE_GENERAL {
            let shows = if has_create_instance(m) || has_create_device(m) || has_create_swapchain(m) {
                has_success(m) || has_created(m)
            } else {
                has_device_word(m) || has_queue_word(m) || has_swapchain_word(m) || has_memory_word(m)
                    || has_surface_word(m) || has_format_word(m)
            };
            if shows { Some(DebugLogLine::Message { label: DebugLabel::Info }) } else { None }
        } else if ty == MESSAGE_TYPE_VALIDATION {
            Some(DebugLogLine::Message { label: DebugLabel::Validation })
        } else if ty == MESSAGE_TYPE_PERFORMANCE {
            Some(DebugLogLine::Message { label: DebugLabel::Performance })
        } else {
            Some(DebugLogLine::Message { label: DebugLabel::Info })
        }
    } else {
        None
    }
}

fn device_report_exec(state: DebugLogState, ty: u32, message: &[u8]) -> (d: DebugDecision)
    ensures
        d == device_report(state, ty, message@),
{
    let silent = DebugDecision { state, line: None };
    let quote_mark: [u8; 1] = [34u8];
    assert(quote_mark@ =~= quote());
    match find_first(message, quote_mark.as_slice()) {
        None => silent,
        Some(start) => {
            let message_len = message.len();
            assert(start + 1 <= message_len);
            let rest = vstd::slice::slice_subrange(message, start + 1, message_len);
            match find_first(rest, quote_mark.as_slice()) {
                None => silent,
                Some(end) => {
                    if ty == MESSAGE_TYPE_GENERAL || ty == MESSAGE_TYPE_VALIDATION {
                        assert(end + 1 <= rest@.len());
                        DebugDecision {
                            state: DebugLogState { device_reported: true, ..state },
                            line: Some(DebugLogLine::DeviceInUse { name_start: start + 1, name_end: start + 1 + end }),
                        }
                    } else {
                        silent
                    }
                },
            }
        },
    }
}

/// Decides what the debug messenger does with a trimmed message: the
/// callstack of device creation is skipped, the device in use is reported
/// once, errors and warnings are printed under a label naming their type,
/// informational messages are printed when they are of interest, and verbose
/// ones are dropped.
pub fn classify_debug_message(state: DebugLogState, severity: u32, ty: u32, message: &[u8]) -> (d: DebugDecision)
    ensures
        d == spec_debug_decision(state, severity, ty, message@),
{
    let silent = DebugDecision { state, line: None };
    if has_setup_start(message) {
        return DebugDecision { state: DebugLogState { in_device_setup: true, ..state }, line: None };
    }
    let tag: [u8; 8] = [60u8, 68u8, 101u8, 118u8, 105u8, 99u8, 101u8, 62u8];
    assert(tag@ =~= device_tag());
    if bytes_start_with(message, tag.as_slice()) {
        return DebugDecision { state: DebugLogState { in_device_setup: false, ..state }, line: None };
    }
    if state.in_device_setup || has_inserted_layer(message) {
        return silent;
    }
    if !state.device_reported && has_using_quote(message) && has_with_driver(message) {
        return device_report_exec(state, ty, message);
    }
    DebugDecision { state, line: by_severity_exec(severity, ty, message) }
}

/// The device in use is reported at most once: a report marks it reported,
/// and once it is marked no message reports it again or unmarks it.
pub proof fn law_device_reported_once(state: DebugLogState, severity: u32, ty: u32, m: Seq<u8>)
    ensures
        spec_debug_decision(state, severity, ty, m).line matches Some(DebugLogLine::DeviceInUse { .. })
            ==> !state.device_reported && spec_debug_decision(state, severity, ty, m).state.device_reported,
        state.device_reported ==> !(spec_debug_decision(state, severity, ty, m).line matches Some(
            DebugLogLine::DeviceInUse { .. },
        )) && spec_debug_decision(state, severity, ty, m).state.device_reported,
{
}

} // verus!
