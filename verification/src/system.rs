//! What the application tells the user about the machine it runs on.
//!
//! The host asks the operating system and the graphics driver; this module
//! turns the answers into the texts that are shown.

use vstd::prelude::*;
use crate::decimal::{decimal_digits, push_decimal};
use crate::media::{as_double, push_in_units, tenths};
use crate::text::{lines_of, text_lines};

verus! {

/// `ash::vk::api_version_major` gives bits 22 to 28 of a packed version.
pub assume_specification[ ash::vk::api_version_major ](version: u32) -> (major: u32)
    ensures
        major == (version >> 22) & 0x7f,
;

/// `ash::vk::api_version_minor` gives bits 12 to 21 of a packed version.
pub assume_specification[ ash::vk::api_version_minor ](version: u32) -> (minor: u32)
    ensures
        minor == (version >> 12) & 0x3ff,
;

/// `ash::vk::api_version_patch` gives bits 0 to 11 of a packed version.
pub assume_specification[ ash::vk::api_version_patch ](version: u32) -> (patch: u32)
    ensures
        patch == version & 0xfff,
;

/// Version 1.0.0 of the Vulkan API, packed: what a loader that cannot tell
/// its version is taken to offer.
pub const VULKAN_1_0: u32 = 1 << 22;

/// A packed Vulkan version written as `major.minor.patch`.
pub open spec fn api_version_text(version: u32) -> Seq<char> {
    decimal_digits(((version >> 22) & 0x7f) as nat) + seq!['.'] + decimal_digits(
        ((version >> 12) & 0x3ff) as nat,
    ) + seq!['.'] + decimal_digits((version & 0xfff) as nat)
}

/// Writes a packed Vulkan version as `major.minor.patch`.
pub fn format_api_version(version: u32) -> (text: String)
    ensures
        text@ == api_version_text(version),
{
    let mut text = String::new();
    push_decimal(&mut text, ash::vk::api_version_major(version) as u64);
    text.push('.');
    push_decimal(&mut text, ash::vk::api_version_minor(version) as u64);
    text.push('.');
    push_decimal(&mut text, ash::vk::api_version_patch(version) as u64);
    assert(text@ =~= api_version_text(version));
    text
}

/// What the host found when it looked for Vulkan.
#[derive(Clone, Debug, PartialEq, Eq)]
pub enum VulkanProbe {
    /// The Vulkan library could not be loaded.
    LoadFailed { reason: String },
    /// No instance could be created.
    InstanceFailed { api_version: Option<u32>, reason: String },
    /// The devices could not be listed.
    EnumerationFailed { api_version: Option<u32>, reason: String },
    /// The devices were listed.
    Devices { api_version: Option<u32>, count: u32 },
}

/// What the user is told about Vulkan.
#[derive(Clone, Debug, PartialEq, Eq)]
pub struct VulkanInfo {
    pub supported: bool,
    pub api_version: Option<String>,
    pub device_count: u32,
    pub error: Option<String>,
}

/// The version that an instance is asked for: the one the loader reports,
/// or 1.0.0 if it reports none.
pub open spec fn instance_version(reported: Option<u32>) -> u32 {
    match reported {
        Some(v) => v,
        None => VULKAN_1_0,
    }
}

/// The version that an instance is asked for.
pub fn instance_api_version(reported: Option<u32>) -> (version: u32)
    ensures
        version == instance_version(reported),
{
    match reported {
        Some(v) => v,
        None => VULKAN_1_0,
    }
}

/// What the user is told about Vulkan, given what the host found.
///
/// Vulkan is supported if the devices were listed and there is at least
/// one. A failure is reported with the step that failed and its reason;
/// the version is known from the second step on.
pub fn vulkan_info(probe: VulkanProbe) -> (info: VulkanInfo)
    ensures
        match probe {
            VulkanProbe::LoadFailed { reason } => {
                &&& !info.supported
                &&& info.api_version is None
                &&& info.device_count == 0
                &&& info.error matches Some(e) && e@ == "加载 Vulkan 失败: "@ + reason@
            },
            VulkanProbe::InstanceFailed { api_version, reason } => {
                &&& !info.supported
                &&& info.api_version matches Some(v) && v@ == api_version_text(
                    instance_version(api_version),
                )
                &&& info.device_count == 0
                &&& info.error matches Some(e) && e@ == "创建 Vulkan 实例失败: "@ + reason@
            },
            VulkanProbe::EnumerationFailed { api_version, reason } => {
                &&& !info.supported
                &&& info.api_version matches Some(v) && v@ == api_version_text(
                    instance_version(api_version),
                )
                &&& info.device_count == 0
                &&& info.error matches Some(e) && e@ == "枚举物理设备失败: "@ + reason@
            },
            VulkanProbe::Devices { api_version, count } => {
                &&& info.supported == (count > 0)
                &&& info.api_version matches Some(v) && v@ == api_version_text(
                    instance_version(api_version),
                )
                &&& info.device_count == count
                &&& info.error is None
            },
        },
{
    match probe {
        VulkanProbe::LoadFailed { reason } => VulkanInfo {
            supported: false,
            api_version: None,
            device_count: 0,
            error: Some("加载 Vulkan 失败: ".to_owned().concat(reason.as_str())),
        },
        VulkanProbe::InstanceFailed { api_version, reason } => VulkanInfo {
            supported: false,
            api_version: Some(format_api_version(instance_api_version(api_version))),
            device_count: 0,
            error: Some("创建 Vulkan 实例失败: ".to_owned().concat(reason.as_str())),
        },
        VulkanProbe::EnumerationFailed { api_version, reason } => VulkanInfo {
            supported: false,
            api_version: Some(format_api_version(instance_api_version(api_version))),
            device_count: 0,
            error: Some("枚举物理设备失败: ".to_owned().concat(reason.as_str())),
        },
        VulkanProbe::Devices { api_version, count } => VulkanInfo {
            supported: count > 0,
            api_version: Some(format_api_version(instance_api_version(api_version))),
            device_count: count,
            error: None,
        },
    }
}

/// What the user is told about the machine.
#[derive(Clone, Debug, PartialEq, Eq)]
pub struct MachineInfo {
    pub os_version: String,
    pub cpu_brand: String,
    pub cpu_cores: String,
    pub total_memory: String,
}

/// What the user is told about the machine, given what the operating
/// system tells: the version of the system and the brand of the processor
/// as they are, or a word that they are not known; the number of cores;
/// and the memory in gigabytes.
pub fn describe_machine(
    os_version: Option<String>,
    cpu_brand: Option<String>,
    cpu_count: u64,
    memory_bytes: u64,
) -> (info: MachineInfo)
    ensures
        info.os_version@ == match os_version {
            Some(v) => v@,
            None => "未知版本"@,
        },
        info.cpu_brand@ == match cpu_brand {
            Some(b) => b@,
            None => "未知 CPU"@,
        },
        info.cpu_cores@ == decimal_digits(cpu_count as nat) + " 核心"@,
        info.total_memory@ == memory_text(memory_bytes as nat),
{
    MachineInfo {
        os_version: match os_version {
            Some(v) => v,
            None => "未知版本".to_owned(),
        },
        cpu_brand: match cpu_brand {
            Some(b) => b,
            None => "未知 CPU".to_owned(),
        },
        cpu_cores: format_cpu_cores(cpu_count),
        total_memory: format_total_memory(memory_bytes),
    }
}

/// The number of processor cores as it is shown.
pub fn format_cpu_cores(count: u64) -> (text: String)
    ensures
        text@ == decimal_digits(count as nat) + " 核心"@,
{
    let mut text = String::new();
    push_decimal(&mut text, count);
    assert(text@ =~= decimal_digits(count as nat));
    text.append(" 核心");
    text
}

/// The number of bytes in a gigabyte.
pub const GIGABYTE: u64 = 1024 * 1024 * 1024;

/// An amount of memory as it is shown: in gigabytes, with one place after
/// the point. The amount is held in double precision before it is divided
/// and rounded.
pub open spec fn memory_text(bytes: nat) -> Seq<char> {
    let t = tenths(as_double(bytes), GIGABYTE as nat);
    decimal_digits(t / 10) + seq!['.'] + decimal_digits(t % 10) + " GB"@
}

/// Writes an amount of memory in gigabytes, such as `16.0 GB`.
pub fn format_total_memory(bytes: u64) -> (text: String)
    ensures
        text@ == memory_text(bytes as nat),
{
    let mut text = String::new();
    push_in_units(&mut text, bytes, GIGABYTE);
    let ghost t = tenths(as_double(bytes as nat), GIGABYTE as nat);
    assert(text@ =~= decimal_digits(t / 10) + seq!['.'] + decimal_digits(t % 10));
    text.append(" GB");
    text
}

/// The first line of `text`, if it has any.
pub open spec fn first_line_of(text: Seq<char>) -> Option<Seq<char>> {
    if text_lines(text).len() > 0 {
        Some(text_lines(text)[0])
    } else {
        None
    }
}

/// The first line of `text`.
pub fn first_line(text: &str) -> (line: Option<String>)
    ensures
        match line {
            Some(l) => first_line_of(text@) == Some(l@),
            None => first_line_of(text@) is None,
        },
{
    let mut lines = lines_of(text);
    if lines.len() == 0 {
        return None;
    }
    assert(lines.deep_view()[0] == lines@[0]@);
    Some(lines.swap_remove(0))
}

/// What is shown for the version of the converter: the first line of what
/// it printed when asked, where it ran and printed anything.
pub open spec fn converter_version_text(output: Option<Seq<char>>) -> Seq<char> {
    match output {
        Some(text) => match first_line_of(text) {
            Some(line) => line,
            None => "FFmpeg 不可用"@,
        },
        None => "FFmpeg 不可用"@,
    }
}

/// What is shown for the version of the converter. `output` is what it
/// printed when asked for its version, if it ran and succeeded.
pub fn converter_version(output: Option<&str>) -> (text: String)
    ensures
        text@ == converter_version_text(
            match output {
                Some(o) => Some(o@),
                None => None,
            },
        ),
{
    match output {
        Some(o) => match first_line(o) {
            Some(line) => line,
            None => "FFmpeg 不可用".to_owned(),
        },
        None => "FFmpeg 不可用".to_owned(),
    }
}

} // verus!
