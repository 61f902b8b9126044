//! The plain data the collectors produce and the renderer consumes.

use vstd::prelude::*;

verus! {

/// Operating-system identity.
#[derive(Debug, Clone)]
pub struct OsInfo {
    pub name: String,
    pub kernel_version: String,
    pub age: String,
}

/// User and session identity.
#[derive(Debug, Clone)]
pub struct UserInfo {
    pub username: String,
    pub hostname: String,
    pub formatted_user_info: String,
}

/// Installed-package counts.
#[derive(Debug, Clone)]
pub struct PackageInfo {
    pub system_packages: usize,
    pub flatpak_packages: usize,
}

/// Session and runtime facts.
#[derive(Debug, Clone)]
pub struct SystemStatus {
    pub uptime_seconds: u64,
    pub uptime_formatted: String,
    pub init_system: String,
    pub battery_info: String,
    pub desktop_environment: String,
    pub editor: String,
    pub shell: String,
    pub terminal: String,
}

/// CPU identity.
#[derive(Debug, Clone)]
pub struct CpuInfo {
    pub brand: String,
}

/// Detected GPUs: the primary one and the full discrete-first list.
#[derive(Debug, Clone)]
pub struct GpuInfo {
    pub primary: String,
    pub all_gpus: Vec<String>,
}

/// Memory amounts in kilobytes, with the display string.
#[derive(Debug, Clone)]
pub struct MemoryInfo {
    pub used_kb: u64,
    pub total_kb: u64,
    pub formatted: String,
}

/// Root-filesystem usage summary.
#[derive(Debug, Clone)]
pub struct DiskInfo {
    pub usage: String,
}

/// All hardware facts together.
#[derive(Debug, Clone)]
pub struct HardwareInfo {
    pub cpu: CpuInfo,
    pub gpu: GpuInfo,
    pub memory: MemoryInfo,
    pub disk: DiskInfo,
}

/// The complete immutable snapshot of one run.
#[derive(Debug, Clone)]
pub struct SystemInfo {
    pub os: OsInfo,
    pub hardware: HardwareInfo,
    pub packages: PackageInfo,
    pub status: SystemStatus,
    pub user: UserInfo,
}

} // verus!
