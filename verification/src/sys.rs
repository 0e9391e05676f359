//! Facts about the host.

use sysinfo::{CpuRefreshKind, System};
use vstd::prelude::*;

verus! {

#[verifier::external_type_specification]
#[verifier::external_body]
pub struct ExSystem(System);

/// `System::new`: a handle that has read nothing yet.
#[verifier::external_body]
fn new_system() -> System {
    System::new()
}

/// `System::refresh_cpu_specifics` with nothing beyond the list of CPUs.
#[verifier::external_body]
fn refresh_cpu_list(sys: &mut System) {
    sys.refresh_cpu_specifics(CpuRefreshKind::new())
}

/// `System::cpus`, counted: the number of logical CPUs read, whatever the
/// host reports.
#[verifier::external_body]
fn cpu_count(sys: &System) -> usize {
    sys.cpus().len()
}

/// `System::global_cpu_info` and `Cpu::brand`: the CPU model, whatever the
/// host reports.
#[verifier::external_body]
fn cpu_brand(sys: &System) -> String {
    sys.global_cpu_info().brand().to_string()
}

/// `System::refresh_memory`.
#[verifier::external_body]
fn refresh_memory(sys: &mut System) {
    sys.refresh_memory()
}

/// `System::available_memory`: bytes available, whatever the host reports.
#[verifier::external_body]
fn available_memory(sys: &System) -> u64 {
    sys.available_memory()
}

/// Static facts about the host.
#[derive(Debug)]
pub struct SysInfo {
    /// Number of logical CPUs.
    pub cpu_count: u32,
    /// CPU model.
    pub cpu_name: String,
    /// Operating system: linux, macos, windows, ...
    pub os: String,
    /// Architecture: x86_64, arm, ...
    pub arch: String,
}

/// `n` cut to its low 32 bits, as `as u32` does.
pub open spec fn low_u32(n: int) -> int {
    n % 0x1_0000_0000
}

impl SysInfo {
    /// The facts from what was read: the CPU count is cut to 32 bits.
    pub fn from_parts(cpus: usize, cpu_name: String, os: String, arch: String) -> (info: SysInfo)
        ensures
            info.cpu_count == low_u32(cpus as int),
            info.cpu_name == cpu_name,
            info.os == os,
            info.arch == arch,
    {
        let cpu_count = (cpus as u64 % 0x1_0000_0000) as u32;
        SysInfo { cpu_count, cpu_name, os, arch }
    }
}

/// Reads the static facts of the host; `os` and `arch` are the names of its
/// operating system and architecture.
pub fn get_sys_info(os: String, arch: String) -> (info: SysInfo)
    ensures
        info.os == os,
        info.arch == arch,
{
    let mut sys = new_system();
    refresh_cpu_list(&mut sys);
    let cpus = cpu_count(&sys);
    let name = cpu_brand(&sys);
    SysInfo::from_parts(cpus, name, os, arch)
}

/// Whole mebibytes in `bytes`, cut to 32 bits as `as u32` does.
pub open spec fn mebibytes_of(bytes: int) -> int {
    low_u32(bytes / 1024 / 1024)
}

/// Whole mebibytes in `bytes`, cut to 32 bits as `as u32` does.
pub fn mebibytes(bytes: u64) -> (m: u32)
    ensures
        m == mebibytes_of(bytes as int),
{
    (bytes / 1024 / 1024 % 0x1_0000_0000) as u32
}

/// Below 2^52 bytes nothing is cut: the result is the number of whole
/// mebibytes in `bytes`, so `bytes` lies in that mebibyte and not the next.
pub proof fn lemma_mebibytes_whole(bytes: int)
    requires
        0 <= bytes < 0x10_0000_0000_0000,
    ensures
        mebibytes_of(bytes) * 0x10_0000 <= bytes < (mebibytes_of(bytes) + 1) * 0x10_0000,
{
    assert(bytes / 1024 / 1024 == bytes / 0x10_0000) by (nonlinear_arith)
        requires
            0 <= bytes,
    ;
    assert(bytes / 0x10_0000 < 0x1_0000_0000);
}

/// More bytes never give fewer mebibytes (below 2^52 bytes).
pub proof fn lemma_mebibytes_monotone(a: int, b: int)
    requires
        0 <= a <= b < 0x10_0000_0000_0000,
    ensures
        mebibytes_of(a) <= mebibytes_of(b),
{
    lemma_mebibytes_whole(a);
    lemma_mebibytes_whole(b);
}

/// A CPU count that fits in 32 bits is kept as it is.
pub proof fn lemma_cpu_count_kept(cpus: int)
    requires
        0 <= cpus < 0x1_0000_0000,
    ensures
        low_u32(cpus) == cpus,
{
}

/// Memory available now, in mebibytes.
pub fn get_available_memory() -> u32 {
    let mut sys = new_system();
    refresh_memory(&mut sys);
    mebibytes(available_memory(&sys))
}

} // verus!
