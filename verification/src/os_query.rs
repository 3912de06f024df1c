//! The queries of live operating-system state that a snapshot is built from.
//! Every function here reads state of the machine, so nothing can be pinned
//! down about the values returned: the verified collector in `pc_info` takes
//! them as arguments and establishes the snapshot's invariants for every
//! possible outcome.

use vstd::prelude::*;

verus! {

#[verifier::external_type_specification]
#[verifier::external_body]
pub struct ExSystem(sysinfo::System);

#[verifier::external_type_specification]
#[verifier::external_body]
pub struct ExProcess(sysinfo::Process);

/// Relies on `sysinfo::System::refresh_all`: refreshes the handle's view of
/// memory, CPUs, processes and the rest in one cycle.
#[verifier::external_body]
pub fn sys_refresh_all(system: &mut sysinfo::System) {
    system.refresh_all()
}

/// Relies on `sysinfo::System::used_memory`: memory in use, in bytes.
#[verifier::external_body]
pub fn sys_used_memory(system: &sysinfo::System) -> u64 {
    system.used_memory()
}

/// Relies on `sysinfo::System::total_memory`: total installed memory, in bytes.
#[verifier::external_body]
pub fn sys_total_memory(system: &sysinfo::System) -> u64 {
    system.total_memory()
}

/// Relies on `sysinfo::System::cpus`: the slice of schedulable cores the OS
/// enumerates; only its length is taken.
#[verifier::external_body]
pub fn sys_cpu_count(system: &sysinfo::System) -> usize {
    system.cpus().len()
}

/// Relies on `sysinfo::System::processes`, `sysinfo::Process::name` and
/// `sysinfo::Process::memory`: each running process as its name (lossily
/// decoded) and resident memory in bytes. The map is walked in hash order,
/// so nothing is promised of the order of the entries.
#[verifier::external_body]
pub fn sys_processes(system: &sysinfo::System) -> Vec<(String, u64)> {
    system.processes().values().map(|p| (p.name().to_string_lossy().into_owned(), p.memory())).collect()
}

/// Relies on `sysinfo::Process::name`: the process name, lossily decoded.
#[verifier::external_body]
pub fn get_proc_name(process: &sysinfo::Process) -> String {
    process.name().to_string_lossy().into_owned()
}

/// Relies on `sysinfo::Disks::new_with_refreshed_list`,
/// `sysinfo::Disk::mount_point`, `sysinfo::Disk::total_space` and
/// `sysinfo::Disk::available_space`: each mounted filesystem as its mount
/// point (lossily decoded), total size and available space, both in bytes.
#[verifier::external_body]
pub fn disk_mounts() -> Vec<(String, u64, u64)> {
    sysinfo::Disks::new_with_refreshed_list()
        .iter()
        .map(|d| (d.mount_point().to_string_lossy().into_owned(), d.total_space(), d.available_space()))
        .collect()
}

/// Relies on `hostname::get`: the OS-reported hostname, lossily decoded;
/// `None` when the query fails.
#[verifier::external_body]
pub fn query_hostname() -> Option<String> {
    match hostname::get() {
        Ok(h) => Some(h.to_string_lossy().into_owned()),
        Err(_) => None,
    }
}

/// Relies on `local_ip_address::local_ip`: the textual form of the host's
/// primary outbound-routable address; `None` when it cannot be determined.
#[verifier::external_body]
pub fn query_local_ip() -> Option<String> {
    match local_ip_address::local_ip() {
        Ok(ip) => Some(ip.to_string()),
        Err(_) => None,
    }
}

} // verus!
