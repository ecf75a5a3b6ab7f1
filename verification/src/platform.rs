//! The calls into `sysinfo` and `os_info`: what they report depends on the
//! machine and the moment, so none of these items states its result.

use vstd::prelude::*;

verus! {

/// `sysinfo::System`, the snapshot of the machine that the dashboard keeps.
#[verifier::external_type_specification]
#[verifier::external_body]
pub struct ExSystem(sysinfo::System);

/// `sysinfo::Disks`, the list of the machine's disks.
#[verifier::external_type_specification]
#[verifier::external_body]
pub struct ExDisks(sysinfo::Disks);

/// `sysinfo::Disk`, one disk of that list.
#[verifier::external_type_specification]
#[verifier::external_body]
pub struct ExDisk(sysinfo::Disk);

/// `os_info::Info`, what is known of the operating system.
#[verifier::external_type_specification]
#[verifier::external_body]
pub struct ExInfo(os_info::Info);

/// `os_info::Version`, the operating system's version.
#[verifier::external_type_specification]
#[verifier::external_body]
pub struct ExVersion(os_info::Version);

/// `sysinfo::System::new_all`: a snapshot with everything refreshed.
/// Nothing is stated of it: it is what the machine reports.
#[verifier::external_body]
pub(crate) fn system_new_all() -> sysinfo::System {
    sysinfo::System::new_all()
}

/// `sysinfo::System::refresh_memory`: reads the memory figures anew.
/// Nothing is stated of the new snapshot.
#[verifier::external_body]
pub(crate) fn refresh_memory(sys: &mut sysinfo::System) {
    sys.refresh_memory()
}

/// `sysinfo::System::used_memory`: the used RAM in bytes, as last read.
/// Nothing is stated of the number.
#[verifier::external_body]
pub(crate) fn used_memory(sys: &sysinfo::System) -> u64 {
    sys.used_memory()
}

/// `sysinfo::System::total_memory`: the RAM size in bytes, as last read.
/// Nothing is stated of the number.
#[verifier::external_body]
pub(crate) fn total_memory(sys: &sysinfo::System) -> u64 {
    sys.total_memory()
}

/// `sysinfo::System::host_name`: the machine's host name, absent when it
/// cannot be read. Nothing is stated of it.
#[verifier::external_body]
pub(crate) fn host_name() -> Option<String> {
    sysinfo::System::host_name()
}

/// `sysinfo::Disks::new_with_refreshed_list`: the disks, as listed now.
/// Nothing is stated of the list.
#[verifier::external_body]
pub(crate) fn disks_new_with_refreshed_list() -> sysinfo::Disks {
    sysinfo::Disks::new_with_refreshed_list()
}

/// `sysinfo::Disks::list`: the listed disks, in order. Nothing is stated of
/// them.
#[verifier::external_body]
pub(crate) fn disks_list(disks: &sysinfo::Disks) -> &[sysinfo::Disk] {
    disks.list()
}

/// `sysinfo::Disk::mount_point`, as a string (`Path::to_string_lossy`).
/// Nothing is stated of it.
#[verifier::external_body]
pub(crate) fn disk_mount_point(disk: &sysinfo::Disk) -> String {
    disk.mount_point().to_string_lossy().into_owned()
}

/// `sysinfo::Disk::total_space`: the disk's size in bytes. Nothing is stated
/// of it.
#[verifier::external_body]
pub(crate) fn disk_total_space(disk: &sysinfo::Disk) -> u64 {
    disk.total_space()
}

/// `os_info::get`: what is known of the running operating system. Nothing
/// is stated of it.
#[verifier::external_body]
pub(crate) fn os_info_get() -> os_info::Info {
    os_info::get()
}

/// `os_info::Info::edition`, as an owned string. Nothing is stated of it.
#[verifier::external_body]
pub(crate) fn info_edition(info: &os_info::Info) -> Option<String> {
    info.edition().map(String::from)
}

/// `os_info::Info::architecture`, as an owned string. Nothing is stated of it.
#[verifier::external_body]
pub(crate) fn info_architecture(info: &os_info::Info) -> Option<String> {
    info.architecture().map(String::from)
}

/// `os_info::Info::version`. Nothing is stated of it.
#[verifier::external_body]
pub(crate) fn info_version(info: &os_info::Info) -> &os_info::Version {
    info.version()
}

/// `os_info::Version`'s `Display` (through `ToString::to_string`). Nothing
/// is stated of the text.
#[verifier::external_body]
pub(crate) fn version_to_string(version: &os_info::Version) -> String {
    version.to_string()
}

} // verus!
