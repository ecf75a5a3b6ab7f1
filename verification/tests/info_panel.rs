use sysview::cpu::cpu_freq_mhz;
use sysview::disk::{disk, disk_text, DiskSpace};
use sysview::memory::{memory, memory_text};
use sysview::os::{os, os_from_parts, os_text};

#[test]
fn memory_line() {
    assert_eq!(memory_text(0, 0), "Memoria: 0 MB / 0 MB");
    assert_eq!(
        memory_text(3 * 1024 * 1024 * 1024 + 5, 16 * 1024 * 1024 * 1024),
        "Memoria: 3072 MB / 16384 MB"
    );
}

#[test]
fn memory_of_this_machine() {
    let mut sys = sysinfo::System::new();
    let line = memory(&mut sys);
    assert!(line.starts_with("Memoria: "));
    assert!(line.ends_with(" MB"));
}

#[test]
fn disks_line() {
    assert_eq!(disk_text(&[]), "Discos:\n");
    let disks = vec![
        DiskSpace { mount_point: String::from("C:\\"), total_space: 512 * 1024 * 1024 * 1024 },
        DiskSpace { mount_point: String::from("/home"), total_space: (1 << 30) - 1 },
        DiskSpace { mount_point: String::from("\\\\srv\\share"), total_space: 2 << 30 },
    ];
    assert_eq!(disk_text(&disks), "Discos:\n(C:) 512 GB | (/home) 0 GB | (srvshare) 2 GB");
}

#[test]
fn disks_of_this_machine() {
    assert!(disk().starts_with("Discos:\n"));
}

#[test]
fn os_lines() {
    assert_eq!(
        os_text("Windows 11 Pro", "x86_64", "\"10.0.22631\"", "desk", "PowerShell 7.4.1"),
        "OS: Windows 11 Pro x86_64\nKernel: 10.0.22631\nHost: desk\nShell: PowerShell 7.4.1"
    );
    assert_eq!(os_from_parts(None, Some("x86_64"), "1", Some("h"), "sh"), None);
    assert_eq!(os_from_parts(Some("e"), None, "1", Some("h"), "sh"), None);
    assert_eq!(os_from_parts(Some("e"), Some("a"), "1", None, "sh"), None);
    assert_eq!(
        os_from_parts(Some("e"), Some("a"), "1.2.3", Some("h"), "sh"),
        Some(String::from("OS: e a\nKernel: 1.2.3\nHost: h\nShell: sh"))
    );
}

#[test]
fn os_of_this_machine() {
    if let Some(text) = os("Console Host") {
        assert!(text.starts_with("OS: "));
        assert!(text.ends_with("\nShell: Console Host"));
    }
}

#[test]
fn cpu_frequency() {
    assert_eq!(cpu_freq_mhz(Some("2400000\n")), 2400);
    assert_eq!(cpu_freq_mhz(Some("999")), 0);
    assert_eq!(cpu_freq_mhz(Some("fast")), 0);
    assert_eq!(cpu_freq_mhz(Some("4294967296")), 0);
    assert_eq!(cpu_freq_mhz(None), 0);
}

#[test]
fn frequency_file_round_trip() {
    for khz in [0u32, 999, 1000, 3_600_000, u32::MAX] {
        assert_eq!(cpu_freq_mhz(Some(&format!("{}\n", khz))), khz / 1000);
    }
}
