use sysview::gpu::{
    gpu_from_readings, gpu_name_from_lspci, is_connected_card, parse_mode_line, vram_from_sysfs,
    GpuInfo,
};
use sysview::windows::Win32_VideoController;

const LSPCI: &str = "00:00.0 Host bridge: Intel Corporation Device 9b61 (rev 0c)\n\
\tSubsystem: Lenovo Device 5089\n\
\tFlags: bus master, fast devsel, latency 0\n\
00:02.0 VGA compatible controller: Intel Corporation CometLake-U GT2 [UHD Graphics] (rev 02) (prog-if 00 [VGA controller])\n\
\tSubsystem: Lenovo Device 5089\n";

#[test]
fn panel_text() {
    let g = GpuInfo {
        name: String::from("GeForce"),
        horizontal_resolution: Some(1920),
        vertical_resolution: None,
        refresh_rate: Some(144),
        vram: 8 * 1024 * 1024 * 1024,
    };
    assert_eq!(
        g.to_text(),
        "\nNombre: GeForce\nResolución horizontal: 1920 px\nResolución vertical: 0 px\nFrecuencia de actualización: 144 Hz\nVRAM: 8192 MB\n"
    );
}

#[test]
fn lspci_name() {
    assert_eq!(
        gpu_name_from_lspci(Some(LSPCI)),
        "Intel Corporation CometLake-U GT2 [UHD Graphics] (rev 02) (prog-if 00 [VGA controller])"
    );
    assert_eq!(gpu_name_from_lspci(None), "Desconocido");
    assert_eq!(gpu_name_from_lspci(Some("")), "Desconocido");
    assert_eq!(gpu_name_from_lspci(Some("01:00.0 Audio device: x\n")), "Desconocido");
}

#[test]
fn lspci_line_without_third_field_is_skipped() {
    let out = "VGA only one: field\n01:00.0 3D controller: NVIDIA  : extra\n";
    assert_eq!(gpu_name_from_lspci(Some(out)), "NVIDIA");
}

#[test]
fn mode_lines() {
    let m = parse_mode_line("1920x1080@60Hz");
    assert_eq!((m.horizontal, m.vertical, m.refresh_rate), (Some(1920), Some(1080), Some(60)));
    let m = parse_mode_line("2560x1440");
    assert_eq!((m.horizontal, m.vertical, m.refresh_rate), (Some(2560), Some(1440), Some(60)));
    let m = parse_mode_line("1920x1080i@50");
    assert_eq!((m.horizontal, m.vertical, m.refresh_rate), (Some(1920), None, Some(50)));
    let m = parse_mode_line("1280@75HzHz");
    assert_eq!((m.horizontal, m.vertical, m.refresh_rate), (None, None, Some(75)));
    let m = parse_mode_line("garbage");
    assert_eq!((m.horizontal, m.vertical, m.refresh_rate), (None, None, None));
}

#[test]
fn mode_line_round_trip() {
    for (w, h, r) in [(0u32, 0u32, 0u32), (800, 600, 75), (u32::MAX, 1, 240)] {
        let m = parse_mode_line(&format!("{}x{}@{}Hz", w, h, r));
        assert_eq!((m.horizontal, m.vertical, m.refresh_rate), (Some(w), Some(h), Some(r)));
    }
}

#[test]
fn card_entries() {
    assert!(is_connected_card("card0-disconnected"));
    assert!(!is_connected_card("card1-HDMI-A-1"));
    assert!(!is_connected_card("renderD128"));
}

#[test]
fn vram_file() {
    assert_eq!(vram_from_sysfs(Some("8589934592\n")), 8192);
    assert_eq!(vram_from_sysfs(Some("  1048575 ")), 0);
    assert_eq!(vram_from_sysfs(Some("lots")), 0);
    assert_eq!(vram_from_sysfs(None), 0);
    for b in [0u64, 1 << 20, 3 << 30, u64::MAX] {
        assert_eq!(vram_from_sysfs(Some(&format!("{}\n", b))), b / 1024 / 1024);
    }
}

#[test]
fn linux_readings() {
    let g = gpu_from_readings(Some(LSPCI), Some("1366x768@60Hz"), Some("2147483648\n"));
    assert_eq!(g.name, "Intel Corporation CometLake-U GT2 [UHD Graphics] (rev 02) (prog-if 00 [VGA controller])");
    assert_eq!(g.horizontal_resolution, Some(1366));
    assert_eq!(g.vertical_resolution, Some(768));
    assert_eq!(g.refresh_rate, Some(60));
    assert_eq!(g.vram, 2048);
    let g = gpu_from_readings(None, None, None);
    assert_eq!(g.name, "Desconocido");
    assert_eq!((g.horizontal_resolution, g.vertical_resolution, g.refresh_rate), (None, None, None));
    assert_eq!(g.vram, 0);
}

#[test]
fn windows_controller() {
    let vc = Win32_VideoController {
        name: String::from("Radeon"),
        current_horizontal_resolution: 3840,
        current_vertical_resolution: 2160,
        current_refresh_rate: 120,
        adapter_ram: u32::MAX,
    };
    let g = GpuInfo::from_video_controller(&vc);
    assert_eq!(g.name, "Radeon");
    assert_eq!(g.horizontal_resolution, Some(3840));
    assert_eq!(g.vertical_resolution, Some(2160));
    assert_eq!(g.refresh_rate, Some(120));
    assert_eq!(g.vram, 4294967295);
    assert!(g.to_text().ends_with("VRAM: 4095 MB\n"));
}
