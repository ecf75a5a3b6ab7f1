use std::cell::Cell;

use sysview::windows::{
    fetch_latest_ps_version, fetch_legacy_ps_version, latest_semantic_version,
    ps_version_from_module_path, ps_version_in_lowercased_path, ENGINE_KEY_V1, ENGINE_KEY_V3,
    ENGINE_VERSION_VALUE,
};

fn strings(v: &[&str]) -> Vec<String> {
    v.iter().map(|s| s.to_string()).collect()
}

#[test]
fn latest_version() {
    assert_eq!(latest_semantic_version(&[]), "");
    assert_eq!(latest_semantic_version(&strings(&["7.2.0", "7.4.1", "7.3.9"])), "7.4.1");
    assert_eq!(latest_semantic_version(&strings(&["7.10.0", "7.9.0"])), "7.9.0");
    assert_eq!(latest_semantic_version(&strings(&["", ""])), "");
}

#[test]
fn module_path_version() {
    assert_eq!(
        ps_version_in_lowercased_path("c:\\users\\me\\documents;c:\\program files\\powershell_7\\modules"),
        Some(String::from("7\\modules"))
    );
    assert_eq!(ps_version_in_lowercased_path("c:\\a;c:\\b"), None);
    assert_eq!(
        ps_version_from_module_path("C:\\Program Files\\PowerShell_7;D:\\PowerShell_6"),
        Some(String::from("7"))
    );
    assert_eq!(ps_version_from_module_path(""), None);
}

#[test]
fn shell_from_installed_versions() {
    let called = Cell::new(false);
    let name = fetch_latest_ps_version(&strings(&["7.3.0", "7.4.6"]), Some("x;y_powershell_5"), || {
        called.set(true);
        Ok::<String, ()>(String::from("5.1"))
    });
    assert_eq!(name, "PowerShell 7.4.6");
    assert!(!called.get());
}

#[test]
fn shell_from_module_path() {
    let name = fetch_latest_ps_version(&[], Some("C:\\PowerShell_7"), || Err::<String, ()>(()));
    assert_eq!(name, "PowerShell 7");
}

#[test]
fn shell_from_legacy_engine() {
    assert_eq!(
        fetch_latest_ps_version(&[], None, || Ok::<String, ()>(String::from("5.1.22621.1"))),
        "PowerShell 5.1.22621.1"
    );
    assert_eq!(
        fetch_latest_ps_version(&strings(&[""]), Some("c:\\x"), || Err::<String, ()>(())),
        "Console Host"
    );
}

#[test]
fn legacy_engine_reads_version_three_first() {
    let opened = std::cell::RefCell::new(Vec::new());
    let r = fetch_legacy_ps_version(
        |path: &str| {
            opened.borrow_mut().push(path.to_string());
            Ok::<String, String>(path.to_string())
        },
        |key: String, name: &str| Ok(format!("{} {}", key, name)),
    );
    assert_eq!(r, Ok(format!("{} {}", ENGINE_KEY_V3, ENGINE_VERSION_VALUE)));
    assert_eq!(*opened.borrow(), vec![ENGINE_KEY_V3.to_string(), ENGINE_KEY_V1.to_string()]);
}

#[test]
fn legacy_engine_falls_back_to_version_one() {
    let r = fetch_legacy_ps_version(
        |path: &str| {
            if path == ENGINE_KEY_V3 {
                Err(String::from("no v3"))
            } else {
                Ok(String::from("v1 key"))
            }
        },
        |key: String, _name: &str| Ok(format!("read {}", key)),
    );
    assert_eq!(r, Ok(String::from("read v1 key")));
}

#[test]
fn legacy_engine_needs_version_one_key() {
    let r = fetch_legacy_ps_version(
        |path: &str| {
            if path == ENGINE_KEY_V1 {
                Err(String::from("no v1"))
            } else {
                Ok(String::from("v3 key"))
            }
        },
        |_key: String, _name: &str| Ok::<String, String>(String::from("3.0")),
    );
    assert_eq!(r, Err(String::from("no v1")));
}

#[test]
fn legacy_engine_read_error() {
    let r = fetch_legacy_ps_version(
        |_path: &str| Ok::<u8, String>(1),
        |_key: u8, _name: &str| Err(String::from("no value")),
    );
    assert_eq!(r, Err(String::from("no value")));
}

#[test]
fn latest_is_greatest_and_installed() {
    let versions = strings(&["7.0.3", "7.4.6", "6.2.7", "7.4.10", "7.4.6"]);
    let latest = latest_semantic_version(&versions);
    assert!(versions.contains(&latest));
    assert!(versions.iter().all(|v| !(latest < *v)));
    assert_eq!(latest, "7.4.6");
}
