use std::collections::BTreeMap;

use stasis::low_power::{
    discover_gpu_pci_devices, display_class, find_amdgpu_dpm_via_drm, DrmEntry, EnterStep,
    ExitStep, GpuDevice, LowPowerController, PciEntry,
};
use stasis::path::FilePath;

type Files = BTreeMap<String, String>;

fn path(text: &str) -> FilePath {
    FilePath::from_text(text)
}

fn text(path: &FilePath) -> String {
    String::from_utf8(path.bytes.clone()).unwrap()
}

fn gpu(power_control: &str, dpm: Option<&str>) -> GpuDevice {
    GpuDevice {
        power_control: path(power_control),
        power_dpm_force_performance_level: dpm.map(path),
    }
}

/// Enters low-power mode on `files`, where the paths in `refused` cannot be
/// written.
fn enter(
    c: LowPowerController,
    devices: Vec<GpuDevice>,
    files: &mut Files,
    refused: &[&str],
) -> (LowPowerController, usize) {
    let mut devices = Some(devices);
    let mut step = c.enter();
    loop {
        step = match step {
            EnterStep::Finished(c, n) => return (c, n),
            EnterStep::Discover(s) => s.devices(devices.take().unwrap()),
            EnterStep::Read(s) => {
                let value = files.get(&text(s.path())).cloned();
                s.value(value)
            }
            EnterStep::Write(s) => {
                let ok = !refused.contains(&text(s.path()).as_str());
                if ok {
                    files.insert(text(s.path()), s.new_value().to_string());
                }
                s.written(ok)
            }
        };
    }
}

fn exit(
    c: LowPowerController,
    files: &mut Files,
    refused: &[&str],
) -> (LowPowerController, usize) {
    let mut step = c.exit();
    loop {
        step = match step {
            ExitStep::Finished(c, n) => return (c, n),
            ExitStep::Restore(s) => {
                let ok = !refused.contains(&text(s.path()).as_str());
                if ok {
                    files.insert(text(s.path()), s.original().to_string());
                }
                s.written(ok)
            }
        };
    }
}

fn sample_files() -> Files {
    let pairs = [("/a/c", "on\n"), ("/a/d", "high\n"), ("/b/c", "auto\n"), ("/e/c", "on")];
    pairs.iter().map(|(p, v)| (p.to_string(), v.to_string())).collect()
}

fn sample_devices() -> Vec<GpuDevice> {
    vec![gpu("/a/c", Some("/a/d")), gpu("/b/c", Some("/a/d")), gpu("/e/c", None), gpu("/x", None)]
}

#[test]
fn controller_starts_inactive_and_clean() {
    let c = LowPowerController::new();
    assert!(!c.is_active());
    let mut files = Files::new();
    let (_, restored) = exit(c, &mut files, &[]);
    assert_eq!(restored, 0);
}

#[test]
fn enter_then_exit_cycles_cleanly() {
    let c = LowPowerController::new();
    // Without any writable knob, entering is a safe no-op.
    let mut files = Files::new();
    let (c, _) = enter(c, vec![], &mut files, &[]);
    assert!(c.is_active());
    let (c, _) = exit(c, &mut files, &[]);
    assert!(!c.is_active());
}

#[test]
fn exit_undoes_enter() {
    let mut files = sample_files();
    let (c, changed) = enter(LowPowerController::default(), sample_devices(), &mut files, &[]);
    assert_eq!(changed, 3);
    assert_eq!(files["/a/c"], "auto");
    assert_eq!(files["/a/d"], "auto");
    assert_eq!(files["/b/c"], "auto\n");
    assert_eq!(files["/e/c"], "auto");
    let (c, restored) = exit(c, &mut files, &[]);
    assert_eq!(restored, 3);
    assert_eq!(files, sample_files());
    assert!(!c.is_active());
}

#[test]
fn refused_writes_are_not_recorded() {
    let mut files = sample_files();
    let (c, changed) =
        enter(LowPowerController::new(), sample_devices(), &mut files, &["/a/d", "/e/c"]);
    assert_eq!(changed, 1);
    assert_eq!(files["/a/d"], "high\n");
    let (_, restored) = exit(c, &mut files, &[]);
    assert_eq!(restored, 1);
    assert_eq!(files, sample_files());
}

#[test]
fn restoring_goes_on_after_a_failure() {
    let mut files = sample_files();
    let (c, _) = enter(LowPowerController::new(), sample_devices(), &mut files, &[]);
    let (c, restored) = exit(c, &mut files, &["/a/c"]);
    assert_eq!(restored, 2);
    assert_eq!(files["/a/c"], "auto");
    assert_eq!(files["/a/d"], "high\n");
    assert_eq!(files["/e/c"], "on");
    assert!(!c.is_active());
}

#[test]
fn entering_twice_changes_nothing_more() {
    let mut files = sample_files();
    let (c, _) = enter(LowPowerController::new(), sample_devices(), &mut files, &[]);
    let during = files.clone();
    let (c, changed) = enter(c, sample_devices(), &mut files, &[]);
    assert_eq!(changed, 0);
    assert_eq!(files, during);
    let (_, restored) = exit(c, &mut files, &[]);
    assert_eq!(restored, 3);
}

fn pci(name: &str, class: Option<&str>, has_dpm: bool) -> PciEntry {
    PciEntry {
        path: path(&format!("/sys/bus/pci/devices/{name}")),
        name: Some(name.to_string()),
        class: class.map(str::to_string),
        has_dpm,
    }
}

fn drm(name: &str, device: Option<&str>, has_dpm: bool) -> DrmEntry {
    DrmEntry {
        path: path(&format!("/sys/class/drm/{name}")),
        name: name.to_string(),
        device_name: device.map(str::to_string),
        has_dpm,
    }
}

#[test]
fn display_classes() {
    assert!(display_class("0x030000\n"));
    assert!(display_class(" 0X030200"));
    assert!(!display_class("0x040300"));
    assert!(display_class("0x038000\n"));
    assert!(display_class("0x030100"));
    assert!(!display_class("0x02"));
    assert!(!display_class("030000"));
    assert!(!display_class(""));
}

#[test]
fn display_devices_are_discovered() {
    let entries = vec![
        pci("00:01", Some("0x060000\n"), true),
        pci("00:02", Some("0x030000\n"), false),
        pci("00:03", None, true),
        pci("00:04", Some("0x030200\n"), true),
        pci("00:05", Some("0x030080\n"), false),
        pci("00:06", Some("0x038000\n"), false),
        pci("00:07", Some("0x040300\n"), false),
    ];
    let cards = vec![
        drm("card1-DP-1", Some("00:02"), true),
        drm("renderD128", Some("00:02"), true),
        drm("card0", Some("00:05"), false),
        drm("card1", Some("00:02"), true),
        drm("card2", Some("00:02"), true),
        drm("card3", None, true),
    ];
    let found = discover_gpu_pci_devices(Some(&entries), Some(&cards));
    let shown: Vec<(String, Option<String>)> = found
        .iter()
        .map(|d| {
            let dpm = d.power_dpm_force_performance_level.as_ref().map(text);
            (text(&d.power_control), dpm)
        })
        .collect();
    let dpm = "power_dpm_force_performance_level";
    assert_eq!(
        shown,
        vec![
            (
                "/sys/bus/pci/devices/00:02/power/control".to_string(),
                Some(format!("/sys/class/drm/card1/device/{dpm}")),
            ),
            (
                "/sys/bus/pci/devices/00:04/power/control".to_string(),
                Some(format!("/sys/bus/pci/devices/00:04/{dpm}")),
            ),
            ("/sys/bus/pci/devices/00:05/power/control".to_string(), None),
            ("/sys/bus/pci/devices/00:06/power/control".to_string(), None),
        ]
    );
}

#[test]
fn unlisted_directories_have_no_devices() {
    assert!(discover_gpu_pci_devices(None, None).is_empty());
    let entries = vec![pci("00:02", Some("0x030000"), false)];
    let found = discover_gpu_pci_devices(Some(&entries), None);
    assert_eq!(found.len(), 1);
    assert!(found[0].power_dpm_force_performance_level.is_none());
    let cards = vec![drm("card0", Some("00:02"), true)];
    assert!(find_amdgpu_dpm_via_drm(None, Some(&cards)).is_none());
    assert!(find_amdgpu_dpm_via_drm(Some("00:02"), Some(&cards)).is_some());
}
