use ak820_ctl::gui::{format_usb_error, Ak820App, ConnectionStatus, LightingState, SleepState};
use ak820_ctl::protocol::{Direction, LightingMode, SleepTime};
use ak820_ctl::stats::{find_cpu_sensor, find_gpu_sensor, HwmonEntry};

#[test]
fn lighting_state_defaults() {
    let s = LightingState::default();
    assert_eq!(s.current_mode(), LightingMode::Static);
    assert_eq!(s.color, [255, 0, 0]);
    assert_eq!(s.brightness, 5);
    assert_eq!(s.speed, 3);
    assert!(!s.rainbow);
    assert_eq!(s.current_direction(), Direction::Left);
}

#[test]
fn lighting_state_directions() {
    let mut s = LightingState::default();
    s.mode_index = 10; // scrolling: up, down
    s.direction_index = 1;
    assert_eq!(s.current_direction(), Direction::Down);
    s.direction_index = 5;
    assert_eq!(s.current_direction(), Direction::Down);
    s.fit_direction_index();
    assert_eq!(s.direction_index, 0);
    assert_eq!(s.current_direction(), Direction::Up);
    s.mode_index = 0;
    s.direction_index = 4;
    s.fit_direction_index();
    assert_eq!(s.direction_index, 4);
    assert_eq!(s.current_direction(), Direction::Left);
}

#[test]
fn sleep_state_options() {
    let mut s = SleepState::default();
    assert_eq!(s.current(), SleepTime::Never);
    s.selected = 3;
    assert_eq!(s.current(), SleepTime::ThirtyMinutes);
    let labels: Vec<&str> = SleepState::options().iter().map(|o| o.0).collect();
    assert_eq!(labels, vec!["Never", "1 minute", "5 minutes", "30 minutes"]);
}

#[test]
fn app_status_follows_results() {
    let mut app = Ak820App::new(Err("no keyboard".to_string()));
    assert!(matches!(&app.status, ConnectionStatus::Error(e) if e == "no keyboard"));
    assert!(app.status_message.is_none());
    app.set_status(Ok("Lighting set".to_string()));
    assert!(matches!(app.status, ConnectionStatus::Connected));
    assert_eq!(app.status_message, Some(("Lighting set".to_string(), false)));
    app.set_status(Err("boom".to_string()));
    assert!(matches!(&app.status, ConnectionStatus::Error(e) if e == "boom"));
    assert_eq!(app.status_message, Some(("boom".to_string(), true)));
    let fresh = Ak820App::new(Ok("AK820 Pro connected".to_string()));
    assert!(matches!(fresh.status, ConnectionStatus::Connected));
}

#[test]
fn app_keeps_last_successful_sync() {
    let mut app = Ak820App::new(Ok("x".to_string()));
    app.record_sync(Ok("Clock synced".to_string()));
    assert_eq!(app.clock.last_sync, Some("Clock synced".to_string()));
    app.record_sync(Err("failed".to_string()));
    assert_eq!(app.clock.last_sync, Some("Clock synced".to_string()));
    assert_eq!(app.status_message, Some(("failed".to_string(), true)));
}

#[test]
fn usb_error_messages() {
    let advice = "Permission denied. Install udev rule:\nsudo cp 99-ak820.rules /etc/udev/rules.d/\nsudo udevadm control --reload-rules && sudo udevadm trigger\nThen replug the keyboard.";
    assert_eq!(format_usb_error("Failed to open USB device: Access denied (insufficient permissions)".to_string()), advice);
    assert_eq!(format_usb_error("LIBUSB_ERROR_ACCESS".to_string()), advice);
    assert_eq!(format_usb_error("open: Permission denied".to_string()), advice);
    assert_eq!(format_usb_error("AK820 Pro not found".to_string()), "AK820 Pro not found");
    assert_eq!(format_usb_error("access denied".to_string()), "access denied");
}

fn entry(name: Option<&str>, temp: bool) -> HwmonEntry {
    HwmonEntry { name: name.map(|n| n.to_string()), has_temp_input: temp }
}

#[test]
fn cpu_sensor_choice() {
    let entries = vec![
        entry(Some("acpitz\n"), true),
        entry(Some("k10temp\n"), true),
        entry(Some("coretemp\n"), false),
        entry(None, true),
        entry(Some(" coretemp "), true),
    ];
    assert_eq!(find_cpu_sensor(&entries), Some(4));
    assert_eq!(find_cpu_sensor(&entries[..4].to_vec_entries()), Some(1));
    assert_eq!(find_cpu_sensor(&vec![entry(Some("acpitz"), true)]), Some(0));
    assert_eq!(find_cpu_sensor(&vec![entry(Some("nvme"), true)]), None);
}

#[test]
fn gpu_sensor_choice() {
    let entries = vec![
        entry(Some("coretemp\n"), true),
        entry(Some("amdgpu\n"), false),
        entry(Some("nouveau\n"), true),
        entry(Some("i915\n"), true),
    ];
    assert_eq!(find_gpu_sensor(&entries), Some(2));
    assert_eq!(find_gpu_sensor(&vec![entry(Some("AMDGPU"), true)]), None);
}

trait ToVecEntries {
    fn to_vec_entries(&self) -> Vec<HwmonEntry>;
}

impl ToVecEntries for [HwmonEntry] {
    fn to_vec_entries(&self) -> Vec<HwmonEntry> {
        self.iter().map(|e| HwmonEntry { name: e.name.clone(), has_temp_input: e.has_temp_input }).collect()
    }
}
