use ak820_ctl::device::{hid_interface_from_setting, select_control_interface, HidInterfaceInfo, HidOpenError};
use ak820_ctl::hidraw::{device_id_text, hidiocgfeature, hidiocsfeature, uevent_interface, uevent_selects};
use ak820_ctl::protocol::{mode_data_packet, start_packet, Direction, LightingMode};
use ak820_ctl::usb::{
    feature_report_value, is_ak820, set_report_setup, usb_interface_from_setting, ControlSetup,
};

#[test]
fn feature_report_values() {
    assert_eq!(feature_report_value(0x04), 0x0304);
    assert_eq!(feature_report_value(0x00), 0x0300);
    assert_eq!(feature_report_value(0xFF), 0x03FF);
}

#[test]
fn set_report_request_for_control_packet() {
    let setup = set_report_setup(&start_packet(), 3);
    assert_eq!(setup, ControlSetup { request_type: 0x21, request: 0x09, value: 0x0304, index: 3 });
}

#[test]
fn set_report_request_for_mode_packet() {
    let data = mode_data_packet(LightingMode::Breath, 0, 0, 0, false, 5, 3, Direction::Left);
    let setup = set_report_setup(&data, 2);
    assert_eq!(setup, ControlSetup { request_type: 0x21, request: 0x09, value: 0x0307, index: 2 });
}

#[test]
fn usb_interface_setting() {
    assert_eq!(usb_interface_from_setting(None), 3);
    assert_eq!(usb_interface_from_setting(Some("2")), 2);
    assert_eq!(usb_interface_from_setting(Some("+1")), 1);
    assert_eq!(usb_interface_from_setting(Some("256")), 3);
    assert_eq!(usb_interface_from_setting(Some("-1")), 3);
    assert_eq!(usb_interface_from_setting(Some(" 2")), 3);
    assert_eq!(usb_interface_from_setting(Some("")), 3);
}

#[test]
fn hid_interface_setting() {
    assert_eq!(hid_interface_from_setting(None), 3);
    assert_eq!(hid_interface_from_setting(Some("-1")), -1);
    assert_eq!(hid_interface_from_setting(Some("0002")), 2);
    assert_eq!(hid_interface_from_setting(Some("2147483647")), i32::MAX);
    assert_eq!(hid_interface_from_setting(Some("2147483648")), 3);
    assert_eq!(hid_interface_from_setting(Some("-2147483648")), i32::MIN);
    assert_eq!(hid_interface_from_setting(Some("three")), 3);
    assert_eq!(hid_interface_from_setting(Some("-")), 3);
}

#[test]
fn keyboard_ids() {
    assert!(is_ak820(0x0C45, 0x8009));
    assert!(!is_ak820(0x0C45, 0x8008));
    assert!(!is_ak820(0x046D, 0x8009));
}

fn info(v: u16, p: u16, i: i32) -> HidInterfaceInfo {
    HidInterfaceInfo { vendor_id: v, product_id: p, interface_number: i }
}

#[test]
fn select_control_interface_cases() {
    let list = vec![info(0x046D, 0xC52B, 3), info(0x0C45, 0x8009, 0), info(0x0C45, 0x8009, 3), info(0x0C45, 0x8009, 3)];
    assert_eq!(select_control_interface(&list, 3), Ok(2));
    assert_eq!(select_control_interface(&list, 0), Ok(1));
    assert_eq!(select_control_interface(&list, 1), Err(HidOpenError::InterfaceMissing(vec![0, 3, 3])));
    let other = vec![info(0x046D, 0xC52B, 3)];
    assert_eq!(select_control_interface(&other, 3), Err(HidOpenError::NotFound));
    assert_eq!(select_control_interface(&Vec::new(), 3), Err(HidOpenError::NotFound));
}

#[test]
fn hid_ioctl_numbers() {
    assert_eq!(hidiocsfeature(64), 0xC040_4806);
    assert_eq!(hidiocgfeature(0), 0xC000_4807);
    assert_eq!(hidiocgfeature(64), 0xC040_4807);
}

const UEVENT: &str = "DRIVER=hid-generic\nHID_ID=0003:00000C45:00008009\nHID_NAME=SONiX AK820 PRO\nHID_PHYS=usb-0000:00:14.0-2/input3\nHID_UNIQ=\nMODALIAS=hid:b0003g0001v00000C45p00008009\n";

#[test]
fn device_id_line_text() {
    assert_eq!(device_id_text(), format!("HID_ID=0003:{:08X}:{:08X}", 0x0C45u32, 0x8009u32));
}

#[test]
fn uevent_interface_from_phys_line() {
    assert_eq!(uevent_interface(UEVENT), Some(3));
    assert_eq!(uevent_interface("HID_PHYS=usb-1/input2/input12\n"), Some(12));
    assert_eq!(uevent_interface("HID_PHYS=usb-1/input1\r\nX=1\n"), Some(1));
    // a carriage return stays on a last line that has no line feed
    assert_eq!(uevent_interface("HID_PHYS=usb-1/input1\r"), None);
    // without "/input" the whole line is parsed, and fails
    assert_eq!(uevent_interface("HID_PHYS=7"), None);
    assert_eq!(uevent_interface("HID_ID=0003:00000C45:00008009\n"), None);
    assert_eq!(uevent_interface("X=1\nHID_PHYS=a/inputx\nHID_PHYS=a/input4\n"), None);
    assert_eq!(uevent_interface(""), None);
}

#[test]
fn uevent_selection() {
    assert!(uevent_selects(UEVENT, 3));
    assert!(!uevent_selects(UEVENT, 2));
    let other = UEVENT.replace("00008009", "00008008");
    assert!(!uevent_selects(&other, 3));
}
