//! The USB control-transfer side of the keyboard protocol: which interface to
//! claim, and the setup fields of the HID SET_REPORT request that carries
//! each feature report.

use vstd::prelude::*;
use crate::protocol::{PACKET_LENGTH, PRODUCT_ID, VENDOR_ID};
use crate::text::{parse_integer, parse_u8};

verus! {

pub const CONTROL_INTERFACE: u8 = 3;
pub const DATA_INTERFACE: u8 = 2;
/// EP3 OUT on interface 2
pub const DATA_EP_OUT: u8 = 0x03;

// USB HID Class request code
pub const HID_SET_REPORT: u8 = 0x09;

// Report type: Feature = 3
pub const HID_FEATURE_REPORT: u16 = 0x0300;

/// `rusb::request_type(Direction::Out, RequestType::Class, Recipient::Interface)`:
/// the bmRequestType of a class request from host to interface, which rusb
/// builds as 0x00 (out) | 0x20 (class) | 0x01 (interface).
#[verifier::external_body]
fn class_interface_out_request_type() -> (r: u8)
    ensures
        r == 0x21,
{
    rusb::request_type(rusb::Direction::Out, rusb::RequestType::Class, rusb::Recipient::Interface)
}

/// The interface to claim: the setting's value when it parses as a `u8`,
/// else the control interface.
pub open spec fn usb_interface_for(setting: Option<Seq<char>>) -> u8 {
    match setting {
        Some(s) => match parse_integer(s, 0, 255) {
            Some(v) => v as u8,
            None => CONTROL_INTERFACE,
        },
        None => CONTROL_INTERFACE,
    }
}

/// The interface named by the AK820_IFACE setting, or the control interface.
pub fn usb_interface_from_setting(setting: Option<&str>) -> (iface: u8)
    ensures
        iface == usb_interface_for(
            match setting {
                Some(s) => Some(s@),
                None => None,
            },
        ),
{
    match setting {
        Some(s) => match parse_u8(s) {
            Some(v) => v,
            None => CONTROL_INTERFACE,
        },
        None => CONTROL_INTERFACE,
    }
}

/// Whether a USB device descriptor with these ids is the AK820 Pro.
pub fn is_ak820(vendor_id: u16, product_id: u16) -> (r: bool)
    ensures
        r == (vendor_id == VENDOR_ID && product_id == PRODUCT_ID),
{
    vendor_id == VENDOR_ID && product_id == PRODUCT_ID
}

/// The setup fields of a USB control transfer.
#[derive(Debug, Clone, Copy, PartialEq, Eq, Structural)]
pub struct ControlSetup {
    pub request_type: u8,
    pub request: u8,
    pub value: u16,
    pub index: u16,
}

/// wValue of a feature report request: report type Feature in the high
/// byte, the report id in the low byte.
pub fn feature_report_value(report_id: u8) -> (v: u16)
    ensures
        v == 0x0300 + report_id,
{
    let v = HID_FEATURE_REPORT | (report_id as u16);
    assert(v == 0x0300 + report_id) by (bit_vector)
        requires
            v == 0x0300u16 | (report_id as u16),
    ;
    v
}

/// The HID SET_REPORT(Feature) request that sends `data` on `iface`; its
/// report id is the packet's first byte. No GET_REPORT follows it: that
/// corrupts the control endpoint's state on this device.
pub fn set_report_setup(data: &[u8; PACKET_LENGTH], iface: u8) -> (setup: ControlSetup)
    ensures
        setup == (ControlSetup {
            request_type: 0x21,
            request: HID_SET_REPORT,
            value: (0x0300 + data@[0]) as u16,
            index: iface as u16,
        }),
{
    let report_id = data[0];
    ControlSetup {
        request_type: class_interface_out_request_type(),
        request: HID_SET_REPORT,
        value: feature_report_value(report_id),
        index: iface as u16,
    }
}

} // verus!
