//! Choosing the HID interface of the AK820 Pro among the HID devices that
//! the system lists (the hidapi backend). Interface 3 is the vendor control
//! interface for lighting and configuration.

use vstd::prelude::*;
use crate::protocol::{PRODUCT_ID, VENDOR_ID};
use crate::text::{parse_i32, parse_integer};

verus! {

/// The correct HID interface for vendor control commands (lighting, config).
pub const CONTROL_INTERFACE: i32 = 3;

/// The interface that the AK820_IFACE setting names: its value when it
/// parses as an `i32`, else the control interface.
pub open spec fn hid_interface_for(setting: Option<Seq<char>>) -> i32 {
    match setting {
        Some(s) => match parse_integer(s, i32::MIN as int, i32::MAX as int) {
            Some(v) => v as i32,
            None => CONTROL_INTERFACE,
        },
        None => CONTROL_INTERFACE,
    }
}

/// The interface named by the AK820_IFACE setting, or the control interface.
pub fn hid_interface_from_setting(setting: Option<&str>) -> (iface: i32)
    ensures
        iface == hid_interface_for(
            match setting {
                Some(s) => Some(s@),
                None => None,
            },
        ),
{
    match setting {
        Some(s) => match parse_i32(s) {
            Some(v) => v,
            None => CONTROL_INTERFACE,
        },
        None => CONTROL_INTERFACE,
    }
}

/// What the logic needs to know of one entry of the HID device list.
#[derive(Debug, Clone, Copy, PartialEq, Eq, Structural)]
pub struct HidInterfaceInfo {
    pub vendor_id: u16,
    pub product_id: u16,
    pub interface_number: i32,
}

/// Why the control interface could not be chosen.
#[derive(Debug, PartialEq, Eq)]
pub enum HidOpenError {
    /// No HID interface has the AK820 Pro's vendor and product id.
    NotFound,
    /// The keyboard is there, but not with the wanted interface; these are
    /// the interface numbers it has, in list order.
    InterfaceMissing(Vec<i32>),
}

pub open spec fn is_keyboard(d: HidInterfaceInfo) -> bool {
    d.vendor_id == VENDOR_ID && d.product_id == PRODUCT_ID
}

/// The interface numbers of the keyboard's entries, in list order.
pub open spec fn keyboard_interfaces(devices: Seq<HidInterfaceInfo>) -> Seq<i32>
    decreases devices.len(),
{
    if devices.len() == 0 {
        Seq::empty()
    } else {
        let rest = keyboard_interfaces(devices.drop_last());
        if is_keyboard(devices.last()) {
            rest.push(devices.last().interface_number)
        } else {
            rest
        }
    }
}

/// Entry `i` is the keyboard's interface `iface`.
pub open spec fn is_wanted(devices: Seq<HidInterfaceInfo>, iface: i32, i: int) -> bool {
    0 <= i < devices.len() && is_keyboard(devices[i]) && devices[i].interface_number == iface
}

/// Chooses the entry to open: the first of the keyboard's entries with
/// interface number `iface`. Fails with `NotFound` when the list has no entry
/// of the keyboard, and with `InterfaceMissing` (listing the keyboard's
/// interfaces) when none of them is `iface`.
pub fn select_control_interface(devices: &Vec<HidInterfaceInfo>, iface: i32) -> (r: Result<
    usize,
    HidOpenError,
>)
    ensures
        r matches Ok(i) ==> is_wanted(devices@, iface, i as int) && forall|j: int|
            0 <= j < i ==> !is_wanted(devices@, iface, j),
        r is Ok <==> exists|j: int| is_wanted(devices@, iface, j),
        r matches Err(HidOpenError::NotFound) ==> keyboard_interfaces(devices@).len() == 0,
        r matches Err(HidOpenError::InterfaceMissing(found)) ==> found@ == keyboard_interfaces(
            devices@,
        ) && found@.len() > 0,
        r is Err ==> (r matches Err(HidOpenError::NotFound) <==> keyboard_interfaces(
            devices@,
        ).len() == 0),
{
    let mut found: Vec<i32> = Vec::new();
    let mut i: usize = 0;
    while i < devices.len()
        invariant
            i <= devices.len(),
            found@ == keyboard_interfaces(devices@.take(i as int)),
            forall|j: int| 0 <= j < i ==> !is_wanted(devices@, iface, j),
        decreases devices.len() - i,
    {
        let d = devices[i];
        assert(devices@.take(i + 1).drop_last() =~= devices@.take(i as int));
        if d.vendor_id == VENDOR_ID && d.product_id == PRODUCT_ID {
            if d.interface_number == iface {
                assert(is_wanted(devices@, iface, i as int));
                return Ok(i);
            }
            found.push(d.interface_number);
        }
        i = i + 1;
    }
    assert(devices@.take(devices.len() as int) =~= devices@);
    if found.len() == 0 {
        Err(HidOpenError::NotFound)
    } else {
        Err(HidOpenError::InterfaceMissing(found))
    }
}

/// The keyboard is the HID device with vendor id 0x0C45 and product id
/// 0x8009, and without an AK820_IFACE setting the control interface 3 is
/// the one chosen.
pub proof fn lemma_keyboard_identity(d: HidInterfaceInfo)
    ensures
        is_keyboard(d) <==> d.vendor_id == 0x0C45 && d.product_id == 0x8009,
        hid_interface_for(None) == 3,
{
}

} // verus!
