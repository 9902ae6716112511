//! USB device enumerator and per-device info extractor. Every value here
//! comes from the host's USB subsystem through the trusted capability in
//! `usb`, so the contracts state what holds of every outcome: the speed
//! field always comes from the fixed tier table, every read failure
//! degrades to an empty or zero field, and an enumeration failure yields
//! an empty snapshot beside its error text.
use vstd::prelude::*;
use crate::device::{DescriptorFields, UsbDeviceInfo};
use crate::snapshot::Snapshot;
use crate::speed::{spec_speed_in_table, speed_to_mbps};
use crate::usb::{
    usb_address, usb_bus_number, usb_config_descriptor, usb_context_new, usb_device_descriptor,
    usb_error_text, usb_list_devices, usb_max_power, usb_open, usb_read_languages,
    usb_read_string, usb_speed_class, UsbDevice,
};

verus! {

/// Reads one attached device's record: identifiers and class codes
/// copied unchanged from its descriptor fields, the link speed from the
/// fixed tier table, the three strings only where the device can be
/// opened and declares them, and the declared maximum draw from
/// configuration descriptor index 0. No failure propagates: each failed
/// read leaves its own field empty or zero.
pub fn get_device_info(
    device: &UsbDevice,
    device_desc: &DescriptorFields,
    _context: &rusb::Context,
) -> (r: UsbDeviceInfo)
    ensures
        r.vendor_id == device_desc.vendor_id,
        r.product_id == device_desc.product_id,
        r.device_class == device_desc.class,
        r.device_subclass == device_desc.sub_class,
        r.device_protocol == device_desc.protocol,
        r.num_configurations == device_desc.num_configurations,
        spec_speed_in_table(r.speed),
{
    let vendor_id = device_desc.vendor_id;
    let product_id = device_desc.product_id;
    let device_class = device_desc.class;
    let device_subclass = device_desc.sub_class;
    let device_protocol = device_desc.protocol;
    let num_configurations = device_desc.num_configurations;

    let speed = speed_to_mbps(usb_speed_class(device));

    let mut manufacturer = String::new();
    let mut product_name = String::new();
    let mut serial_number = String::new();

    match usb_open(device) {
        Ok(handle) => {
            match usb_read_languages(&handle) {
                Ok(languages) => {
                    if languages.len() > 0 {
                        let language = &languages[0];
                        if let Some(index) = device_desc.manufacturer_index {
                            manufacturer = match usb_read_string(&handle, language, index) {
                                Ok(s) => s,
                                Err(_) => String::new(),
                            };
                        }
                        if let Some(index) = device_desc.product_index {
                            product_name = match usb_read_string(&handle, language, index) {
                                Ok(s) => s,
                                Err(_) => String::new(),
                            };
                        }
                        if let Some(index) = device_desc.serial_index {
                            serial_number = match usb_read_string(&handle, language, index) {
                                Ok(s) => s,
                                Err(_) => String::new(),
                            };
                        }
                    }
                },
                Err(_) => {},
            }
        },
        Err(_) => {},
    }

    let mut max_power_ma: u16 = 0;
    match usb_config_descriptor(device, 0) {
        Ok(config) => {
            max_power_ma = usb_max_power(&config);
        },
        Err(_) => {},
    }

    UsbDeviceInfo {
        vendor_id,
        product_id,
        manufacturer,
        product_name,
        serial_number,
        max_power_ma,
        speed,
        device_class,
        device_subclass,
        device_protocol,
        num_configurations,
    }
}

/// Builds a fresh snapshot of the attached devices, keyed by (bus,
/// address). A context or listing failure is not fatal: it yields the
/// empty snapshot beside one error line for the error stream. A device
/// whose descriptor cannot be read is silently left out. Every stored
/// record's speed comes from the fixed tier table.
pub fn get_device_list() -> (r: (Snapshot, Vec<String>))
    ensures
        forall|k: (u8, u8)|
            r.0@.dom().contains(k) ==> spec_speed_in_table(#[trigger] r.0@[k].speed),
        r.1@.len() <= 1,
        r.1@.len() == 1 ==> r.0@ == Map::<(u8, u8), UsbDeviceInfo>::empty(),
{
    let mut snap = Snapshot::new();
    let mut errors: Vec<String> = Vec::new();
    match usb_context_new() {
        Ok(context) => {
            match usb_list_devices(&context) {
                Ok(devices) => {
                    let n = devices.len();
                    let mut i: usize = 0;
                    while i < n
                        invariant
                            i <= n,
                            n == devices@.len(),
                            forall|k: (u8, u8)|
                                snap@.dom().contains(k) ==> spec_speed_in_table(
                                    #[trigger] snap@[k].speed,
                                ),
                        decreases n - i,
                    {
                        let device = &devices[i];
                        match usb_device_descriptor(device) {
                            Ok(device_desc) => {
                                let info = get_device_info(device, &device_desc, &context);
                                let bus = usb_bus_number(device);
                                let address = usb_address(device);
                                let ghost before = snap@;
                                snap.insert(bus, address, info);
                                proof {
                                    assert forall|k: (u8, u8)|
                                        snap@.dom().contains(k) implies spec_speed_in_table(
                                        #[trigger] snap@[k].speed,
                                    ) by {
                                        if k != (bus, address) {
                                            assert(before.dom().contains(k));
                                            assert(snap@[k] == before[k]);
                                        }
                                    }
                                }
                            },
                            Err(_) => {},
                        }
                        i += 1;
                    }
                },
                Err(e) => {
                    errors.push(usb_error_text(&e));
                },
            }
        },
        Err(e) => {
            errors.push(usb_error_text(&e));
        },
    }
    (snap, errors)
}

} // verus!
