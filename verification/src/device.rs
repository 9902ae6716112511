//! The record the monitor keeps of one attached USB device.
use vstd::prelude::*;

verus! {

/// The device descriptor's fields as plain values: what the extractor
/// reads of a descriptor, modeled so that contracts can speak of it. The
/// three string indices are absent where the device declares none.
#[derive(Debug, Clone, Copy)]
pub struct DescriptorFields {
    pub vendor_id: u16,
    pub product_id: u16,
    pub class: u8,
    pub sub_class: u8,
    pub protocol: u8,
    pub num_configurations: u8,
    pub manufacturer_index: Option<u8>,
    pub product_index: Option<u8>,
    pub serial_index: Option<u8>,
}

/// Everything the monitor reads about one attached device in one poll
/// cycle. String fields stay empty and numeric fields stay zero where the
/// corresponding read failed.
#[derive(Debug)]
pub struct UsbDeviceInfo {
    pub vendor_id: u16,
    pub product_id: u16,
    pub manufacturer: String,
    pub product_name: String,
    pub serial_number: String,
    pub max_power_ma: u16,
    pub speed: u32,
    pub device_class: u8,
    pub device_subclass: u8,
    pub device_protocol: u8,
    pub num_configurations: u8,
}

} // verus!
