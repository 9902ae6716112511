//! The USB-access capability, taken from the rusb crate on trust. Every
//! value these items hand back comes from the host's USB subsystem, so no
//! contract here promises more than the crate's own interface shows; the
//! callers in the enumerator state what holds of whatever comes back.
use vstd::prelude::*;
use rusb::UsbContext;
use crate::device::DescriptorFields;
use crate::speed::SpeedClass;

verus! {

#[verifier::external_type_specification]
#[verifier::external_body]
pub struct ExContext(rusb::Context);

/// One enumerated device. rusb's device type is generic over a context
/// trait that the verifier cannot be told about, so the value is held
/// opaquely in a private field and only the wrappers below touch it.
#[verifier::external_body]
pub struct UsbDevice {
    dev: rusb::Device<rusb::Context>,
}

/// An opened device. Held opaquely for the same reason as `UsbDevice`.
#[verifier::external_body]
pub struct UsbHandle {
    handle: rusb::DeviceHandle<rusb::Context>,
}

#[verifier::external_type_specification]
#[verifier::external_body]
pub struct ExConfigDescriptor(rusb::ConfigDescriptor);

#[verifier::external_type_specification]
#[verifier::external_body]
pub struct ExLanguage(rusb::Language);

#[verifier::external_type_specification]
#[verifier::external_body]
pub struct ExError(rusb::Error);

/// Relies on rusb::Context::new: opens a fresh libusb context.
#[verifier::external_body]
pub(crate) fn usb_context_new() -> Result<rusb::Context, rusb::Error> {
    rusb::Context::new()
}

/// Relies on rusb::UsbContext::devices and rusb::DeviceList::iter: lists
/// every device attached to the host right now.
#[verifier::external_body]
pub(crate) fn usb_list_devices(ctx: &rusb::Context) -> Result<Vec<UsbDevice>, rusb::Error> {
    match ctx.devices() {
        Ok(list) => Ok(list.iter().map(|dev| UsbDevice { dev }).collect()),
        Err(e) => Err(e),
    }
}

/// Relies on the Display impl of rusb::Error: a readable message for a
/// USB-subsystem error.
#[verifier::external_body]
pub(crate) fn usb_error_text(e: &rusb::Error) -> String {
    format!("{}", e)
}

/// Relies on rusb::Device::device_descriptor and the descriptor's field
/// getters (vendor_id, product_id, class_code, sub_class_code,
/// protocol_code, num_configurations, and the three string-index
/// getters): reads the device descriptor and hands its fields over as
/// plain values.
#[verifier::external_body]
pub(crate) fn usb_device_descriptor(d: &UsbDevice) -> Result<DescriptorFields, rusb::Error> {
    let dd = d.dev.device_descriptor()?;
    Ok(DescriptorFields {
        vendor_id: dd.vendor_id(),
        product_id: dd.product_id(),
        class: dd.class_code(),
        sub_class: dd.sub_class_code(),
        protocol: dd.protocol_code(),
        num_configurations: dd.num_configurations(),
        manufacturer_index: dd.manufacturer_string_index(),
        product_index: dd.product_string_index(),
        serial_index: dd.serial_number_string_index(),
    })
}

/// Relies on rusb::Device::bus_number: the host-assigned bus number.
#[verifier::external_body]
pub(crate) fn usb_bus_number(d: &UsbDevice) -> u8 {
    d.dev.bus_number()
}

/// Relies on rusb::Device::address: the host-assigned device address.
#[verifier::external_body]
pub(crate) fn usb_address(d: &UsbDevice) -> u8 {
    d.dev.address()
}

/// Relies on rusb::Device::speed: the negotiated link-speed tier, each of
/// rusb's tiers moved to the library's own, and any tier outside the
/// known set to `Unknown`.
#[verifier::external_body]
pub(crate) fn usb_speed_class(d: &UsbDevice) -> SpeedClass {
    match d.dev.speed() {
        rusb::Speed::Low => SpeedClass::Low,
        rusb::Speed::Full => SpeedClass::Full,
        rusb::Speed::High => SpeedClass::High,
        rusb::Speed::Super => SpeedClass::Super,
        rusb::Speed::SuperPlus => SpeedClass::SuperPlus,
        _ => SpeedClass::Unknown,
    }
}

/// Relies on rusb::Device::open: opens the device for descriptor reads.
#[verifier::external_body]
pub(crate) fn usb_open(d: &UsbDevice) -> Result<UsbHandle, rusb::Error> {
    match d.dev.open() {
        Ok(handle) => Ok(UsbHandle { handle }),
        Err(e) => Err(e),
    }
}

/// Relies on rusb::DeviceHandle::read_languages, with a one-second
/// timeout: the string-descriptor languages the device supports.
#[verifier::external_body]
pub(crate) fn usb_read_languages(h: &UsbHandle) -> Result<Vec<rusb::Language>, rusb::Error> {
    h.handle.read_languages(std::time::Duration::from_secs(1))
}

/// Relies on rusb::DeviceHandle::read_string_descriptor, with a
/// one-second timeout: the string descriptor with the given index, in
/// the given language. rusb's own per-field readers (manufacturer,
/// product, serial number) delegate to this same call with the
/// descriptor's declared index, which the callers here pass explicitly.
#[verifier::external_body]
pub(crate) fn usb_read_string(
    h: &UsbHandle,
    lang: &rusb::Language,
    index: u8,
) -> Result<String, rusb::Error> {
    h.handle.read_string_descriptor(*lang, index, std::time::Duration::from_secs(1))
}

/// Relies on rusb::Device::config_descriptor: reads the configuration
/// descriptor with the given index.
#[verifier::external_body]
pub(crate) fn usb_config_descriptor(d: &UsbDevice, index: u8) -> Result<
    rusb::ConfigDescriptor,
    rusb::Error,
> {
    d.dev.config_descriptor(index)
}

/// Relies on rusb::ConfigDescriptor::max_power: the declared maximum
/// draw, in milliamps.
#[verifier::external_body]
pub(crate) fn usb_max_power(c: &rusb::ConfigDescriptor) -> u16 {
    c.max_power()
}

} // verus!
