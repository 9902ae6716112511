//! Class name resolver: static lookup from an 8-bit USB class code to a
//! human-readable label.
use vstd::prelude::*;

verus! {

/// The label that belongs to each USB class code; codes outside the fixed
/// known set resolve to "Unknown".
pub open spec fn spec_class_name(code: u8) -> Seq<char> {
    if code == 0x00 {
        "Interface Defined"@
    } else if code == 0x01 {
        "Audio"@
    } else if code == 0x02 {
        "Communications and CDC Control"@
    } else if code == 0x03 {
        "HID (Human Interface Device)"@
    } else if code == 0x05 {
        "Physical"@
    } else if code == 0x06 {
        "Image"@
    } else if code == 0x07 {
        "Printer"@
    } else if code == 0x08 {
        "Mass Storage"@
    } else if code == 0x09 {
        "Hub"@
    } else if code == 0x0A {
        "CDC-Data"@
    } else if code == 0x0B {
        "Smart Card"@
    } else if code == 0x0D {
        "Content Security"@
    } else if code == 0x0E {
        "Video"@
    } else if code == 0x0F {
        "Personal Healthcare"@
    } else if code == 0x10 {
        "Audio/Video Devices"@
    } else if code == 0x11 {
        "Billboard Device"@
    } else if code == 0xDC {
        "Diagnostic Device"@
    } else if code == 0xE0 {
        "Wireless Controller"@
    } else if code == 0xEF {
        "Miscellaneous"@
    } else if code == 0xFE {
        "Application Specific"@
    } else if code == 0xFF {
        "Vendor Specific"@
    } else {
        "Unknown"@
    }
}

/// Resolves a USB class code to its readable name.
pub fn get_class_name(class_code: u8) -> (r: &'static str)
    ensures
        r@ == spec_class_name(class_code),
{
    match class_code {
        0x00 => "Interface Defined",
        0x01 => "Audio",
        0x02 => "Communications and CDC Control",
        0x03 => "HID (Human Interface Device)",
        0x05 => "Physical",
        0x06 => "Image",
        0x07 => "Printer",
        0x08 => "Mass Storage",
        0x09 => "Hub",
        0x0A => "CDC-Data",
        0x0B => "Smart Card",
        0x0D => "Content Security",
        0x0E => "Video",
        0x0F => "Personal Healthcare",
        0x10 => "Audio/Video Devices",
        0x11 => "Billboard Device",
        0xDC => "Diagnostic Device",
        0xE0 => "Wireless Controller",
        0xEF => "Miscellaneous",
        0xFE => "Application Specific",
        0xFF => "Vendor Specific",
        _ => "Unknown",
    }
}

} // verus!
