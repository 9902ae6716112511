use usb_monitor::class_name::get_class_name;
use usb_monitor::device::UsbDeviceInfo;
use usb_monitor::heuristic::def_analysis_voltage_and_speed;
use usb_monitor::os_check::{check_os_compatibility, get_current_os};
use usb_monitor::report::{
    dec3, device_report_lines, hex2, hex4, kernel_diagnostic_lines, os_report_lines,
    startup_banner_lines, udec16, udec32, udec8,
};
use usb_monitor::scanner::{def_check_kernel_logs, scan_log_text};
use usb_monitor::snapshot::{advance_cycle, new_device_keys, Snapshot};
use usb_monitor::speed::{speed_to_mbps, SpeedClass};
use usb_monitor::textscan::{split_lines, str_eq, str_has, str_has_ci, str_split_prefix};

fn make_info(max_power_ma: u16, speed: u32) -> UsbDeviceInfo {
    UsbDeviceInfo {
        vendor_id: 0x1d6b,
        product_id: 0x0002,
        manufacturer: String::new(),
        product_name: String::new(),
        serial_number: String::new(),
        max_power_ma,
        speed,
        device_class: 0x09,
        device_subclass: 0x00,
        device_protocol: 0x01,
        num_configurations: 1,
    }
}

#[test]
fn class_names_of_the_known_set() {
    assert_eq!(get_class_name(0x00), "Interface Defined");
    assert_eq!(get_class_name(0x01), "Audio");
    assert_eq!(get_class_name(0x02), "Communications and CDC Control");
    assert_eq!(get_class_name(0x03), "HID (Human Interface Device)");
    assert_eq!(get_class_name(0x05), "Physical");
    assert_eq!(get_class_name(0x06), "Image");
    assert_eq!(get_class_name(0x07), "Printer");
    assert_eq!(get_class_name(0x08), "Mass Storage");
    assert_eq!(get_class_name(0x09), "Hub");
    assert_eq!(get_class_name(0x0A), "CDC-Data");
    assert_eq!(get_class_name(0x0B), "Smart Card");
    assert_eq!(get_class_name(0x0D), "Content Security");
    assert_eq!(get_class_name(0x0E), "Video");
    assert_eq!(get_class_name(0x0F), "Personal Healthcare");
    assert_eq!(get_class_name(0x10), "Audio/Video Devices");
    assert_eq!(get_class_name(0x11), "Billboard Device");
    assert_eq!(get_class_name(0xDC), "Diagnostic Device");
    assert_eq!(get_class_name(0xE0), "Wireless Controller");
    assert_eq!(get_class_name(0xEF), "Miscellaneous");
    assert_eq!(get_class_name(0xFE), "Application Specific");
    assert_eq!(get_class_name(0xFF), "Vendor Specific");
}

#[test]
fn class_names_outside_the_set_are_unknown() {
    assert_eq!(get_class_name(0x04), "Unknown");
    assert_eq!(get_class_name(0x12), "Unknown");
    assert_eq!(get_class_name(0xC0), "Unknown");
}

#[test]
fn heuristic_flags_low_power_fast_link() {
    assert_eq!(
        def_analysis_voltage_and_speed(5, 500),
        "Detection of implantable devices: High confidence"
    );
}

#[test]
fn heuristic_passes_ordinary_device() {
    assert_eq!(
        def_analysis_voltage_and_speed(50, 50),
        "Detection of implantable devices: No confidence"
    );
}

#[test]
fn heuristic_flags_high_power_slow_link() {
    assert_eq!(
        def_analysis_voltage_and_speed(482, 15),
        "Detection of implantable devices: High confidence"
    );
}

#[test]
fn heuristic_flags_two_hundred_milliamps_at_crawl() {
    assert_eq!(
        def_analysis_voltage_and_speed(200, 1),
        "Detection of implantable devices: High confidence"
    );
}

#[test]
fn heuristic_flags_exactly_hundred_milliamps_at_crawl() {
    assert_eq!(
        def_analysis_voltage_and_speed(100, 1),
        "Detection of implantable devices: High confidence"
    );
}

#[test]
fn heuristic_passes_hundred_milliamps_at_speed() {
    assert_eq!(
        def_analysis_voltage_and_speed(100, 100),
        "Detection of implantable devices: No confidence"
    );
}

#[test]
fn speed_tiers_map_to_their_rates() {
    assert_eq!(speed_to_mbps(SpeedClass::Low), 1);
    assert_eq!(speed_to_mbps(SpeedClass::Full), 12);
    assert_eq!(speed_to_mbps(SpeedClass::High), 480);
    assert_eq!(speed_to_mbps(SpeedClass::Super), 5000);
    assert_eq!(speed_to_mbps(SpeedClass::SuperPlus), 10000);
    assert_eq!(speed_to_mbps(SpeedClass::Unknown), 0);
}

#[test]
fn os_names_resolve() {
    assert_eq!(get_current_os("linux"), "Linux");
    assert_eq!(get_current_os("macos"), "macOS");
    assert_eq!(get_current_os("windows"), "Unsupported OS");
}

#[test]
fn os_compatibility_gates_unrecognized_platforms() {
    assert_eq!(check_os_compatibility("linux"), (true, "Linux"));
    assert_eq!(check_os_compatibility("macos"), (true, "macOS"));
    assert_eq!(check_os_compatibility("freebsd"), (false, "Unsupported OS"));
}

#[test]
fn snapshot_stores_and_finds_devices() {
    let mut snap = Snapshot::new();
    assert!(!snap.contains_key(1, 2));
    snap.insert(1, 2, make_info(100, 480));
    assert!(snap.contains_key(1, 2));
    let info = snap.get(1, 2).unwrap();
    assert_eq!(info.max_power_ma, 100);
    assert_eq!(info.speed, 480);
    assert!(snap.get(1, 3).is_none());
}

#[test]
fn diff_reports_only_the_new_key() {
    let mut previous = Snapshot::new();
    previous.insert(1, 2, make_info(100, 480));
    let mut current = Snapshot::new();
    current.insert(1, 2, make_info(100, 480));
    current.insert(1, 3, make_info(50, 12));
    let new_keys = new_device_keys(&previous, &current);
    assert_eq!(new_keys, vec![(1, 3)]);
    let previous = current;
    assert!(previous.contains_key(1, 3));
    assert_eq!(previous.get(1, 3).unwrap().max_power_ma, 50);
}

#[test]
fn cycle_replaces_the_stored_snapshot_wholesale() {
    let mut previous = Snapshot::new();
    previous.insert(1, 2, make_info(100, 480));
    let mut current = Snapshot::new();
    current.insert(1, 2, make_info(100, 480));
    current.insert(1, 3, make_info(50, 12));
    let (new_keys, stored) = advance_cycle(&previous, current);
    assert_eq!(new_keys, vec![(1, 3)]);
    assert!(stored.contains_key(1, 2));
    assert!(stored.contains_key(1, 3));
    let mut emptied = Snapshot::new();
    emptied.insert(9, 9, make_info(1, 1));
    let (none_new, stored) = advance_cycle(&emptied, Snapshot::new());
    assert!(none_new.is_empty());
    assert!(!stored.contains_key(9, 9));
}

#[test]
fn diff_never_reports_disconnections() {
    let mut previous = Snapshot::new();
    previous.insert(1, 2, make_info(100, 480));
    let current = Snapshot::new();
    let new_keys = new_device_keys(&previous, &current);
    assert_eq!(new_keys.len(), 0);
    let previous = current;
    assert!(!previous.contains_key(1, 2));
}

#[test]
fn scanner_flags_null_strings_line_in_any_case() {
    let log = "usb 3-2: new high-speed USB device number 4 using xhci_hcd\n\
               usb 3-2: device strings: MFR=0, PRODUCT=0, SerialNumber=0\n";
    let (status, findings, _records) = scan_log_text(log);
    assert_eq!(status, "Suspicious USB activity detected in kernel logs!");
    assert_eq!(
        findings,
        vec![
            "⚠️ Suspicious keyword 'Mfr=0, Product=0' found in raw log: \
             usb 3-2: device strings: MFR=0, PRODUCT=0, SerialNumber=0"
                .to_string()
        ]
    );
}

#[test]
fn scanner_reports_empty_log() {
    let (status, findings, records) = scan_log_text("");
    assert_eq!(status, "No USB events found in recent kernel logs");
    assert!(findings.is_empty());
    assert!(records.is_empty());
}

#[test]
fn scanner_accepts_clean_device_records() {
    let log = "usb 1-1: new full-speed USB device number 2 using ehci-pci\n\
               usb 1-1: idVendor=1d6b, idProduct=0002\n";
    let (status, findings, records) = scan_log_text(log);
    assert_eq!(status, "No suspicious signs of usb");
    assert!(findings.is_empty());
    assert_eq!(
        records,
        vec![(
            "usb 1-1_ids".to_string(),
            "usb 1-1: idVendor=1d6b, idProduct=0002".to_string()
        )]
    );
}

#[test]
fn scanner_flags_suspicious_device_records() {
    let log = "usb 1-1: new full-speed USB device number 2 using ehci-pci\n\
               usb 1-1: idVendor=1d6b, idProduct=0002 after device reset occurred\n";
    let (status, findings, _records) = scan_log_text(log);
    assert_eq!(status, "Suspicious USB device detected in kernel logs!");
    assert_eq!(findings.len(), 2);
    assert_eq!(
        findings[0],
        "⚠️ Suspicious keyword 'device reset occurred' found in raw log: \
         usb 1-1: idVendor=1d6b, idProduct=0002 after device reset occurred"
    );
    assert_eq!(
        findings[1],
        "⚠️ Suspicious keyword 'device reset occurred' found in: \
         usb 1-1: idVendor=1d6b, idProduct=0002 after device reset occurred"
    );
}

#[test]
fn scanner_classifies_eventless_text() {
    let (status, findings, records) = scan_log_text("nothing interesting here\n");
    assert_eq!(status, "USB events detected but no device information extracted");
    assert!(findings.is_empty());
    assert!(records.is_empty());
}

#[test]
fn scanner_collects_named_string_records() {
    let log = "usb 2-1: new high-speed USB device number 3 using xhci_hcd\n\
               usb 2-1: Manufacturer: Example Corp\n\
               usb 2-1: Product: Widget\n\
               usb 2-1: SerialNumber: 0123\n";
    let (status, _findings, records) = scan_log_text(log);
    assert_eq!(status, "No suspicious signs of usb");
    assert_eq!(records.len(), 3);
    assert_eq!(records[0].0, "usb 2-1_manufacturer");
    assert_eq!(records[1].0, "usb 2-1_product");
    assert_eq!(records[2].0, "usb 2-1_serial");
    assert_eq!(records[1].1, "usb 2-1: Product: Widget");
}

#[test]
fn scanner_keeps_the_last_record_under_a_key() {
    let log = "usb 2-1: new high-speed USB device number 3 using xhci_hcd\n\
               usb 2-1: idVendor=1111, idProduct=2222\n\
               usb 2-1: idVendor=3333, idProduct=4444\n";
    let (_status, _findings, records) = scan_log_text(log);
    assert_eq!(records.len(), 1);
    assert_eq!(records[0].1, "usb 2-1: idVendor=3333, idProduct=4444");
}

#[test]
fn scanner_raw_scan_stops_after_forty_lines() {
    let mut log = String::new();
    for _ in 0..40 {
        log.push_str("quiet line\n");
    }
    log.push_str("late line with sunxi_usb_udc\n");
    let (status, findings, records) = scan_log_text(&log);
    assert_eq!(status, "USB events detected but no device information extracted");
    assert!(findings.is_empty());
    assert!(records.is_empty());
}

#[test]
fn kernel_log_check_reports_command_failure() {
    let (status, findings) = def_check_kernel_logs("Linux", None);
    assert_eq!(status, "Failed to execute dmesg command");
    assert!(findings.is_empty());
}

#[test]
fn kernel_log_check_scans_captured_text_on_linux() {
    let (status, findings) =
        def_check_kernel_logs("Linux", Some("board boots with sunxi_usb_udc\n"));
    assert_eq!(status, "Suspicious USB activity detected in kernel logs!");
    assert_eq!(
        findings,
        vec![
            "⚠️ Suspicious keyword 'with sunxi_usb_udc' found in raw log: \
             board boots with sunxi_usb_udc"
                .to_string()
        ]
    );
}

#[test]
fn kernel_log_check_is_a_stub_on_macos() {
    let (status, findings) = def_check_kernel_logs("macOS", None);
    assert_eq!(status, "System logs checked for macOS");
    assert!(findings.is_empty());
}

#[test]
fn kernel_log_check_refuses_other_platforms() {
    let (status, findings) = def_check_kernel_logs("Unsupported OS", Some("text\n"));
    assert_eq!(status, "Unsupported OS for log checking");
    assert!(findings.is_empty());
}

#[test]
fn number_formats_match_the_report_style() {
    assert_eq!(dec3(7), "007");
    assert_eq!(dec3(255), "255");
    assert_eq!(hex4(0x1a2b), "1a2b");
    assert_eq!(hex4(0x0002), "0002");
    assert_eq!(hex2(0x09), "09");
    assert_eq!(hex2(0xef), "ef");
    assert_eq!(udec8(0), "0");
    assert_eq!(udec16(500), "500");
    assert_eq!(udec32(12345), "12345");
}

#[test]
fn startup_banner_has_three_lines() {
    let lines = startup_banner_lines();
    assert_eq!(lines.len(), 3);
    assert_eq!(lines[1], "📱 USB Device Monitor Started");
}

#[test]
fn os_report_lines_follow_the_platform() {
    let linux = os_report_lines("linux");
    assert_eq!(linux[0], "🖥️ Detected operating system: Linux");
    assert_eq!(linux[1], "✅ Running on Linux - full functionality available");
    let other = os_report_lines("windows");
    assert_eq!(other[0], "🖥️ Detected operating system: Unsupported OS");
    assert_eq!(other[1], "❌ Unsupported operating system");
    assert_eq!(
        other[2],
        "ℹ️ This application is designed to run on Linux and macOS only"
    );
}

#[test]
fn new_device_report_carries_high_confidence_detection() {
    let mut previous = Snapshot::new();
    previous.insert(2, 7, make_info(100, 12));
    let mut current = Snapshot::new();
    current.insert(2, 7, make_info(100, 12));
    current.insert(3, 4, make_info(5, 500));
    let new_keys = new_device_keys(&previous, &current);
    assert_eq!(new_keys, vec![(3, 4)]);
    let (bus, address) = new_keys[0];
    let info = current.get(bus, address).unwrap();
    let detection = def_analysis_voltage_and_speed(info.max_power_ma, info.speed);
    let (kernel_message, flags) = def_check_kernel_logs("Linux", Some(""));
    let lines = device_report_lines(bus, address, info, detection, kernel_message, &flags);
    assert!(lines.contains(
        &"Voltage and Speed Detection:  Detection of implantable devices: High confidence"
            .to_string()
    ));
    assert!(lines.contains(&"  📍 Location:       Bus 003 Device 004".to_string()));
    assert!(lines.contains(&"  🆔 Device ID:      1d6b:0002".to_string()));
    assert!(lines.contains(&"  📑 Device Class:   0x09 (Hub)".to_string()));
    assert!(lines.contains(&"  ⚡ Max Power:      5 mA".to_string()));
    assert!(lines.contains(&"  🚀 Speed:          500 Mbit/s".to_string()));
}

#[test]
fn report_includes_string_fields_only_when_present() {
    let mut info = make_info(100, 480);
    let lines = device_report_lines(1, 2, &info, "d", "k", &Vec::new());
    assert!(!lines.iter().any(|l| l.contains("Manufacturer")));
    info.manufacturer = "Example Corp".to_string();
    let lines = device_report_lines(1, 2, &info, "d", "k", &Vec::new());
    assert!(lines.contains(&"  🏭 Manufacturer:   Example Corp".to_string()));
}

#[test]
fn report_lists_warnings_when_present() {
    let info = make_info(100, 480);
    let flags = vec!["warning one".to_string(), "warning two".to_string()];
    let lines = device_report_lines(1, 2, &info, "d", "k", &flags);
    let at = lines.iter().position(|l| l == "⚠️ WARNINGS:").unwrap();
    assert_eq!(lines[at + 1], "  warning one");
    assert_eq!(lines[at + 2], "  warning two");
}

#[test]
fn diagnostics_list_extracted_records() {
    let records = vec![(
        "usb 1-1_ids".to_string(),
        "usb 1-1: idVendor=1d6b, idProduct=0002".to_string(),
    )];
    let lines = kernel_diagnostic_lines(&records, &Vec::new());
    assert_eq!(
        lines,
        vec![
            "".to_string(),
            "📝 Extracted device information from kernel logs:".to_string(),
            "  • usb 1-1_ids: usb 1-1: idVendor=1d6b, idProduct=0002".to_string(),
        ]
    );
}

#[test]
fn diagnostics_flag_recordless_suspicious_activity() {
    let findings = vec!["some warning".to_string()];
    let lines = kernel_diagnostic_lines(&Vec::new(), &findings);
    assert_eq!(
        lines,
        vec![
            "".to_string(),
            "🚨 SUSPICIOUS ACTIVITY DETECTED IN LOGS:".to_string(),
            "  some warning".to_string(),
        ]
    );
    assert!(kernel_diagnostic_lines(&Vec::new(), &Vec::new()).is_empty());
}

#[test]
fn text_utilities_match_std_behavior() {
    assert!(str_eq("abc", "abc"));
    assert!(!str_eq("abc", "abd"));
    assert!(str_has("kernel: usb device", "usb"));
    assert!(!str_has("kernel", "usb"));
    assert!(str_has_ci("MFR=0", "mfr=0"));
    assert!(!str_has_ci("MFR=1", "mfr=0"));
    assert_eq!(str_split_prefix("usb 1-1: rest", ": "), "usb 1-1");
    assert_eq!(str_split_prefix("no separator", ": "), "no separator");
    let lines = split_lines("a\r\nb\nc");
    assert_eq!(lines, vec!["a", "b", "c"]);
    assert_eq!(split_lines("a\n"), vec!["a"]);
    assert_eq!(split_lines("").len(), 0);
}
