//! Console reporter: builds every line the monitor prints, so that the
//! shell around the library only writes lines out. Number formatting
//! (zero-padded decimal and hexadecimal) is spelled out here rather than
//! taken from a formatter, so each line's exact text is stated.
use vstd::prelude::*;
use crate::class_name::{get_class_name, spec_class_name};
use crate::device::UsbDeviceInfo;
use crate::os_check::{check_os_compatibility, get_current_os, spec_os_label};
use crate::scanner::{views_of_records, views_of_strings};

verus! {

/// The sixteen digit characters.
pub open spec fn spec_digit(d: int) -> char {
    if d == 0 {
        '0'
    } else if d == 1 {
        '1'
    } else if d == 2 {
        '2'
    } else if d == 3 {
        '3'
    } else if d == 4 {
        '4'
    } else if d == 5 {
        '5'
    } else if d == 6 {
        '6'
    } else if d == 7 {
        '7'
    } else if d == 8 {
        '8'
    } else if d == 9 {
        '9'
    } else if d == 10 {
        'a'
    } else if d == 11 {
        'b'
    } else if d == 12 {
        'c'
    } else if d == 13 {
        'd'
    } else if d == 14 {
        'e'
    } else {
        'f'
    }
}

/// One digit as a string slice.
fn digit_str(d: usize) -> (r: &'static str)
    requires
        d < 16,
    ensures
        r@ == seq![spec_digit(d as int)],
{
    let s = "0123456789abcdef";
    proof {
        reveal_strlit("0123456789abcdef");
        assert(s.is_ascii());
    }
    let r = s.substring_ascii(d, d + 1);
    proof {
        assert(r@ =~= seq![spec_digit(d as int)]);
    }
    r
}

/// A byte as three zero-padded decimal digits.
pub open spec fn spec_dec3(v: u8) -> Seq<char> {
    seq![
        spec_digit(v as int / 100),
        spec_digit((v as int / 10) % 10),
        spec_digit(v as int % 10),
    ]
}

/// Formats a byte as three zero-padded decimal digits.
pub fn dec3(v: u8) -> (r: String)
    ensures
        r@ == spec_dec3(v),
{
    let mut r = String::from_str(digit_str((v / 100) as usize));
    r.append(digit_str(((v / 10) % 10) as usize));
    r.append(digit_str((v % 10) as usize));
    proof {
        assert(r@ =~= spec_dec3(v));
    }
    r
}

/// A 16-bit value as four hexadecimal digits.
pub open spec fn spec_hex4(v: u16) -> Seq<char> {
    seq![
        spec_digit(v as int / 4096),
        spec_digit((v as int / 256) % 16),
        spec_digit((v as int / 16) % 16),
        spec_digit(v as int % 16),
    ]
}

/// Formats a 16-bit value as four hexadecimal digits.
pub fn hex4(v: u16) -> (r: String)
    ensures
        r@ == spec_hex4(v),
{
    let mut r = String::from_str(digit_str((v / 4096) as usize));
    r.append(digit_str(((v / 256) % 16) as usize));
    r.append(digit_str(((v / 16) % 16) as usize));
    r.append(digit_str((v % 16) as usize));
    proof {
        assert(r@ =~= spec_hex4(v));
    }
    r
}

/// A byte as two hexadecimal digits.
pub open spec fn spec_hex2(v: u8) -> Seq<char> {
    seq![spec_digit(v as int / 16), spec_digit(v as int % 16)]
}

/// Formats a byte as two hexadecimal digits.
pub fn hex2(v: u8) -> (r: String)
    ensures
        r@ == spec_hex2(v),
{
    let mut r = String::from_str(digit_str((v / 16) as usize));
    r.append(digit_str((v % 16) as usize));
    proof {
        assert(r@ =~= spec_hex2(v));
    }
    r
}

/// A non-negative number in plain decimal.
pub open spec fn spec_udec(n: int) -> Seq<char>
    decreases n,
{
    if n < 10 {
        seq![spec_digit(n)]
    } else {
        spec_udec(n / 10).push(spec_digit(n % 10))
    }
}

/// Formats a 32-bit value in plain decimal.
pub fn udec32(v: u32) -> (r: String)
    ensures
        r@ == spec_udec(v as int),
    decreases v,
{
    if v < 10 {
        String::from_str(digit_str(v as usize))
    } else {
        let mut r = udec32(v / 10);
        r.append(digit_str((v % 10) as usize));
        proof {
            assert(r@ =~= spec_udec(v as int));
        }
        r
    }
}

/// Formats a 16-bit value in plain decimal.
pub fn udec16(v: u16) -> (r: String)
    ensures
        r@ == spec_udec(v as int),
{
    udec32(v as u32)
}

/// Formats a byte in plain decimal.
pub fn udec8(v: u8) -> (r: String)
    ensures
        r@ == spec_udec(v as int),
{
    udec32(v as u32)
}

/// The banner the monitor prints at startup.
pub open spec fn spec_startup_banner() -> Seq<Seq<char>> {
    seq![
        "━━━━━━━━━━━━━━━━━━━━━━━━━━━━━━━━━━━━━━━━━━━━━━"@,
        "📱 USB Device Monitor Started"@,
        "━━━━━━━━━━━━━━━━━━━━━━━━━━━━━━━━━━━━━━━━━━━━━━"@,
    ]
}

/// Builds the startup banner lines.
pub fn startup_banner_lines() -> (r: Vec<String>)
    ensures
        views_of_strings(r@) == spec_startup_banner(),
{
    let mut r: Vec<String> = Vec::new();
    r.push(String::from_str("━━━━━━━━━━━━━━━━━━━━━━━━━━━━━━━━━━━━━━━━━━━━━━"));
    r.push(String::from_str("📱 USB Device Monitor Started"));
    r.push(String::from_str("━━━━━━━━━━━━━━━━━━━━━━━━━━━━━━━━━━━━━━━━━━━━━━"));
    proof {
        assert(views_of_strings(r@) =~= spec_startup_banner());
    }
    r
}

/// The lines the platform check prints: the detected platform, then the
/// confirmation or the warning that belongs to it.
pub open spec fn spec_os_report(raw_os: Seq<char>) -> Seq<Seq<char>> {
    seq!["🖥️ Detected operating system: "@ + spec_os_label(raw_os)] + (if raw_os == "linux"@ {
        seq!["✅ Running on Linux - full functionality available"@]
    } else if raw_os == "macos"@ {
        seq![
            "✅ Running on macOS - full functionality available"@,
            "ℹ️ Note: USB device access on macOS may require additional permissions"@,
        ]
    } else {
        seq![
            "❌ Unsupported operating system"@,
            "ℹ️ This application is designed to run on Linux and macOS only"@,
        ]
    })
}

/// Builds the platform-check report lines for the host platform tag.
pub fn os_report_lines(raw_os: &str) -> (r: Vec<String>)
    ensures
        views_of_strings(r@) == spec_os_report(raw_os@),
{
    let mut r: Vec<String> = Vec::new();
    let mut head = String::from_str("🖥️ Detected operating system: ");
    head.append(get_current_os(raw_os));
    r.push(head);
    proof {
        crate::os_check::lemma_os_labels_distinct();
    }
    let (supported, label) = check_os_compatibility(raw_os);
    if supported {
        if crate::textscan::str_eq(label, "Linux") {
            r.push(String::from_str("✅ Running on Linux - full functionality available"));
        } else {
            r.push(String::from_str("✅ Running on macOS - full functionality available"));
            r.push(
                String::from_str(
                    "ℹ️ Note: USB device access on macOS may require additional permissions",
                ),
            );
        }
    } else {
        r.push(String::from_str("❌ Unsupported operating system"));
        r.push(
            String::from_str("ℹ️ This application is designed to run on Linux and macOS only"),
        );
    }
    proof {
        assert(views_of_strings(r@) =~= spec_os_report(raw_os@));
    }
    r
}

/// Each finding line, indented for the warnings list.
pub open spec fn spec_indent_flags(flags: Seq<Seq<char>>) -> Seq<Seq<char>> {
    flags.map_values(|f: Seq<char>| "  "@ + f)
}

/// Each extracted record as a bullet line of the diagnostics block.
pub open spec fn spec_record_lines(records: Seq<(Seq<char>, Seq<char>)>) -> Seq<Seq<char>> {
    records.map_values(|r: (Seq<char>, Seq<char>)| "  • "@ + r.0 + ": "@ + r.1)
}

/// The diagnostic lines the kernel-log check prints beside its result:
/// a blank line and the extracted-information heading with one bullet
/// per record, or — when findings exist without any record — a blank
/// line, the suspicious-activity heading, and the indented findings;
/// nothing when there is neither.
pub open spec fn spec_kernel_diagnostics(
    records: Seq<(Seq<char>, Seq<char>)>,
    findings: Seq<Seq<char>>,
) -> Seq<Seq<char>> {
    if records.len() > 0 {
        seq![Seq::<char>::empty(), "📝 Extracted device information from kernel logs:"@]
            + spec_record_lines(records)
    } else if findings.len() > 0 {
        seq![Seq::<char>::empty(), "🚨 SUSPICIOUS ACTIVITY DETECTED IN LOGS:"@]
            + spec_indent_flags(findings)
    } else {
        Seq::empty()
    }
}

/// Builds the kernel-log check's diagnostic lines.
pub fn kernel_diagnostic_lines(records: &Vec<(String, String)>, findings: &Vec<String>) -> (r:
    Vec<String>)
    ensures
        views_of_strings(r@) == spec_kernel_diagnostics(
            views_of_records(records@),
            views_of_strings(findings@),
        ),
{
    let mut r: Vec<String> = Vec::new();
    if records.len() > 0 {
        r.push(String::new());
        r.push(String::from_str("📝 Extracted device information from kernel logs:"));
        let ghost recv = views_of_records(records@);
        let ghost head = views_of_strings(r@);
        proof {
            assert(head =~= seq![
                Seq::<char>::empty(),
                "📝 Extracted device information from kernel logs:"@,
            ]);
        }
        let n = records.len();
        let mut i: usize = 0;
        while i < n
            invariant
                i <= n,
                n == records@.len(),
                recv == views_of_records(records@),
                head == seq![
                    Seq::<char>::empty(),
                    "📝 Extracted device information from kernel logs:"@,
                ],
                views_of_strings(r@).len() == 2 + i,
                views_of_strings(r@).subrange(0, 2) == head,
                forall|q: int|
                    0 <= q < i ==> views_of_strings(r@)[2 + q] == "  • "@ + recv[q].0 + ": "@
                        + recv[q].1,
            decreases n - i,
        {
            let ghost rv0 = views_of_strings(r@);
            let mut line = String::from_str("  • ");
            line.append(records[i].0.as_str());
            line.append(": ");
            line.append(records[i].1.as_str());
            proof {
                assert(recv[i as int] == (records@[i as int].0@, records@[i as int].1@));
                assert(line@ == "  • "@ + recv[i as int].0 + ": "@ + recv[i as int].1);
            }
            r.push(line);
            proof {
                assert forall|q: int| 0 <= q < rv0.len() implies views_of_strings(r@)[q]
                    == rv0[q] by {}
                assert(views_of_strings(r@).subrange(0, 2) =~= rv0.subrange(0, 2));
            }
            i += 1;
        }
        proof {
            let rv = views_of_strings(r@);
            let goal = head + spec_record_lines(recv);
            assert(spec_record_lines(recv).len() == recv.len());
            assert forall|q: int| 0 <= q < rv.len() implies rv[q] == goal[q] by {
                if q < 2 {
                    assert(rv.subrange(0, 2)[q] == rv[q]);
                } else {
                    assert(rv[q] == "  • "@ + recv[q - 2].0 + ": "@ + recv[q - 2].1);
                    assert(spec_record_lines(recv)[q - 2] == "  • "@ + recv[q - 2].0 + ": "@
                        + recv[q - 2].1);
                }
            }
            assert(rv =~= goal);
        }
    } else if findings.len() > 0 {
        r.push(String::new());
        r.push(String::from_str("🚨 SUSPICIOUS ACTIVITY DETECTED IN LOGS:"));
        let ghost fv = views_of_strings(findings@);
        let ghost head = views_of_strings(r@);
        proof {
            assert(head =~= seq![
                Seq::<char>::empty(),
                "🚨 SUSPICIOUS ACTIVITY DETECTED IN LOGS:"@,
            ]);
        }
        let n = findings.len();
        let mut i: usize = 0;
        while i < n
            invariant
                i <= n,
                n == findings@.len(),
                fv == views_of_strings(findings@),
                head == seq![
                    Seq::<char>::empty(),
                    "🚨 SUSPICIOUS ACTIVITY DETECTED IN LOGS:"@,
                ],
                views_of_strings(r@).len() == 2 + i,
                views_of_strings(r@).subrange(0, 2) == head,
                forall|q: int| 0 <= q < i ==> views_of_strings(r@)[2 + q] == "  "@ + fv[q],
            decreases n - i,
        {
            let ghost rv0 = views_of_strings(r@);
            let mut line = String::from_str("  ");
            line.append(findings[i].as_str());
            proof {
                assert(fv[i as int] == findings@[i as int]@);
            }
            r.push(line);
            proof {
                assert forall|q: int| 0 <= q < rv0.len() implies views_of_strings(r@)[q]
                    == rv0[q] by {}
                assert(views_of_strings(r@).subrange(0, 2) =~= rv0.subrange(0, 2));
            }
            i += 1;
        }
        proof {
            let rv = views_of_strings(r@);
            let goal = head + spec_indent_flags(fv);
            assert(spec_indent_flags(fv).len() == fv.len());
            assert forall|q: int| 0 <= q < rv.len() implies rv[q] == goal[q] by {
                if q < 2 {
                    assert(rv.subrange(0, 2)[q] == rv[q]);
                } else {
                    assert(rv[q] == "  "@ + fv[q - 2]);
                    assert(spec_indent_flags(fv)[q - 2] == "  "@ + fv[q - 2]);
                }
            }
            assert(rv =~= goal);
        }
    } else {
        proof {
            assert(views_of_strings(r@) =~= spec_kernel_diagnostics(
                views_of_records(records@),
                views_of_strings(findings@),
            ));
        }
    }
    r
}

/// The report block one newly connected device earns: its location,
/// identifiers, the string fields it declared, class codes, power and
/// speed, then the detection result, the kernel-log status, and the
/// suspicious findings, if any.
pub open spec fn spec_device_report(
    bus: u8,
    address: u8,
    info: UsbDeviceInfo,
    detection: Seq<char>,
    kernel_message: Seq<char>,
    flags: Seq<Seq<char>>,
) -> Seq<Seq<char>> {
    seq![
        "━━━━━━━━━━━━━━━━━━━━━━━━━━━━━━━━━━━━━━━━━━━━━━"@,
        "📌 New USB device connected:"@,
        "━━━━━━━━━━━━━━━━━━━━━━━━━━━━━━━━━━━━━━━━━━━━━━"@,
        "  📍 Location:       Bus "@ + spec_dec3(bus) + " Device "@ + spec_dec3(address),
        "  🆔 Device ID:      "@ + spec_hex4(info.vendor_id) + ":"@ + spec_hex4(info.product_id),
    ] + (if info.manufacturer@.len() > 0 {
        seq!["  🏭 Manufacturer:   "@ + info.manufacturer@]
    } else {
        Seq::empty()
    }) + (if info.product_name@.len() > 0 {
        seq!["  📦 Product:        "@ + info.product_name@]
    } else {
        Seq::empty()
    }) + (if info.serial_number@.len() > 0 {
        seq!["  🔢 Serial Number:  "@ + info.serial_number@]
    } else {
        Seq::empty()
    }) + seq![
        "  📑 Device Class:   0x"@ + spec_hex2(info.device_class) + " ("@ + spec_class_name(
            info.device_class,
        ) + ")"@,
        "  📄 SubClass:       0x"@ + spec_hex2(info.device_subclass),
        "  📃 Protocol:       0x"@ + spec_hex2(info.device_protocol),
        "  🔌 Configurations: "@ + spec_udec(info.num_configurations as int),
        "  ⚡ Max Power:      "@ + spec_udec(info.max_power_ma as int) + " mA"@,
        "  🚀 Speed:          "@ + spec_udec(info.speed as int) + " Mbit/s"@,
        "━━━━━━━━━━━━━━━━━━━━━━━━━━━━━━━━━━━━━━━━━━━━━━"@,
        "Detection Result:"@,
        "Voltage and Speed Detection:  "@ + detection,
        "Kernel Log Check:            "@ + kernel_message,
    ] + (if flags.len() > 0 {
        seq!["⚠️ WARNINGS:"@] + spec_indent_flags(flags)
    } else {
        Seq::empty()
    })
}

/// Builds the report block for one newly connected device.
pub fn device_report_lines(
    bus: u8,
    address: u8,
    info: &UsbDeviceInfo,
    detection: &str,
    kernel_message: &str,
    flags: &Vec<String>,
) -> (r: Vec<String>)
    ensures
        views_of_strings(r@) == spec_device_report(
            bus,
            address,
            *info,
            detection@,
            kernel_message@,
            views_of_strings(flags@),
        ),
{
    let mut r: Vec<String> = Vec::new();
    r.push(String::from_str("━━━━━━━━━━━━━━━━━━━━━━━━━━━━━━━━━━━━━━━━━━━━━━"));
    r.push(String::from_str("📌 New USB device connected:"));
    r.push(String::from_str("━━━━━━━━━━━━━━━━━━━━━━━━━━━━━━━━━━━━━━━━━━━━━━"));
    let mut line = String::from_str("  📍 Location:       Bus ");
    line.append(dec3(bus).as_str());
    line.append(" Device ");
    line.append(dec3(address).as_str());
    r.push(line);
    let mut line = String::from_str("  🆔 Device ID:      ");
    line.append(hex4(info.vendor_id).as_str());
    line.append(":");
    line.append(hex4(info.product_id).as_str());
    r.push(line);
    let ghost head = views_of_strings(r@);
    if !info.manufacturer.as_str().is_empty() {
        let mut line = String::from_str("  🏭 Manufacturer:   ");
        line.append(info.manufacturer.as_str());
        r.push(line);
    }
    proof {
        assert(views_of_strings(r@) =~= head + (if (*info).manufacturer@.len() > 0 {
            seq!["  🏭 Manufacturer:   "@ + (*info).manufacturer@]
        } else {
            Seq::<Seq<char>>::empty()
        }));
    }
    let ghost with_m = views_of_strings(r@);
    if !info.product_name.as_str().is_empty() {
        let mut line = String::from_str("  📦 Product:        ");
        line.append(info.product_name.as_str());
        r.push(line);
    }
    proof {
        assert(views_of_strings(r@) =~= with_m + (if (*info).product_name@.len() > 0 {
            seq!["  📦 Product:        "@ + (*info).product_name@]
        } else {
            Seq::<Seq<char>>::empty()
        }));
    }
    let ghost with_p = views_of_strings(r@);
    if !info.serial_number.as_str().is_empty() {
        let mut line = String::from_str("  🔢 Serial Number:  ");
        line.append(info.serial_number.as_str());
        r.push(line);
    }
    proof {
        assert(views_of_strings(r@) =~= with_p + (if (*info).serial_number@.len() > 0 {
            seq!["  🔢 Serial Number:  "@ + (*info).serial_number@]
        } else {
            Seq::<Seq<char>>::empty()
        }));
    }
    let mut line = String::from_str("  📑 Device Class:   0x");
    line.append(hex2(info.device_class).as_str());
    line.append(" (");
    line.append(get_class_name(info.device_class));
    line.append(")");
    r.push(line);
    let mut line = String::from_str("  📄 SubClass:       0x");
    line.append(hex2(info.device_subclass).as_str());
    r.push(line);
    let mut line = String::from_str("  📃 Protocol:       0x");
    line.append(hex2(info.device_protocol).as_str());
    r.push(line);
    let mut line = String::from_str("  🔌 Configurations: ");
    line.append(udec8(info.num_configurations).as_str());
    r.push(line);
    let mut line = String::from_str("  ⚡ Max Power:      ");
    line.append(udec16(info.max_power_ma).as_str());
    line.append(" mA");
    r.push(line);
    let mut line = String::from_str("  🚀 Speed:          ");
    line.append(udec32(info.speed).as_str());
    line.append(" Mbit/s");
    r.push(line);
    r.push(String::from_str("━━━━━━━━━━━━━━━━━━━━━━━━━━━━━━━━━━━━━━━━━━━━━━"));
    r.push(String::from_str("Detection Result:"));
    let mut line = String::from_str("Voltage and Speed Detection:  ");
    line.append(detection);
    r.push(line);
    let mut line = String::from_str("Kernel Log Check:            ");
    line.append(kernel_message);
    r.push(line);
    let ghost before_flags = views_of_strings(r@);
    if flags.len() > 0 {
        r.push(String::from_str("⚠️ WARNINGS:"));
        let ghost fv = views_of_strings(flags@);
        let ghost b = before_flags.len() as int;
        proof {
            assert(views_of_strings(r@) =~= before_flags.push("⚠️ WARNINGS:"@));
        }
        let n = flags.len();
        let mut i: usize = 0;
        while i < n
            invariant
                i <= n,
                n == flags@.len(),
                fv == views_of_strings(flags@),
                b == before_flags.len() as int,
                views_of_strings(r@).len() == b + 1 + i,
                views_of_strings(r@).subrange(0, b + 1) == before_flags.push("⚠️ WARNINGS:"@),
                forall|q: int|
                    0 <= q < i ==> views_of_strings(r@)[b + 1 + q] == "  "@ + fv[q],
            decreases n - i,
        {
            let ghost rv0 = views_of_strings(r@);
            let mut line = String::from_str("  ");
            line.append(flags[i].as_str());
            proof {
                assert(fv[i as int] == flags@[i as int]@);
            }
            r.push(line);
            proof {
                assert forall|q: int| 0 <= q < rv0.len() implies views_of_strings(r@)[q]
                    == rv0[q] by {}
                assert(views_of_strings(r@)[b + 1 + i] == "  "@ + fv[i as int]);
                assert(views_of_strings(r@).subrange(0, b + 1) =~= rv0.subrange(0, b + 1));
            }
            i += 1;
        }
        proof {
            let rv = views_of_strings(r@);
            let goal = before_flags + seq!["⚠️ WARNINGS:"@] + spec_indent_flags(fv);
            assert(spec_indent_flags(fv).len() == fv.len());
            assert forall|q: int| 0 <= q < rv.len() implies rv[q] == goal[q] by {
                if q < b + 1 {
                    assert(rv.subrange(0, b + 1)[q] == rv[q]);
                    assert(before_flags.push("⚠️ WARNINGS:"@)[q] == goal[q]);
                } else {
                    assert(rv[q] == "  "@ + fv[q - b - 1]);
                    assert(goal[q] == spec_indent_flags(fv)[q - b - 1]);
                    assert(spec_indent_flags(fv)[q - b - 1] == "  "@ + fv[q - b - 1]);
                }
            }
            assert(rv =~= goal);
        }
    }
    proof {
        assert(views_of_strings(r@) =~= spec_device_report(
            bus,
            address,
            *info,
            detection@,
            kernel_message@,
            views_of_strings(flags@),
        ));
    }
    r
}

} // verus!
