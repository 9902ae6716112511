//! OS compatibility checker: maps the host platform tag to a display name
//! and decides whether monitoring may proceed.
use vstd::prelude::*;
use crate::textscan::str_eq;

verus! {

/// Holds iff the platform tag names a host this monitor supports.
pub open spec fn spec_os_supported(raw_os: Seq<char>) -> bool {
    raw_os == "linux"@ || raw_os == "macos"@
}

/// The display name of a host platform tag as the platform layer reports
/// it ("linux", "macos", ...).
pub open spec fn spec_os_label(raw_os: Seq<char>) -> Seq<char> {
    if raw_os == "linux"@ {
        "Linux"@
    } else if raw_os == "macos"@ {
        "macOS"@
    } else {
        "Unsupported OS"@
    }
}

/// The two supported platforms' display names differ.
pub proof fn lemma_os_labels_distinct()
    ensures
        "Linux"@ != "macOS"@,
{
    reveal_strlit("Linux");
    reveal_strlit("macOS");
    assert("Linux"@[0] == 'L');
    assert("macOS"@[0] == 'm');
}

/// Maps the host platform tag to the monitor's display name for it.
pub fn get_current_os(raw_os: &str) -> (r: &'static str)
    ensures
        r@ == spec_os_label(raw_os@),
{
    if str_eq(raw_os, "linux") {
        "Linux"
    } else if str_eq(raw_os, "macos") {
        "macOS"
    } else {
        "Unsupported OS"
    }
}

/// Decides whether the host is supported; the second component is the
/// display name the report lines carry.
pub fn check_os_compatibility(raw_os: &str) -> (r: (bool, &'static str))
    ensures
        r.0 == spec_os_supported(raw_os@),
        r.1@ == spec_os_label(raw_os@),
{
    if str_eq(raw_os, "linux") {
        (true, "Linux")
    } else if str_eq(raw_os, "macos") {
        (true, "macOS")
    } else {
        (false, "Unsupported OS")
    }
}

} // verus!
