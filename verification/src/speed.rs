//! Link-speed model: the library's own enumeration of the standardized USB
//! speed tiers, and the fixed mapping from a tier to Mbit/s.
use vstd::prelude::*;

verus! {

/// The standardized USB link-speed tiers. `Unknown` stands for a tier the
/// host could not determine, and for any tier outside the known set.
#[derive(Clone, Copy, Debug, PartialEq, Eq)]
pub enum SpeedClass {
    Unknown,
    Low,
    Full,
    High,
    Super,
    SuperPlus,
}

/// The fixed tier-to-Mbit/s table; an unrecognized tier maps to 0.
pub open spec fn spec_speed_mbps(class: SpeedClass) -> u32 {
    match class {
        SpeedClass::Low => 1,
        SpeedClass::Full => 12,
        SpeedClass::High => 480,
        SpeedClass::Super => 5000,
        SpeedClass::SuperPlus => 10000,
        SpeedClass::Unknown => 0,
    }
}

/// Holds iff `speed` is a value the tier table can produce.
pub open spec fn spec_speed_in_table(speed: u32) -> bool {
    speed == 0 || speed == 1 || speed == 12 || speed == 480 || speed == 5000 || speed == 10000
}

/// Maps a link-speed tier to its approximate rate in Mbit/s.
pub fn speed_to_mbps(class: SpeedClass) -> (r: u32)
    ensures
        r == spec_speed_mbps(class),
        spec_speed_in_table(r),
{
    match class {
        SpeedClass::Low => 1,
        SpeedClass::Full => 12,
        SpeedClass::High => 480,
        SpeedClass::Super => 5000,
        SpeedClass::SuperPlus => 10000,
        SpeedClass::Unknown => 0,
    }
}

} // verus!
