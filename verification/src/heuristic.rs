//! Heuristic risk analyzer: scores a device's declared power draw against
//! its link speed and flags combinations associated with covert hardware.
use vstd::prelude::*;

verus! {

/// The implantable-hardware profile: anomalously low draw on a fast link,
/// or anomalously high (or exactly 100 mA) draw on a very slow link.
pub open spec fn spec_implantable_profile(power: u16, speed: u32) -> bool {
    (power < 10 && speed > 400) || (power > 481 && 10 < speed && speed < 25) || (power >= 200
        && speed < 2) || (power == 100 && speed < 2)
}

/// Scores a device's declared maximum power draw (mA) against its link
/// speed (Mbit/s) and reports the confidence that it is covert hardware.
pub fn def_analysis_voltage_and_speed(voltage: u16, speed: u32) -> (r: &'static str)
    ensures
        spec_implantable_profile(voltage, speed) ==> r@
            == "Detection of implantable devices: High confidence"@,
        !spec_implantable_profile(voltage, speed) ==> r@
            == "Detection of implantable devices: No confidence"@,
{
    if (voltage < 10 && speed > 400) || (voltage > 481 && speed > 10 && speed < 25) || (voltage
        >= 200 && speed < 2) || (voltage == 100 && speed < 2) {
        "Detection of implantable devices: High confidence"
    } else {
        "Detection of implantable devices: No confidence"
    }
}

} // verus!
