//! Temperature-driven control of a PWM cooling fan.

use vstd::prelude::*;

pub mod checker;
pub mod config;
pub mod fan;
pub mod temp;
pub mod text;
pub mod thermal;
pub mod turn;

verus! {

/// Directory under which the kernel lists thermal zones and cooling devices.
pub const THERMAL_DIR: &'static str = "/sys/class/thermal";

/// Prefix of the directory entries that are thermal zones.
pub const THERMAL_ZONE_NAME: &'static str = "thermal_zone";

} // verus!
