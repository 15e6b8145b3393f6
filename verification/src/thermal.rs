//! What a look at the kernel's thermal directory yields, and the ways in
//! which a device can fail.

use vstd::prelude::*;
use crate::THERMAL_ZONE_NAME;
use crate::text::spelled_i64;
use crate::text::starts_with;
use crate::text::parse_i64;
use crate::text::trim;
use crate::text::trimmed_equals;

verus! {

/// One entry of the thermal directory as it was read: its name, its path and
/// the text of its attribute files. An attribute is `None` where the file
/// could not be read.
#[derive(Debug, PartialEq, Eq)]
pub struct ThermalEntry {
    /// File name of the entry.
    pub name: String,
    /// Full path of the entry.
    pub path: String,
    /// What the entry's `type` file holds.
    pub device_type: Option<String>,
    /// What the entry's `max_state` file holds.
    pub max_state: Option<String>,
    /// What the entry's `temp` file holds.
    pub temp: Option<String>,
}

/// Why a device could not be used. The controller gets over each of these by
/// looking for the device again on its next turn.
#[derive(Debug, Clone, Copy, PartialEq, Eq, Structural)]
pub enum DeviceError {
    /// No entry of the thermal directory is a device of the wanted kind.
    NotFound,
    /// The device's file could not be read or written.
    Unavailable,
    /// The device's file does not hold a number.
    Parse,
}

/// Prefix of the directory entries that are cooling devices.
pub const DEVICE_NAME_COOLING: &'static str = "cooling_device";

/// What the `type` file of a PWM fan holds.
pub const DEVICE_TYPE_PWM_FAN: &'static str = "pwm-fan";

impl ThermalEntry {
    /// Whether the entry is a PWM fan: a cooling device by its name, whose
    /// type reads `pwm-fan` once the white space around it is set aside.
    pub open spec fn is_fan(&self) -> bool {
        &&& DEVICE_NAME_COOLING@.is_prefix_of(self.name@)
        &&& self.device_type matches Some(text) && trim(text@) == DEVICE_TYPE_PWM_FAN@
    }

    /// Whether the entry is a usable sensor: a thermal zone by its name,
    /// whose temperature file holds a number.
    pub open spec fn is_sensor(&self) -> bool {
        &&& THERMAL_ZONE_NAME@.is_prefix_of(self.name@)
        &&& self.temp matches Some(text) && spelled_i64(text@) is Some
    }

    /// Decides [`ThermalEntry::is_fan`].
    pub fn looks_like_fan(&self) -> (yes: bool)
        ensures
            yes == self.is_fan(),
    {
        if !starts_with(self.name.as_str(), DEVICE_NAME_COOLING) {
            return false;
        }
        match &self.device_type {
            Some(text) => trimmed_equals(text.as_str(), DEVICE_TYPE_PWM_FAN),
            None => false,
        }
    }

    /// Decides [`ThermalEntry::is_sensor`].
    pub fn looks_like_sensor(&self) -> (yes: bool)
        ensures
            yes == self.is_sensor(),
    {
        if !starts_with(self.name.as_str(), THERMAL_ZONE_NAME) {
            return false;
        }
        match &self.temp {
            Some(text) => parse_i64(text.as_str()).is_some(),
            None => false,
        }
    }
}

/// Index of the first PWM fan among `entries` at or after `from`.
pub open spec fn first_fan(entries: Seq<ThermalEntry>, from: int) -> Option<int>
    decreases entries.len() - from,
{
    if from < 0 || from >= entries.len() {
        None
    } else if entries[from].is_fan() {
        Some(from)
    } else {
        first_fan(entries, from + 1)
    }
}

/// Index of the first usable sensor among `entries` at or after `from`.
pub open spec fn first_sensor(entries: Seq<ThermalEntry>, from: int) -> Option<int>
    decreases entries.len() - from,
{
    if from < 0 || from >= entries.len() {
        None
    } else if entries[from].is_sensor() {
        Some(from)
    } else {
        first_sensor(entries, from + 1)
    }
}

/// Finds the first PWM fan among `entries`.
pub fn find_fan(entries: &Vec<ThermalEntry>) -> (found: Option<usize>)
    ensures
        match found {
            Some(i) => first_fan(entries@, 0) == Some(i as int) && i < entries.len(),
            None => first_fan(entries@, 0) is None,
        },
{
    let mut i: usize = 0;
    while i < entries.len()
        invariant
            i <= entries.len(),
            first_fan(entries@, 0) == first_fan(entries@, i as int),
        decreases entries.len() - i,
    {
        if entries[i].looks_like_fan() {
            return Some(i);
        }
        i += 1;
    }
    None
}

/// Finds the first usable sensor among `entries`.
pub fn find_sensor(entries: &Vec<ThermalEntry>) -> (found: Option<usize>)
    ensures
        match found {
            Some(i) => first_sensor(entries@, 0) == Some(i as int) && i < entries.len(),
            None => first_sensor(entries@, 0) is None,
        },
{
    let mut i: usize = 0;
    while i < entries.len()
        invariant
            i <= entries.len(),
            first_sensor(entries@, 0) == first_sensor(entries@, i as int),
        decreases entries.len() - i,
    {
        if entries[i].looks_like_sensor() {
            return Some(i);
        }
        i += 1;
    }
    None
}

} // verus!
