//! The controller's configuration and its validation against a fan device.
//!
//! Temperatures are whole thousandths of a degree Celsius, the unit in which
//! the kernel reports them.

use vstd::prelude::*;
use vstd::string::*;
use crate::text::decimal;
use crate::text::decimal_text;
use crate::text::degrees;
use crate::text::degrees_text;

verus! {

/// Temperature below which the fan rests at its lowest state, unless configured.
pub const LOWER_TEMP_THRESHOLD: i64 = 45_000;

/// Temperature above which the fan runs at its highest state, unless configured.
pub const UPPER_TEMP_THRESHOLD: i64 = 65_000;

/// Lowest cooling state, unless configured.
pub const MIN_STATE: u32 = 0;

/// Seconds between two adjustments, unless configured.
pub const SLEEP_TIME: u64 = 5;

/// Range of cooling states the controller may select.
#[derive(Debug, Clone, Copy, PartialEq, Eq)]
pub struct State {
    /// Highest state to select; `None` means the device's own maximum.
    pub max: Option<u32>,
    /// Lowest state to select.
    pub min: u32,
}

/// Temperature range over which the fan speed rises, in thousandths of a degree.
#[derive(Debug, Clone, Copy, PartialEq, Eq)]
pub struct Threshold {
    /// At and above this temperature the highest state is reached.
    pub max: i64,
    /// Below this temperature the lowest state is selected.
    pub min: i64,
}

/// Everything the controller is told before it starts.
#[derive(Debug, Clone, Copy, PartialEq, Eq)]
pub struct Config {
    pub threshold: Threshold,
    pub state: State,
    /// Seconds between two adjustments.
    pub sleep_time: u64,
}

/// Why a configuration cannot be used with a fan device.
#[derive(Debug, Clone, Copy, PartialEq, Eq, Structural)]
pub enum ConfigError {
    /// The lower temperature threshold is not below the upper one.
    ThresholdOrder { lower: i64, upper: i64 },
    /// The lowest state is not below the configured highest state.
    StateOrder { min: u32, max: u32 },
    /// The configured highest state is beyond what the device offers.
    MaxStateExceedsDevice { max: u32, device_max: u32 },
    /// The lowest state is beyond what the device offers.
    MinStateExceedsDevice { min: u32, device_max: u32 },
}

impl ConfigError {
    /// The words in which the error is reported.
    pub open spec fn text(self) -> Seq<char> {
        match self {
            ConfigError::ThresholdOrder { lower, upper } => {
                "min threshold can't be >= max threshold: "@ + degrees_text(lower as int)
                    + " >= "@ + degrees_text(upper as int)
            },
            ConfigError::StateOrder { min, max } => {
                "min state can't be >= max state: "@ + decimal_text(min as nat) + " >= "@
                    + decimal_text(max as nat)
            },
            ConfigError::MaxStateExceedsDevice { max, device_max } => {
                "Configured max state "@ + decimal_text(max as nat)
                    + " exceeds device max state "@ + decimal_text(device_max as nat)
            },
            ConfigError::MinStateExceedsDevice { min, device_max } => {
                "Configured min state "@ + decimal_text(min as nat)
                    + " exceeds device max state "@ + decimal_text(device_max as nat)
            },
        }
    }

    /// Reports the error in words.
    pub fn message(&self) -> (message: String)
        ensures
            message@ == self.text(),
    {
        match *self {
            ConfigError::ThresholdOrder { lower, upper } => {
                let mut message = "min threshold can't be >= max threshold: ".to_owned();
                message.append(degrees(lower).as_str());
                message.append(" >= ");
                message.append(degrees(upper).as_str());
                message
            },
            ConfigError::StateOrder { min, max } => {
                let mut message = "min state can't be >= max state: ".to_owned();
                message.append(decimal(min as u64).as_str());
                message.append(" >= ");
                message.append(decimal(max as u64).as_str());
                message
            },
            ConfigError::MaxStateExceedsDevice { max, device_max } => {
                let mut message = "Configured max state ".to_owned();
                message.append(decimal(max as u64).as_str());
                message.append(" exceeds device max state ");
                message.append(decimal(device_max as u64).as_str());
                message
            },
            ConfigError::MinStateExceedsDevice { min, device_max } => {
                let mut message = "Configured min state ".to_owned();
                message.append(decimal(min as u64).as_str());
                message.append(" exceeds device max state ");
                message.append(decimal(device_max as u64).as_str());
                message
            },
        }
    }
}

impl State {
    /// The highest state the controller selects on a device whose maximum is `device_max`.
    pub open spec fn ceiling(self, device_max: u32) -> u32 {
        match self.max {
            Some(max) => max,
            None => device_max,
        }
    }

    /// Computes [`State::ceiling`].
    pub fn effective_max(&self, device_max: u32) -> (max: u32)
        ensures
            max == self.ceiling(device_max),
    {
        match self.max {
            Some(max) => max,
            None => device_max,
        }
    }
}

impl Config {
    /// Whether the configuration can drive a fan whose highest state is `fan_max_state`.
    pub open spec fn accepts(self, fan_max_state: u32) -> bool {
        &&& self.threshold.min < self.threshold.max
        &&& self.state.max matches Some(max) ==> self.state.min < max && max <= fan_max_state
        &&& self.state.min <= fan_max_state
    }

    /// The first rule that the configuration breaks on a fan whose highest
    /// state is `fan_max_state`: thresholds are looked at first, then the
    /// configured state range, then the device's range.
    pub open spec fn violation(self, fan_max_state: u32) -> Option<ConfigError> {
        if self.threshold.min >= self.threshold.max {
            Some(ConfigError::ThresholdOrder { lower: self.threshold.min, upper: self.threshold.max })
        } else if self.state.max is Some && self.state.min >= self.state.max->0 {
            Some(ConfigError::StateOrder { min: self.state.min, max: self.state.max->0 })
        } else if self.state.max is Some && self.state.max->0 > fan_max_state {
            Some(
                ConfigError::MaxStateExceedsDevice {
                    max: self.state.max->0,
                    device_max: fan_max_state,
                },
            )
        } else if self.state.min > fan_max_state {
            Some(
                ConfigError::MinStateExceedsDevice {
                    min: self.state.min,
                    device_max: fan_max_state,
                },
            )
        } else {
            None
        }
    }

    /// Builds a configuration from the values that were supplied, falling back
    /// to the built-in default for each one that was not.
    #[must_use]
    pub fn new(
        sleep_time: Option<u64>,
        max_threshold: Option<i64>,
        min_threshold: Option<i64>,
        min_state: Option<u32>,
        max_state: Option<u32>,
    ) -> (config: Config)
        ensures
            config.sleep_time == sleep_time.unwrap_or(SLEEP_TIME),
            config.threshold.max == max_threshold.unwrap_or(UPPER_TEMP_THRESHOLD),
            config.threshold.min == min_threshold.unwrap_or(LOWER_TEMP_THRESHOLD),
            config.state.min == min_state.unwrap_or(MIN_STATE),
            config.state.max == max_state,
    {
        Config {
            sleep_time: sleep_time.unwrap_or(SLEEP_TIME),
            threshold: Threshold {
                max: max_threshold.unwrap_or(UPPER_TEMP_THRESHOLD),
                min: min_threshold.unwrap_or(LOWER_TEMP_THRESHOLD),
            },
            state: State { max: max_state, min: min_state.unwrap_or(MIN_STATE) },
        }
    }

    /// Checks the configuration against a fan whose highest state is
    /// `fan_max_state` and reports the first rule it breaks.
    pub fn check_config(&self, fan_max_state: u32) -> (result: Result<(), ConfigError>)
        ensures
            result is Ok <==> self.accepts(fan_max_state),
            match result {
                Ok(_) => self.violation(fan_max_state) is None,
                Err(error) => self.violation(fan_max_state) == Some(error),
            },
    {
        if self.threshold.min >= self.threshold.max {
            return Err(
                ConfigError::ThresholdOrder { lower: self.threshold.min, upper: self.threshold.max },
            );
        }
        if let Some(max) = self.state.max {
            if self.state.min >= max {
                return Err(ConfigError::StateOrder { min: self.state.min, max });
            }
            if max > fan_max_state {
                return Err(ConfigError::MaxStateExceedsDevice { max, device_max: fan_max_state });
            }
        }
        if self.state.min > fan_max_state {
            return Err(
                ConfigError::MinStateExceedsDevice {
                    min: self.state.min,
                    device_max: fan_max_state,
                },
            );
        }
        Ok(())
    }
}

impl Default for Config {
    fn default() -> (config: Config)
        ensures
            config.sleep_time == SLEEP_TIME,
            config.threshold.max == UPPER_TEMP_THRESHOLD,
            config.threshold.min == LOWER_TEMP_THRESHOLD,
            config.state.min == MIN_STATE,
            config.state.max is None,
    {
        Config::new(None, None, None, None, None)
    }
}

} // verus!
