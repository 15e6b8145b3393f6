use cm3588_fan::config::{
    Config, ConfigError, State, Threshold, LOWER_TEMP_THRESHOLD, MIN_STATE, SLEEP_TIME,
    UPPER_TEMP_THRESHOLD,
};

fn config(min_threshold: i64, max_threshold: i64, min_state: u32, max_state: Option<u32>) -> Config {
    Config {
        threshold: Threshold {
            max: max_threshold,
            min: min_threshold,
        },
        state: State {
            max: max_state,
            min: min_state,
        },
        sleep_time: 5,
    }
}

fn assert_rejected(result: Result<(), ConfigError>, msg_contains: &str) {
    assert!(result.is_err(), "Expected an error, but the check passed");
    let err_msg = result.unwrap_err().message();
    assert!(
        err_msg.contains(msg_contains),
        "Message did not contain '{msg_contains}': got '{err_msg}'"
    );
}

#[test]
fn test_valid_config_with_fan_device() {
    let config = config(40_000, 60_000, 3, Some(5));
    assert_eq!(config.check_config(5), Ok(()));
}

#[test]
fn test_min_state_superior_to_device_max_state() {
    let max_state = 5;
    let min_state = 6;
    let config = config(40_000, 60_000, min_state, None);
    let msg_contains =
        format!("Configured min state {min_state} exceeds device max state {max_state}");
    assert_rejected(config.check_config(5), &msg_contains);
    assert_eq!(
        config.check_config(5),
        Err(ConfigError::MinStateExceedsDevice {
            min: 6,
            device_max: 5
        })
    );
}

#[test]
fn test_min_state_greater_than_or_equal_to_max_panics() {
    let config = config(40_000, 60_000, 3, Some(3));
    assert_rejected(config.check_config(5), "min state can't be >=");
    assert_eq!(
        config.check_config(5),
        Err(ConfigError::StateOrder { min: 3, max: 3 })
    );
}

#[test]
fn test_max_state_exceeds_device_max_panics() {
    let config = config(40_000, 60_000, 3, Some(6));
    assert_rejected(config.check_config(5), "exceeds device max state");
    assert_eq!(
        config.check_config(5),
        Err(ConfigError::MaxStateExceedsDevice {
            max: 6,
            device_max: 5
        })
    );
}

#[test]
fn threshold_min_exceeds_threshold_max_panics() {
    let config = config(80_000, 60_000, 0, Some(5));
    assert_rejected(config.check_config(5), "min threshold can't be >=");
    assert_eq!(
        config.check_config(5),
        Err(ConfigError::ThresholdOrder {
            lower: 80_000,
            upper: 60_000
        })
    );
}

#[test]
fn test_no_max_state_does_nothing() {
    let config = config(40_000, 60_000, 0, None);
    assert_eq!(config.check_config(5), Ok(()));
}

#[test]
fn equal_thresholds_are_rejected() {
    let config = config(60_000, 60_000, 0, None);
    assert_eq!(
        config.check_config(5),
        Err(ConfigError::ThresholdOrder {
            lower: 60_000,
            upper: 60_000
        })
    );
}

#[test]
fn thresholds_are_checked_before_states() {
    let config = config(70_000, 60_000, 9, Some(2));
    assert_eq!(
        config.check_config(5),
        Err(ConfigError::ThresholdOrder {
            lower: 70_000,
            upper: 60_000
        })
    );
}

#[test]
fn state_order_is_checked_before_the_device() {
    let config = config(40_000, 60_000, 9, Some(7));
    assert_eq!(
        config.check_config(5),
        Err(ConfigError::StateOrder { min: 9, max: 7 })
    );
}

#[test]
fn min_state_may_equal_device_max_without_configured_max() {
    let config = config(40_000, 60_000, 5, None);
    assert_eq!(config.check_config(5), Ok(()));
}

#[test]
fn messages_are_spelled_out() {
    assert_eq!(
        ConfigError::ThresholdOrder {
            lower: 80_000,
            upper: 60_000
        }
        .message(),
        "min threshold can't be >= max threshold: 80 >= 60"
    );
    assert_eq!(
        ConfigError::ThresholdOrder {
            lower: 45_500,
            upper: -5_250
        }
        .message(),
        "min threshold can't be >= max threshold: 45.5 >= -5.25"
    );
    assert_eq!(
        ConfigError::StateOrder { min: 3, max: 3 }.message(),
        "min state can't be >= max state: 3 >= 3"
    );
    assert_eq!(
        ConfigError::MaxStateExceedsDevice {
            max: 6,
            device_max: 5
        }
        .message(),
        "Configured max state 6 exceeds device max state 5"
    );
    assert_eq!(
        ConfigError::MinStateExceedsDevice {
            min: 4_294_967_295,
            device_max: 10
        }
        .message(),
        "Configured min state 4294967295 exceeds device max state 10"
    );
}

#[test]
fn new_falls_back_to_the_defaults() {
    let config = Config::new(None, None, None, None, None);
    assert_eq!(config.sleep_time, 5);
    assert_eq!(config.sleep_time, SLEEP_TIME);
    assert_eq!(config.threshold.max, 65_000);
    assert_eq!(config.threshold.max, UPPER_TEMP_THRESHOLD);
    assert_eq!(config.threshold.min, 45_000);
    assert_eq!(config.threshold.min, LOWER_TEMP_THRESHOLD);
    assert_eq!(config.state.min, 0);
    assert_eq!(config.state.min, MIN_STATE);
    assert_eq!(config.state.max, None);
    assert_eq!(Config::default(), config);
}

#[test]
fn new_takes_what_is_supplied() {
    let config = Config::new(Some(9), Some(80_500), Some(30_250), Some(2), Some(4));
    assert_eq!(
        config,
        Config {
            threshold: Threshold {
                max: 80_500,
                min: 30_250
            },
            state: State {
                max: Some(4),
                min: 2
            },
            sleep_time: 9,
        }
    );
}

#[test]
fn effective_max_prefers_the_configured_state() {
    assert_eq!(State { max: Some(3), min: 0 }.effective_max(7), 3);
    assert_eq!(State { max: None, min: 0 }.effective_max(7), 7);
}
