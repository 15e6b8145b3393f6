use cm3588_fan::checker::{Action, Checker, Event, Outcome, Phase};
use cm3588_fan::config::{Config, State, Threshold};
use cm3588_fan::fan::Fan;
use cm3588_fan::temp::Temp;
use cm3588_fan::thermal::{DeviceError, ThermalEntry};

fn sensor() -> Temp {
    Temp {
        path: "/sys/class/thermal/thermal_zone0/temp".to_owned(),
    }
}

#[test]
fn test_get_current_temp_valid_value() {
    let temp = sensor();

    let result = temp.get_current_temp("45000\n");
    assert!(result.is_ok());
    assert_eq!(result.unwrap(), 45_000);
}

#[test]
fn test_get_current_temp_with_whitespace() {
    let temp = sensor();

    let result = temp.get_current_temp("  50000  \n");
    assert!(result.is_ok());
    assert_eq!(result.unwrap(), 50_000);
}

#[test]
fn test_get_current_temp_zero_value() {
    let temp = sensor();

    let result = temp.get_current_temp("0");
    assert!(result.is_ok());
    assert_eq!(result.unwrap(), 0);
}

#[test]
fn test_get_current_temp_high_value() {
    let temp = sensor();

    let result = temp.get_current_temp("100000");
    assert!(result.is_ok());
    assert_eq!(result.unwrap(), 100_000);
}

#[test]
fn test_get_current_temp_invalid_content() {
    let temp = sensor();

    let result = temp.get_current_temp("not_a_number");
    assert!(result.is_err());
    assert_eq!(result, Err(DeviceError::Parse));
}

#[test]
fn test_get_current_temp_file_not_found() {
    let temp = Temp {
        path: "/nonexistent/path/temp".to_owned(),
    };
    let config = Config {
        threshold: Threshold {
            min: 45_000,
            max: 70_000,
        },
        state: State {
            min: 0,
            max: Some(5),
        },
        sleep_time: 5,
    };
    let fan = Fan {
        path: "/fan".to_owned(),
        max_state: 5,
        temp_slots: Fan::calculate_slots(&config, 5),
    };
    let mut checker = Checker {
        is_init: false,
        config,
        fan_device: Some(fan),
        temp_device: Some(temp),
        last_state: None,
        phase: Phase::Idle,
    };

    assert_eq!(
        checker.adjust_speed(Event::Tick),
        Ok(Action::ReadTemperature {
            path: "/nonexistent/path/temp".to_owned()
        })
    );
    let result = checker.adjust_speed(Event::Temperature(None));
    assert_eq!(
        result,
        Ok(Action::Done(Outcome::NoReading(DeviceError::Unavailable)))
    );
    assert!(checker.temp_device.is_none());
}

#[test]
fn test_get_current_temp_empty_file() {
    let temp = sensor();

    let result = temp.get_current_temp("");
    assert!(result.is_err());
}

#[test]
fn test_get_current_temp_negative_value() {
    let temp = sensor();

    let result = temp.get_current_temp("-5000");
    assert!(result.is_ok());
    assert_eq!(result.unwrap(), -5_000);
}

#[test]
fn test_get_temp_path_no_thermal_dir() {
    let result = Temp::get_temp_path(&Vec::new());
    assert!(result.is_err() || result.is_ok());
    assert_eq!(result, Err(DeviceError::NotFound));
}

fn zone(name: &str, temp: Option<&str>) -> ThermalEntry {
    ThermalEntry {
        name: name.to_owned(),
        path: format!("/sys/class/thermal/{name}"),
        device_type: None,
        max_state: None,
        temp: temp.map(str::to_owned),
    }
}

#[test]
fn sensor_is_the_first_zone_that_holds_a_number() {
    let entries = vec![
        zone("cooling_device0", Some("41000\n")),
        zone("thermal_zone0", None),
        zone("thermal_zone1", Some("n/a\n")),
        zone("thermal_zone2", Some("43000\n")),
        zone("thermal_zone3", Some("44000\n")),
    ];
    assert_eq!(
        Temp::get_temp_path(&entries),
        Ok("/sys/class/thermal/thermal_zone2/temp".to_owned())
    );
    assert_eq!(
        Temp::new(&entries),
        Ok(Temp {
            path: "/sys/class/thermal/thermal_zone2/temp".to_owned()
        })
    );
}

#[test]
fn no_sensor_without_a_readable_zone() {
    let entries = vec![
        zone("cooling_device0", Some("41000\n")),
        zone("thermal_zone0", None),
        zone("thermal_zone1", Some("n/a\n")),
        zone("zone_thermal_zone2", Some("43000\n")),
    ];
    assert_eq!(Temp::get_temp_path(&entries), Err(DeviceError::NotFound));
    assert_eq!(Temp::new(&entries), Err(DeviceError::NotFound));
}

#[test]
fn sensor_entries_are_told_by_name_and_content() {
    assert!(zone("thermal_zone0", Some("1")).looks_like_sensor());
    assert!(zone("thermal_zone", Some(" -1\n")).looks_like_sensor());
    assert!(!zone("thermal_zon", Some("1")).looks_like_sensor());
    assert!(!zone("thermal_zone0", Some("")).looks_like_sensor());
    assert!(!zone("thermal_zone0", None).looks_like_sensor());
}
