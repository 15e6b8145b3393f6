//! The temperature sensor.

use vstd::prelude::*;
use crate::text::join;
use crate::text::joined;
use crate::text::parse_i64;
use crate::text::spelled_i64;
use crate::thermal::find_sensor;
use crate::thermal::first_sensor;
use crate::thermal::DeviceError;
use crate::thermal::ThermalEntry;

verus! {

/// Name of the file, inside a thermal zone's directory, that holds its
/// temperature.
pub const TEMP_FILE: &'static str = "temp";

/// A temperature sensor.
#[derive(Debug, PartialEq, Eq)]
pub struct Temp {
    /// Path of the file that holds the temperature.
    pub path: String,
}

/// The mathematical content of a [`Temp`].
pub struct TempView {
    pub path: Seq<char>,
}

impl View for Temp {
    type V = TempView;

    open spec fn view(&self) -> TempView {
        TempView { path: self.path@ }
    }
}

/// The path of the temperature file of the first usable sensor among
/// `entries`.
pub open spec fn sensor_among(entries: Seq<ThermalEntry>) -> Result<Seq<char>, DeviceError> {
    match first_sensor(entries, 0) {
        Some(i) => Ok(joined(entries[i].path@, TEMP_FILE@)),
        None => Err(DeviceError::NotFound),
    }
}

/// The temperature that the text of a sensor's file stands for.
pub open spec fn reading(content: Seq<char>) -> Result<i64, DeviceError> {
    match spelled_i64(content) {
        Some(value) => Ok(value),
        None => Err(DeviceError::Parse),
    }
}

impl Temp {
    /// Picks the sensor out of what was found in the thermal directory.
    pub fn new(entries: &Vec<ThermalEntry>) -> (sensor: Result<Temp, DeviceError>)
        ensures
            match sensor {
                Ok(sensor) => sensor_among(entries@) == Ok::<Seq<char>, DeviceError>(sensor.path@),
                Err(error) => sensor_among(entries@) == Err::<Seq<char>, DeviceError>(error),
            },
    {
        match Self::get_temp_path(entries) {
            Ok(path) => Ok(Temp { path }),
            Err(error) => Err(error),
        }
    }

    /// Reads the temperature, in thousandths of a degree, out of what the
    /// sensor's file holds.
    pub fn get_current_temp(&self, content: &str) -> (temp: Result<i64, DeviceError>)
        ensures
            temp == reading(content@),
    {
        match parse_i64(content) {
            Some(value) => Ok(value),
            None => Err(DeviceError::Parse),
        }
    }

    /// Picks the sensor's file out of what was found in the thermal
    /// directory: the temperature file of the first thermal zone whose file
    /// holds a number.
    pub fn get_temp_path(entries: &Vec<ThermalEntry>) -> (path: Result<String, DeviceError>)
        ensures
            match path {
                Ok(path) => sensor_among(entries@) == Ok::<Seq<char>, DeviceError>(path@),
                Err(error) => sensor_among(entries@) == Err::<Seq<char>, DeviceError>(error),
            },
    {
        match find_sensor(entries) {
            Some(i) => Ok(join(entries[i].path.as_str(), TEMP_FILE)),
            None => Err(DeviceError::NotFound),
        }
    }
}

} // verus!
