//! The controller: one turn of it looks for the devices it misses, reads the
//! temperature, chooses the cooling state and writes it where it has changed.
//!
//! The controller touches no file itself. A turn is a conversation: the
//! controller is handed an [`Event`], changes its state and answers with the
//! [`Action`] it wants carried out; the outcome of that action is the next
//! event. A turn starts with [`Event::Tick`] and ends with [`Action::Done`]
//! or with the error of a configuration that does not fit the fan.

use vstd::prelude::*;
use crate::config::Config;
use crate::config::ConfigError;
use crate::fan::fan_among;
use crate::fan::speed;
use crate::fan::Fan;
use crate::fan::FanError;
use crate::fan::FanView;
use crate::fan::STATE_FILE;
use crate::temp::reading;
use crate::temp::sensor_among;
use crate::temp::Temp;
use crate::temp::TempView;
use crate::text::joined;
use crate::thermal::DeviceError;
use crate::thermal::ThermalEntry;

verus! {

/// What the controller is waiting for.
#[derive(Debug, Clone, Copy, PartialEq, Eq, Structural)]
pub enum Phase {
    /// No turn is under way.
    Idle,
    /// The entries of the thermal directory, to find the fan in.
    FindingFan,
    /// The entries of the thermal directory, to find the sensor in.
    FindingSensor,
    /// What the sensor's file holds.
    Reading,
    /// Whether `state` could be written to the fan.
    Writing { state: u32 },
}

/// How a turn ended.
#[derive(Debug, Clone, Copy, PartialEq, Eq, Structural)]
pub enum Outcome {
    /// No fan could be set up; nothing else was tried.
    NoFan(DeviceError),
    /// No sensor was found; the fan was kept.
    NoSensor(DeviceError),
    /// The temperature could not be read; the sensor was let go of.
    NoReading(DeviceError),
    /// The chosen state is the one last applied; nothing was written.
    Unchanged { state: u32 },
    /// The chosen state was written.
    Applied { state: u32 },
    /// The chosen state could not be written; the fan was let go of.
    WriteFailed { state: u32 },
    /// The event was not the one the controller was waiting for.
    OutOfTurn,
}

/// What the controller is told.
#[derive(Debug, PartialEq, Eq)]
pub enum Event {
    /// Time for a turn.
    Tick,
    /// The entries of the thermal directory.
    Entries(Vec<ThermalEntry>),
    /// What the sensor's file holds, or `None` where it could not be read.
    Temperature(Option<String>),
    /// Whether the state was written to the fan.
    Written(bool),
}

/// What the controller wants done.
#[derive(Debug, PartialEq, Eq)]
pub enum Action {
    /// Read the thermal directory and answer with [`Event::Entries`].
    DiscoverFan,
    /// Read the thermal directory and answer with [`Event::Entries`].
    DiscoverSensor,
    /// Read the file at `path` and answer with [`Event::Temperature`].
    ReadTemperature { path: String },
    /// Write `state` to the file at `path` and answer with [`Event::Written`].
    WriteState { path: String, state: u32 },
    /// Nothing: the turn is over.
    Done(Outcome),
}

/// The mathematical content of an [`Event`].
pub enum EventView {
    Tick,
    Entries(Seq<ThermalEntry>),
    Temperature(Option<Seq<char>>),
    Written(bool),
}

/// The mathematical content of an [`Action`].
pub enum ActionView {
    DiscoverFan,
    DiscoverSensor,
    ReadTemperature { path: Seq<char> },
    WriteState { path: Seq<char>, state: u32 },
    Done(Outcome),
}

impl View for Event {
    type V = EventView;

    open spec fn view(&self) -> EventView {
        match self {
            Event::Tick => EventView::Tick,
            Event::Entries(entries) => EventView::Entries(entries@),
            Event::Temperature(Some(content)) => EventView::Temperature(Some(content@)),
            Event::Temperature(None) => EventView::Temperature(None),
            Event::Written(done) => EventView::Written(*done),
        }
    }
}

impl View for Action {
    type V = ActionView;

    open spec fn view(&self) -> ActionView {
        match self {
            Action::DiscoverFan => ActionView::DiscoverFan,
            Action::DiscoverSensor => ActionView::DiscoverSensor,
            Action::ReadTemperature { path } => ActionView::ReadTemperature { path: path@ },
            Action::WriteState { path, state } => ActionView::WriteState {
                path: path@,
                state: *state,
            },
            Action::Done(outcome) => ActionView::Done(*outcome),
        }
    }
}

/// The controller.
#[derive(Debug, PartialEq, Eq)]
pub struct Checker {
    /// Whether a state has been written to the fan since the start.
    pub is_init: bool,
    pub config: Config,
    /// The fan, while one is known.
    pub fan_device: Option<Fan>,
    /// The sensor, while one is known.
    pub temp_device: Option<Temp>,
    /// The state that was last written to the fan, if any was.
    pub last_state: Option<u32>,
    /// What the controller is waiting for.
    pub phase: Phase,
}

/// The mathematical content of a [`Checker`].
pub struct CheckerView {
    pub is_init: bool,
    pub config: Config,
    pub fan_device: Option<FanView>,
    pub temp_device: Option<TempView>,
    pub last_state: Option<u32>,
    pub phase: Phase,
}

impl View for Checker {
    type V = CheckerView;

    open spec fn view(&self) -> CheckerView {
        CheckerView {
            is_init: self.is_init,
            config: self.config,
            fan_device: match self.fan_device {
                Some(fan) => Some(fan@),
                None => None,
            },
            temp_device: match self.temp_device {
                Some(sensor) => Some(sensor@),
                None => None,
            },
            last_state: self.last_state,
            phase: self.phase,
        }
    }
}

impl CheckerView {
    /// The controller at rest, everything else as it is.
    pub open spec fn at_rest(self) -> CheckerView {
        CheckerView { phase: Phase::Idle, ..self }
    }

    /// Goes on to the sensor once the fan is known: asks for the sensor where
    /// none is known, and for the temperature where one is.
    pub open spec fn seek_sensor(self) -> (CheckerView, ActionView) {
        match self.temp_device {
            None => (
                CheckerView { phase: Phase::FindingSensor, ..self },
                ActionView::DiscoverSensor,
            ),
            Some(sensor) => (
                CheckerView { phase: Phase::Reading, ..self },
                ActionView::ReadTemperature { path: sensor.path },
            ),
        }
    }

    /// Starts a turn: asks for the fan where none is known.
    pub open spec fn begin(self) -> (CheckerView, ActionView) {
        match self.fan_device {
            None => (CheckerView { phase: Phase::FindingFan, ..self }, ActionView::DiscoverFan),
            Some(_) => self.seek_sensor(),
        }
    }

    /// Chooses the state for the temperature `temp` on the fan `fan` and asks
    /// for it to be written, unless it is the state that was last applied.
    pub open spec fn decide(self, fan: FanView, temp: i64) -> (CheckerView, ActionView) {
        let state = speed(fan, self.config, temp);
        if self.last_state == Some(state) {
            (self.at_rest(), ActionView::Done(Outcome::Unchanged { state }))
        } else {
            (
                CheckerView { phase: Phase::Writing { state }, ..self },
                ActionView::WriteState { path: joined(fan.path, STATE_FILE@), state },
            )
        }
    }

    /// What the controller becomes and what it answers when it is told
    /// `event`.
    ///
    /// - At rest, a tick starts a turn.
    /// - The entries it asked for to find the fan: the first PWM fan among
    ///   them is set up. A configuration that does not fit it is an error.
    ///   Any other failure ends the turn; otherwise the turn goes on to the
    ///   sensor.
    /// - The entries it asked for to find the sensor: without a usable
    ///   sensor among them the turn ends; otherwise the temperature is asked
    ///   for.
    /// - What the sensor's file holds, while a fan and a sensor are known:
    ///   where it was not read or holds no number, the sensor is let go of
    ///   and the turn ends. Otherwise the state is chosen.
    /// - Whether the state was written: if so, it becomes the state last
    ///   applied; if not, the fan is let go of. Either way the turn ends.
    /// - Anything else ends the turn and changes nothing.
    pub open spec fn step(self, event: EventView) -> (CheckerView, Result<ActionView, ConfigError>) {
        match (self.phase, event) {
            (Phase::Idle, EventView::Tick) => {
                let (next, action) = self.begin();
                (next, Ok(action))
            },
            (Phase::FindingFan, EventView::Entries(entries)) => match fan_among(
                self.config,
                entries,
            ) {
                Ok(fan) => {
                    let (next, action) = CheckerView {
                        fan_device: Some(fan),
                        ..self
                    }.seek_sensor();
                    (next, Ok(action))
                },
                Err(FanError::Device(error)) => (
                    self.at_rest(),
                    Ok(ActionView::Done(Outcome::NoFan(error))),
                ),
                Err(FanError::Config(error)) => (self.at_rest(), Err(error)),
            },
            (Phase::FindingSensor, EventView::Entries(entries)) => match sensor_among(entries) {
                Ok(path) => (
                    CheckerView {
                        temp_device: Some(TempView { path }),
                        phase: Phase::Reading,
                        ..self
                    },
                    Ok(ActionView::ReadTemperature { path }),
                ),
                Err(error) => (self.at_rest(), Ok(ActionView::Done(Outcome::NoSensor(error)))),
            },
            (Phase::Reading, EventView::Temperature(content)) => {
                let read = match content {
                    Some(text) => reading(text),
                    None => Err(DeviceError::Unavailable),
                };
                match (self.fan_device, self.temp_device, read) {
                    (Some(fan), Some(_), Ok(temp)) => {
                        let (next, action) = self.decide(fan, temp);
                        (next, Ok(action))
                    },
                    (Some(_), Some(_), Err(error)) => (
                        CheckerView { temp_device: None, phase: Phase::Idle, ..self },
                        Ok(ActionView::Done(Outcome::NoReading(error))),
                    ),
                    _ => (self.at_rest(), Ok(ActionView::Done(Outcome::OutOfTurn))),
                }
            },
            (Phase::Writing { state }, EventView::Written(done)) => {
                if done {
                    (
                        CheckerView {
                            is_init: true,
                            last_state: Some(state),
                            phase: Phase::Idle,
                            ..self
                        },
                        Ok(ActionView::Done(Outcome::Applied { state })),
                    )
                } else {
                    (
                        CheckerView { fan_device: None, phase: Phase::Idle, ..self },
                        Ok(ActionView::Done(Outcome::WriteFailed { state })),
                    )
                }
            },
            _ => (self.at_rest(), Ok(ActionView::Done(Outcome::OutOfTurn))),
        }
    }
}

/// The controller as it starts with `config` and what was found in the
/// thermal directory.
pub open spec fn started(config: Config, entries: Seq<ThermalEntry>) -> Result<
    CheckerView,
    ConfigError,
> {
    match fan_among(config, entries) {
        Err(FanError::Config(error)) => Err(error),
        fan => Ok(
            CheckerView {
                is_init: false,
                config,
                fan_device: match fan {
                    Ok(fan) => Some(fan),
                    Err(_) => None,
                },
                temp_device: match sensor_among(entries) {
                    Ok(path) => Some(TempView { path }),
                    Err(_) => None,
                },
                last_state: None,
                phase: Phase::Idle,
            },
        ),
    }
}

impl Checker {
    /// Sets the controller up with what was found in the thermal directory:
    /// it starts at rest, has written nothing yet, and knows the sensor and
    /// the fan that were found there. A device that is missing or unreadable
    /// is left for the first turn to find.
    ///
    /// An error is returned where a fan was found that the configuration
    /// does not fit.
    pub fn new(config: Config, entries: &Vec<ThermalEntry>) -> (checker: Result<
        Checker,
        ConfigError,
    >)
        ensures
            match checker {
                Ok(checker) => started(config, entries@) == Ok::<CheckerView, ConfigError>(
                    checker@,
                ),
                Err(error) => started(config, entries@) == Err::<CheckerView, ConfigError>(error),
            },
    {
        let temp_device = match Temp::new(entries) {
            Ok(sensor) => Some(sensor),
            Err(_) => None,
        };
        let fan_device = match Fan::new(&config, entries) {
            Ok(fan) => Some(fan),
            Err(FanError::Device(_)) => None,
            Err(FanError::Config(error)) => {
                return Err(error);
            },
        };
        Ok(
            Checker {
                is_init: false,
                config,
                fan_device,
                temp_device,
                last_state: None,
                phase: Phase::Idle,
            },
        )
    }

    fn seek_sensor(&mut self) -> (action: Action)
        ensures
            (final(self)@, action@) == old(self)@.seek_sensor(),
    {
        match &self.temp_device {
            None => {
                self.phase = Phase::FindingSensor;
                Action::DiscoverSensor
            },
            Some(sensor) => {
                let path = sensor.path.clone();
                self.phase = Phase::Reading;
                Action::ReadTemperature { path }
            },
        }
    }

    fn begin(&mut self) -> (action: Action)
        ensures
            (final(self)@, action@) == old(self)@.begin(),
    {
        if self.fan_device.is_none() {
            self.phase = Phase::FindingFan;
            Action::DiscoverFan
        } else {
            self.seek_sensor()
        }
    }

    /// Takes the controller one step through its turn: it is told `event`,
    /// changes its state and answers with what it wants done next.
    ///
    /// An error is returned where a fan was found that the configuration
    /// does not fit; the controller is then at rest and knows no fan.
    pub fn adjust_speed(&mut self, event: Event) -> (result: Result<Action, ConfigError>)
        ensures
            final(self)@ == old(self)@.step(event@).0,
            match result {
                Ok(action) => old(self)@.step(event@).1 == Ok::<ActionView, ConfigError>(action@),
                Err(error) => old(self)@.step(event@).1 == Err::<ActionView, ConfigError>(error),
            },
    {
        let phase = self.phase;
        self.phase = Phase::Idle;
        match (phase, event) {
            (Phase::Idle, Event::Tick) => Ok(self.begin()),
            (Phase::FindingFan, Event::Entries(entries)) => {
                match Fan::new(&self.config, &entries) {
                    Ok(fan) => {
                        self.fan_device = Some(fan);
                        Ok(self.seek_sensor())
                    },
                    Err(FanError::Device(error)) => Ok(Action::Done(Outcome::NoFan(error))),
                    Err(FanError::Config(error)) => Err(error),
                }
            },
            (Phase::FindingSensor, Event::Entries(entries)) => {
                match Temp::new(&entries) {
                    Ok(sensor) => {
                        let path = sensor.path.clone();
                        self.temp_device = Some(sensor);
                        self.phase = Phase::Reading;
                        Ok(Action::ReadTemperature { path })
                    },
                    Err(error) => Ok(Action::Done(Outcome::NoSensor(error))),
                }
            },
            (Phase::Reading, Event::Temperature(content)) => {
                match (&self.fan_device, &self.temp_device) {
                    (Some(fan), Some(sensor)) => {
                        let read = match content {
                            Some(text) => sensor.get_current_temp(text.as_str()),
                            None => Err(DeviceError::Unavailable),
                        };
                        match read {
                            Ok(temp) => {
                                let state = fan.choose_speed(temp, &self.config);
                                let unchanged = match self.last_state {
                                    Some(last) => last == state,
                                    None => false,
                                };
                                if unchanged {
                                    Ok(Action::Done(Outcome::Unchanged { state }))
                                } else {
                                    let path = fan.state_path();
                                    self.phase = Phase::Writing { state };
                                    Ok(Action::WriteState { path, state })
                                }
                            },
                            Err(error) => {
                                self.temp_device = None;
                                Ok(Action::Done(Outcome::NoReading(error)))
                            },
                        }
                    },
                    _ => Ok(Action::Done(Outcome::OutOfTurn)),
                }
            },
            (Phase::Writing { state }, Event::Written(done)) => {
                if done {
                    self.is_init = true;
                    self.last_state = Some(state);
                    Ok(Action::Done(Outcome::Applied { state }))
                } else {
                    self.fan_device = None;
                    Ok(Action::Done(Outcome::WriteFailed { state }))
                }
            },
            _ => Ok(Action::Done(Outcome::OutOfTurn)),
        }
    }
}

} // verus!
