//! The fan device: the table that maps temperatures to cooling states, and
//! the choice of a state for a temperature.

use vstd::prelude::*;
use vstd::arithmetic::div_mod::*;
use vstd::arithmetic::mul::*;
use crate::config::Config;
use crate::config::ConfigError;
use crate::config::Threshold;
use crate::text::join;
use crate::text::joined;
use crate::text::parse_u32;
use crate::text::spelled_u32;
use crate::thermal::find_fan;
use crate::thermal::first_fan;
use crate::thermal::DeviceError;
use crate::thermal::ThermalEntry;

verus! {

/// A fan device together with the table that was computed for it.
#[derive(Debug, PartialEq, Eq)]
pub struct Fan {
    /// Directory of the cooling device.
    pub path: String,
    /// Highest cooling state the device reports.
    pub max_state: u32,
    /// Pairs of a cooling state and the temperature from which it applies,
    /// in thousandths of a degree.
    pub temp_slots: Vec<(u32, i64)>,
}

/// The mathematical content of a [`Fan`].
pub struct FanView {
    pub path: Seq<char>,
    pub max_state: u32,
    pub temp_slots: Seq<(u32, i64)>,
}

impl View for Fan {
    type V = FanView;

    open spec fn view(&self) -> FanView {
        FanView { path: self.path@, max_state: self.max_state, temp_slots: self.temp_slots@ }
    }
}

/// Why no fan could be set up.
#[derive(Debug, Clone, Copy, PartialEq, Eq, Structural)]
pub enum FanError {
    /// The device is missing or unreadable; it may be back later.
    Device(DeviceError),
    /// The configuration does not fit the device; trying again cannot help.
    Config(ConfigError),
}

/// Name of the file, inside the fan's directory, that holds its cooling state.
pub const STATE_FILE: &'static str = "cur_state";

/// The fan that `config` yields for the device at `path` whose `max_state`
/// file holds `max_state`: the text must spell the device's highest state,
/// the configuration must fit it, and the table is computed from both.
pub open spec fn fan_for(config: Config, path: Seq<char>, max_state: Seq<char>) -> Result<
    FanView,
    FanError,
> {
    match spelled_u32(max_state) {
        None => Err(FanError::Device(DeviceError::Parse)),
        Some(max_state) => match config.violation(max_state) {
            Some(error) => Err(FanError::Config(error)),
            None => Ok(FanView { path, max_state, temp_slots: table(config, max_state) }),
        },
    }
}

/// The fan that `config` yields for what was found in the thermal
/// directory: the first entry that is a PWM fan is the device.
pub open spec fn fan_among(config: Config, entries: Seq<ThermalEntry>) -> Result<
    FanView,
    FanError,
> {
    match first_fan(entries, 0) {
        None => Err(FanError::Device(DeviceError::NotFound)),
        Some(i) => match entries[i].max_state {
            None => Err(FanError::Device(DeviceError::Unavailable)),
            Some(text) => fan_for(config, entries[i].path@, text@),
        },
    }
}

/// The least integer that is not below the fraction `a / d`, for a positive `d`.
pub open spec fn ceil_div(a: int, d: int) -> int {
    (a + d - 1) / d
}

/// How many states lie above the lowest one, which is the number of slots.
pub open spec fn slot_count(config: Config, max_state: u32) -> int {
    config.state.ceiling(max_state) - config.state.min
}

/// The temperature from which slot `i` of `slots` applies. The slots divide
/// the range between the two thresholds evenly; a temperature that falls
/// between two thousandths is rounded up, so that a whole reading reaches it
/// exactly when it reaches the fraction.
pub open spec fn breakpoint(threshold: Threshold, slots: int, i: int) -> int {
    if slots <= 1 {
        threshold.min as int
    } else {
        threshold.min + ceil_div(i * (threshold.max - threshold.min), slots - 1)
    }
}

/// The table for `config` on a device whose highest state is `max_state`:
/// slot `i` pairs the state `config.state.min + 1 + i` with its breakpoint.
pub open spec fn table(config: Config, max_state: u32) -> Seq<(u32, i64)> {
    let slots = slot_count(config, max_state);
    Seq::new(
        if slots > 0 { slots as nat } else { 0 },
        |i: int| ((config.state.min + 1 + i) as u32, breakpoint(config.threshold, slots, i) as i64),
    )
}

/// The state of the last slot whose breakpoint `temp` has reached, or
/// `fallback` where it has reached none.
pub open spec fn selected(slots: Seq<(u32, i64)>, temp: i64, fallback: u32) -> u32
    decreases slots.len(),
{
    if slots.len() == 0 {
        fallback
    } else if slots.last().1 <= temp {
        slots.last().0
    } else {
        selected(slots.drop_last(), temp, fallback)
    }
}

/// The cooling state for `temp`: the lowest state below the lower threshold,
/// the highest above the upper threshold, and what the table gives between.
pub open spec fn speed(fan: FanView, config: Config, temp: i64) -> u32 {
    if temp < config.threshold.min {
        config.state.min
    } else if temp <= config.threshold.max {
        selected(fan.temp_slots, temp, config.state.min)
    } else {
        config.state.ceiling(fan.max_state)
    }
}

/// `ceil_div(a, d)` is the least `q` for which `q * d` reaches `a`.
pub proof fn lemma_ceil_div_least(a: int, d: int, q: int)
    requires
        d > 0,
    ensures
        ceil_div(a, d) <= q <==> a <= q * d,
{
    let c = ceil_div(a, d);
    lemma_fundamental_div_mod(a + d - 1, d);
    lemma_mod_bound(a + d - 1, d);
    assert(a <= d * c < a + d);
    if c <= q {
        lemma_mul_inequality(c, q, d);
        lemma_mul_is_commutative(c, d);
    } else {
        lemma_mul_inequality(q, c - 1, d);
        lemma_mul_is_distributive_sub(d, c, 1);
        lemma_mul_is_commutative(c - 1, d);
    }
}

/// Every breakpoint lies between the two thresholds; the first one is the
/// lower threshold, and where there are two slots or more the last one is the
/// upper threshold.
pub proof fn lemma_breakpoint_bounds(threshold: Threshold, slots: int, i: int)
    requires
        0 <= i < slots,
    ensures
        threshold.min <= threshold.max ==> threshold.min <= breakpoint(threshold, slots, i)
            <= threshold.max,
        threshold.max <= threshold.min ==> threshold.max <= breakpoint(threshold, slots, i)
            <= threshold.min,
        i == 0 ==> breakpoint(threshold, slots, i) == threshold.min,
        i == slots - 1 && slots > 1 ==> breakpoint(threshold, slots, i) == threshold.max,
{
    if slots > 1 {
        let d = slots - 1;
        let span = threshold.max - threshold.min;
        let a = i * span;
        lemma_mul_is_commutative(i, span);
        lemma_mul_is_commutative(d, span);
        lemma_mul_is_distributive_sub(d, span, 1);
        lemma_mul_is_commutative(span - 1, d);
        if span >= 0 {
            lemma_mul_inequality(0, i, span);
            lemma_mul_inequality(i, d, span);
            lemma_ceil_div_least(a, d, span);
            lemma_ceil_div_least(a, d, -1);
        } else {
            lemma_mul_inequality(0, i, -span);
            lemma_mul_inequality(i, d, -span);
            lemma_mul_unary_negation(i, span);
            lemma_mul_unary_negation(d, span);
            lemma_ceil_div_least(a, d, 0);
            lemma_ceil_div_least(a, d, span - 1);
        }
        if i == 0 {
            lemma_ceil_div_least(a, d, 0);
            lemma_ceil_div_least(a, d, -1);
        }
        if i == d {
            lemma_ceil_div_least(a, d, span);
            lemma_ceil_div_least(a, d, span - 1);
        }
    }
}

/// A whole temperature has reached a breakpoint exactly when it has reached
/// the fraction that the breakpoint was rounded up from: rounding changes no
/// choice.
pub proof fn lemma_breakpoint_reached(threshold: Threshold, slots: int, i: int, temp: int)
    requires
        slots > 1,
    ensures
        breakpoint(threshold, slots, i) <= temp <==> threshold.min * (slots - 1) + i * (
        threshold.max - threshold.min) <= temp * (slots - 1),
{
    let d = slots - 1;
    lemma_ceil_div_least(i * (threshold.max - threshold.min), d, temp - threshold.min);
    lemma_mul_is_distributive_sub_other_way(d, temp, threshold.min as int);
}

/// Breakpoints never fall from one slot to the next where the lower
/// threshold is not above the upper one, and they rise where the thresholds
/// are at least a thousandth of a degree apart for each step.
pub proof fn lemma_breakpoint_rises(threshold: Threshold, slots: int, i: int, j: int)
    requires
        0 <= i <= j < slots,
        threshold.min <= threshold.max,
    ensures
        breakpoint(threshold, slots, i) <= breakpoint(threshold, slots, j),
        i < j && threshold.max - threshold.min >= slots - 1 ==> breakpoint(threshold, slots, i)
            < breakpoint(threshold, slots, j),
{
    if slots > 1 {
        let d = slots - 1;
        let span = threshold.max - threshold.min;
        lemma_mul_inequality(i, j, span);
        lemma_div_is_ordered(i * span + d - 1, j * span + d - 1, d);
        if i < j && span >= d {
            lemma_mul_inequality(i + 1, j, span);
            lemma_mul_is_distributive_add_other_way(span, i, 1);
            lemma_div_is_ordered(i * span + d + d - 1, j * span + d - 1, d);
            lemma_div_plus_one(i * span + d - 1, d);
        }
    }
}

/// Whether states and breakpoints both never fall from one slot to the
/// next, with every state between `floor` and `ceiling`.
pub open spec fn ordered(slots: Seq<(u32, i64)>, floor: u32, ceiling: u32) -> bool {
    &&& forall|i: int, j: int|
        0 <= i <= j < slots.len() ==> (#[trigger] slots[i]).0 <= (#[trigger] slots[j]).0
            && slots[i].1 <= slots[j].1
    &&& forall|i: int| 0 <= i < slots.len() ==> floor <= (#[trigger] slots[i]).0 <= ceiling
}

/// The table of an accepted configuration is ordered: its states rise by one
/// from the lowest state plus one to the highest, and its breakpoints never
/// fall.
pub proof fn lemma_table_ordered(config: Config, max_state: u32)
    requires
        config.state.min <= config.state.ceiling(max_state),
        config.threshold.min <= config.threshold.max,
    ensures
        ordered(table(config, max_state), config.state.min, config.state.ceiling(max_state)),
        forall|i: int|
            0 <= i < table(config, max_state).len() ==> (#[trigger] table(config, max_state)[i]).0
                == config.state.min + 1 + i,
{
    let slots = table(config, max_state);
    let count = slot_count(config, max_state);
    assert forall|i: int, j: int| 0 <= i <= j < slots.len() implies (#[trigger] slots[i]).0 <= (
    #[trigger] slots[j]).0 && slots[i].1 <= slots[j].1 by {
        lemma_breakpoint_bounds(config.threshold, count, i);
        lemma_breakpoint_bounds(config.threshold, count, j);
        lemma_breakpoint_rises(config.threshold, count, i, j);
    }
}

/// The table begins at the lower threshold, and where it has two slots or
/// more it ends at the upper threshold, both exactly.
pub proof fn lemma_table_anchored(config: Config, max_state: u32)
    ensures
        table(config, max_state).len() > 0 ==> table(config, max_state).first().1
            == config.threshold.min,
        table(config, max_state).len() > 1 ==> table(config, max_state).last().1
            == config.threshold.max,
{
    let count = slot_count(config, max_state);
    if count > 0 {
        lemma_breakpoint_bounds(config.threshold, count, 0);
        lemma_breakpoint_bounds(config.threshold, count, count - 1);
    }
}

/// What [`selected`] yields is the fallback or the state of a slot, and with
/// it the state of the last slot that `temp` has reached.
pub proof fn lemma_selected(slots: Seq<(u32, i64)>, temp: i64, fallback: u32)
    ensures
        (forall|i: int| 0 <= i < slots.len() ==> (#[trigger] slots[i]).1 > temp) ==> selected(
            slots,
            temp,
            fallback,
        ) == fallback,
        forall|i: int|
            0 <= i < slots.len() && (#[trigger] slots[i]).1 <= temp && (forall|j: int|
                i < j < slots.len() ==> (#[trigger] slots[j]).1 > temp) ==> selected(
                slots,
                temp,
                fallback,
            ) == slots[i].0,
    decreases slots.len(),
{
    if slots.len() > 0 {
        let rest = slots.drop_last();
        lemma_selected(rest, temp, fallback);
        assert forall|i: int|
            0 <= i < slots.len() && (#[trigger] slots[i]).1 <= temp && (forall|j: int|
                i < j < slots.len() ==> (#[trigger] slots[j]).1 > temp) implies selected(
            slots,
            temp,
            fallback,
        ) == slots[i].0 by {
            if i < slots.len() - 1 {
                assert(slots[slots.len() - 1].1 > temp);
                assert(rest[i] == slots[i]);
                assert forall|j: int| i < j < rest.len() implies (#[trigger] rest[j]).1 > temp by {
                    assert(rest[j] == slots[j]);
                }
            }
        }
        if forall|i: int| 0 <= i < slots.len() ==> (#[trigger] slots[i]).1 > temp {
            assert(slots[slots.len() - 1].1 > temp);
            assert forall|i: int| 0 <= i < rest.len() implies (#[trigger] rest[i]).1 > temp by {
                assert(rest[i] == slots[i]);
            }
        }
    }
}

/// On an ordered table the selected state lies between the fallback and the
/// state of the last slot, and never falls as the temperature rises.
pub proof fn lemma_selected_monotonic(
    slots: Seq<(u32, i64)>,
    lower: i64,
    higher: i64,
    fallback: u32,
    ceiling: u32,
)
    requires
        lower <= higher,
        ordered(slots, fallback, ceiling),
    ensures
        selected(slots, lower, fallback) <= selected(slots, higher, fallback),
        fallback <= selected(slots, lower, fallback),
        slots.len() > 0 ==> selected(slots, higher, fallback) <= slots.last().0,
        slots.len() == 0 ==> selected(slots, higher, fallback) == fallback,
    decreases slots.len(),
{
    if slots.len() > 0 {
        let rest = slots.drop_last();
        assert(ordered(rest, fallback, ceiling)) by {
            assert forall|i: int, j: int| 0 <= i <= j < rest.len() implies (#[trigger] rest[i]).0
                <= (#[trigger] rest[j]).0 && rest[i].1 <= rest[j].1 by {
                assert(rest[i] == slots[i] && rest[j] == slots[j]);
            }
            assert forall|i: int| 0 <= i < rest.len() implies fallback <= (#[trigger] rest[i]).0
                <= ceiling by {
                assert(rest[i] == slots[i]);
            }
        }
        lemma_selected_monotonic(rest, lower, higher, fallback, ceiling);
        lemma_selected_monotonic(rest, lower, lower, fallback, ceiling);
        assert(fallback <= slots[slots.len() - 1].0);
        if rest.len() > 0 {
            assert(rest.last() == slots[slots.len() - 2]);
            assert(slots[slots.len() - 2].0 <= slots[slots.len() - 1].0);
        }
    }
}

/// The chosen state never falls as the temperature rises, whatever ordered
/// table the fan holds.
pub proof fn lemma_speed_monotonic(fan: FanView, config: Config, lower: i64, higher: i64)
    requires
        lower <= higher,
        config.state.min <= config.state.ceiling(fan.max_state),
        ordered(fan.temp_slots, config.state.min, config.state.ceiling(fan.max_state)),
    ensures
        speed(fan, config, lower) <= speed(fan, config, higher),
        config.state.min <= speed(fan, config, lower) <= config.state.ceiling(fan.max_state),
{
    let slots = fan.temp_slots;
    lemma_selected_monotonic(
        slots,
        lower,
        higher,
        config.state.min,
        config.state.ceiling(fan.max_state),
    );
    lemma_selected_monotonic(
        slots,
        lower,
        lower,
        config.state.min,
        config.state.ceiling(fan.max_state),
    );
    lemma_selected_monotonic(
        slots,
        higher,
        higher,
        config.state.min,
        config.state.ceiling(fan.max_state),
    );
    if slots.len() > 0 {
        assert(slots[slots.len() - 1].0 <= config.state.ceiling(fan.max_state));
    }
}

/// For a fan set up from an accepted configuration the chosen state never
/// falls as the temperature rises, and stays within the configured range.
pub proof fn lemma_fan_speed_monotonic(fan: FanView, config: Config, lower: i64, higher: i64)
    requires
        lower <= higher,
        config.accepts(fan.max_state),
        fan.temp_slots == table(config, fan.max_state),
    ensures
        speed(fan, config, lower) <= speed(fan, config, higher),
        config.state.min <= speed(fan, config, lower) <= config.state.ceiling(fan.max_state),
{
    lemma_table_ordered(config, fan.max_state);
    lemma_speed_monotonic(fan, config, lower, higher);
}

/// For a fan set up from an accepted configuration, a temperature between
/// the thresholds selects the state as far up the states above the lowest
/// one as the temperature is up the range between the thresholds, counted in
/// whole steps: with `n` slots, `n` at least 2, it is the state
/// `min + 1 + (temp - lower) * (n - 1) / (upper - lower)`, the quotient
/// rounded down.
pub proof fn lemma_speed_between_thresholds(fan: FanView, config: Config, temp: i64)
    requires
        config.accepts(fan.max_state),
        fan.temp_slots == table(config, fan.max_state),
        config.threshold.min <= temp <= config.threshold.max,
    ensures
        ({
            let slots = slot_count(config, fan.max_state);
            let span = config.threshold.max - config.threshold.min;
            speed(fan, config, temp) == if slots == 0 {
                config.state.min as int
            } else if slots == 1 {
                config.state.min + 1
            } else {
                config.state.min + 1 + ((temp - config.threshold.min) * (slots - 1)) / span
            }
        }),
{
    let slots = slot_count(config, fan.max_state);
    let span = config.threshold.max - config.threshold.min;
    let entries = fan.temp_slots;
    lemma_selected(entries, temp, config.state.min);
    if slots == 1 {
        lemma_breakpoint_bounds(config.threshold, slots, 0);
        assert(entries[0].1 == config.threshold.min);
    } else if slots > 1 {
        let d = slots - 1;
        let x = (temp - config.threshold.min) * d;
        let i = x / span;
        lemma_mul_inequality(0, temp - config.threshold.min, d);
        lemma_mul_inequality(temp - config.threshold.min, span, d);
        lemma_fundamental_div_mod(x, span);
        lemma_mod_bound(x, span);
        lemma_mul_is_commutative(span, i);
        lemma_mul_is_commutative(span, d);
        lemma_mul_is_distributive_sub_other_way(d, temp as int, config.threshold.min as int);
        assert(i * span <= x < i * span + span);
        assert(0 <= i <= d) by {
            if i < 0 {
                lemma_mul_inequality(i, -1, span);
            }
            if i > d {
                lemma_mul_inequality(d + 1, i, span);
                lemma_mul_is_distributive_add_other_way(span, d, 1);
            }
        }
        lemma_breakpoint_bounds(config.threshold, slots, i);
        lemma_breakpoint_reached(config.threshold, slots, i, temp as int);
        assert(entries[i].1 <= temp);
        assert forall|j: int| i < j < entries.len() implies (#[trigger] entries[j]).1 > temp by {
            lemma_breakpoint_bounds(config.threshold, slots, j);
            lemma_breakpoint_reached(config.threshold, slots, j, temp as int);
            lemma_mul_inequality(i + 1, j, span);
            lemma_mul_is_distributive_add_other_way(span, i, 1);
        }
    }
}

/// Where no state lies above the lowest one, the table is empty and the
/// lowest state is chosen at every temperature.
pub proof fn lemma_no_slots(fan: FanView, config: Config, temp: i64)
    requires
        config.state.ceiling(fan.max_state) == config.state.min,
        fan.temp_slots == table(config, fan.max_state),
    ensures
        fan.temp_slots.len() == 0,
        speed(fan, config, temp) == config.state.min,
{
}

/// Divides `a` by the positive `d` and rounds the quotient up.
fn div_ceil(a: i128, d: i128) -> (q: i128)
    requires
        0 < d <= u32::MAX,
        -0x1_0000_0000_0000_0000_0000_0000 < a < 0x1_0000_0000_0000_0000_0000_0000,
    ensures
        q == ceil_div(a as int, d as int),
{
    if a >= 0 {
        (a + (d - 1)) / d
    } else {
        let f = (-a) / d;
        proof {
            lemma_fundamental_div_mod(-a, d as int);
            lemma_mod_bound(-a, d as int);
            lemma_mul_is_commutative(d as int, f as int);
            lemma_mul_unary_negation(f as int, d as int);
            lemma_mul_is_distributive_sub_other_way(d as int, -f, 1);
            lemma_ceil_div_least(a as int, d as int, -f);
            lemma_ceil_div_least(a as int, d as int, -f - 1);
        }
        -f
    }
}

impl Fan {
    /// Reads the highest cooling state of a device out of what its
    /// `max_state` file holds.
    pub fn get_device_max_state(content: &str) -> (max_state: Result<u32, DeviceError>)
        ensures
            max_state == match spelled_u32(content@) {
                Some(value) => Ok::<u32, DeviceError>(value),
                None => Err(DeviceError::Parse),
            },
    {
        match parse_u32(content) {
            Some(value) => Ok(value),
            None => Err(DeviceError::Parse),
        }
    }

    /// Sets up the fan at `path` whose `max_state` file holds `max_state`.
    ///
    /// Fails where the text is no number, and where `config` does not fit a
    /// device with that highest state.
    pub fn new_fan_device(path: String, max_state: &str, config: &Config) -> (fan: Result<
        Fan,
        FanError,
    >)
        ensures
            match fan {
                Ok(fan) => fan_for(*config, path@, max_state@) == Ok::<FanView, FanError>(fan@),
                Err(error) => fan_for(*config, path@, max_state@) == Err::<FanView, FanError>(
                    error,
                ),
            },
    {
        let max_state = match Self::get_device_max_state(max_state) {
            Ok(value) => value,
            Err(error) => {
                return Err(FanError::Device(error));
            },
        };
        match config.check_config(max_state) {
            Ok(_) => {},
            Err(error) => {
                return Err(FanError::Config(error));
            },
        }
        let temp_slots = Self::get_temperature_slots(config, &max_state);
        Ok(Fan { path, max_state, temp_slots })
    }

    /// Picks the fan device out of what was found in the thermal directory:
    /// the path of the first entry that is a PWM fan.
    pub fn get_fan_device(entries: &Vec<ThermalEntry>) -> (path: Option<String>)
        ensures
            match path {
                Some(path) => first_fan(entries@, 0) matches Some(i) && path@ == entries[i].path@,
                None => first_fan(entries@, 0) is None,
            },
    {
        match find_fan(entries) {
            Some(i) => Some(entries[i].path.clone()),
            None => None,
        }
    }

    /// Finds the fan device in what was found in the thermal directory and
    /// sets it up.
    pub fn new(config: &Config, entries: &Vec<ThermalEntry>) -> (fan: Result<Fan, FanError>)
        ensures
            match fan {
                Ok(fan) => fan_among(*config, entries@) == Ok::<FanView, FanError>(fan@),
                Err(error) => fan_among(*config, entries@) == Err::<FanView, FanError>(error),
            },
    {
        match find_fan(entries) {
            Some(i) => {
                let entry = &entries[i];
                match &entry.max_state {
                    Some(text) => Self::new_fan_device(entry.path.clone(), text.as_str(), config),
                    None => Err(FanError::Device(DeviceError::Unavailable)),
                }
            },
            None => Err(FanError::Device(DeviceError::NotFound)),
        }
    }

    /// The path of the file through which the fan's state is set.
    pub fn state_path(&self) -> (path: String)
        ensures
            path@ == joined(self.path@, STATE_FILE@),
    {
        join(self.path.as_str(), STATE_FILE)
    }

    /// Computes the table for `config` on a device whose highest state is
    /// `max_state`.
    ///
    /// There is one slot for each state above the lowest one. A single slot
    /// begins at the lower threshold. Two or more divide the range between
    /// the thresholds evenly, from the lower threshold for the first to the
    /// upper threshold for the last.
    pub fn calculate_slots(config: &Config, max_state: u32) -> (slots: Vec<(u32, i64)>)
        requires
            config.state.min <= config.state.ceiling(max_state),
        ensures
            slots@ == table(*config, max_state),
            slots@.len() == config.state.ceiling(max_state) - config.state.min,
            slots@.len() > 0 ==> slots@.first().1 == config.threshold.min,
            slots@.len() > 1 ==> slots@.last().1 == config.threshold.max,
    {
        let num_slots: u32 = config.state.effective_max(max_state) - config.state.min;
        let span: i128 = config.threshold.max as i128 - config.threshold.min as i128;
        let mut slots: Vec<(u32, i64)> = Vec::new();
        let mut i: u32 = 0;
        while i < num_slots
            invariant
                i <= num_slots,
                num_slots == slot_count(*config, max_state),
                span == config.threshold.max - config.threshold.min,
                slots@ == table(*config, max_state).take(i as int),
            decreases num_slots - i,
        {
            let offset: i128 = if num_slots == 1 {
                0
            } else {
                proof {
                    lemma_mul_is_commutative(i as int, span as int);
                    if span >= 0 {
                        lemma_mul_inequality(0, i as int, span as int);
                        lemma_mul_inequality(i as int, 0x1_0000_0000, span as int);
                    } else {
                        lemma_mul_inequality(0, i as int, -span);
                        lemma_mul_inequality(i as int, 0x1_0000_0000, -span);
                        lemma_mul_unary_negation(i as int, span as int);
                        lemma_mul_unary_negation(0x1_0000_0000, span as int);
                    }
                }
                div_ceil(i as i128 * span, (num_slots - 1) as i128)
            };
            proof {
                lemma_breakpoint_bounds(config.threshold, num_slots as int, i as int);
            }
            let temp: i64 = (config.threshold.min as i128 + offset) as i64;
            slots.push((config.state.min + 1 + i, temp));
            assert(slots@ =~= table(*config, max_state).take(i + 1));
            i += 1;
        }
        proof {
            let whole = table(*config, max_state);
            assert(whole.take(num_slots as int) =~= whole);
            if num_slots > 0 {
                lemma_breakpoint_bounds(config.threshold, num_slots as int, 0);
                lemma_breakpoint_bounds(config.threshold, num_slots as int, num_slots - 1);
            }
        }
        slots
    }

    /// Computes the table for `config` on a device that reports `max_state`
    /// as its highest state. Where the highest state to select is 0 there is
    /// no state to choose from, and the table is empty.
    pub fn get_temperature_slots(config: &Config, max_state: &u32) -> (slots: Vec<(u32, i64)>)
        requires
            config.state.min <= config.state.ceiling(*max_state),
        ensures
            slots@ == table(*config, *max_state),
    {
        let max_state = config.state.effective_max(*max_state);
        if max_state == 0 {
            let slots: Vec<(u32, i64)> = Vec::new();
            assert(slots@ =~= table(*config, max_state));
            return slots;
        }
        Self::calculate_slots(config, max_state)
    }

    /// Chooses the cooling state for `current_temp`.
    ///
    /// Below the lower threshold it is the lowest state, above the upper
    /// threshold the highest. Between them it is the state of the last slot
    /// whose breakpoint the temperature has reached, and the lowest state
    /// where it has reached none.
    pub fn choose_speed(&self, current_temp: i64, config: &Config) -> (state: u32)
        ensures
            state == speed(self@, *config, current_temp),
            current_temp < config.threshold.min ==> state == config.state.min,
            config.threshold.min <= config.threshold.max < current_temp ==> state
                == config.state.ceiling(self.max_state),
    {
        if current_temp < config.threshold.min {
            config.state.min
        } else if current_temp <= config.threshold.max {
            let mut i: usize = self.temp_slots.len();
            assert(self.temp_slots@.take(i as int) =~= self.temp_slots@);
            while i > 0
                invariant
                    i <= self.temp_slots.len(),
                    config.threshold.min <= current_temp <= config.threshold.max,
                    selected(self.temp_slots@, current_temp, config.state.min) == selected(
                        self.temp_slots@.take(i as int),
                        current_temp,
                        config.state.min,
                    ),
                decreases i,
            {
                let slot = self.temp_slots[i - 1];
                if slot.1 <= current_temp {
                    return slot.0;
                }
                assert(self.temp_slots@.take(i as int).drop_last() =~= self.temp_slots@.take(
                    i - 1,
                ));
                i -= 1;
            }
            config.state.min
        } else {
            config.state.effective_max(self.max_state)
        }
    }
}

} // verus!
