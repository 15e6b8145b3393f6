//! Whole turns of the controller, and what holds of them.
//!
//! A turn is the run of steps from a tick to the end. What the outside world
//! answers along the way is fixed by its [`Surroundings`]; the laws below say
//! what the controller then asks for and what becomes of it.

use vstd::prelude::*;
use crate::checker::ActionView;
use crate::checker::CheckerView;
use crate::checker::EventView;
use crate::checker::Outcome;
use crate::config::ConfigError;
use crate::fan::fan_among;
use crate::fan::speed;
use crate::fan::table;
use crate::fan::STATE_FILE;
use crate::temp::reading;
use crate::text::joined;
use crate::thermal::ThermalEntry;

verus! {

/// What the outside world holds while a turn runs.
pub struct Surroundings {
    /// The entries of the thermal directory.
    pub entries: Seq<ThermalEntry>,
    /// What the sensor's file holds, or `None` where it cannot be read.
    pub temperature: Option<Seq<char>>,
    /// Whether the fan's state file can be written.
    pub writable: bool,
}

/// A turn as it went.
pub struct Course {
    /// The controller after the turn.
    pub after: CheckerView,
    /// What the controller asked for, in order.
    pub actions: Seq<ActionView>,
    /// The error that ended the turn, if one did.
    pub error: Option<ConfigError>,
}

impl Surroundings {
    /// What the world answers to `action`.
    pub open spec fn answer(self, action: ActionView) -> EventView {
        match action {
            ActionView::DiscoverFan => EventView::Entries(self.entries),
            ActionView::DiscoverSensor => EventView::Entries(self.entries),
            ActionView::ReadTemperature { .. } => EventView::Temperature(self.temperature),
            ActionView::WriteState { .. } => EventView::Written(self.writable),
            ActionView::Done(_) => EventView::Tick,
        }
    }
}

/// The course that `checker` takes when it is told `event` and every action
/// it asks for is answered by `world`, for `steps` more steps at most.
pub open spec fn course(checker: CheckerView, event: EventView, world: Surroundings, steps: nat)
    -> Course
    decreases steps,
{
    let (next, result) = checker.step(event);
    match result {
        Err(error) => Course { after: next, actions: Seq::empty(), error: Some(error) },
        Ok(action) => {
            if action is Done || steps == 0 {
                Course { after: next, actions: seq![action], error: None }
            } else {
                let rest = course(next, world.answer(action), world, (steps - 1) as nat);
                Course { actions: seq![action] + rest.actions, ..rest }
            }
        },
    }
}

/// The turn that `checker` takes in `world`. No turn takes more than five
/// steps: one each to find the fan, to find the sensor, to read, to write
/// and to end.
pub open spec fn turn(checker: CheckerView, world: Surroundings) -> Course {
    course(checker, EventView::Tick, world, 4)
}

/// How many of `actions` are writes to the fan.
pub open spec fn writes(actions: Seq<ActionView>) -> nat
    decreases actions.len(),
{
    if actions.len() == 0 {
        0
    } else {
        writes(actions.drop_last()) + if actions.last() is WriteState {
            1nat
        } else {
            0nat
        }
    }
}

impl Course {
    /// How the turn ended, where it ended without an error.
    pub open spec fn outcome(self) -> Option<Outcome> {
        if self.error is None && self.actions.len() > 0 && self.actions.last() is Done {
            Some(self.actions.last()->Done_0)
        } else {
            None
        }
    }
}

/// A step leaves the configuration alone, never takes back that the fan was
/// written to, and changes the state last applied only when it is told that
/// the state it asked for was written.
pub proof fn lemma_step_keeps(checker: CheckerView, event: EventView)
    ensures
        checker.step(event).0.config == checker.config,
        checker.is_init ==> checker.step(event).0.is_init,
        checker.step(event).0.last_state != checker.last_state || checker.step(event).0.is_init
            != checker.is_init ==> checker.phase is Writing && event == EventView::Written(true)
            && checker.step(event).0.last_state == Some(checker.phase->state)
            && checker.step(event).0.is_init,
{
}

/// A turn that starts at rest ends at rest, with an error or with
/// [`ActionView::Done`] as the last thing asked for and nowhere before, and
/// writes to the fan once at most.
pub proof fn lemma_turn_ends(checker: CheckerView, world: Surroundings)
    requires
        checker.phase is Idle,
    ensures
        turn(checker, world).after.phase is Idle,
        turn(checker, world).after.config == checker.config,
        turn(checker, world).actions.len() <= 5,
        turn(checker, world).error is None ==> turn(checker, world).outcome() is Some,
        forall|k: int|
            0 <= k < turn(checker, world).actions.len() - 1 ==> !(#[trigger] turn(
                checker,
                world,
            ).actions[k] is Done),
        writes(turn(checker, world).actions) <= 1,
{
    reveal_with_fuel(course, 5);
    reveal_with_fuel(writes, 6);
    let t = turn(checker, world);
    assert(t.actions.len() <= 5);
}

/// Whether nothing failed in the turn: it ended with the chosen state
/// applied, freshly or from before.
pub open spec fn went_well(turn: Course) -> bool {
    turn.outcome() matches Some(outcome) && (outcome is Applied || outcome is Unchanged)
}

/// A turn at whose start the controller knows both devices and has applied
/// the state that the temperature calls for: it reads the temperature and
/// ends, and the controller is as it was.
proof fn lemma_turn_of_settled(checker: CheckerView, world: Surroundings, state: u32)
    requires
        checker.phase is Idle,
        checker.fan_device is Some,
        checker.temp_device is Some,
        world.temperature is Some,
        reading(world.temperature->0) is Ok,
        state == speed(
            checker.fan_device->0,
            checker.config,
            reading(world.temperature->0)->Ok_0,
        ),
        checker.last_state == Some(state),
    ensures
        turn(checker, world).after == checker,
        turn(checker, world).error is None,
        turn(checker, world).actions == seq![
            ActionView::ReadTemperature { path: checker.temp_device->0.path },
            ActionView::Done(Outcome::Unchanged { state }),
        ],
{
    reveal_with_fuel(course, 2);
    let (reading_checker, first) = checker.step(EventView::Tick);
    let second = reading_checker.step(world.answer(first->Ok_0));
    assert(second.0 == checker);
    assert(turn(checker, world).actions =~= seq![first->Ok_0, second.1->Ok_0]);
}

/// What a turn in which nothing failed leaves behind: both devices known,
/// and the state that the temperature calls for applied.
proof fn lemma_turn_that_went_well(checker: CheckerView, world: Surroundings)
    requires
        checker.phase is Idle,
        went_well(turn(checker, world)),
    ensures
        ({
            let first = turn(checker, world);
            let fan = first.after.fan_device->0;
            let state = speed(fan, checker.config, reading(world.temperature->0)->Ok_0);
            &&& first.after.phase is Idle
            &&& first.after.config == checker.config
            &&& first.after.fan_device is Some
            &&& first.after.temp_device is Some
            &&& world.temperature is Some
            &&& reading(world.temperature->0) is Ok
            &&& first.after.last_state == Some(state)
            &&& first.outcome() == Some(
                if checker.last_state == Some(state) {
                    Outcome::Unchanged { state }
                } else {
                    Outcome::Applied { state }
                },
            )
        }),
{
    reveal_with_fuel(course, 5);
}

/// A turn writes to the fan exactly when it ends with the state applied or
/// with the write failed.
proof fn lemma_writes_of_turn(checker: CheckerView, world: Surroundings)
    requires
        checker.phase is Idle,
    ensures
        writes(turn(checker, world).actions) == if turn(checker, world).outcome() matches Some(
            outcome,
        ) && (outcome is Applied || outcome is WriteFailed) {
            1nat
        } else {
            0nat
        },
{
    reveal_with_fuel(course, 5);
    reveal_with_fuel(writes, 6);
}

/// Two turns in a row, in surroundings that stay as they are and in which
/// nothing fails, write to the fan once at most, and exactly once where the
/// controller had not applied the chosen state before (as when it has
/// applied none yet). The second turn writes nothing: it finds the chosen
/// state applied and leaves the controller as it is.
pub proof fn lemma_second_turn_writes_nothing(checker: CheckerView, world: Surroundings)
    requires
        checker.phase is Idle,
        went_well(turn(checker, world)),
    ensures
        ({
            let first = turn(checker, world);
            let second = turn(first.after, world);
            let fan = first.after.fan_device->0;
            let state = speed(fan, checker.config, reading(world.temperature->0)->Ok_0);
            &&& first.after.fan_device is Some
            &&& first.after.last_state == Some(state)
            &&& first.outcome() == Some(
                if checker.last_state == Some(state) {
                    Outcome::Unchanged { state }
                } else {
                    Outcome::Applied { state }
                },
            )
            &&& writes(first.actions) == if checker.last_state == Some(state) {
                0nat
            } else {
                1nat
            }
            &&& second.outcome() == Some(Outcome::Unchanged { state })
            &&& second.after == first.after
            &&& writes(second.actions) == 0
            &&& checker.last_state is None ==> writes(first.actions) + writes(second.actions) == 1
        }),
{
    let first = turn(checker, world);
    let fan = first.after.fan_device->0;
    let state = speed(fan, checker.config, reading(world.temperature->0)->Ok_0);
    lemma_turn_that_went_well(checker, world);
    lemma_writes_of_turn(checker, world);
    lemma_turn_of_settled(first.after, world, state);
    lemma_writes_of_turn(first.after, world);
}

/// What a turn in which the write failed leaves behind: no fan, and
/// everything else as it was or as the turn found it.
proof fn lemma_turn_that_failed_to_write(checker: CheckerView, world: Surroundings)
    requires
        checker.phase is Idle,
        turn(checker, world).outcome() matches Some(outcome) && outcome is WriteFailed,
    ensures
        turn(checker, world).after.phase is Idle,
        turn(checker, world).after.config == checker.config,
        turn(checker, world).after.fan_device is None,
        turn(checker, world).after.last_state == checker.last_state,
        turn(checker, world).after.is_init == checker.is_init,
{
    reveal_with_fuel(course, 5);
}

/// A turn at whose start the controller knows no fan begins by looking for
/// one, and whatever it writes, it writes later and to the fan it has found.
proof fn lemma_turn_without_fan(checker: CheckerView, world: Surroundings)
    requires
        checker.phase is Idle,
        checker.fan_device is None,
    ensures
        ({
            let turn = turn(checker, world);
            &&& turn.actions.len() > 0
            &&& turn.actions[0] == ActionView::DiscoverFan
            &&& forall|k: int|
                0 <= k < turn.actions.len() && #[trigger] turn.actions[k] is WriteState ==> {
                    &&& k > 0
                    &&& fan_among(checker.config, world.entries) matches Ok(fan)
                    &&& turn.actions[k] == ActionView::WriteState {
                        path: joined(fan.path, STATE_FILE@),
                        state: speed(
                            fan,
                            checker.config,
                            reading(world.temperature->0)->Ok_0,
                        ),
                    }
                }
        }),
{
    reveal_with_fuel(course, 5);
    let found = checker.step(EventView::Tick);
    assert(found.1 == Ok::<ActionView, ConfigError>(ActionView::DiscoverFan));
    let turn = turn(checker, world);
    assert(turn.actions[0] == ActionView::DiscoverFan);
}

/// After a turn in which the write to the fan failed, the controller knows
/// no fan, and what it last applied is what it was before. Its next turn
/// begins by looking for the fan. Whatever it then writes, it writes after
/// that, to the fan it has found, and it is the state that the table
/// computed anew for that fan gives for the temperature.
pub proof fn lemma_recovery(checker: CheckerView, failing: Surroundings, later: Surroundings)
    requires
        checker.phase is Idle,
        turn(checker, failing).outcome() matches Some(outcome) && outcome is WriteFailed,
    ensures
        ({
            let first = turn(checker, failing);
            let second = turn(first.after, later);
            &&& first.after.fan_device is None
            &&& first.after.last_state == checker.last_state
            &&& first.after.is_init == checker.is_init
            &&& second.actions.len() > 0
            &&& second.actions[0] == ActionView::DiscoverFan
            &&& forall|k: int|
                0 <= k < second.actions.len() && #[trigger] second.actions[k] is WriteState ==> {
                    &&& k > 0
                    &&& fan_among(checker.config, later.entries) matches Ok(fan)
                    &&& fan.temp_slots == table(checker.config, fan.max_state)
                    &&& second.actions[k] == ActionView::WriteState {
                        path: joined(fan.path, STATE_FILE@),
                        state: speed(
                            fan,
                            checker.config,
                            reading(later.temperature->0)->Ok_0,
                        ),
                    }
                }
        }),
{
    lemma_turn_that_failed_to_write(checker, failing);
    lemma_turn_without_fan(turn(checker, failing).after, later);
}

} // verus!
