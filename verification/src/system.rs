//! The parts together: task units that run side by side and report to one
//! state owner.
//!
//! The units share the state owner's channel. The channel keeps the order in
//! which messages are sent, so what the state owner receives is decided by
//! the order in which the units get to act: a schedule. What is proved here
//! holds of every schedule.

use crate::background::{TaskSpec, TaskUnit, UnitAction, UnitPhase};
use crate::tui::{TuiEvent, TuiView, MAX_ACTIVE_TASKS};
use vstd::prelude::*;

verus! {

/// Task units at work, and the messages that they have sent to the state
/// owner so far, in the order in which the channel took them.
pub struct SystemView {
    pub units: Seq<TaskUnit>,
    pub inbox: Seq<TuiEvent>,
}

/// How many of the units are in the given phase.
pub open spec fn units_in(units: Seq<TaskUnit>, phase: UnitPhase) -> nat
    decreases units.len(),
{
    if units.len() == 0 {
        0
    } else if units.last().phase == phase {
        units_in(units.drop_last(), phase) + 1
    } else {
        units_in(units.drop_last(), phase)
    }
}

/// How many of the units count as active: they have announced their start
/// and not yet reported their end.
pub open spec fn active_units(units: Seq<TaskUnit>) -> nat {
    units_in(units, UnitPhase::Working) + units_in(units, UnitPhase::Finishing)
}

/// How many of the messages ask to change the count by exactly `delta`.
pub open spec fn tally(inbox: Seq<TuiEvent>, delta: i16) -> nat
    decreases inbox.len(),
{
    if inbox.len() == 0 {
        0
    } else if inbox.last() == TuiEvent::ModifyCount(delta) {
        tally(inbox.drop_last(), delta) + 1
    } else {
        tally(inbox.drop_last(), delta)
    }
}

/// How many of the messages report the start of a unit.
pub open spec fn increments(inbox: Seq<TuiEvent>) -> nat {
    tally(inbox, 1i16)
}

/// How many of the messages report the end of a unit.
pub open spec fn decrements(inbox: Seq<TuiEvent>) -> nat {
    tally(inbox, -1i16)
}

impl SystemView {
    /// The system in which one unit has been started for each request and
    /// none has acted yet.
    pub open spec fn launched(requests: Seq<TaskSpec>) -> SystemView {
        SystemView {
            units: requests.map_values(|spec: TaskSpec| TaskUnit::fresh(spec)),
            inbox: Seq::empty(),
        }
    }

    /// The system after the unit with the given number has carried out its
    /// pending action. The state owner is there, so a message is delivered.
    /// A number that names no unit changes nothing, nor does a unit that is
    /// done.
    pub open spec fn advance(self, unit: int) -> SystemView {
        if 0 <= unit < self.units.len() {
            SystemView {
                units: self.units.update(unit, self.units[unit].after(true)),
                inbox: match self.units[unit].action() {
                    Some(UnitAction::Notify(message)) => self.inbox.push(message),
                    _ => self.inbox,
                },
            }
        } else {
            self
        }
    }

    /// The system after the units have acted in the order of the schedule,
    /// which names the acting unit for each step.
    pub open spec fn run(self, schedule: Seq<int>) -> SystemView
        decreases schedule.len(),
    {
        if schedule.len() == 0 {
            self
        } else {
            self.run(schedule.drop_last()).advance(schedule.last())
        }
    }

    /// Whether every unit is done.
    pub open spec fn all_done(self) -> bool {
        forall|i: int| 0 <= i < self.units.len() ==> (#[trigger] self.units[i]).phase
            == UnitPhase::Done
    }
}

/// Every unit is in one of the four phases.
proof fn lemma_phases_partition(units: Seq<TaskUnit>)
    ensures
        units_in(units, UnitPhase::Starting) + units_in(units, UnitPhase::Working) + units_in(
            units,
            UnitPhase::Finishing,
        ) + units_in(units, UnitPhase::Done) == units.len(),
    decreases units.len(),
{
    if units.len() > 0 {
        lemma_phases_partition(units.drop_last());
    }
}

/// Moving one unit to another phase takes one from the count of the phase
/// that it leaves and adds one to that of the phase that it enters.
proof fn lemma_units_in_update(units: Seq<TaskUnit>, at: int, unit: TaskUnit, phase: UnitPhase)
    requires
        0 <= at < units.len(),
    ensures
        units_in(units.update(at, unit), phase) + (if units[at].phase == phase {
            1int
        } else {
            0int
        }) == units_in(units, phase) + (if unit.phase == phase {
            1int
        } else {
            0int
        }),
    decreases units.len(),
{
    let changed = units.update(at, unit);
    if at == units.len() - 1 {
        assert(changed.drop_last() =~= units.drop_last());
    } else {
        assert(changed.drop_last() =~= units.drop_last().update(at, unit));
        lemma_units_in_update(units.drop_last(), at, unit, phase);
    }
}

/// Where every unit is in one phase, the count of that phase is the number
/// of units.
proof fn lemma_all_in_one_phase(units: Seq<TaskUnit>, phase: UnitPhase)
    requires
        forall|i: int| 0 <= i < units.len() ==> (#[trigger] units[i]).phase == phase,
    ensures
        units_in(units, phase) == units.len(),
    decreases units.len(),
{
    if units.len() > 0 {
        lemma_all_in_one_phase(units.drop_last(), phase);
    }
}

/// The units account for every message: whatever the schedule, the state
/// owner has been sent one increment for each unit that has announced its
/// start, one decrement for each unit that is done, and nothing else.
pub proof fn lemma_messages_match_units(requests: Seq<TaskSpec>, schedule: Seq<int>)
    ensures
        ({
            let system = SystemView::launched(requests).run(schedule);
            &&& system.units.len() == requests.len()
            &&& increments(system.inbox) + units_in(system.units, UnitPhase::Starting)
                == requests.len()
            &&& decrements(system.inbox) == units_in(system.units, UnitPhase::Done)
            &&& increments(system.inbox) + decrements(system.inbox) == system.inbox.len()
        }),
    decreases schedule.len(),
{
    let fresh = SystemView::launched(requests);
    if schedule.len() == 0 {
        lemma_all_in_one_phase(fresh.units, UnitPhase::Starting);
        lemma_phases_partition(fresh.units);
    } else {
        let before = fresh.run(schedule.drop_last());
        let unit = schedule.last();
        lemma_messages_match_units(requests, schedule.drop_last());
        if 0 <= unit < before.units.len() {
            let moved = before.units[unit].after(true);
            lemma_units_in_update(before.units, unit, moved, UnitPhase::Starting);
            lemma_units_in_update(before.units, unit, moved, UnitPhase::Done);
            if before.units[unit].action() matches Some(UnitAction::Notify(_)) {
                assert(before.advance(unit).inbox.drop_last() =~= before.inbox);
            }
        }
    }
}

/// Launching any number of operations makes exactly that many increments
/// and, once every unit is done, exactly that many decrements reach the
/// state owner, in whatever order the units act and end.
pub proof fn lemma_launches_balance(requests: Seq<TaskSpec>, schedule: Seq<int>)
    requires
        SystemView::launched(requests).run(schedule).all_done(),
    ensures
        increments(SystemView::launched(requests).run(schedule).inbox) == requests.len(),
        decrements(SystemView::launched(requests).run(schedule).inbox) == requests.len(),
        SystemView::launched(requests).run(schedule).inbox.len() == 2 * requests.len(),
{
    let system = SystemView::launched(requests).run(schedule);
    lemma_messages_match_units(requests, schedule);
    lemma_all_in_one_phase(system.units, UnitPhase::Done);
    lemma_phases_partition(system.units);
}

/// The count that the state owner keeps is the number of active units: if
/// it starts at zero and no more units are launched than it can count, then
/// after any schedule it has been told of every start and every end, it
/// holds the number of units that are at work, and it never had to clamp.
/// When every unit is done, it is back at zero.
pub proof fn lemma_count_follows_units(
    owner: TuiView,
    requests: Seq<TaskSpec>,
    schedule: Seq<int>,
)
    requires
        owner.active_tasks == 0,
        requests.len() <= MAX_ACTIVE_TASKS,
    ensures
        ({
            let system = SystemView::launched(requests).run(schedule);
            &&& owner.after(system.inbox).active_tasks == active_units(system.units)
            &&& owner.clamps(system.inbox) == Seq::<i32>::empty()
            &&& system.all_done() ==> owner.after(system.inbox).active_tasks == 0
        }),
    decreases schedule.len(),
{
    let fresh = SystemView::launched(requests);
    let system = fresh.run(schedule);
    lemma_messages_match_units(requests, schedule);
    lemma_phases_partition(system.units);
    if schedule.len() == 0 {
        lemma_all_in_one_phase(fresh.units, UnitPhase::Starting);
    } else {
        let before = fresh.run(schedule.drop_last());
        let unit = schedule.last();
        lemma_count_follows_units(owner, requests, schedule.drop_last());
        lemma_messages_match_units(requests, schedule.drop_last());
        lemma_phases_partition(before.units);
        if 0 <= unit < before.units.len() {
            let moved = before.units[unit].after(true);
            lemma_units_in_update(before.units, unit, moved, UnitPhase::Working);
            lemma_units_in_update(before.units, unit, moved, UnitPhase::Finishing);
            if before.units[unit].action() matches Some(UnitAction::Notify(_)) {
                assert(system.inbox.drop_last() =~= before.inbox);
            }
        }
    }
    if system.all_done() {
        lemma_all_in_one_phase(system.units, UnitPhase::Done);
    }
}

/// How often the schedule lets the given unit act.
pub open spec fn turns_of(schedule: Seq<int>, unit: int) -> nat
    decreases schedule.len(),
{
    if schedule.len() == 0 {
        0
    } else if schedule.last() == unit {
        turns_of(schedule.drop_last(), unit) + 1
    } else {
        turns_of(schedule.drop_last(), unit)
    }
}

/// The phase of a unit that has acted the given number of times.
pub open spec fn phase_after(turns: nat) -> UnitPhase {
    if turns == 0 {
        UnitPhase::Starting
    } else if turns == 1 {
        UnitPhase::Working
    } else if turns == 2 {
        UnitPhase::Finishing
    } else {
        UnitPhase::Done
    }
}

/// How far a unit has come depends on nothing but how often it got to act:
/// the other units neither hold it up nor push it on. So every unit that
/// the schedule lets act three times is done.
pub proof fn lemma_units_progress(requests: Seq<TaskSpec>, schedule: Seq<int>, unit: int)
    requires
        0 <= unit < requests.len(),
    ensures
        SystemView::launched(requests).run(schedule).units.len() == requests.len(),
        SystemView::launched(requests).run(schedule).units[unit] == (TaskUnit {
            spec: requests[unit],
            phase: phase_after(turns_of(schedule, unit)),
        }),
    decreases schedule.len(),
{
    if schedule.len() > 0 {
        lemma_units_progress(requests, schedule.drop_last(), unit);
    }
}

} // verus!
