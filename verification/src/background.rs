//! Background work: the requests for it, the units that do it, and the
//! manager that starts the units and waits for them.

use crate::tui::TuiEvent;
use vstd::prelude::*;

verus! {

/// A request for one background operation. It carries no address for an
/// answer: a unit reports to the state owner by messages.
#[derive(Clone, Copy, Debug, PartialEq, Eq, Structural)]
pub enum TaskSpec {
    /// Wait for a few seconds and do nothing else.
    SleepTest,
}

/// How long the demonstration task waits, in seconds.
pub const SLEEP_TEST_SECONDS: u64 = 5;

/// How far a task unit has come.
#[derive(Clone, Copy, Debug, PartialEq, Eq, Structural)]
pub enum UnitPhase {
    /// It has yet to tell the state owner that it starts.
    Starting,
    /// It has told the state owner and does its work.
    Working,
    /// Its work has ended and it has yet to tell the state owner.
    Finishing,
    /// It has nothing left to do.
    Done,
}

/// What a task unit does next.
#[derive(Clone, Copy, Debug, PartialEq, Eq, Structural)]
pub enum UnitAction {
    /// Send this message to the state owner.
    Notify(TuiEvent),
    /// Wait for this many seconds.
    Sleep(u64),
}

/// One background operation from its start to its end.
#[derive(Clone, Copy, Debug, PartialEq, Eq, Structural)]
pub struct TaskUnit {
    /// The request that the unit serves.
    pub spec: TaskSpec,
    /// How far it has come.
    pub phase: UnitPhase,
}

impl TaskSpec {
    /// The work that a unit does for this request.
    pub open spec fn work(self) -> UnitAction {
        match self {
            TaskSpec::SleepTest => UnitAction::Sleep(SLEEP_TEST_SECONDS),
        }
    }
}

impl UnitPhase {
    /// The phase that follows when the action of this phase has ended, well
    /// (`ok`) or not.
    ///
    /// A unit whose first message is not delivered does no work: the state
    /// owner is gone. Once the work has begun, its end is reported however
    /// it ended, and the unit is done whether or not that report arrives.
    pub open spec fn next(self, ok: bool) -> UnitPhase {
        match self {
            UnitPhase::Starting => if ok {
                UnitPhase::Working
            } else {
                UnitPhase::Done
            },
            UnitPhase::Working => UnitPhase::Finishing,
            UnitPhase::Finishing => UnitPhase::Done,
            UnitPhase::Done => UnitPhase::Done,
        }
    }
}

impl TaskUnit {
    /// The unit for a request, before it has done anything.
    pub open spec fn fresh(spec: TaskSpec) -> TaskUnit {
        TaskUnit { spec, phase: UnitPhase::Starting }
    }

    /// What the unit does in its phase; nothing when it is done.
    pub open spec fn action(self) -> Option<UnitAction> {
        match self.phase {
            UnitPhase::Starting => Some(UnitAction::Notify(TuiEvent::ModifyCount(1i16))),
            UnitPhase::Working => Some(self.spec.work()),
            UnitPhase::Finishing => Some(UnitAction::Notify(TuiEvent::ModifyCount(-1i16))),
            UnitPhase::Done => None,
        }
    }

    /// The unit after the action of its phase has ended.
    pub open spec fn after(self, ok: bool) -> TaskUnit {
        TaskUnit { spec: self.spec, phase: self.phase.next(ok) }
    }

    /// Makes the unit for a request.
    pub fn new(spec: TaskSpec) -> (unit: TaskUnit)
        ensures
            unit == TaskUnit::fresh(spec),
    {
        TaskUnit { spec, phase: UnitPhase::Starting }
    }

    /// Returns what the unit has to do next, or `None` when it is done.
    pub fn pending(&self) -> (action: Option<UnitAction>)
        ensures
            action == self.action(),
    {
        match self.phase {
            UnitPhase::Starting => Some(UnitAction::Notify(TuiEvent::ModifyCount(1))),
            UnitPhase::Working => match self.spec {
                TaskSpec::SleepTest => Some(UnitAction::Sleep(SLEEP_TEST_SECONDS)),
            },
            UnitPhase::Finishing => Some(UnitAction::Notify(TuiEvent::ModifyCount(-1))),
            UnitPhase::Done => None,
        }
    }

    /// Records that the pending action has ended: a message was delivered
    /// (`ok`) or not, the work went well (`ok`) or not.
    pub fn completed(&mut self, ok: bool)
        ensures
            *final(self) == old(self).after(ok),
    {
        self.phase = match self.phase {
            UnitPhase::Starting => if ok {
                UnitPhase::Working
            } else {
                UnitPhase::Done
            },
            UnitPhase::Working => UnitPhase::Finishing,
            UnitPhase::Finishing => UnitPhase::Done,
            UnitPhase::Done => UnitPhase::Done,
        };
    }
}

/// The life of a unit: it announces its start with one increment before
/// any work; if that arrives, it works, and then reports its end with one
/// decrement however the work went; after that, or at once if the
/// announcement did not arrive, it does nothing more.
pub proof fn lemma_unit_lifecycle(spec: TaskSpec, worked: bool, reported: bool)
    ensures
        TaskUnit::fresh(spec).action() == Some(UnitAction::Notify(TuiEvent::ModifyCount(1i16))),
        TaskUnit::fresh(spec).after(false).action() is None,
        TaskUnit::fresh(spec).after(true).action() == Some(spec.work()),
        TaskUnit::fresh(spec).after(true).after(worked).action() == Some(
            UnitAction::Notify(TuiEvent::ModifyCount(-1i16)),
        ),
        TaskUnit::fresh(spec).after(true).after(worked).after(reported).action() is None,
{
}

/// What the manager does next.
#[derive(Debug, PartialEq, Eq)]
pub enum ManagerAction<H> {
    /// Wait for the next request.
    Receive,
    /// Start this unit, with a sender to the state owner of its own, and
    /// report the handle of the running unit.
    Spawn(TaskUnit),
    /// Wait for the unit with this handle to end, and report how it ended.
    Join(H),
    /// Every unit has been waited for: return.
    Return,
}

/// What happened to the manager's last action.
#[derive(Debug, PartialEq, Eq)]
pub enum ManagerEvent<H> {
    /// Waiting for a request gave a request, or `None` when the channel has
    /// no sender left.
    Received(Option<TaskSpec>),
    /// The unit was started and runs under this handle.
    Spawned(H),
    /// The unit that was waited for has ended: well (`true`), or by a
    /// failure of its own (`false`).
    Joined(bool),
}

/// One request of a script for the manager, with the way in which the unit
/// that is started for it will end.
#[derive(Clone, Copy, Debug, PartialEq, Eq, Structural)]
pub struct Launch {
    pub spec: TaskSpec,
    pub ends_well: bool,
}

/// What a run of the manager did. Units are named by the number of their
/// request, counted from zero.
#[derive(Debug)]
pub struct ManagerReport {
    /// The units that were started, in order.
    pub spawned: Vec<TaskUnit>,
    /// The units that were waited for, in order.
    pub joined: Vec<usize>,
    /// Those among them that ended by a failure, in order.
    pub failed: Vec<usize>,
}

/// The background manager. It keeps the handle of every unit it has started
/// and hands each one out again to be waited for; `H` is the type of the
/// handles.
pub struct Manager<H> {
    /// The handles of the units that have not been waited for, oldest first.
    registry: Vec<H>,
    /// Whether the channel of requests has been found closed.
    closed: bool,
}

/// The manager as a mathematical value.
pub struct ManagerView<H> {
    pub registry: Seq<H>,
    pub closed: bool,
}

impl<H> ManagerView<H> {
    /// The manager before it has received anything.
    pub open spec fn start() -> ManagerView<H> {
        ManagerView { registry: Seq::empty(), closed: false }
    }

    /// Whether the manager has nothing left to do.
    pub open spec fn finished(self) -> bool {
        self.closed && self.registry.len() == 0
    }

    /// The manager after it has gone on with its loop, and what it does
    /// next. While requests can come, it receives. After that it waits for
    /// the oldest unit that is left, and returns when none is.
    pub open spec fn proceed(self) -> (ManagerView<H>, ManagerAction<H>) {
        if !self.closed {
            (self, ManagerAction::Receive)
        } else if self.registry.len() > 0 {
            (
                ManagerView { registry: self.registry.drop_first(), closed: true },
                ManagerAction::Join(self.registry[0]),
            )
        } else {
            (self, ManagerAction::Return)
        }
    }

    /// The manager after an event, and what it does next.
    ///
    /// A request is answered by starting one unit for it. A handle is kept,
    /// whenever it comes. How a unit ended changes nothing. Once the channel
    /// has been found closed, no request is served any more.
    pub open spec fn step(self, event: ManagerEvent<H>) -> (ManagerView<H>, ManagerAction<H>) {
        match event {
            ManagerEvent::Received(Some(spec)) => if self.closed {
                self.proceed()
            } else {
                (self, ManagerAction::Spawn(TaskUnit::fresh(spec)))
            },
            ManagerEvent::Received(None) => ManagerView {
                registry: self.registry,
                closed: true,
            }.proceed(),
            ManagerEvent::Spawned(handle) => ManagerView {
                registry: self.registry.push(handle),
                closed: self.closed,
            }.proceed(),
            ManagerEvent::Joined(_) => self.proceed(),
        }
    }

    /// The manager after these events, and the action that it took on each.
    pub open spec fn run(self, events: Seq<ManagerEvent<H>>) -> (
        ManagerView<H>,
        Seq<ManagerAction<H>>,
    )
        decreases events.len(),
    {
        if events.len() == 0 {
            (self, Seq::empty())
        } else {
            let (next, action) = self.step(events[0]);
            let (last, actions) = next.run(events.drop_first());
            (last, seq![action] + actions)
        }
    }
}

/// The handles that these events report as started, in order.
pub open spec fn started_handles<H>(events: Seq<ManagerEvent<H>>) -> Seq<H>
    decreases events.len(),
{
    if events.len() == 0 {
        Seq::empty()
    } else {
        let later = started_handles(events.drop_first());
        match events[0] {
            ManagerEvent::Spawned(handle) => seq![handle] + later,
            _ => later,
        }
    }
}

/// The handles that these actions wait for, in order.
pub open spec fn joined_handles<H>(actions: Seq<ManagerAction<H>>) -> Seq<H>
    decreases actions.len(),
{
    if actions.len() == 0 {
        Seq::empty()
    } else {
        let later = joined_handles(actions.drop_first());
        match actions[0] {
            ManagerAction::Join(handle) => seq![handle] + later,
            _ => later,
        }
    }
}

/// The events by which units report how they ended, one for each of the
/// given endings.
pub open spec fn joins<H>(endings: Seq<bool>) -> Seq<ManagerEvent<H>> {
    endings.map_values(|ok: bool| ManagerEvent::Joined(ok))
}

/// No unit is abandoned: whatever happens, the handles that the manager
/// held or was given are those that it has handed out to be waited for,
/// followed by those that it still holds, all in their order.
pub proof fn lemma_no_unit_abandoned<H>(manager: ManagerView<H>, events: Seq<ManagerEvent<H>>)
    ensures
        manager.run(events).1.len() == events.len(),
        manager.registry + started_handles(events) == joined_handles(manager.run(events).1)
            + manager.run(events).0.registry,
    decreases events.len(),
{
    if events.len() > 0 {
        let (next, action) = manager.step(events[0]);
        let rest = events.drop_first();
        lemma_no_unit_abandoned(next, rest);
        let (last, actions) = next.run(rest);
        let all = seq![action] + actions;
        assert(all.drop_first() =~= actions);
        if let ManagerAction::Join(handle) = action {
            assert(joined_handles(all) + last.registry =~= seq![handle] + (joined_handles(
                actions,
            ) + last.registry));
        }
    }
}

/// The manager returns only when nothing is left to do: after any events,
/// an action to return means that the channel is closed and that no handle
/// is held.
pub proof fn lemma_returns_when_finished<H>(
    manager: ManagerView<H>,
    events: Seq<ManagerEvent<H>>,
    at: int,
)
    requires
        0 <= at < events.len(),
        manager.run(events).1[at] == ManagerAction::<H>::Return,
    ensures
        manager.run(events.take(at + 1)).0.finished(),
    decreases events.len(),
{
    let next = manager.step(events[0]).0;
    let rest = events.drop_first();
    let head = events.take(at + 1);
    assert(head.drop_first() =~= rest.take(at));
    assert(manager.run(head).0 == next.run(rest.take(at)).0);
    lemma_no_unit_abandoned(next, rest);
    if at > 0 {
        lemma_returns_when_finished(next, rest, at - 1);
    }
}

/// Once the channel is closed, the manager waits for every unit that is
/// outstanding, each once and the oldest first, however the units end; and
/// when the last has ended, it returns with nothing left to do.
pub proof fn lemma_close_drains_all<H>(manager: ManagerView<H>, endings: Seq<bool>)
    requires
        endings.len() == manager.registry.len(),
    ensures
        ({
            let events = seq![ManagerEvent::Received(None)] + joins(endings);
            let (last, actions) = manager.run(events);
            &&& actions.len() == manager.registry.len() + 1
            &&& forall|i: int|
                0 <= i < manager.registry.len() ==> #[trigger] actions[i] == ManagerAction::Join(
                    manager.registry[i],
                )
            &&& actions[manager.registry.len() as int] == ManagerAction::<H>::Return
            &&& last.finished()
        }),
{
    let events = seq![ManagerEvent::Received(None)] + joins::<H>(endings);
    let shut = ManagerView { registry: manager.registry, closed: true };
    assert(events.drop_first() =~= joins::<H>(endings));
    lemma_drain(shut, endings);
}

/// The drain, from a manager that knows the channel to be closed.
proof fn lemma_drain<H>(manager: ManagerView<H>, endings: Seq<bool>)
    requires
        manager.closed,
        endings.len() == manager.registry.len(),
    ensures
        ({
            let (next, action) = manager.proceed();
            let (last, later) = next.run(joins(endings));
            let actions = seq![action] + later;
            &&& actions.len() == manager.registry.len() + 1
            &&& forall|i: int|
                0 <= i < manager.registry.len() ==> #[trigger] actions[i] == ManagerAction::Join(
                    manager.registry[i],
                )
            &&& actions[manager.registry.len() as int] == ManagerAction::<H>::Return
            &&& last.finished()
        }),
    decreases endings.len(),
{
    if manager.registry.len() > 0 {
        let rest = endings.drop_first();
        assert(joins::<H>(endings).drop_first() =~= joins::<H>(rest));
        lemma_drain(manager.proceed().0, rest);
    }
}

impl<H> View for Manager<H> {
    type V = ManagerView<H>;

    closed spec fn view(&self) -> ManagerView<H> {
        ManagerView { registry: self.registry@, closed: self.closed }
    }
}

impl<H> Manager<H> {
    /// Makes a manager that has received nothing yet. Its first action is
    /// to receive.
    pub fn new() -> (manager: Manager<H>)
        ensures
            manager@ == ManagerView::<H>::start(),
    {
        Manager { registry: Vec::new(), closed: false }
    }

    /// Tells whether the manager has nothing left to do: the channel is
    /// closed and every unit has been handed out to be waited for.
    pub fn is_finished(&self) -> (finished: bool)
        ensures
            finished == self@.finished(),
    {
        self.closed && self.registry.len() == 0
    }

    /// Tells how many units have been started and not yet handed out to be
    /// waited for.
    pub fn outstanding(&self) -> (count: usize)
        ensures
            count == self@.registry.len(),
    {
        self.registry.len()
    }

    /// Takes in what happened to the last action and returns the next one.
    pub fn step(&mut self, event: ManagerEvent<H>) -> (action: ManagerAction<H>)
        ensures
            (final(self)@, action) == old(self)@.step(event),
    {
        match event {
            ManagerEvent::Received(Some(spec)) => {
                if !self.closed {
                    return ManagerAction::Spawn(TaskUnit::new(spec));
                }
            },
            ManagerEvent::Received(None) => {
                self.closed = true;
            },
            ManagerEvent::Spawned(handle) => {
                self.registry.push(handle);
            },
            ManagerEvent::Joined(_) => {},
        }
        if !self.closed {
            ManagerAction::Receive
        } else if self.registry.len() > 0 {
            let handle = self.registry.remove(0);
            ManagerAction::Join(handle)
        } else {
            ManagerAction::Return
        }
    }
}

/// The numbers from zero up to `count`, in order.
pub open spec fn numbers(count: nat) -> Seq<usize> {
    Seq::new(count, |i: int| i as usize)
}

/// Tells of a unit, by its number, whether the script lets it fail.
pub open spec fn fails_in(requests: Seq<Launch>) -> spec_fn(usize) -> bool {
    |unit: usize| 0 <= unit < requests.len() && !requests[unit as int].ends_well
}

/// What holds between two turns of the manager's loop on a script.
spec fn on_course(
    requests: Seq<Launch>,
    manager: ManagerView<usize>,
    action: ManagerAction<usize>,
    received: int,
    spawned: Seq<TaskUnit>,
    joined: Seq<usize>,
    failed: Seq<usize>,
) -> bool {
    &&& 0 <= received <= requests.len()
    &&& spawned.len() <= received
    &&& forall|i: int|
        0 <= i < spawned.len() ==> #[trigger] spawned[i] == TaskUnit::fresh(requests[i].spec)
    &&& joined.len() <= spawned.len()
    &&& joined == numbers(joined.len())
    &&& failed == joined.filter(fails_in(requests))
    &&& match action {
        ManagerAction::Receive => !manager.closed && spawned.len() == received && joined.len()
            == 0 && manager.registry == numbers(spawned.len()),
        ManagerAction::Spawn(unit) => !manager.closed && spawned.len() + 1 == received
            && joined.len() == 0 && unit == TaskUnit::fresh(requests[received - 1].spec)
            && manager.registry == numbers(spawned.len()),
        ManagerAction::Join(unit) => manager.closed && received == requests.len()
            && spawned.len() == received && unit == joined.len() && joined.len()
            < spawned.len() && manager.registry == numbers(spawned.len()).skip(
            joined.len() as int + 1,
        ),
        ManagerAction::Return => manager.closed && received == requests.len() && spawned.len()
            == received && joined.len() == spawned.len(),
    }
}

/// Runs the loop of the background manager on a script of requests, after
/// the last of which the channel has no sender left.
///
/// One unit is started for each request, in the order of the requests. When
/// the requests have run out, every unit is waited for, the oldest first,
/// whether or not the units before it ended well.
pub fn manager(requests: &Vec<Launch>) -> (report: ManagerReport)
    ensures
        report.spawned@ == requests@.map_values(|launch: Launch| TaskUnit::fresh(launch.spec)),
        report.joined@ == numbers(requests@.len()),
        report.failed@ == report.joined@.filter(fails_in(requests@)),
{
    let mut state: Manager<usize> = Manager::new();
    let mut action: ManagerAction<usize> = ManagerAction::Receive;
    let mut received: usize = 0;
    let mut spawned: Vec<TaskUnit> = Vec::new();
    let mut joined: Vec<usize> = Vec::new();
    let mut failed: Vec<usize> = Vec::new();
    assert(state@.registry =~= numbers(0));
    assert(failed@ =~= joined@.filter(fails_in(requests@)));
    loop
        invariant
            on_course(requests@, state@, action, received as int, spawned@, joined@, failed@),
        ensures
            action is Return,
            on_course(requests@, state@, action, received as int, spawned@, joined@, failed@),
        decreases
                (requests.len() - received) + (requests.len() - spawned.len()) + (requests.len()
                    - joined.len()) + (if state@.closed {
                    0int
                } else {
                    1int
                }),
    {
        let ghost before = state@;
        let event = match action {
            ManagerAction::Receive => {
                if received < requests.len() {
                    let launch = requests[received];
                    received += 1;
                    ManagerEvent::Received(Some(launch.spec))
                } else {
                    ManagerEvent::Received(None)
                }
            },
            ManagerAction::Spawn(unit) => {
                spawned.push(unit);
                ManagerEvent::Spawned(spawned.len() - 1)
            },
            ManagerAction::Join(unit) => {
                let ends_well = requests[unit].ends_well;
                proof {
                    let longer = joined@.push(unit);
                    assert(longer =~= numbers(longer.len()));
                    joined@.lemma_filter_push(unit, fails_in(requests@));
                }
                joined.push(unit);
                if !ends_well {
                    failed.push(unit);
                }
                ManagerEvent::Joined(ends_well)
            },
            ManagerAction::Return => {
                break ;
            },
        };
        proof {
            let all = numbers(spawned@.len());
            match event {
                ManagerEvent::Received(_) => {},
                ManagerEvent::Spawned(handle) => {
                    assert(before.registry.push(handle) =~= all);
                },
                ManagerEvent::Joined(_) => {
                    let rest = all.skip(joined@.len() as int);
                    if rest.len() > 0 {
                        assert(rest.drop_first() =~= all.skip(joined@.len() as int + 1));
                    }
                },
            }
        }
        action = state.step(event);
    }
    ManagerReport { spawned, joined, failed }
}

} // verus!
