use azure_keyvault_tui::background::{
    manager, Launch, Manager, ManagerAction, ManagerEvent, TaskSpec, TaskUnit, UnitAction,
    UnitPhase, SLEEP_TEST_SECONDS,
};
use azure_keyvault_tui::tui::TuiEvent;

fn launch(ends_well: bool) -> Launch {
    Launch { spec: TaskSpec::SleepTest, ends_well }
}

#[test]
fn a_unit_announces_works_and_reports() {
    let mut unit = TaskUnit::new(TaskSpec::SleepTest);
    assert_eq!(unit.phase, UnitPhase::Starting);
    assert_eq!(unit.pending(), Some(UnitAction::Notify(TuiEvent::ModifyCount(1))));
    unit.completed(true);
    assert_eq!(unit.phase, UnitPhase::Working);
    assert_eq!(unit.pending(), Some(UnitAction::Sleep(5)));
    unit.completed(true);
    assert_eq!(unit.phase, UnitPhase::Finishing);
    assert_eq!(unit.pending(), Some(UnitAction::Notify(TuiEvent::ModifyCount(-1))));
    unit.completed(true);
    assert_eq!(unit.phase, UnitPhase::Done);
    assert_eq!(unit.pending(), None);
    unit.completed(true);
    assert_eq!(unit.phase, UnitPhase::Done);
    assert_eq!(unit.spec, TaskSpec::SleepTest);
}

#[test]
fn the_demonstration_task_sleeps_five_seconds() {
    assert_eq!(SLEEP_TEST_SECONDS, 5);
}

#[test]
fn a_unit_whose_announcement_is_lost_does_no_work() {
    let mut unit = TaskUnit::new(TaskSpec::SleepTest);
    unit.completed(false);
    assert_eq!(unit.phase, UnitPhase::Done);
    assert_eq!(unit.pending(), None);
}

#[test]
fn a_unit_reports_its_end_even_when_its_work_failed() {
    let mut unit = TaskUnit::new(TaskSpec::SleepTest);
    unit.completed(true);
    unit.completed(false);
    assert_eq!(unit.pending(), Some(UnitAction::Notify(TuiEvent::ModifyCount(-1))));
}

#[test]
fn a_unit_is_done_even_when_its_report_is_lost() {
    let mut unit = TaskUnit::new(TaskSpec::SleepTest);
    unit.completed(true);
    unit.completed(true);
    unit.completed(false);
    assert_eq!(unit.phase, UnitPhase::Done);
    assert_eq!(unit.pending(), None);
}

#[test]
fn a_new_manager_has_nothing_outstanding() {
    let state: Manager<u32> = Manager::new();
    assert_eq!(state.outstanding(), 0);
    assert!(!state.is_finished());
}

#[test]
fn a_request_is_answered_by_one_unit() {
    let mut state: Manager<&str> = Manager::new();
    assert_eq!(
        state.step(ManagerEvent::Received(Some(TaskSpec::SleepTest))),
        ManagerAction::Spawn(TaskUnit::new(TaskSpec::SleepTest))
    );
    assert_eq!(state.outstanding(), 0);
    assert_eq!(state.step(ManagerEvent::Spawned("first")), ManagerAction::Receive);
    assert_eq!(state.outstanding(), 1);
    assert!(!state.is_finished());
}

#[test]
fn a_closed_channel_with_nothing_outstanding_returns_at_once() {
    let mut state: Manager<u8> = Manager::new();
    assert_eq!(state.step(ManagerEvent::Received(None)), ManagerAction::Return);
    assert!(state.is_finished());
}

#[test]
fn closing_drains_every_unit_oldest_first() {
    let mut state: Manager<String> = Manager::new();
    for name in ["a", "b", "c"] {
        state.step(ManagerEvent::Received(Some(TaskSpec::SleepTest)));
        assert_eq!(state.step(ManagerEvent::Spawned(String::from(name))), ManagerAction::Receive);
    }
    assert_eq!(state.outstanding(), 3);
    assert_eq!(state.step(ManagerEvent::Received(None)), ManagerAction::Join(String::from("a")));
    assert!(!state.is_finished());
    assert_eq!(state.step(ManagerEvent::Joined(true)), ManagerAction::Join(String::from("b")));
    assert!(!state.is_finished());
    assert_eq!(state.step(ManagerEvent::Joined(true)), ManagerAction::Join(String::from("c")));
    assert!(state.is_finished());
    assert_eq!(state.step(ManagerEvent::Joined(true)), ManagerAction::Return);
    assert!(state.is_finished());
    assert_eq!(state.outstanding(), 0);
}

#[test]
fn a_failed_unit_does_not_keep_the_others_from_being_joined() {
    let mut state: Manager<u32> = Manager::new();
    for handle in [10, 20, 30] {
        state.step(ManagerEvent::Received(Some(TaskSpec::SleepTest)));
        state.step(ManagerEvent::Spawned(handle));
    }
    assert_eq!(state.step(ManagerEvent::Received(None)), ManagerAction::Join(10));
    assert_eq!(state.step(ManagerEvent::Joined(false)), ManagerAction::Join(20));
    assert_eq!(state.step(ManagerEvent::Joined(false)), ManagerAction::Join(30));
    assert_eq!(state.step(ManagerEvent::Joined(false)), ManagerAction::Return);
    assert!(state.is_finished());
}

#[test]
fn no_request_is_served_once_the_channel_is_closed() {
    let mut state: Manager<u32> = Manager::new();
    state.step(ManagerEvent::Received(Some(TaskSpec::SleepTest)));
    state.step(ManagerEvent::Spawned(1));
    assert_eq!(state.step(ManagerEvent::Received(None)), ManagerAction::Join(1));
    assert_eq!(
        state.step(ManagerEvent::Received(Some(TaskSpec::SleepTest))),
        ManagerAction::Return
    );
}

#[test]
fn a_late_handle_is_still_waited_for() {
    let mut state: Manager<u32> = Manager::new();
    assert_eq!(state.step(ManagerEvent::Received(None)), ManagerAction::Return);
    assert_eq!(state.step(ManagerEvent::Spawned(7)), ManagerAction::Join(7));
    assert_eq!(state.step(ManagerEvent::Joined(true)), ManagerAction::Return);
}

#[test]
fn the_manager_starts_one_unit_for_each_request_and_joins_them_all() {
    let report = manager(&vec![launch(true), launch(true), launch(true)]);
    assert_eq!(report.spawned, vec![TaskUnit::new(TaskSpec::SleepTest); 3]);
    assert_eq!(report.joined, vec![0, 1, 2]);
    assert!(report.failed.is_empty());
}

#[test]
fn the_manager_joins_all_units_when_some_fail() {
    let report = manager(&vec![launch(false), launch(true), launch(false), launch(true)]);
    assert_eq!(report.spawned.len(), 4);
    assert_eq!(report.joined, vec![0, 1, 2, 3]);
    assert_eq!(report.failed, vec![0, 2]);
}

#[test]
fn the_manager_returns_at_once_without_requests() {
    let report = manager(&Vec::new());
    assert!(report.spawned.is_empty());
    assert!(report.joined.is_empty());
    assert!(report.failed.is_empty());
}
