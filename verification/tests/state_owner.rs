use azure_keyvault_tui::azure_profile::{AzureCredential, AzureSubscription};
use azure_keyvault_tui::terminal::{Event, KeyCode};
use azure_keyvault_tui::tui::{Step, Tui, TuiEvent, MAX_ACTIVE_TASKS};

fn fresh() -> Tui {
    Tui::new(None, String::from("0.1.0"))
}

fn key(c: char) -> TuiEvent {
    TuiEvent::TerminalEvent(Event::Key(KeyCode::Char(c)))
}

fn subscription(id: &str, name: &str, is_default: bool) -> AzureSubscription {
    AzureSubscription {
        id: String::from(id),
        name: String::from(name),
        state: String::from("Enabled"),
        user: AzureCredential::User { name: String::from("someone@example.com") },
        is_default,
        tenant_id: String::from("tenant"),
        environment_name: String::from("AzureCloud"),
    }
}

#[test]
fn a_fresh_state_has_no_active_task() {
    let tui = fresh();
    assert_eq!(tui.active_tasks(), 0);
    assert!(tui.subscription().is_none());
    assert_eq!(tui.version(), "0.1.0");
}

#[test]
fn an_increment_is_applied() {
    let mut tui = fresh();
    assert_eq!(tui.handle(Some(TuiEvent::ModifyCount(1))), Step::Continue);
    assert_eq!(tui.active_tasks(), 1);
}

#[test]
fn changes_add_up() {
    let mut tui = fresh();
    assert_eq!(tui.handle(Some(TuiEvent::ModifyCount(7))), Step::Continue);
    assert_eq!(tui.handle(Some(TuiEvent::ModifyCount(-3))), Step::Continue);
    assert_eq!(tui.handle(Some(TuiEvent::ModifyCount(0))), Step::Continue);
    assert_eq!(tui.active_tasks(), 4);
}

#[test]
fn a_decrement_below_zero_is_clamped_and_reported() {
    let mut tui = fresh();
    assert_eq!(tui.handle(Some(TuiEvent::ModifyCount(-1))), Step::Clamped(-1));
    assert_eq!(tui.active_tasks(), 0);
    assert_eq!(tui.handle(Some(TuiEvent::ModifyCount(2))), Step::Continue);
    assert_eq!(tui.handle(Some(TuiEvent::ModifyCount(-5))), Step::Clamped(-3));
    assert_eq!(tui.active_tasks(), 0);
}

#[test]
fn the_largest_decrement_is_clamped_at_zero() {
    let mut tui = fresh();
    assert_eq!(tui.handle(Some(TuiEvent::ModifyCount(i16::MIN))), Step::Clamped(-32768));
    assert_eq!(tui.active_tasks(), 0);
}

#[test]
fn an_increment_above_the_maximum_is_clamped_and_reported() {
    let mut tui = fresh();
    assert_eq!(tui.handle(Some(TuiEvent::ModifyCount(i16::MAX))), Step::Continue);
    assert_eq!(tui.active_tasks(), MAX_ACTIVE_TASKS);
    assert_eq!(tui.handle(Some(TuiEvent::ModifyCount(1))), Step::Clamped(32768));
    assert_eq!(tui.active_tasks(), 32767);
    assert_eq!(tui.handle(Some(TuiEvent::ModifyCount(i16::MAX))), Step::Clamped(65534));
    assert_eq!(tui.active_tasks(), 32767);
    assert_eq!(tui.handle(Some(TuiEvent::ModifyCount(-1))), Step::Continue);
    assert_eq!(tui.active_tasks(), 32766);
}

#[test]
fn the_count_is_never_negative() {
    let deltas: [i16; 12] = [-1, 1, -1, -1, 3, -2, -2, 5, -7, 1, 1, -3];
    let mut tui = fresh();
    let mut expected: i32 = 0;
    for delta in deltas {
        tui.handle(Some(TuiEvent::ModifyCount(delta)));
        expected = (expected + delta as i32).max(0);
        assert!(tui.active_tasks() >= 0);
        assert_eq!(tui.active_tasks() as i32, expected);
    }
}

#[test]
fn balanced_changes_are_never_clamped() {
    let deltas: [i16; 8] = [1, 1, -1, 1, -1, -1, 1, -1];
    let mut tui = fresh();
    let mut sum: i16 = 0;
    for delta in deltas {
        assert_eq!(tui.handle(Some(TuiEvent::ModifyCount(delta))), Step::Continue);
        sum += delta;
        assert_eq!(tui.active_tasks(), sum);
    }
    assert_eq!(tui.active_tasks(), 0);
}

#[test]
fn the_request_to_end_stops_the_loop_whatever_the_count() {
    let mut tui = fresh();
    tui.handle(Some(TuiEvent::ModifyCount(3)));
    assert_eq!(tui.handle(Some(TuiEvent::KillMe)), Step::Stop);
    assert_eq!(tui.active_tasks(), 3);
}

#[test]
fn a_closed_channel_stops_the_loop() {
    let mut tui = fresh();
    tui.handle(Some(TuiEvent::ModifyCount(2)));
    assert_eq!(tui.handle(None), Step::Stop);
    assert_eq!(tui.active_tasks(), 2);
}

#[test]
fn the_quit_key_stops_the_loop() {
    let mut tui = fresh();
    assert_eq!(tui.handle(Some(key('q'))), Step::Stop);
}

#[test]
fn other_events_change_nothing() {
    let mut tui = fresh();
    tui.handle(Some(TuiEvent::ModifyCount(1)));
    let events = [
        key('t'),
        key('Q'),
        key('x'),
        TuiEvent::TerminalEvent(Event::Key(KeyCode::Enter)),
        TuiEvent::TerminalEvent(Event::Key(KeyCode::Esc)),
        TuiEvent::TerminalEvent(Event::Key(KeyCode::F(4))),
        TuiEvent::TerminalEvent(Event::Resize(80, 24)),
        TuiEvent::TerminalEvent(Event::FocusGained),
        TuiEvent::TerminalEvent(Event::FocusLost),
        TuiEvent::TerminalEvent(Event::Mouse),
        TuiEvent::TerminalEvent(Event::Paste),
    ];
    for event in events {
        assert_eq!(tui.handle(Some(event)), Step::Continue);
        assert_eq!(tui.active_tasks(), 1);
    }
}

#[test]
fn only_the_quit_key_asks_to_quit() {
    let mut tui = fresh();
    assert!(tui.process_terminal_event(&Event::Key(KeyCode::Char('q'))));
    assert!(!tui.process_terminal_event(&Event::Key(KeyCode::Char('Q'))));
    assert!(!tui.process_terminal_event(&Event::Key(KeyCode::Char('t'))));
    assert!(!tui.process_terminal_event(&Event::Key(KeyCode::Esc)));
    assert!(!tui.process_terminal_event(&Event::Resize(1, 1)));
    assert_eq!(tui.active_tasks(), 0);
}

#[test]
fn a_run_takes_messages_up_to_the_first_that_halts() {
    let mut tui = fresh();
    let inbox = vec![
        TuiEvent::ModifyCount(1),
        key('x'),
        TuiEvent::ModifyCount(1),
        TuiEvent::KillMe,
        TuiEvent::ModifyCount(1),
    ];
    let report = tui.run(&inbox);
    assert_eq!(report.handled, 4);
    assert_eq!(report.frames.len(), 4);
    assert!(report.clamped.is_empty());
    assert_eq!(tui.active_tasks(), 2);
}

#[test]
fn a_run_ends_when_the_channel_closes() {
    let mut tui = fresh();
    let inbox = vec![TuiEvent::ModifyCount(1), TuiEvent::ModifyCount(-1), key('x')];
    let report = tui.run(&inbox);
    assert_eq!(report.handled, 3);
    assert_eq!(report.frames.len(), 4);
    assert_eq!(tui.active_tasks(), 0);
}

#[test]
fn a_run_on_a_closed_channel_draws_once() {
    let mut tui = fresh();
    let report = tui.run(&Vec::new());
    assert_eq!(report.handled, 0);
    assert_eq!(report.frames.len(), 1);
    assert_eq!(report.frames[0], tui.render());
}

#[test]
fn a_run_that_ends_on_its_last_message_draws_once_per_message() {
    let mut tui = fresh();
    let report = tui.run(&vec![TuiEvent::ModifyCount(1), key('q')]);
    assert_eq!(report.handled, 2);
    assert_eq!(report.frames.len(), 2);
}

#[test]
fn a_run_reports_what_was_clamped() {
    let mut tui = fresh();
    let inbox = vec![
        TuiEvent::ModifyCount(-2),
        TuiEvent::ModifyCount(1),
        TuiEvent::ModifyCount(-4),
        TuiEvent::ModifyCount(i16::MAX),
        TuiEvent::ModifyCount(10),
    ];
    let report = tui.run(&inbox);
    assert_eq!(report.handled, 5);
    assert_eq!(report.clamped, vec![-2, -3, 32777]);
    assert_eq!(tui.active_tasks(), 32767);
}

#[test]
fn two_operations_count_up_and_down_again() {
    let mut tui = fresh();
    let mut seen = vec![tui.active_tasks()];
    for delta in [1, 1, -1, -1] {
        assert_eq!(tui.handle(Some(TuiEvent::ModifyCount(delta))), Step::Continue);
        seen.push(tui.active_tasks());
    }
    assert_eq!(seen, vec![0, 1, 2, 1, 0]);
}

#[test]
fn rendering_twice_gives_the_same_frame() {
    let mut tui = Tui::new(Some(subscription("42", "Production", true)), String::from("1.2.3"));
    let first = tui.render();
    let second = tui.render();
    assert_eq!(first, second);
    tui.handle(Some(TuiEvent::ModifyCount(1)));
    assert_eq!(tui.render(), tui.render());
}

#[test]
fn rendering_leaves_the_state_as_it_is() {
    let mut tui = Tui::new(Some(subscription("42", "Production", true)), String::from("1.2.3"));
    tui.handle(Some(TuiEvent::ModifyCount(5)));
    let _ = tui.render();
    assert_eq!(tui.active_tasks(), 5);
    assert_eq!(tui.subscription(), Some(&subscription("42", "Production", true)));
    assert_eq!(tui.version(), "1.2.3");
}
