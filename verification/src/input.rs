//! The input reader: what it sends for each event of the terminal, and when
//! it stops.

use crate::background::TaskSpec;
use crate::terminal::{Event, LAUNCH_KEY, QUIT_KEY};
use crate::tui::TuiEvent;
use vstd::prelude::*;

verus! {

/// What the input reader does with what it has read.
#[derive(Clone, Copy, Debug, PartialEq, Eq, Structural)]
pub enum ReaderAction {
    /// Send this message to the state owner.
    Notify(TuiEvent),
    /// Send this request to the background manager.
    Request(TaskSpec),
    /// The terminal could not be read. Nothing can be done about that: end
    /// the process.
    Abort,
}

/// Where the input reader stands.
#[derive(Clone, Copy, Debug, PartialEq, Eq, Structural)]
pub enum ReaderStatus {
    /// It goes on reading.
    Reading,
    /// It has stopped of its own accord: after the quit key, or because the
    /// state owner is gone.
    Stopped,
    /// It has stopped because the background manager is gone.
    Failed,
    /// It has stopped because the terminal could not be read.
    Aborted,
}

/// One turn of the reader's loop, as seen from outside: what the terminal
/// gave (`None` when it could not be read) and whether the message that the
/// reader then sent reached its channel.
#[derive(Clone, Copy, Debug, PartialEq, Eq, Structural)]
pub struct Turn {
    pub read: Option<Event>,
    pub delivered: bool,
}

/// What the input reader did over a number of turns.
#[derive(Debug)]
pub struct ReaderLog {
    /// How many turns it took.
    pub turns: usize,
    /// The messages that reached the state owner's channel, in order.
    pub to_tui: Vec<TuiEvent>,
    /// The requests that reached the background manager's channel, in order.
    pub to_background: Vec<TaskSpec>,
    /// Where the reader stood in the end.
    pub status: ReaderStatus,
}

/// A log as a mathematical value.
pub struct ReaderTrace {
    pub turns: nat,
    pub to_tui: Seq<TuiEvent>,
    pub to_background: Seq<TaskSpec>,
    pub status: ReaderStatus,
}

impl View for ReaderLog {
    type V = ReaderTrace;

    open spec fn view(&self) -> ReaderTrace {
        ReaderTrace {
            turns: self.turns as nat,
            to_tui: self.to_tui@,
            to_background: self.to_background@,
            status: self.status,
        }
    }
}

/// The action for what was read: the quit key asks the state owner to end,
/// the launch key requests the demonstration task, and every other event
/// goes to the state owner as it is.
pub open spec fn action_for(read: Option<Event>) -> ReaderAction {
    match read {
        None => ReaderAction::Abort,
        Some(event) => if event.is_quit() {
            ReaderAction::Notify(TuiEvent::KillMe)
        } else if event.is_launch() {
            ReaderAction::Request(TaskSpec::SleepTest)
        } else {
            ReaderAction::Notify(TuiEvent::TerminalEvent(event))
        },
    }
}

/// Where the reader stands after an action, given whether what it sent was
/// delivered.
///
/// After the request to end it stops, delivered or not. Another message
/// that the state owner's channel does not take means that the state owner
/// is gone, and the reader stops without complaint. A request that the
/// manager's channel does not take can never be served: the reader fails.
pub open spec fn status_after(action: ReaderAction, delivered: bool) -> ReaderStatus {
    match action {
        ReaderAction::Abort => ReaderStatus::Aborted,
        ReaderAction::Notify(TuiEvent::KillMe) => ReaderStatus::Stopped,
        ReaderAction::Notify(_) => if delivered {
            ReaderStatus::Reading
        } else {
            ReaderStatus::Stopped
        },
        ReaderAction::Request(_) => if delivered {
            ReaderStatus::Reading
        } else {
            ReaderStatus::Failed
        },
    }
}

impl ReaderTrace {
    /// The trace of a reader that has not read anything yet.
    pub open spec fn start() -> ReaderTrace {
        ReaderTrace {
            turns: 0,
            to_tui: Seq::empty(),
            to_background: Seq::empty(),
            status: ReaderStatus::Reading,
        }
    }

    /// The trace after one more turn. A reader that has stopped takes no
    /// turn.
    pub open spec fn step(self, turn: Turn) -> ReaderTrace {
        if self.status != ReaderStatus::Reading {
            self
        } else {
            let action = action_for(turn.read);
            ReaderTrace {
                turns: self.turns + 1,
                to_tui: match action {
                    ReaderAction::Notify(message) if turn.delivered => self.to_tui.push(message),
                    _ => self.to_tui,
                },
                to_background: match action {
                    ReaderAction::Request(request) if turn.delivered => self.to_background.push(
                        request,
                    ),
                    _ => self.to_background,
                },
                status: status_after(action, turn.delivered),
            }
        }
    }

    /// The trace of a reader to which the terminal and the channels behave
    /// as the script says.
    pub open spec fn of(script: Seq<Turn>) -> ReaderTrace
        decreases script.len(),
    {
        if script.len() == 0 {
            ReaderTrace::start()
        } else {
            ReaderTrace::of(script.drop_last()).step(script.last())
        }
    }
}

/// Decides what to do with what was read from the terminal.
pub fn next_action(read: Option<Event>) -> (action: ReaderAction)
    ensures
        action == action_for(read),
{
    match read {
        None => ReaderAction::Abort,
        Some(event) => match event.typed_char() {
            Some(c) => if c == QUIT_KEY {
                ReaderAction::Notify(TuiEvent::KillMe)
            } else if c == LAUNCH_KEY {
                ReaderAction::Request(TaskSpec::SleepTest)
            } else {
                ReaderAction::Notify(TuiEvent::TerminalEvent(event))
            },
            None => ReaderAction::Notify(TuiEvent::TerminalEvent(event)),
        },
    }
}

/// Decides whether the reader goes on after an action, given whether what
/// it sent was delivered.
pub fn next_status(action: ReaderAction, delivered: bool) -> (status: ReaderStatus)
    ensures
        status == status_after(action, delivered),
{
    match action {
        ReaderAction::Abort => ReaderStatus::Aborted,
        ReaderAction::Notify(TuiEvent::KillMe) => ReaderStatus::Stopped,
        ReaderAction::Notify(_) => if delivered {
            ReaderStatus::Reading
        } else {
            ReaderStatus::Stopped
        },
        ReaderAction::Request(_) => if delivered {
            ReaderStatus::Reading
        } else {
            ReaderStatus::Failed
        },
    }
}

/// A reader that has stopped stays as it is, whatever the script goes on
/// to say.
pub proof fn lemma_stopped_reader_stays(script: Seq<Turn>, turns: int)
    requires
        0 <= turns <= script.len(),
        ReaderTrace::of(script.take(turns)).status != ReaderStatus::Reading,
    ensures
        ReaderTrace::of(script) == ReaderTrace::of(script.take(turns)),
    decreases script.len() - turns,
{
    if turns == script.len() {
        assert(script.take(turns) =~= script);
    } else {
        assert(script.take(turns + 1).drop_last() =~= script.take(turns));
        lemma_stopped_reader_stays(script, turns + 1);
    }
}

/// Runs the loop of the input reader against a script: turn by turn it
/// reads what the script gives and sends what that asks for, until it stops
/// or the script ends.
pub fn wait_for_inputs(script: &Vec<Turn>) -> (log: ReaderLog)
    ensures
        log@ == ReaderTrace::of(script@),
{
    let mut log = ReaderLog {
        turns: 0,
        to_tui: Vec::new(),
        to_background: Vec::new(),
        status: ReaderStatus::Reading,
    };
    while log.turns < script.len() && log.status == ReaderStatus::Reading
        invariant
            log.turns <= script.len(),
            log@ == ReaderTrace::of(script@.take(log.turns as int)),
        decreases script.len() - log.turns,
    {
        let turn = script[log.turns];
        proof {
            let next = script@.take(log.turns + 1);
            assert(next.drop_last() =~= script@.take(log.turns as int));
        }
        let action = next_action(turn.read);
        if turn.delivered {
            match action {
                ReaderAction::Notify(message) => {
                    log.to_tui.push(message);
                },
                ReaderAction::Request(request) => {
                    log.to_background.push(request);
                },
                ReaderAction::Abort => {},
            }
        }
        log.status = next_status(action, turn.delivered);
        log.turns += 1;
    }
    proof {
        if log.turns < script.len() {
            lemma_stopped_reader_stays(script@, log.turns as int);
        } else {
            assert(script@.take(log.turns as int) =~= script@);
        }
    }
    log
}

/// Whether the request to end occurs among these messages only as the last
/// one, if at all.
pub open spec fn ends_at_most_once(messages: Seq<TuiEvent>) -> bool {
    forall|i: int|
        0 <= i < messages.len() && #[trigger] messages[i] == TuiEvent::KillMe ==> i
            == messages.len() - 1
}

/// The quit key ends the reading. A reader that is still reading when the
/// quit key comes sends the state owner the request to end, stops, and
/// sends nothing after it on either channel, whatever the terminal gives
/// from then on: no request is sent that was not sent before the key.
pub proof fn lemma_quit_ends_reading(script: Seq<Turn>, at: int)
    requires
        0 <= at < script.len(),
        script[at].read matches Some(event) && event.is_quit(),
        ReaderTrace::of(script.take(at)).status == ReaderStatus::Reading,
    ensures
        ReaderTrace::of(script).status == ReaderStatus::Stopped,
        ReaderTrace::of(script).turns == ReaderTrace::of(script.take(at)).turns + 1,
        ReaderTrace::of(script).to_background == ReaderTrace::of(script.take(at)).to_background,
        ReaderTrace::of(script).to_tui == if script[at].delivered {
            ReaderTrace::of(script.take(at)).to_tui.push(TuiEvent::KillMe)
        } else {
            ReaderTrace::of(script.take(at)).to_tui
        },
{
    assert(script.take(at + 1).drop_last() =~= script.take(at));
    lemma_stopped_reader_stays(script, at + 1);
}

/// The state owner is asked to end at most once, and that is the last that
/// it hears of the reader: in every run the request to end is the last
/// message that the reader sends to it, and the reader has then stopped.
pub proof fn lemma_end_is_requested_once(script: Seq<Turn>)
    ensures
        ends_at_most_once(ReaderTrace::of(script).to_tui),
        ReaderTrace::of(script).status == ReaderStatus::Reading ==> forall|i: int|
            0 <= i < ReaderTrace::of(script).to_tui.len() ==> #[trigger] ReaderTrace::of(
                script,
            ).to_tui[i] != TuiEvent::KillMe,
    decreases script.len(),
{
    if script.len() > 0 {
        lemma_end_is_requested_once(script.drop_last());
    }
}

} // verus!
