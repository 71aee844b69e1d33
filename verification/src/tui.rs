//! The state owner: the one place where the application state is changed and
//! turned into frames.

use crate::azure_profile::{first_default, AzureProfile, AzureSubscription};
use crate::frame::{
    labelled, styled, Alignment, Block, BlockView, Borders, Frame, FrameView, Line, Span, Style,
    Text, TextView,
};
use crate::terminal::{Event, QUIT_KEY};
use vstd::prelude::*;
use vstd::string::*;

verus! {

/// A message to the state owner.
#[derive(Clone, Copy, Debug, PartialEq, Eq, Structural)]
pub enum TuiEvent {
    /// An event of the terminal, as the input reader received it.
    TerminalEvent(Event),
    /// A request to change the number of active background tasks by the
    /// given amount.
    ModifyCount(i16),
    /// A request to end the loop of the state owner at once.
    KillMe,
}

/// What the state owner does after it has handled a message.
#[derive(Clone, Copy, Debug, PartialEq, Eq, Structural)]
pub enum Step {
    /// Redraw and wait for the next message.
    Continue,
    /// As `Continue`; the count of active tasks could not take the value
    /// given here and was set to the nearest value that it can take.
    Clamped(i32),
    /// Leave the loop.
    Stop,
}

/// What a run of the state owner's loop did.
#[derive(Debug)]
pub struct RunReport {
    /// How many messages were taken from the inbox.
    pub handled: usize,
    /// The values that the count of active tasks could not take, in order.
    pub clamped: Vec<i32>,
    /// Every frame that was drawn, in order.
    pub frames: Vec<Frame>,
}

/// The number of rows of the header.
pub const HEADER_HEIGHT: u16 = 6;

/// The largest number of active tasks that the state can hold.
pub const MAX_ACTIVE_TASKS: i16 = i16::MAX;

/// The application state. Only the state owner holds one.
pub struct Tui {
    /// The number of active background tasks.
    active_tasks: i16,
    /// The selected subscription, if any.
    subscription: Option<AzureSubscription>,
    /// The version of the application, as shown in the header.
    version: String,
}

/// The application state as a mathematical value.
pub struct TuiView {
    pub active_tasks: nat,
    pub subscription: Option<AzureSubscription>,
    pub version: Seq<char>,
}

/// The count that results from changing `count` by `delta`: their sum, or
/// the nearest count that the state can hold where the sum is none.
pub open spec fn adjusted(count: nat, delta: int) -> nat {
    if count + delta < 0 {
        0
    } else if count + delta > MAX_ACTIVE_TASKS {
        MAX_ACTIVE_TASKS as nat
    } else {
        (count + delta) as nat
    }
}

/// Whether the loop of the state owner ends on receiving this: on the
/// request to end, on an event that asks to quit, and when the channel has
/// no sender left (`None`).
pub open spec fn halts(received: Option<TuiEvent>) -> bool {
    match received {
        Some(TuiEvent::ModifyCount(_)) => false,
        Some(TuiEvent::TerminalEvent(event)) => event.is_quit(),
        Some(TuiEvent::KillMe) => true,
        None => true,
    }
}

/// What the header shows for the selected subscription.
pub open spec fn subscription_label(subscription: Option<AzureSubscription>) -> Seq<char> {
    match subscription {
        Some(selected) => selected.name@ + " ("@ + selected.id@ + ")"@,
        None => "None"@,
    }
}

/// The first column of the header: what is selected, and the version.
pub open spec fn metadata_text(
    subscription: Option<AzureSubscription>,
    version: Seq<char>,
) -> TextView {
    seq![
        labelled("Subscription: "@, Style::Bold, subscription_label(subscription)),
        labelled("Resource Group: "@, Style::Bold, "None"@),
        labelled("Key Vault: "@, Style::Bold, "None"@),
        labelled("AZKV Version: "@, Style::Bold, version),
    ]
}

/// The second column of the header: the keys that work everywhere.
pub open spec fn global_keymaps_text() -> TextView {
    seq![
        labelled("<S>"@, Style::BoldCyan, " Subscriptions"@),
        labelled("<K>"@, Style::BoldCyan, " Key Vaults"@),
        labelled("<k>"@, Style::BoldCyan, " Keys"@),
        labelled("<s>"@, Style::BoldCyan, " Secrets"@),
        labelled("<c>"@, Style::BoldCyan, " Certificates"@),
        labelled("<q>"@, Style::BoldCyan, " Quit"@),
    ]
}

/// The body: a block with all its borders and a centred red title.
pub open spec fn body_block() -> BlockView {
    BlockView {
        title: seq![styled(" Key Vaults "@, Style::Red)],
        title_alignment: Alignment::Center,
        borders: Borders::All,
    }
}

impl TuiView {
    /// The state after the state owner has handled what it received.
    pub open spec fn apply(self, received: Option<TuiEvent>) -> TuiView {
        match received {
            Some(TuiEvent::ModifyCount(delta)) => TuiView {
                active_tasks: adjusted(self.active_tasks, delta as int),
                ..self
            },
            _ => self,
        }
    }

    /// What the state owner does next after it has handled what it received
    /// in this state.
    pub open spec fn react(self, received: Option<TuiEvent>) -> Step {
        match received {
            Some(TuiEvent::ModifyCount(delta)) => if adjusted(self.active_tasks, delta as int)
                == self.active_tasks + delta {
                Step::Continue
            } else {
                Step::Clamped((self.active_tasks + delta) as i32)
            },
            _ => if halts(received) {
                Step::Stop
            } else {
                Step::Continue
            },
        }
    }

    /// The frame that shows this state. The header has three columns, the
    /// last of which is empty.
    pub open spec fn frame(self) -> FrameView {
        FrameView {
            header_height: HEADER_HEIGHT as int,
            header: seq![
                metadata_text(self.subscription, self.version),
                global_keymaps_text(),
                Seq::empty(),
            ],
            body: body_block(),
        }
    }

    /// The state after the state owner has handled these messages, one
    /// after the other.
    pub open spec fn after(self, handled: Seq<TuiEvent>) -> TuiView
        decreases handled.len(),
    {
        if handled.len() == 0 {
            self
        } else {
            self.after(handled.drop_last()).apply(Some(handled.last()))
        }
    }

    /// The values that the count could not take while these messages were
    /// handled, in the order of the messages.
    pub open spec fn clamps(self, handled: Seq<TuiEvent>) -> Seq<i32>
        decreases handled.len(),
    {
        if handled.len() == 0 {
            Seq::empty()
        } else {
            let earlier = self.clamps(handled.drop_last());
            match self.after(handled.drop_last()).react(Some(handled.last())) {
                Step::Clamped(wanted) => earlier.push(wanted),
                _ => earlier,
            }
        }
    }
}

/// How many of the messages in its inbox the state owner takes before its
/// loop ends: all up to and including the first on which it halts.
pub open spec fn taken(inbox: Seq<TuiEvent>) -> nat
    decreases inbox.len(),
{
    if inbox.len() == 0 {
        0
    } else if halts(Some(inbox[0])) {
        1
    } else {
        1 + taken(inbox.drop_first())
    }
}

/// Whether `count` messages are what the state owner takes from this inbox:
/// none but the last of them halts the loop, and the last one does unless
/// the inbox ends with it.
pub open spec fn takes(inbox: Seq<TuiEvent>, count: int) -> bool {
    &&& 0 <= count <= inbox.len()
    &&& forall|j: int| 0 <= j < count - 1 ==> !halts(Some(#[trigger] inbox[j]))
    &&& count < inbox.len() ==> count >= 1 && halts(Some(inbox[count - 1]))
}

/// Whether the loop on this inbox is ended by a message, and not by the
/// channel running out of senders after the last message.
pub open spec fn ended_by_message(inbox: Seq<TuiEvent>) -> bool {
    taken(inbox) >= 1 && halts(Some(inbox[taken(inbox) - 1]))
}

/// How often the state owner draws while it works through this inbox: once
/// before each time it waits for a message.
pub open spec fn draws(inbox: Seq<TuiEvent>) -> nat {
    if ended_by_message(inbox) {
        taken(inbox)
    } else {
        taken(inbox) + 1
    }
}

/// The number of messages taken is the one number that `takes` admits.
pub proof fn lemma_taken(inbox: Seq<TuiEvent>, count: int)
    ensures
        takes(inbox, taken(inbox) as int),
        takes(inbox, count) ==> count == taken(inbox),
    decreases inbox.len(),
{
    if inbox.len() > 0 && !halts(Some(inbox[0])) {
        let rest = inbox.drop_first();
        lemma_taken(rest, count - 1);
        assert forall|j: int| 0 <= j < taken(rest) implies !halts(Some(#[trigger] inbox[j])) by {
            if j > 0 {
                assert(rest[j - 1] == inbox[j]);
            }
        }
        if takes(inbox, count) {
            assert forall|j: int| 0 <= j < count - 2 implies !halts(Some(#[trigger] rest[j])) by {
                assert(rest[j] == inbox[j + 1]);
            }
        }
    }
}

impl View for Tui {
    type V = TuiView;

    closed spec fn view(&self) -> TuiView {
        TuiView {
            active_tasks: self.active_tasks as nat,
            subscription: self.subscription,
            version: self.version@,
        }
    }
}

impl Tui {
    #[verifier::type_invariant]
    spec fn never_negative(self) -> bool {
        self.active_tasks >= 0
    }

    /// Makes the state of a freshly started application: no task is active.
    pub fn new(subscription: Option<AzureSubscription>, version: String) -> (tui: Tui)
        ensures
            tui@ == (TuiView { active_tasks: 0, subscription, version: version@ }),
    {
        Tui { active_tasks: 0, subscription, version }
    }

    /// Makes the state that the application starts with: no task is active,
    /// and the subscription selected is the default one of the profile, if
    /// there is a profile and it has a default.
    pub fn from_profile(profile: Option<AzureProfile>, version: String) -> (tui: Tui)
        ensures
            tui@ == (TuiView {
                active_tasks: 0,
                subscription: match profile {
                    Some(found) => first_default(found.subscriptions@),
                    None => None,
                },
                version: version@,
            }),
    {
        let subscription = match &profile {
            Some(found) => found.default_subscription(),
            None => None,
        };
        Tui::new(subscription, version)
    }

    /// Returns the number of active background tasks.
    pub fn active_tasks(&self) -> (count: i16)
        ensures
            count == self@.active_tasks,
    {
        proof {
            use_type_invariant(self);
        }
        self.active_tasks
    }

    /// Returns the selected subscription, if there is one.
    pub fn subscription(&self) -> (selected: Option<&AzureSubscription>)
        ensures
            match selected {
                Some(subscription) => self@.subscription == Some(*subscription),
                None => self@.subscription is None,
            },
    {
        self.subscription.as_ref()
    }

    /// Returns the version of the application.
    pub fn version(&self) -> (version: &str)
        ensures
            version@ == self@.version,
    {
        self.version.as_str()
    }

    /// Renders the state: returns the frame that shows it. The state is left
    /// as it is, and the frame depends on nothing else.
    pub fn render(&self) -> (frame: Frame)
        ensures
            frame@ == self@.frame(),
    {
        let mut metadata = Text::new();
        metadata.push(Line::labelled("Subscription: ", Style::Bold, self.subscription_text()));
        metadata.push(Line::labelled("Resource Group: ", Style::Bold, String::from_str("None")));
        metadata.push(Line::labelled("Key Vault: ", Style::Bold, String::from_str("None")));
        metadata.push(Line::labelled("AZKV Version: ", Style::Bold, self.version.clone()));
        assert(metadata@ =~= metadata_text(self@.subscription, self@.version));

        let mut global_keymaps = Text::new();
        global_keymaps.push(
            Line::labelled("<S>", Style::BoldCyan, String::from_str(" Subscriptions")),
        );
        global_keymaps.push(
            Line::labelled("<K>", Style::BoldCyan, String::from_str(" Key Vaults")),
        );
        global_keymaps.push(Line::labelled("<k>", Style::BoldCyan, String::from_str(" Keys")));
        global_keymaps.push(Line::labelled("<s>", Style::BoldCyan, String::from_str(" Secrets")));
        global_keymaps.push(
            Line::labelled("<c>", Style::BoldCyan, String::from_str(" Certificates")),
        );
        global_keymaps.push(Line::labelled("<q>", Style::BoldCyan, String::from_str(" Quit")));
        assert(global_keymaps@ =~= global_keymaps_text());

        let local_keymaps = Text::new();

        let mut header: Vec<Text> = Vec::new();
        header.push(metadata);
        header.push(global_keymaps);
        header.push(local_keymaps);

        let body = Block {
            title: Line::single(Span::new(String::from_str(" Key Vaults "), Style::Red)),
            title_alignment: Alignment::Center,
            borders: Borders::All,
        };
        let frame = Frame { header_height: HEADER_HEIGHT, header, body };
        assert(frame@.header =~= self@.frame().header);
        frame
    }

    /// Handles an event of the terminal. Returns `true` if the application
    /// should quit, which is so exactly for the quit key. The state stays
    /// as it is.
    pub fn process_terminal_event(&mut self, event: &Event) -> (quit: bool)
        ensures
            quit == event.is_quit(),
            final(self)@ == old(self)@,
    {
        match event.typed_char() {
            Some(c) => c == QUIT_KEY,
            None => false,
        }
    }

    /// Handles what the state owner received on its channel: a message, or
    /// `None` when the channel has no sender left. Changes the state as the
    /// message asks and tells what to do next.
    ///
    /// A change of the count of active tasks that would take it below zero
    /// leaves it at zero, and one that would take it above
    /// `MAX_ACTIVE_TASKS` leaves it there; both are reported as
    /// `Step::Clamped` with the value that was asked for.
    pub fn handle(&mut self, received: Option<TuiEvent>) -> (step: Step)
        ensures
            final(self)@ == old(self)@.apply(received),
            step == old(self)@.react(received),
    {
        match received {
            Some(TuiEvent::ModifyCount(delta)) => {
                proof {
                    use_type_invariant(&*self);
                }
                let wanted: i32 = self.active_tasks as i32 + delta as i32;
                if wanted < 0 {
                    self.active_tasks = 0;
                    Step::Clamped(wanted)
                } else if wanted > MAX_ACTIVE_TASKS as i32 {
                    self.active_tasks = MAX_ACTIVE_TASKS;
                    Step::Clamped(wanted)
                } else {
                    self.active_tasks = wanted as i16;
                    Step::Continue
                }
            },
            Some(TuiEvent::TerminalEvent(event)) => {
                if self.process_terminal_event(&event) {
                    Step::Stop
                } else {
                    Step::Continue
                }
            },
            Some(TuiEvent::KillMe) => Step::Stop,
            None => Step::Stop,
        }
    }

    /// Runs the loop of the state owner on the messages that its channel
    /// delivers, in their order; after the last of them the channel has no
    /// sender left.
    ///
    /// The loop draws the current state and then waits for what the channel
    /// gives next, until that is something on which it halts. So a frame is
    /// drawn before the first message and after every message but the one
    /// that ends the loop, and each frame shows the state as the messages
    /// before it have left it.
    pub fn run(&mut self, inbox: &Vec<TuiEvent>) -> (report: RunReport)
        ensures
            report.handled == taken(inbox@),
            final(self)@ == old(self)@.after(inbox@.take(report.handled as int)),
            report.clamped@ == old(self)@.clamps(inbox@.take(report.handled as int)),
            report.frames@.len() == draws(inbox@),
            forall|i: int|
                0 <= i < report.frames@.len() ==> (#[trigger] report.frames@[i])@ == old(
                    self,
                )@.after(inbox@.take(i)).frame(),
    {
        let ghost start = self@;
        let mut frames: Vec<Frame> = Vec::new();
        let mut clamped: Vec<i32> = Vec::new();
        let mut handled: usize = 0;
        let mut ended_by_message = false;
        loop
            invariant_except_break
                !ended_by_message,
                frames@.len() == handled,
            invariant
                handled <= inbox.len(),
                forall|j: int|
                    0 <= j < handled - 1 ==> !halts(Some(#[trigger] inbox@[j])),
                !ended_by_message && handled >= 1 ==> !halts(Some(inbox@[handled - 1])),
                self@ == start.after(inbox@.take(handled as int)),
                clamped@ == start.clamps(inbox@.take(handled as int)),
                forall|i: int|
                    0 <= i < frames@.len() ==> (#[trigger] frames@[i])@ == start.after(
                        inbox@.take(i),
                    ).frame(),
            ensures
                ended_by_message ==> handled >= 1 && halts(Some(inbox@[handled - 1]))
                    && frames@.len() == handled,
                !ended_by_message ==> handled == inbox.len() && frames@.len() == handled + 1,
            decreases inbox.len() - handled,
        {
            frames.push(self.render());
            if handled == inbox.len() {
                let _ = self.handle(None);
                break ;
            }
            let step = self.handle(Some(inbox[handled]));
            assert(inbox@.take(handled + 1).drop_last() =~= inbox@.take(handled as int));
            handled += 1;
            match step {
                Step::Continue => {},
                Step::Clamped(wanted) => {
                    clamped.push(wanted);
                },
                Step::Stop => {
                    ended_by_message = true;
                    break ;
                },
            }
        }
        proof {
            lemma_taken(inbox@, handled as int);
        }
        RunReport { handled, clamped, frames }
    }

    /// What the header shows for the selected subscription: its name and,
    /// in brackets, its id; or `None`.
    fn subscription_text(&self) -> (label: String)
        ensures
            label@ == subscription_label(self@.subscription),
    {
        match &self.subscription {
            Some(selected) => {
                let mut label = selected.name.clone();
                label.append(" (");
                label.append(selected.id.as_str());
                label.append(")");
                label
            },
            None => String::from_str("None"),
        }
    }
}

/// The sum of the changes that these messages ask for.
pub open spec fn delta_sum(inbox: Seq<TuiEvent>) -> int
    decreases inbox.len(),
{
    if inbox.len() == 0 {
        0
    } else {
        delta_sum(inbox.drop_last()) + match inbox.last() {
            TuiEvent::ModifyCount(delta) => delta as int,
            _ => 0,
        }
    }
}

/// The count of active tasks is never negative, and never more than the
/// state can hold: whatever messages arrive, in whatever order, this holds
/// after each of them.
pub proof fn lemma_count_never_negative(start: TuiView, inbox: Seq<TuiEvent>, handled: int)
    requires
        start.active_tasks <= MAX_ACTIVE_TASKS,
        0 <= handled <= inbox.len(),
    ensures
        0 <= start.after(inbox.take(handled)).active_tasks <= MAX_ACTIVE_TASKS,
    decreases handled,
{
    if handled > 0 {
        lemma_count_never_negative(start, inbox, handled - 1);
        assert(inbox.take(handled).drop_last() =~= inbox.take(handled - 1));
    }
}

/// Where the changes add up to a count that the state can hold after every
/// message, as they do when each decrement follows its increment, nothing is
/// clamped: after every message the count is the first count and the sum of
/// the changes so far.
pub proof fn lemma_balanced_deltas_are_exact(start: TuiView, inbox: Seq<TuiEvent>, handled: int)
    requires
        0 <= handled <= inbox.len(),
        forall|k: int|
            0 <= k <= handled ==> 0 <= start.active_tasks + delta_sum(#[trigger] inbox.take(k))
                <= MAX_ACTIVE_TASKS,
    ensures
        start.after(inbox.take(handled)).active_tasks == start.active_tasks + delta_sum(
            inbox.take(handled),
        ),
        start.clamps(inbox.take(handled)) == Seq::<i32>::empty(),
    decreases handled,
{
    if handled > 0 {
        lemma_balanced_deltas_are_exact(start, inbox, handled - 1);
        assert(inbox.take(handled).drop_last() =~= inbox.take(handled - 1));
    }
}

/// Rendering twice with nothing in between gives the same frame twice: two
/// frames that `render` may return for one state are equal.
pub proof fn lemma_render_is_repeatable(tui: &Tui, first: Frame, second: Frame)
    requires
        call_ensures(Tui::render, (tui,), first),
        call_ensures(Tui::render, (tui,), second),
    ensures
        first@ == second@,
{
}

} // verus!
