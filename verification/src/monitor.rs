//! DDC/CI brightness control: the decisions of the worker that owns the display.
//!
//! The worker is driven as a state machine. [`run`] takes what happened last (an
//! attempt to connect, a burst of commands, a write) and says which updates to
//! show, in order, and what to do next. Whoever drives it owns the display and
//! performs the actions.
//!
//! DDC round-trips take tens of milliseconds and monitors drop requests when
//! hammered, so bursts of scroll input are coalesced into a single write.
use vstd::prelude::*;
use vstd::pervasive::unreached;
use vstd::string::*;

verus! {

/// MCCS feature code for luminance.
pub const VCP_BRIGHTNESS: u8 = 0x10;

/// Brightness change per scroll notch, in percent.
pub const STEP_PERCENT: i32 = 5;

/// A request for the worker.
#[derive(Debug, Clone, Copy, PartialEq, Eq)]
pub enum Command {
    /// Move brightness by this many scroll notches.
    Adjust(i32),
    /// Jump to an absolute percentage (0-100).
    SetPercent(u16),
    /// Drop the current handle and enumerate displays again.
    Reconnect,
}

/// A change the worker wants reflected in the UI.
#[derive(Debug, Clone, PartialEq, Eq)]
pub enum Update {
    /// A display is available; `percent` is its current brightness.
    Connected { name: String, percent: u16 },
    /// Brightness moved to `percent` on the already-connected display.
    Brightness { percent: u16 },
    /// No usable display; the string explains why.
    Disconnected { reason: String },
}

/// What an [`Update`] says.
pub enum UpdateView {
    Connected { name: Seq<char>, percent: int },
    Brightness { percent: int },
    Disconnected { reason: Seq<char> },
}

impl View for Update {
    type V = UpdateView;

    open spec fn view(&self) -> UpdateView {
        match self {
            Update::Connected { name, percent } => UpdateView::Connected {
                name: name@,
                percent: *percent as int,
            },
            Update::Brightness { percent } => UpdateView::Brightness { percent: *percent as int },
            Update::Disconnected { reason } => UpdateView::Disconnected { reason: reason@ },
        }
    }
}

/// What a list of updates says.
pub open spec fn update_views(updates: Seq<Update>) -> Seq<UpdateView> {
    updates.map_values(|u: Update| u@)
}

/// The worker's view of the attached display.
#[derive(Debug, PartialEq, Eq)]
pub struct Connection {
    pub name: String,
    /// Raw VCP value, which is not necessarily 0-100.
    pub value: u16,
    /// Raw VCP maximum reported by the monitor.
    pub max: u16,
}

/// What a [`Connection`] holds.
pub struct ConnectionView {
    pub name: Seq<char>,
    pub value: int,
    pub max: int,
}

impl View for Connection {
    type V = ConnectionView;

    open spec fn view(&self) -> ConnectionView {
        ConnectionView { name: self.name@, value: self.value as int, max: self.max as int }
    }
}

/// The percentage that `value` is of `max`, to the nearest and at most 100.
pub open spec fn percent_of(value: int, max: int) -> int {
    let nearest = (value * 100 + max / 2) / max;
    if max == 0 {
        0
    } else if nearest < 100 {
        nearest
    } else {
        100
    }
}

/// The value that is nearest to `percent` (at most 100) of `max`.
pub open spec fn value_of(percent: int, max: int) -> int {
    let capped = if percent < 100 {
        percent
    } else {
        100
    };
    (capped * max + 50) / 100
}

impl ConnectionView {
    /// The brightness in percent.
    pub open spec fn percent(self) -> int {
        percent_of(self.value, self.max)
    }

    /// The numbers are 16-bit values.
    pub open spec fn wf(self) -> bool {
        0 <= self.value <= u16::MAX && 0 <= self.max <= u16::MAX
    }
}

impl Connection {
    /// The brightness in percent.
    pub fn percent(&self) -> (r: u16)
        ensures
            r == self@.percent(),
            r <= 100,
    {
        if self.max == 0 {
            return 0;
        }
        let nearest: u32 = (self.value as u32 * 100 + self.max as u32 / 2) / self.max as u32;
        if nearest < 100 {
            nearest as u16
        } else {
            100
        }
    }

    /// Converts a percentage back into the monitor's own scale.
    pub fn value_for(&self, percent: u16) -> (r: u16)
        ensures
            r == value_of(percent as int, self.max as int),
            r <= self.max,
    {
        let capped: u32 = if percent < 100 {
            percent as u32
        } else {
            100
        };
        let max: u32 = self.max as u32;
        assert(0 <= capped * max <= 100 * max) by (nonlinear_arith)
            requires
                0 <= capped <= 100,
                0 <= max,
        ;
        ((capped * max + 50) / 100) as u16
    }
}

/// What a burst of commands comes to.
#[derive(Debug, Clone, Copy, PartialEq, Eq)]
pub struct Burst {
    /// The last preset, if there is one.
    pub absolute: Option<u16>,
    /// The notches since the last preset.
    pub notches: i32,
    /// Whether a new connection is asked for.
    pub reconnect: bool,
}

/// The last preset among the commands.
pub open spec fn last_preset(commands: Seq<Command>) -> Option<u16>
    decreases commands.len(),
{
    if commands.len() == 0 {
        None
    } else {
        match commands.last() {
            Command::SetPercent(p) => Some(p),
            _ => last_preset(commands.drop_last()),
        }
    }
}

/// The sum of all notches after the last preset.
pub open spec fn total_notches(commands: Seq<Command>) -> int
    decreases commands.len(),
{
    if commands.len() == 0 {
        0
    } else {
        match commands.last() {
            Command::Adjust(n) => total_notches(commands.drop_last()) + n,
            Command::SetPercent(_) => 0,
            Command::Reconnect => total_notches(commands.drop_last()),
        }
    }
}

/// Whether a number is a 32-bit integer.
pub open spec fn in_i32(n: int) -> bool {
    i32::MIN <= n <= i32::MAX
}

/// Whether the notches can be added up one by one without overflow.
pub open spec fn totals_fit(commands: Seq<Command>) -> bool
    decreases commands.len(),
{
    commands.len() == 0 || totals_fit(commands.drop_last()) && in_i32(total_notches(commands))
}

/// What the commands come to.
pub open spec fn coalesced(commands: Seq<Command>) -> Burst {
    Burst {
        absolute: last_preset(commands),
        notches: total_notches(commands) as i32,
        reconnect: commands.contains(Command::Reconnect),
    }
}

proof fn lemma_totals_fit_prefix(commands: Seq<Command>, n: int)
    requires
        0 <= n <= commands.len(),
        totals_fit(commands),
    ensures
        totals_fit(commands.take(n)),
    decreases commands.len(),
{
    if n == commands.len() {
        assert(commands.take(n) =~= commands);
    } else {
        lemma_totals_fit_prefix(commands.drop_last(), n);
        assert(commands.drop_last().take(n) =~= commands.take(n));
    }
}

proof fn lemma_coalesced_push(commands: Seq<Command>, command: Command)
    ensures
        last_preset(commands.push(command)) == (match command {
            Command::SetPercent(p) => Some(p),
            _ => last_preset(commands),
        }),
        total_notches(commands.push(command)) == (match command {
            Command::Adjust(n) => total_notches(commands) + n,
            Command::SetPercent(_) => 0,
            Command::Reconnect => total_notches(commands),
        }),
        commands.push(command).contains(Command::Reconnect) == (commands.contains(
            Command::Reconnect,
        ) || command == Command::Reconnect),
        totals_fit(commands.push(command)) == (totals_fit(commands) && in_i32(
            total_notches(commands.push(command)),
        )),
{
    let all = commands.push(command);
    assert(all.drop_last() =~= commands);
    assert(all.last() == command);
    assert(all[commands.len() as int] == command);
    if commands.contains(Command::Reconnect) {
        let i = choose|i: int| 0 <= i < commands.len() && commands[i] == Command::Reconnect;
        assert(all[i] == Command::Reconnect);
    }
    if all.contains(Command::Reconnect) && command != Command::Reconnect {
        let i = choose|i: int| 0 <= i < all.len() && all[i] == Command::Reconnect;
        assert(commands[i] == Command::Reconnect);
    }
}

impl Burst {
    /// The burst with one more command, or nothing where the notches overflow.
    fn with(self, command: Command) -> (r: Option<Burst>)
        ensures
            r == (match command {
                Command::Adjust(n) => if in_i32(self.notches + n) {
                    Some(Burst { notches: (self.notches + n) as i32, ..self })
                } else {
                    None
                },
                Command::SetPercent(p) => Some(Burst { absolute: Some(p), notches: 0, ..self }),
                Command::Reconnect => Some(Burst { reconnect: true, ..self }),
            }),
    {
        match command {
            Command::Adjust(n) => match self.notches.checked_add(n) {
                Some(notches) => Some(Burst { notches, ..self }),
                None => None,
            },
            Command::SetPercent(p) => Some(Burst { absolute: Some(p), notches: 0, ..self }),
            Command::Reconnect => Some(Burst { reconnect: true, ..self }),
        }
    }
}

/// Folds a burst of commands into one change, or nothing where the notches do
/// not add up within 32 bits.
pub fn coalesce(first: Command, queued: &Vec<Command>) -> (r: Option<Burst>)
    ensures
        r == (if totals_fit(seq![first] + queued@) {
            Some(coalesced(seq![first] + queued@))
        } else {
            None
        }),
{
    let ghost all = seq![first] + queued@;
    let empty = Burst { absolute: None, notches: 0, reconnect: false };
    proof {
        lemma_coalesced_push(Seq::empty(), first);
        assert(Seq::<Command>::empty().push(first) =~= all.take(1));
        if totals_fit(all) {
            lemma_totals_fit_prefix(all, 1);
        }
    }
    let mut burst: Burst = match empty.with(first) {
        Some(burst) => burst,
        None => {
            return None;
        },
    };
    let mut i: usize = 0;
    while i < queued.len()
        invariant
            all == seq![first] + queued@,
            i <= queued.len(),
            totals_fit(all.take(i + 1)),
            total_notches(all.take(i + 1)) == burst.notches,
            burst == coalesced(all.take(i + 1)),
        decreases queued.len() - i,
    {
        let command: Command = queued[i];
        proof {
            lemma_coalesced_push(all.take(i + 1), command);
            assert(all.take(i + 1).push(command) =~= all.take(i + 2));
            if totals_fit(all) {
                lemma_totals_fit_prefix(all, i + 2);
            }
        }
        match burst.with(command) {
            Some(more) => {
                burst = more;
            },
            None => {
                return None;
            },
        }
        i += 1;
    }
    assert(all.take(all.len() as int) =~= all);
    Some(burst)
}

/// The percentage that the notches of the burst start from: the preset (at most
/// 100), or else the present percentage.
pub open spec fn base_of(burst: Burst, percent: int) -> int {
    match burst.absolute {
        Some(p) => if p < 100 {
            p as int
        } else {
            100
        },
        None => percent,
    }
}

/// Whether applying the burst to a display at `percent` stays within 32 bits.
pub open spec fn target_fits(burst: Burst, percent: int) -> bool {
    &&& in_i32(burst.notches * STEP_PERCENT)
    &&& in_i32(base_of(burst, percent) + burst.notches * STEP_PERCENT)
}

/// The nearest percentage from 0 to 100.
pub open spec fn clamped(percent: int) -> int {
    if percent < 0 {
        0
    } else if percent > 100 {
        100
    } else {
        percent
    }
}

/// The percentage to move to, if the burst moves the display at all: the steps
/// of its notches away from the preset or the present percentage, within 0 to
/// 100. A preset is set even where it changes nothing, a scroll is not.
pub open spec fn target_of(burst: Burst, percent: int) -> Option<int> {
    let target = clamped(base_of(burst, percent) + burst.notches * STEP_PERCENT);
    if burst.absolute is None && (burst.notches == 0 || target == percent) {
        None
    } else {
        Some(target)
    }
}

impl Burst {
    /// The percentage that the notches start from.
    fn base(&self, percent: u16) -> (r: u16)
        requires
            percent <= 100,
        ensures
            r == base_of(*self, percent as int),
            r <= 100,
    {
        match self.absolute {
            Some(p) => if p < 100 {
                p
            } else {
                100
            },
            None => percent,
        }
    }

    /// Whether the burst can be applied to a display at `percent`.
    fn fits(&self, percent: u16) -> (r: bool)
        requires
            percent <= 100,
        ensures
            r == target_fits(*self, percent as int),
    {
        match self.notches.checked_mul(STEP_PERCENT) {
            Some(steps) => (self.base(percent) as i32).checked_add(steps).is_some(),
            None => false,
        }
    }

    /// The percentage to move a display at `percent` to, if anywhere.
    fn target(&self, percent: u16) -> (r: Option<u16>)
        requires
            percent <= 100,
            target_fits(*self, percent as int),
        ensures
            r is Some == target_of(*self, percent as int) is Some,
            r matches Some(t) ==> target_of(*self, percent as int) == Some(t as int) && t <= 100,
    {
        let moved: i32 = self.base(percent) as i32 + self.notches * STEP_PERCENT;
        let target: u16 = if moved < 0 {
            0
        } else if moved > 100 {
            100
        } else {
            moved as u16
        };
        if self.absolute.is_none() && target == percent {
            None
        } else {
            Some(target)
        }
    }
}

/// What the worker waits for.
#[derive(Debug, Clone, Copy, PartialEq, Eq)]
pub enum Phase {
    /// A display, to apply the burst to.
    Connecting(Burst),
    /// Commands.
    Idle,
    /// The end of a write.
    Writing,
    /// Nothing more.
    Stopped,
}

/// What to do next.
#[derive(Debug, Clone, Copy, PartialEq, Eq)]
pub enum Action {
    /// Drop the display, if there is one, and look for the first that answers.
    Connect,
    /// Wait for a command and take all that are queued behind it.
    Receive,
    /// Write this raw brightness to the display.
    Write(u16),
    /// End the worker.
    Stop,
}

/// What happened last.
#[derive(Debug)]
pub enum Event {
    /// A display was found, or the reason why none was.
    Connect(Result<Connection, String>),
    /// A command came in, and others were queued behind it.
    Commands { first: Command, queued: Vec<Command> },
    /// No more commands will come.
    Closed,
    /// A write went through, or the error that ended it.
    Write(Result<(), String>),
}

/// What an [`Event`] says.
pub enum EventView {
    Connect(Result<ConnectionView, Seq<char>>),
    Commands(Seq<Command>),
    Closed,
    Write(Result<(), Seq<char>>),
}

impl View for Event {
    type V = EventView;

    open spec fn view(&self) -> EventView {
        match self {
            Event::Connect(Ok(connection)) => EventView::Connect(Ok(connection@)),
            Event::Connect(Err(reason)) => EventView::Connect(Err(reason@)),
            Event::Commands { first, queued } => EventView::Commands(seq![*first] + queued@),
            Event::Closed => EventView::Closed,
            Event::Write(Ok(_)) => EventView::Write(Ok(())),
            Event::Write(Err(error)) => EventView::Write(Err(error@)),
        }
    }
}

/// The state of the worker.
pub struct WorkerView {
    pub connection: Option<ConnectionView>,
    pub phase: Phase,
}

impl WorkerView {
    /// The worker before anything has happened: it looks for a display, with
    /// nothing to apply to it.
    pub open spec fn start() -> WorkerView {
        WorkerView {
            connection: None,
            phase: Phase::Connecting(Burst { absolute: None, notches: 0, reconnect: false }),
        }
    }

    /// While it connects the worker holds no display, while it writes it does.
    pub open spec fn wf(self) -> bool {
        &&& self.phase is Connecting ==> self.connection is None
        &&& self.phase is Writing ==> self.connection is Some
        &&& self.connection matches Some(connection) ==> connection.wf()
    }

    /// Whether the event is one that the worker waits for, and its commands stay
    /// within 32 bits.
    pub open spec fn accepts(self, event: EventView) -> bool {
        match event {
            EventView::Connect(outcome) => {
                &&& self.phase is Connecting
                &&& outcome matches Ok(connection) ==> target_fits(
                    self.phase->Connecting_0,
                    connection.percent(),
                )
            },
            EventView::Commands(commands) => {
                &&& self.phase is Idle
                &&& totals_fit(commands)
                &&& self.connection matches Some(connection) ==> !commands.contains(
                    Command::Reconnect,
                ) ==> target_fits(coalesced(commands), connection.percent())
            },
            EventView::Closed => self.phase is Idle,
            EventView::Write(_) => self.phase is Writing,
        }
    }
}

/// What one step of the worker comes to.
pub struct StepView {
    pub worker: WorkerView,
    /// The updates to show, in order.
    pub updates: Seq<UpdateView>,
    /// What to do once they are shown.
    pub action: Action,
}

/// Applies a burst to a connected display. A display that moves is shown at its
/// new brightness before the write.
pub open spec fn applied(connection: ConnectionView, burst: Burst) -> StepView {
    match target_of(burst, connection.percent()) {
        None => StepView {
            worker: WorkerView { connection: Some(connection), phase: Phase::Idle },
            updates: Seq::empty(),
            action: Action::Receive,
        },
        Some(target) => {
            let raw = value_of(target, connection.max);
            let moved = ConnectionView { value: raw, ..connection };
            StepView {
                worker: WorkerView { connection: Some(moved), phase: Phase::Writing },
                updates: seq![UpdateView::Brightness { percent: moved.percent() }],
                action: Action::Write(raw as u16),
            }
        },
    }
}

/// The updates `first` and then those of `step`.
pub open spec fn shown_first(first: UpdateView, step: StepView) -> StepView {
    StepView { updates: seq![first] + step.updates, ..step }
}

/// The worker without a display, after the reason was shown.
pub open spec fn disconnected(reason: Seq<char>) -> StepView {
    StepView {
        worker: WorkerView { connection: None, phase: Phase::Idle },
        updates: seq![UpdateView::Disconnected { reason }],
        action: Action::Receive,
    }
}

/// What the worker does with an event.
pub open spec fn stepped(worker: WorkerView, event: EventView) -> StepView {
    match event {
        EventView::Connect(Ok(connection)) => shown_first(
            UpdateView::Connected { name: connection.name, percent: connection.percent() },
            applied(connection, worker.phase->Connecting_0),
        ),
        EventView::Connect(Err(reason)) => disconnected(reason),
        EventView::Commands(commands) => {
            let burst = coalesced(commands);
            match worker.connection {
                Some(connection) if !burst.reconnect => applied(connection, burst),
                _ => StepView {
                    worker: WorkerView { connection: None, phase: Phase::Connecting(burst) },
                    updates: Seq::empty(),
                    action: Action::Connect,
                },
            }
        },
        EventView::Closed => StepView {
            worker: WorkerView { phase: Phase::Stopped, ..worker },
            updates: Seq::empty(),
            action: Action::Stop,
        },
        EventView::Write(Ok(_)) => StepView {
            worker: WorkerView { phase: Phase::Idle, ..worker },
            updates: Seq::empty(),
            action: Action::Receive,
        },
        EventView::Write(Err(error)) => disconnected("Lost contact with the display: "@ + error),
    }
}

/// The worker: the display it drives and what it waits for.
#[derive(Debug)]
pub struct Worker {
    connection: Option<Connection>,
    phase: Phase,
}

impl View for Worker {
    type V = WorkerView;

    closed spec fn view(&self) -> WorkerView {
        WorkerView {
            connection: match self.connection {
                Some(connection) => Some(connection@),
                None => None,
            },
            phase: self.phase,
        }
    }
}

/// The updates to show, in order, and what to do once they are shown.
#[derive(Debug)]
pub struct Step {
    pub updates: Vec<Update>,
    pub action: Action,
}

impl Worker {
    /// The worker before anything has happened, and its first action.
    pub fn start() -> (r: (Worker, Action))
        ensures
            r.0@ == WorkerView::start(),
            r.0@.wf(),
            r.1 == Action::Connect,
    {
        let burst = Burst { absolute: None, notches: 0, reconnect: false };
        (Worker { connection: None, phase: Phase::Connecting(burst) }, Action::Connect)
    }

    /// What the worker waits for.
    pub fn phase(&self) -> (r: Phase)
        ensures
            r == self@.phase,
    {
        self.phase
    }

    /// The display that the worker drives, if there is one.
    pub fn connection(&self) -> (r: Option<&Connection>)
        ensures
            r is Some == self@.connection is Some,
            r matches Some(connection) ==> self@.connection == Some(connection@),
    {
        self.connection.as_ref()
    }

    /// Decides whether [`run`] takes the event.
    pub fn accepts(&self, event: &Event) -> (r: bool)
        ensures
            r == self@.accepts(event@),
    {
        match event {
            Event::Connect(outcome) => match self.phase {
                Phase::Connecting(burst) => match outcome {
                    Ok(connection) => burst.fits(connection.percent()),
                    Err(_) => true,
                },
                _ => false,
            },
            Event::Commands { first, queued } => match self.phase {
                Phase::Idle => match coalesce(*first, queued) {
                    Some(burst) => match &self.connection {
                        Some(connection) => burst.reconnect || burst.fits(connection.percent()),
                        None => true,
                    },
                    None => false,
                },
                _ => false,
            },
            Event::Closed => matches!(self.phase, Phase::Idle),
            Event::Write(_) => matches!(self.phase, Phase::Writing),
        }
    }

    /// Applies a burst to a connected display.
    fn apply(&mut self, connection: Connection, burst: Burst, updates: &mut Vec<Update>) -> (action:
        Action)
        requires
            target_fits(burst, connection@.percent()),
        ensures
            final(self)@ == applied(connection@, burst).worker,
            update_views(final(updates)@) == update_views(old(updates)@) + applied(
                connection@,
                burst,
            ).updates,
            action == applied(connection@, burst).action,
    {
        let mut active = connection;
        match burst.target(active.percent()) {
            None => {
                self.connection = Some(active);
                self.phase = Phase::Idle;
                assert(update_views(updates@) =~= update_views(updates@) + Seq::empty());
                Action::Receive
            },
            Some(target) => {
                let raw: u16 = active.value_for(target);
                active.value = raw;
                let ghost before = updates@;
                let update = Update::Brightness { percent: active.percent() };
                updates.push(update);
                assert(update_views(updates@) =~= update_views(before) + seq![update@]);
                self.connection = Some(active);
                self.phase = Phase::Writing;
                Action::Write(raw)
            },
        }
    }
}

/// Takes one event and says what to show and what to do next.
pub fn run(worker: &mut Worker, event: Event) -> (step: Step)
    requires
        old(worker)@.wf(),
        old(worker)@.accepts(event@),
    ensures
        final(worker)@.wf(),
        ({
            let expected = stepped(old(worker)@, event@);
            &&& final(worker)@ == expected.worker
            &&& update_views(step.updates@) == expected.updates
            &&& step.action == expected.action
        }),
{
    let mut updates: Vec<Update> = Vec::new();
    assert(update_views(updates@) =~= Seq::empty());
    let action = match event {
        Event::Connect(Ok(connection)) => {
            let burst: Burst = match worker.phase {
                Phase::Connecting(burst) => burst,
                _ => unreached(),
            };
            let update = Update::Connected {
                name: connection.name.clone(),
                percent: connection.percent(),
            };
            updates.push(update);
            assert(update_views(updates@) =~= seq![update@]);
            worker.apply(connection, burst, &mut updates)
        },
        Event::Connect(Err(reason)) => {
            worker.phase = Phase::Idle;
            let update = Update::Disconnected { reason };
            updates.push(update);
            assert(update_views(updates@) =~= seq![update@]);
            Action::Receive
        },
        Event::Commands { first, queued } => {
            let burst: Burst = match coalesce(first, &queued) {
                Some(burst) => burst,
                None => unreached(),
            };
            let held: Option<Connection> = worker.connection.take();
            match held {
                Some(connection) if !burst.reconnect => worker.apply(
                    connection,
                    burst,
                    &mut updates,
                ),
                _ => {
                    worker.phase = Phase::Connecting(burst);
                    Action::Connect
                },
            }
        },
        Event::Closed => {
            worker.phase = Phase::Stopped;
            Action::Stop
        },
        Event::Write(Ok(_)) => {
            worker.phase = Phase::Idle;
            Action::Receive
        },
        Event::Write(Err(error)) => {
            worker.connection = None;
            worker.phase = Phase::Idle;
            let reason = "Lost contact with the display: ".to_owned().concat(error.as_str());
            let update = Update::Disconnected { reason };
            updates.push(update);
            assert(update_views(updates@) =~= seq![update@]);
            Action::Receive
        },
    };
    Step { updates, action }
}

} // verus!
