//! The redraw loop of one worker, as a state machine.
//!
//! A worker owns one slice of draw operations and one connection. It sends
//! its slice from the first operation to the last and then starts over,
//! until it is cancelled or fails. The machine decides what happens next;
//! its driver connects, writes and sleeps, and reports how that went.

use vstd::prelude::*;
use crate::protocol::{encode_write_pixel, write_pixel_line};
use crate::raster::DrawOp;

verus! {

/// What happens between two passes over the slice.
#[derive(Clone, Copy, Debug, PartialEq, Eq, Structural)]
pub enum Pacing {
    /// The next pass begins at once.
    Tight,
    /// The worker sleeps for `millis` milliseconds after every pass.
    Paced { millis: u32 },
}

/// How a worker uses its connection, and what it does when the connection fails.
#[derive(Clone, Copy, Debug, PartialEq, Eq, Structural)]
pub enum ConnectionPolicy {
    /// A new connection for every pass; a failure ends the worker.
    ReconnectPerPass,
    /// One connection for the whole run; a failure ends the worker.
    Persistent,
    /// One connection for the whole run; after a failure the worker waits,
    /// connects again and goes on where it was. The wait starts at
    /// `initial_millis`, doubles with every failure in a row, never exceeds
    /// `max_millis`, and starts over after a write that succeeded.
    PersistentWithRetry { initial_millis: u32, max_millis: u32 },
}

/// The configuration of a worker.
#[derive(Clone, Copy, Debug, PartialEq, Eq, Structural)]
pub struct WorkerConfig {
    pub pacing: Pacing,
    pub policy: ConnectionPolicy,
}

/// Why a worker gave up.
#[derive(Clone, Copy, Debug, PartialEq, Eq, Structural)]
pub enum WorkerError {
    /// The connection could not be opened.
    Connect,
    /// A write on the connection failed.
    Io,
}

/// What a worker is waiting for.
#[derive(Clone, Copy, Debug, PartialEq, Eq, Structural)]
pub enum Phase {
    /// Not started yet.
    Ready,
    /// A connection is being opened.
    Connecting,
    /// The operation at the cursor is being written.
    Writing,
    /// The pause between two passes.
    Pausing,
    /// The wait before connecting again after a failure.
    BackingOff,
    /// Cancelled.
    Stopped,
    /// Given up.
    Failed(WorkerError),
}

/// What the driver reports to the worker.
#[derive(Clone, Copy, Debug, PartialEq, Eq, Structural)]
pub enum Event {
    /// The worker is to begin.
    Start,
    /// The connection is open.
    Connected,
    /// The connection could not be opened.
    ConnectFailed,
    /// The line was handed to the transport.
    Written,
    /// The write failed.
    WriteFailed,
    /// The sleep is over.
    Elapsed,
    /// The run is being shut down.
    Cancelled,
}

/// What the driver is to do next.
#[derive(Clone, Copy, Debug, PartialEq, Eq, Structural)]
pub enum Action {
    /// Open a connection, dropping the one in use if there is one, and
    /// report `Connected` or `ConnectFailed`.
    Connect,
    /// Send the line of the operation at `index` and report `Written` or
    /// `WriteFailed`.
    Write { index: usize },
    /// Sleep for `millis` milliseconds and report `Elapsed`.
    Sleep { millis: u32 },
    /// End the worker: it was cancelled.
    Stop,
    /// End the worker: it failed.
    Abort(WorkerError),
}

/// Whether an operation, moved by the drawing offset, still has coordinates
/// of 32 bits.
pub open spec fn fits_at(op: DrawOp, offset_x: u32, offset_y: u32) -> bool {
    offset_x + op.dx <= u32::MAX && offset_y + op.dy <= u32::MAX
}

/// The command that draws `op` on the canvas when the image's top-left
/// corner is at `(offset_x, offset_y)`.
pub open spec fn draw_line(op: DrawOp, offset_x: u32, offset_y: u32) -> Seq<u8> {
    write_pixel_line((offset_x + op.dx) as u32, (offset_y + op.dy) as u32, op.r, op.g, op.b)
}

/// The pause after a pass: the interval of a paced worker, and none for a
/// tight one.
pub open spec fn pause(pacing: Pacing) -> u32 {
    match pacing {
        Pacing::Paced { millis } => millis,
        Pacing::Tight => 0,
    }
}

/// The wait after the first failure.
pub open spec fn first_delay(policy: ConnectionPolicy) -> u32 {
    match policy {
        ConnectionPolicy::PersistentWithRetry { initial_millis, max_millis } => if initial_millis
            <= max_millis {
            initial_millis
        } else {
            max_millis
        },
        _ => 0,
    }
}

/// The wait after one more failure in a row: twice the last one, up to the limit.
pub open spec fn next_delay(policy: ConnectionPolicy, delay: u32) -> u32 {
    match policy {
        ConnectionPolicy::PersistentWithRetry { max_millis, .. } => if 2 * delay <= max_millis {
            (2 * delay) as u32
        } else {
            max_millis
        },
        _ => 0,
    }
}

/// The state of a worker.
pub struct WorkerView {
    /// The operations this worker draws, in the order in which it sends them.
    pub slice: Seq<DrawOp>,
    /// The canvas position of the image's top-left corner.
    pub offset_x: u32,
    pub offset_y: u32,
    pub config: WorkerConfig,
    pub phase: Phase,
    /// The index of the next operation of the current pass.
    pub cursor: nat,
    /// The wait that the next failure brings.
    pub delay: u32,
    /// Whether a connection has been open at any time.
    pub established: bool,
}

impl WorkerView {
    /// What holds of every worker: all its operations can be drawn, the
    /// cursor is inside the slice, and while writing it is on an operation.
    pub open spec fn wf(self) -> bool {
        &&& forall|i: int|
            0 <= i < self.slice.len() ==> fits_at(
                #[trigger] self.slice[i],
                self.offset_x,
                self.offset_y,
            )
        &&& self.cursor <= self.slice.len() <= usize::MAX
        &&& self.phase == Phase::Writing ==> self.cursor < self.slice.len()
    }

    /// Whether the worker has ended.
    pub open spec fn ended(self) -> bool {
        self.phase == Phase::Stopped || self.phase is Failed
    }

    /// The worker in another phase.
    pub open spec fn in_phase(self, phase: Phase) -> WorkerView {
        WorkerView { phase, ..self }
    }

    /// Goes on with the pass: writes the operation at the cursor, or ends
    /// the pass if the cursor is past the last one.
    pub open spec fn resume(self) -> (WorkerView, Action) {
        if self.cursor < self.slice.len() {
            (self.in_phase(Phase::Writing), Action::Write { index: self.cursor as usize })
        } else {
            self.end_pass()
        }
    }

    /// Ends a pass: pauses if the worker is paced, else begins the next pass.
    pub open spec fn end_pass(self) -> (WorkerView, Action) {
        let rewound = WorkerView { cursor: 0, ..self };
        match self.config.pacing {
            Pacing::Paced { millis } => (rewound.in_phase(Phase::Pausing), Action::Sleep { millis }),
            Pacing::Tight => rewound.begin_pass(),
        }
    }

    /// Begins a pass: connects anew if every pass has its own connection,
    /// else writes the first operation. For a worker with nothing to write
    /// that keeps its connection the pass is over as it begins: it pauses
    /// as after any pass.
    pub open spec fn begin_pass(self) -> (WorkerView, Action) {
        match self.config.policy {
            ConnectionPolicy::ReconnectPerPass => (
                self.in_phase(Phase::Connecting),
                Action::Connect,
            ),
            _ => if self.cursor < self.slice.len() {
                (self.in_phase(Phase::Writing), Action::Write { index: self.cursor as usize })
            } else {
                (
                    self.in_phase(Phase::Pausing),
                    Action::Sleep { millis: pause(self.config.pacing) },
                )
            },
        }
    }

    /// Reacts to a failure: a worker that retries and has been connected
    /// before waits and lengthens the next wait; any other worker gives up.
    pub open spec fn fail(self, error: WorkerError) -> (WorkerView, Action) {
        match self.config.policy {
            ConnectionPolicy::PersistentWithRetry { .. } if self.established => (
                WorkerView {
                    phase: Phase::BackingOff,
                    delay: next_delay(self.config.policy, self.delay),
                    ..self
                },
                Action::Sleep { millis: self.delay },
            ),
            _ => (self.in_phase(Phase::Failed(error)), Action::Abort(error)),
        }
    }

    /// The transition function. `None` means that the worker was not
    /// waiting for this event, and then nothing changes: so it is with
    /// every event once the worker has ended.
    pub open spec fn step(self, event: Event) -> (WorkerView, Option<Action>) {
        if self.ended() {
            (self, None)
        } else if event == Event::Cancelled {
            (self.in_phase(Phase::Stopped), Some(Action::Stop))
        } else {
            match (self.phase, event) {
                (Phase::Ready, Event::Start) => (
                    self.in_phase(Phase::Connecting),
                    Some(Action::Connect),
                ),
                (Phase::Connecting, Event::Connected) => {
                    let next = (WorkerView { established: true, ..self }).resume();
                    (next.0, Some(next.1))
                },
                (Phase::Connecting, Event::ConnectFailed) => {
                    let next = self.fail(WorkerError::Connect);
                    (next.0, Some(next.1))
                },
                (Phase::Writing, Event::Written) => {
                    let next = (WorkerView {
                        cursor: self.cursor + 1,
                        delay: first_delay(self.config.policy),
                        ..self
                    }).resume();
                    (next.0, Some(next.1))
                },
                (Phase::Writing, Event::WriteFailed) => {
                    let next = self.fail(WorkerError::Io);
                    (next.0, Some(next.1))
                },
                (Phase::Pausing, Event::Elapsed) => {
                    let next = self.begin_pass();
                    (next.0, Some(next.1))
                },
                (Phase::BackingOff, Event::Elapsed) => (
                    self.in_phase(Phase::Connecting),
                    Some(Action::Connect),
                ),
                _ => (self, None),
            }
        }
    }
}

/// A step leaves the slice, the offset and the configuration alone and
/// keeps the worker well-formed; every write it orders is for the operation
/// at the cursor, which is an operation of the slice.
pub proof fn lemma_step_keeps_wf(w: WorkerView, event: Event)
    requires
        w.wf(),
    ensures
        w.step(event).0.wf(),
        w.step(event).0.slice == w.slice,
        w.step(event).0.offset_x == w.offset_x,
        w.step(event).0.offset_y == w.offset_y,
        w.step(event).0.config == w.config,
        w.step(event).1 matches Some(Action::Write { index }) ==> {
            &&& index < w.slice.len()
            &&& index == w.step(event).0.cursor
            &&& w.step(event).0.phase == Phase::Writing
        },
{
}

/// Writes go out in slice order: when the write of an operation has
/// succeeded, the next write is for the operation after it, and after the
/// last operation the pass is over and the cursor is back at the start.
pub proof fn lemma_writes_in_slice_order(w: WorkerView)
    requires
        w.wf(),
        w.phase == Phase::Writing,
    ensures
        w.cursor + 1 < w.slice.len() ==> w.step(Event::Written) == (
            WorkerView { cursor: w.cursor + 1, delay: first_delay(w.config.policy), ..w },
            Some(Action::Write { index: (w.cursor + 1) as usize }),
        ),
        w.cursor + 1 == w.slice.len() ==> w.step(Event::Written).0.cursor == 0,
{
}

/// A worker that was cancelled or has failed stays as it is, and orders
/// nothing more; a cancellation ends any other worker at once.
pub proof fn lemma_ending_is_final(w: WorkerView, event: Event)
    ensures
        w.ended() ==> w.step(event) == (w, None::<Action>),
        !w.ended() ==> w.step(Event::Cancelled) == (
            w.in_phase(Phase::Stopped),
            Some(Action::Stop),
        ),
        (w.step(event).1 == Some(Action::Stop) || (w.step(event).1 matches Some(
            Action::Abort(_),
        ))) ==> w.step(event).0.ended(),
{
}

/// The part of a worker's state that changes from step to step.
#[derive(Clone, Copy)]
struct Control {
    phase: Phase,
    cursor: usize,
    delay: u32,
    established: bool,
}

/// One worker: its slice, where it draws, how it is configured, and how far
/// it has come.
pub struct Worker {
    slice: Vec<DrawOp>,
    offset_x: u32,
    offset_y: u32,
    config: WorkerConfig,
    control: Control,
}

impl View for Worker {
    type V = WorkerView;

    closed spec fn view(&self) -> WorkerView {
        WorkerView {
            slice: self.slice@,
            offset_x: self.offset_x,
            offset_y: self.offset_y,
            config: self.config,
            phase: self.control.phase,
            cursor: self.control.cursor as nat,
            delay: self.control.delay,
            established: self.control.established,
        }
    }
}

/// The canvas position of an operation, or `None` if a coordinate would
/// need more than 32 bits.
pub fn position(op: &DrawOp, offset_x: u32, offset_y: u32) -> (res: Option<(u32, u32)>)
    ensures
        res is Some <==> fits_at(*op, offset_x, offset_y),
        res matches Some(p) ==> p.0 == offset_x + op.dx && p.1 == offset_y + op.dy,
{
    match (offset_x.checked_add(op.dx), offset_y.checked_add(op.dy)) {
        (Some(x), Some(y)) => Some((x, y)),
        _ => None,
    }
}

/// Builds the command that draws `op` when the image's top-left corner is
/// at `(offset_x, offset_y)`, or `None` if a coordinate would need more
/// than 32 bits.
pub fn encode_draw(op: &DrawOp, offset_x: u32, offset_y: u32) -> (res: Option<Vec<u8>>)
    ensures
        res is Some <==> fits_at(*op, offset_x, offset_y),
        res matches Some(line) ==> line@ == draw_line(*op, offset_x, offset_y),
{
    match position(op, offset_x, offset_y) {
        Some((x, y)) => Some(encode_write_pixel(x, y, op.r, op.g, op.b)),
        None => None,
    }
}

/// The wait after the first failure.
fn first_delay_of(policy: &ConnectionPolicy) -> (delay: u32)
    ensures
        delay == first_delay(*policy),
{
    match policy {
        ConnectionPolicy::PersistentWithRetry { initial_millis, max_millis } => if *initial_millis
            <= *max_millis {
            *initial_millis
        } else {
            *max_millis
        },
        _ => 0,
    }
}

/// The wait after one more failure in a row.
fn next_delay_of(policy: &ConnectionPolicy, delay: u32) -> (next: u32)
    ensures
        next == next_delay(*policy, delay),
{
    match policy {
        ConnectionPolicy::PersistentWithRetry { max_millis, .. } => if delay <= *max_millis / 2 {
            2 * delay
        } else {
            *max_millis
        },
        _ => 0,
    }
}

impl Worker {
    #[verifier::type_invariant]
    spec fn inv(self) -> bool {
        self@.wf()
    }

    /// Makes a worker for `slice`, to be drawn with the image's top-left
    /// corner at `(offset_x, offset_y)`. Gives `None` if some operation
    /// would then have a coordinate of more than 32 bits.
    pub fn new(slice: Vec<DrawOp>, offset_x: u32, offset_y: u32, config: WorkerConfig) -> (res:
        Option<Worker>)
        ensures
            res is Some <==> forall|i: int|
                0 <= i < slice@.len() ==> fits_at(#[trigger] slice@[i], offset_x, offset_y),
            res matches Some(worker) ==> worker@ == (WorkerView {
                slice: slice@,
                offset_x,
                offset_y,
                config,
                phase: Phase::Ready,
                cursor: 0,
                delay: first_delay(config.policy),
                established: false,
            }),
    {
        let mut i: usize = 0;
        while i < slice.len()
            invariant
                i <= slice@.len(),
                forall|k: int| 0 <= k < i ==> fits_at(#[trigger] slice@[k], offset_x, offset_y),
            decreases slice@.len() - i,
        {
            if position(&slice[i], offset_x, offset_y).is_none() {
                return None;
            }
            i = i + 1;
        }
        let control = Control {
            phase: Phase::Ready,
            cursor: 0,
            delay: first_delay_of(&config.policy),
            established: false,
        };
        Some(Worker { slice, offset_x, offset_y, config, control })
    }

    /// The number of operations in the worker's slice.
    pub fn len(&self) -> (n: usize)
        ensures
            n == self@.slice.len(),
    {
        self.slice.len()
    }

    /// What the worker is waiting for.
    pub fn phase(&self) -> (phase: Phase)
        ensures
            phase == self@.phase,
    {
        self.control.phase
    }

    /// The index of the next operation of the current pass.
    pub fn cursor(&self) -> (cursor: usize)
        ensures
            cursor == self@.cursor,
            self@.wf(),
    {
        proof {
            use_type_invariant(self);
        }
        self.control.cursor
    }

    /// The command for the operation at `index`, or `None` if the slice has
    /// no such operation.
    pub fn line(&self, index: usize) -> (res: Option<Vec<u8>>)
        ensures
            res is Some <==> index < self@.slice.len(),
            res matches Some(line) ==> line@ == draw_line(
                self@.slice[index as int],
                self@.offset_x,
                self@.offset_y,
            ),
    {
        proof {
            use_type_invariant(self);
        }
        if index < self.slice.len() {
            encode_draw(&self.slice[index], self.offset_x, self.offset_y)
        } else {
            None
        }
    }

    /// Control after the connection opened or a write succeeded: on to the
    /// operation at the cursor, or to the end of the pass.
    fn resume(&self, control: Control) -> (next: (Control, Action))
        requires
            control.cursor <= self@.slice.len(),
        ensures
            self.with(next.0) == self.with(control).resume().0,
            next.1 == self.with(control).resume().1,
            self.with(next.0).wf(),
    {
        proof {
            use_type_invariant(self);
        }
        if control.cursor < self.slice.len() {
            (Control { phase: Phase::Writing, ..control }, Action::Write { index: control.cursor })
        } else {
            let rewound = Control { cursor: 0, ..control };
            match self.config.pacing {
                Pacing::Paced { millis } => (
                    Control { phase: Phase::Pausing, ..rewound },
                    Action::Sleep { millis },
                ),
                Pacing::Tight => self.begin_pass(rewound),
            }
        }
    }

    /// Control at the beginning of a pass.
    fn begin_pass(&self, control: Control) -> (next: (Control, Action))
        requires
            control.cursor <= self@.slice.len(),
        ensures
            self.with(next.0) == self.with(control).begin_pass().0,
            next.1 == self.with(control).begin_pass().1,
            self.with(next.0).wf(),
    {
        proof {
            use_type_invariant(self);
        }
        match self.config.policy {
            ConnectionPolicy::ReconnectPerPass => (
                Control { phase: Phase::Connecting, ..control },
                Action::Connect,
            ),
            _ => if control.cursor < self.slice.len() {
                (
                    Control { phase: Phase::Writing, ..control },
                    Action::Write { index: control.cursor },
                )
            } else {
                let millis: u32 = match self.config.pacing {
                    Pacing::Paced { millis } => millis,
                    Pacing::Tight => 0,
                };
                (Control { phase: Phase::Pausing, ..control }, Action::Sleep { millis })
            },
        }
    }

    /// Control after a failure.
    fn fail(&self, control: Control, error: WorkerError) -> (next: (Control, Action))
        requires
            control.cursor <= self@.slice.len(),
        ensures
            self.with(next.0) == self.with(control).fail(error).0,
            next.1 == self.with(control).fail(error).1,
            self.with(next.0).wf(),
    {
        proof {
            use_type_invariant(self);
        }
        match self.config.policy {
            ConnectionPolicy::PersistentWithRetry { .. } if control.established => (
                Control {
                    phase: Phase::BackingOff,
                    delay: next_delay_of(&self.config.policy, control.delay),
                    ..control
                },
                Action::Sleep { millis: control.delay },
            ),
            _ => (Control { phase: Phase::Failed(error), ..control }, Action::Abort(error)),
        }
    }

    /// The worker's state with another control part.
    spec fn with(self, control: Control) -> WorkerView {
        WorkerView {
            phase: control.phase,
            cursor: control.cursor as nat,
            delay: control.delay,
            established: control.established,
            ..self@
        }
    }

    /// Takes one step: records what the driver reports and says what it is
    /// to do next. `None` means that the worker was not waiting for this
    /// event; its state is then unchanged.
    pub fn step(&mut self, event: Event) -> (action: Option<Action>)
        ensures
            (final(self)@, action) == old(self)@.step(event),
            final(self)@.wf(),
    {
        proof {
            use_type_invariant(&*self);
        }
        let control = self.control;
        assert(self.with(control) == self@);
        let ended = match control.phase {
            Phase::Stopped => true,
            Phase::Failed(_) => true,
            _ => false,
        };
        if ended {
            return None;
        }
        let (next, action) = match (control.phase, event) {
            (_, Event::Cancelled) => (Control { phase: Phase::Stopped, ..control }, Action::Stop),
            (Phase::Ready, Event::Start) => (
                Control { phase: Phase::Connecting, ..control },
                Action::Connect,
            ),
            (Phase::Connecting, Event::Connected) => self.resume(
                Control { established: true, ..control },
            ),
            (Phase::Connecting, Event::ConnectFailed) => self.fail(control, WorkerError::Connect),
            (Phase::Writing, Event::Written) => self.resume(
                Control {
                    cursor: control.cursor + 1,
                    delay: first_delay_of(&self.config.policy),
                    ..control
                },
            ),
            (Phase::Writing, Event::WriteFailed) => self.fail(control, WorkerError::Io),
            (Phase::Pausing, Event::Elapsed) => self.begin_pass(control),
            (Phase::BackingOff, Event::Elapsed) => (
                Control { phase: Phase::Connecting, ..control },
                Action::Connect,
            ),
            _ => { return None; },
        };
        assert(self.with(next) == old(self)@.step(event).0);
        self.control = next;
        Some(action)
    }
}

} // verus!
