//! The supervisor: the setpoints of the motors, what was last heard of them,
//! the counters, and the periodic worker that drives the session.
//!
//! The supervisor does no input or output and keeps no clock. The worker's
//! loop lives outside: it hands each outcome, with the time at which it
//! came, to [`MotorsSupervisor::step`], does what comes back (an exchange on
//! the link, or a sleep), and stops when told to exit. Setpoints are changed
//! between two steps. What a step does is stated by the functions of
//! [`SupervisorView`].
//!
//! Rates are unsigned integers that count millionths of a hertz; times are
//! nanoseconds.

use vstd::prelude::*;
use std::collections::HashMap;
use std::collections::HashSet;
use crate::motors::{
    all_ids,
    ids_of,
    lemma_batch_keeps_motors,
    lemma_begin_keeps_motors,
    lemma_step_keeps_motors,
    sends,
    Action,
    ActionView,
    Event,
    EventView,
    Motors,
    MotorsView,
    Request,
};
use crate::types::{MotorControlParams, MotorError, MotorFeedback, MotorType};

verus! {

/// How long the worker sleeps while it is paused, in nanoseconds.
pub const PAUSE_SLEEP_NS: u64 = 10_000_000;

/// The shortest sleep between two iterations, in nanoseconds.
pub const MIN_SLEEP_NS: u64 = 1_000;

/// Where the worker is in its loop.
#[derive(Copy, Clone, Debug, PartialEq, Eq, Structural)]
pub enum Phase {
    /// The worker has not taken a step yet.
    Created,
    /// Start-up: stopping every motor.
    StartResets,
    /// Start-up: letting every motor run.
    StartStarts,
    /// Start-up: setting the bus watchdog.
    StartTimeout,
    /// Between two iterations.
    Top,
    /// A restart was asked for: stopping every motor.
    RestartResets,
    /// A restart was asked for: letting every motor run.
    RestartStarts,
    /// The lowest update rate was changed: setting the bus watchdog.
    Timeout,
    /// Zeroing the motors that are to be zeroed.
    Zeros,
    /// Sending an all-zero setpoint to the motors that were zeroed.
    ZeroControls,
    /// Sending every motor its setpoint.
    Controls,
    /// Working out how long to sleep.
    Pace,
    /// Shutting down: sending an all-zero setpoint to every motor heard of.
    StopControls,
    /// Shutting down: stopping every motor.
    StopResets,
    /// The worker has ended.
    Stopped,
}

impl Phase {
    /// How far a phase is from the end of a step: every phase is followed,
    /// within one step, only by phases of lower rank.
    pub open spec fn rank(self) -> nat {
        match self {
            Phase::Created => 14,
            Phase::StartResets => 13,
            Phase::StartStarts => 12,
            Phase::StartTimeout => 11,
            Phase::Top => 10,
            Phase::RestartResets => 9,
            Phase::RestartStarts => 8,
            Phase::Timeout => 7,
            Phase::Zeros => 6,
            Phase::ZeroControls => 5,
            Phase::Controls => 4,
            Phase::Pace => 3,
            Phase::StopControls => 2,
            Phase::StopResets => 1,
            Phase::Stopped => 0,
        }
    }

    /// The phase that follows when the operation of a phase is done.
    pub open spec fn next(self) -> Phase {
        match self {
            Phase::Created => Phase::StartResets,
            Phase::StartResets => Phase::StartStarts,
            Phase::StartStarts => Phase::StartTimeout,
            Phase::StartTimeout => Phase::Top,
            Phase::Top => Phase::RestartResets,
            Phase::RestartResets => Phase::RestartStarts,
            Phase::RestartStarts => Phase::Timeout,
            Phase::Timeout => Phase::Zeros,
            Phase::Zeros => Phase::ZeroControls,
            Phase::ZeroControls => Phase::Controls,
            Phase::Controls => Phase::Pace,
            Phase::Pace => Phase::Stopped,
            Phase::StopControls => Phase::StopResets,
            Phase::StopResets => Phase::Stopped,
            Phase::Stopped => Phase::Stopped,
        }
    }

    /// Whether the worker is shutting down or has ended.
    pub open spec fn shutting_down(self) -> bool {
        self == Phase::StopControls || self == Phase::StopResets || self == Phase::Stopped
    }

    /// Whether the phase counts as a command to each motor of its batch:
    /// zeroing, setpoints, and the two phases of shutdown.
    pub open spec fn counts(self) -> bool {
        self == Phase::Zeros || self == Phase::ZeroControls || self == Phase::Controls || self
            == Phase::StopControls || self == Phase::StopResets
    }

    /// Whether a failure in the phase is counted against the motors that it
    /// failed for. At shutdown failures are not counted: shutdown does what
    /// it can.
    pub open spec fn tallies(self) -> bool {
        self == Phase::Zeros || self == Phase::ZeroControls || self == Phase::Controls
    }
}

/// What happened since the last step.
#[derive(Debug, PartialEq, Eq)]
pub enum WorkerEvent {
    /// The worker has started, or has slept as long as it was told.
    Wake,
    /// The exchange on the link gave these bytes.
    Reply(Vec<u8>),
    /// The exchange on the link failed.
    Failed,
}

/// A worker event as a mathematical value.
pub enum WorkerEventView {
    Wake,
    Reply(Seq<u8>),
    Failed,
}

impl View for WorkerEvent {
    type V = WorkerEventView;

    open spec fn view(&self) -> WorkerEventView {
        match self {
            WorkerEvent::Wake => WorkerEventView::Wake,
            WorkerEvent::Reply(bytes) => WorkerEventView::Reply(bytes@),
            WorkerEvent::Failed => WorkerEventView::Failed,
        }
    }
}

impl WorkerEventView {
    /// What the session is told: a wake-up where a reply was due counts as a
    /// failure of the link.
    pub open spec fn link(self) -> EventView {
        match self {
            WorkerEventView::Reply(bytes) => EventView::Reply(bytes),
            _ => EventView::Failed,
        }
    }
}

/// What the worker is to do next.
#[derive(Debug, PartialEq, Eq)]
pub enum WorkerAction {
    /// Write `bytes` and flush; wait `sleep_ms` milliseconds; read `frames`
    /// frames of 17 bytes; hand what was read, or the failure, to `step`.
    Exchange { bytes: Vec<u8>, sleep_ms: u64, frames: usize },
    /// Sleep so many nanoseconds, then hand `Wake` to `step`.
    Sleep { ns: u64 },
    /// End the loop.
    Exit,
}

/// A worker action as a mathematical value.
pub enum WorkerActionView {
    Exchange { bytes: Seq<u8>, sleep_ms: u64, frames: usize },
    Sleep { ns: u64 },
    Exit,
}

impl View for WorkerAction {
    type V = WorkerActionView;

    open spec fn view(&self) -> WorkerActionView {
        match self {
            WorkerAction::Exchange { bytes, sleep_ms, frames } => WorkerActionView::Exchange {
                bytes: bytes@,
                sleep_ms: *sleep_ms,
                frames: *frames,
            },
            WorkerAction::Sleep { ns } => WorkerActionView::Sleep { ns: *ns },
            WorkerAction::Exit => WorkerActionView::Exit,
        }
    }
}

/// The timeout of the bus watchdog for a lowest update rate: 1000 ms
/// divided by the rate in hertz, rounded up, and at most what 32 bits hold.
/// At rate zero it is the largest value.
pub open spec fn spec_watchdog_ms(rate: u64) -> u32 {
    if rate == 0 {
        0xffff_ffffu32
    } else if (1_000_000_000 + rate - 1) / (rate as int) > 0xffff_ffff {
        0xffff_ffffu32
    } else {
        ((1_000_000_000 + rate - 1) / (rate as int)) as u32
    }
}

/// The length of one period of a rate, or the rate of one period, in
/// nanoseconds and millionths of a hertz: their product is `10^15`. At zero
/// it is the largest value.
pub open spec fn spec_reciprocal(x: u64) -> u64 {
    if x == 0 {
        0xffff_ffff_ffff_ffffu64
    } else {
        (1_000_000_000_000_000int / (x as int)) as u64
    }
}

/// How long to sleep after an iteration that took `elapsed` nanoseconds, to
/// keep a period: what is left of the period if that is more than a
/// microsecond, and a microsecond otherwise. Lost time is not made up for.
pub open spec fn spec_sleep_ns(period: u64, elapsed: u64) -> u64 {
    if period > elapsed + MIN_SLEEP_NS {
        (period - elapsed) as u64
    } else {
        MIN_SLEEP_NS
    }
}

/// `later - earlier`, or zero if the clock went backwards.
pub open spec fn spec_since(later: u64, earlier: u64) -> u64 {
    if later >= earlier {
        (later - earlier) as u64
    } else {
        0
    }
}

/// The all-zero setpoint for each id of a set.
pub open spec fn zero_map(ids: Set<u8>) -> Map<u8, MotorControlParams> {
    Map::new(|id: u8| ids.contains(id), |id: u8| MotorControlParams::zero())
}

/// Counters after one more command to each motor of a set: one more for each
/// of them that has a counter, as far as the counter goes.
pub open spec fn bumped(counters: Map<u8, u64>, ids: Set<u8>) -> Map<u8, u64> {
    Map::new(
        |id: u8| counters.contains_key(id),
        |id: u8|
            if ids.contains(id) && counters[id] < 0xffff_ffff_ffff_ffff {
                (counters[id] + 1) as u64
            } else {
                counters[id]
            },
    )
}

/// The motors that are zeroed when a session starts.
pub open spec fn zero_on_init(types: Map<u8, MotorType>) -> Set<u8> {
    Set::new(|id: u8| types.contains_key(id) && types[id].spec_config().zero_on_init)
}

/// The supervisor as a mathematical value.
pub struct SupervisorView {
    /// The session.
    pub motors: MotorsView,
    /// The setpoint of each motor: what the worker sends next.
    pub target_params: Map<u8, MotorControlParams>,
    /// Whether the worker is to go on.
    pub running: bool,
    /// The feedback of each motor as the worker last published it.
    pub latest_feedback: Map<u8, MotorFeedback>,
    /// The motors to be zeroed in the next iteration.
    pub motors_to_zero: Set<u8>,
    /// Whether the worker is paused.
    pub paused: bool,
    /// Whether a restart is asked for.
    pub restart: bool,
    /// Whether the bus watchdog is to be set again.
    pub timeout_pending: bool,
    /// The number of commands sent to each motor.
    pub total_commands: Map<u8, u64>,
    /// The number of commands to each motor that failed.
    pub failed_commands: Map<u8, u64>,
    /// The lowest rate at which the host promises to send.
    pub min_update_rate: u64,
    /// The rate at which the worker is to iterate.
    pub target_update_rate: u64,
    /// The rate that the worker measured last.
    pub actual_update_rate: u64,
    /// Where the worker is.
    pub phase: Phase,
    /// The setpoints of the operation under way.
    pub batch: Map<u8, MotorControlParams>,
    /// When the iteration under way began.
    pub tick_start: u64,
    /// When the iteration before it began.
    pub last_update_time: u64,
}

impl SupervisorView {
    /// A new supervisor: every setpoint zero, every counter zero, the motors
    /// with a single encoder waiting to be zeroed, the worker not started.
    pub open spec fn initial(types: Map<u8, MotorType>, min_rate: u64, target_rate: u64) -> SupervisorView {
        SupervisorView {
            motors: MotorsView::initial(types),
            target_params: zero_map(types.dom()),
            running: true,
            latest_feedback: Map::empty(),
            motors_to_zero: zero_on_init(types),
            paused: false,
            restart: false,
            timeout_pending: false,
            total_commands: Map::new(|id: u8| types.contains_key(id), |id: u8| 0u64),
            failed_commands: Map::new(|id: u8| types.contains_key(id), |id: u8| 0u64),
            min_update_rate: min_rate,
            target_update_rate: target_rate,
            actual_update_rate: 0,
            phase: Phase::Created,
            batch: Map::empty(),
            tick_start: 0,
            last_update_time: 0,
        }
    }

    /// The supervisor is well formed if no setpoint has a negative gain, and
    /// every motor that has a counter of failures has a counter of commands
    /// that is at least as high.
    pub open spec fn wf(self) -> bool {
        &&& forall|id: u8| #[trigger]
            self.target_params.contains_key(id) ==> self.target_params[id].valid()
        &&& forall|id: u8| #[trigger]
            self.failed_commands.contains_key(id) ==> self.total_commands.contains_key(id)
                && self.failed_commands[id] <= self.total_commands[id]
    }

    /// What is changed before the operation of a phase begins.
    ///
    /// When a restart or a new watchdog is taken up, its flag is cleared.
    /// Before zeroing, the iteration's start is marked, the feedback of the
    /// session is published, and the motors to be zeroed are taken as the
    /// batch and forgotten. Before the setpoints go out, they are taken as
    /// the batch. At shutdown the batch is first an all-zero setpoint for
    /// every motor heard of, then every motor of the session.
    pub open spec fn prepare(self, phase: Phase, now: u64) -> SupervisorView {
        match phase {
            Phase::RestartResets => SupervisorView { restart: false, ..self },
            Phase::Timeout => SupervisorView { timeout_pending: false, ..self },
            Phase::Zeros => SupervisorView {
                tick_start: now,
                latest_feedback: self.motors.latest_feedback,
                batch: zero_map(self.motors_to_zero),
                motors_to_zero: Set::empty(),
                ..self
            },
            Phase::Controls => SupervisorView { batch: self.target_params, ..self },
            Phase::StopControls => SupervisorView {
                batch: zero_map(self.motors.latest_feedback.dom()),
                ..self
            },
            Phase::StopResets => SupervisorView {
                batch: zero_map(self.motors.motor_types.dom()),
                ..self
            },
            _ => self,
        }
    }

    /// The operation of a phase, begun on the session.
    pub open spec fn begin_op(self, phase: Phase) -> (MotorsView, ActionView) {
        match phase {
            Phase::StartResets => self.motors.begin(sends(self.motors.ids(), Request::Reset)),
            Phase::RestartResets => self.motors.begin(sends(self.motors.ids(), Request::Reset)),
            Phase::StopResets => self.motors.begin(sends(self.motors.ids(), Request::Reset)),
            Phase::StartStarts => self.motors.begin(sends(self.motors.ids(), Request::Start)),
            Phase::RestartStarts => self.motors.begin(sends(self.motors.ids(), Request::Start)),
            Phase::StartTimeout => self.motors.begin(
                sends(
                    self.motors.ids(),
                    Request::WriteTimeout(spec_watchdog_ms(self.min_update_rate)),
                ),
            ),
            Phase::Timeout => self.motors.begin(
                sends(
                    self.motors.ids(),
                    Request::WriteTimeout(spec_watchdog_ms(self.min_update_rate)),
                ),
            ),
            Phase::Zeros => self.motors.begin_zeros(all_ids(self.batch.dom())),
            Phase::ZeroControls => self.motors.begin_controls(self.batch),
            Phase::Controls => self.motors.begin_controls(self.batch),
            Phase::StopControls => self.motors.begin_controls(self.batch),
            _ => (self.motors, ActionView::Done(Ok(()))),
        }
    }

    /// The motors of the batch that the operation of a phase failed for:
    /// all of them if the operation failed as a whole, and otherwise those
    /// that a command failed on.
    pub open spec fn affected(self, result: Result<(), MotorError>) -> Set<u8> {
        if result is Err {
            self.batch.dom()
        } else {
            self.batch.dom().intersect(self.motors.failures.dom())
        }
    }

    /// What the end of the operation of a phase changes. A phase that counts
    /// adds one command for every motor of its batch, and, unless the worker
    /// is shutting down, one failure for each of them that the operation
    /// failed for. The end of start-up is the time from which the first
    /// iteration is measured.
    pub open spec fn account(self, phase: Phase, result: Result<(), MotorError>, now: u64) -> SupervisorView {
        if phase.counts() {
            SupervisorView {
                total_commands: bumped(self.total_commands, self.batch.dom()),
                failed_commands: if phase.tallies() {
                    bumped(self.failed_commands, self.affected(result))
                } else {
                    self.failed_commands
                },
                ..self
            }
        } else if phase == Phase::StartTimeout {
            SupervisorView { last_update_time: now, ..self }
        } else {
            self
        }
    }

    /// The end of an iteration: the rate is measured from the start of the
    /// iteration before, and the worker sleeps for what is left of the
    /// period.
    pub open spec fn paced(self, now: u64) -> (SupervisorView, WorkerActionView) {
        (
            SupervisorView {
                actual_update_rate: spec_reciprocal(
                    spec_since(self.tick_start, self.last_update_time),
                ),
                last_update_time: self.tick_start,
                phase: Phase::Top,
                ..self
            },
            WorkerActionView::Sleep {
                ns: spec_sleep_ns(
                    spec_reciprocal(self.target_update_rate),
                    spec_since(now, self.tick_start),
                ),
            },
        )
    }

    /// The worker arrives at a phase and goes on from there until there is
    /// something to do outside.
    ///
    /// At the top of the loop it shuts down if it is not to go on, and
    /// sleeps 10 ms if it is paused. A restart is passed over if none is
    /// asked for, the watchdog if it is not to be set again, zeroing and its
    /// all-zero setpoint if no motor is to be zeroed.
    pub open spec fn run(self, phase: Phase, now: u64) -> (SupervisorView, WorkerActionView)
        decreases phase.rank(), 1int,
    {
        match phase {
            Phase::Created => self.run(Phase::StartResets, now),
            Phase::Stopped => (SupervisorView { phase: Phase::Stopped, ..self }, WorkerActionView::Exit),
            Phase::Pace => self.paced(now),
            Phase::Top => if !self.running {
                self.run(Phase::StopControls, now)
            } else if self.paused {
                (
                    SupervisorView { phase: Phase::Top, ..self },
                    WorkerActionView::Sleep { ns: PAUSE_SLEEP_NS },
                )
            } else {
                self.run(Phase::RestartResets, now)
            },
            _ => if phase == Phase::RestartResets && !self.restart {
                self.run(Phase::Timeout, now)
            } else if phase == Phase::Timeout && !self.timeout_pending {
                self.run(Phase::Zeros, now)
            } else {
                let ready = self.prepare(phase, now);
                if phase == Phase::Zeros && all_ids(ready.batch.dom()).len() == 0 {
                    ready.run(Phase::Controls, now)
                } else {
                    let (motors, action) = ready.begin_op(phase);
                    let begun = SupervisorView { motors, phase, ..ready };
                    match action {
                        ActionView::Exchange { bytes, sleep_ms, frames } => (
                            begun,
                            WorkerActionView::Exchange { bytes, sleep_ms, frames },
                        ),
                        ActionView::Done(result) => begun.settle(phase, result, now),
                    }
                }
            },
        }
    }

    /// The operation of a phase is done: its outcome is counted, and the
    /// worker goes on to the next phase.
    pub open spec fn settle(self, phase: Phase, result: Result<(), MotorError>, now: u64) -> (
        SupervisorView,
        WorkerActionView,
    )
        decreases phase.rank(), 0int,
    {
        if phase.rank() == 0 {
            (self, WorkerActionView::Exit)
        } else {
            self.account(phase, result, now).run(phase.next(), now)
        }
    }

    /// The supervisor with one setpoint replaced.
    pub open spec fn with_target(self, id: u8, params: MotorControlParams) -> SupervisorView {
        SupervisorView { target_params: self.target_params.insert(id, params), ..self }
    }

    /// The supervisor after a motor was marked to be zeroed: its setpoint
    /// has position, velocity and torque zero, and it waits to be zeroed.
    pub open spec fn with_zero_request(self, id: u8) -> SupervisorView {
        SupervisorView {
            target_params: self.target_params.insert(
                id,
                MotorControlParams { position: 0, velocity: 0, torque: 0, ..self.target_params[id] },
            ),
            motors_to_zero: self.motors_to_zero.insert(id),
            ..self
        }
    }

    /// The supervisor with every counter at zero.
    pub open spec fn with_counters_reset(self) -> SupervisorView {
        SupervisorView {
            total_commands: Map::new(|id: u8| self.total_commands.contains_key(id), |id: u8| 0u64),
            failed_commands: Map::new(
                |id: u8| self.failed_commands.contains_key(id),
                |id: u8| 0u64,
            ),
            ..self
        }
    }

    /// What every step keeps: a well-formed supervisor stays well formed,
    /// no counter of commands is lost, and none goes down.
    pub open spec fn kept(self, later: SupervisorView) -> bool {
        &&& self.wf() ==> later.wf()
        &&& forall|id: u8| #[trigger]
            self.total_commands.contains_key(id) ==> later.total_commands.contains_key(id)
                && self.total_commands[id] <= later.total_commands[id]
    }

    /// One step of the worker.
    ///
    /// A worker that has ended stays ended. A worker that was sleeping, or
    /// has not begun, starts at the top of the loop, or with start-up. In
    /// every other phase the outcome of the exchange goes to the session,
    /// which either asks for another exchange or is done with the operation
    /// of the phase.
    pub open spec fn step(self, event: WorkerEventView, now: u64) -> (
        SupervisorView,
        WorkerActionView,
    ) {
        match self.phase {
            Phase::Stopped => (self, WorkerActionView::Exit),
            Phase::Created => self.run(Phase::Created, now),
            Phase::Top => self.run(Phase::Top, now),
            Phase::Pace => self.run(Phase::Top, now),
            _ => {
                let (motors, action) = self.motors.step(event.link());
                let moved = SupervisorView { motors, ..self };
                match action {
                    ActionView::Exchange { bytes, sleep_ms, frames } => (
                        moved,
                        WorkerActionView::Exchange { bytes, sleep_ms, frames },
                    ),
                    ActionView::Done(result) => moved.settle(self.phase, result, now),
                }
            },
        }
    }
}


broadcast use vstd::std_specs::hash::group_hash_axioms;

/// The timeout of the bus watchdog for a lowest update rate.
pub fn watchdog_ms(rate: u64) -> (timeout: u32)
    ensures
        timeout == spec_watchdog_ms(rate),
{
    if rate == 0 {
        0xffff_ffff
    } else {
        let sum: u128 = 1_000_000_000u128 + rate as u128 - 1;
        let timeout: u128 = sum / (rate as u128);
        if timeout > 0xffff_ffff {
            0xffff_ffff
        } else {
            timeout as u32
        }
    }
}

/// The period of a rate, or the rate of a period.
pub fn reciprocal(x: u64) -> (r: u64)
    ensures
        r == spec_reciprocal(x),
{
    if x == 0 {
        0xffff_ffff_ffff_ffff
    } else {
        1_000_000_000_000_000u64 / x
    }
}

/// How long to sleep after an iteration that took `elapsed` nanoseconds.
pub fn sleep_ns(period: u64, elapsed: u64) -> (ns: u64)
    ensures
        ns == spec_sleep_ns(period, elapsed),
        ns >= MIN_SLEEP_NS,
{
    if elapsed <= 0xffff_ffff_ffff_ffff - MIN_SLEEP_NS && period > elapsed + MIN_SLEEP_NS {
        period - elapsed
    } else {
        MIN_SLEEP_NS
    }
}

/// `later - earlier`, or zero if the clock went backwards.
pub fn since(later: u64, earlier: u64) -> (d: u64)
    ensures
        d == spec_since(later, earlier),
{
    if later >= earlier {
        later - earlier
    } else {
        0
    }
}

fn zeros_for_keys<V>(map: &HashMap<u8, V>) -> (zeros: HashMap<u8, MotorControlParams>)
    ensures
        zeros@ == zero_map(map@.dom()),
{
    let mut zeros: HashMap<u8, MotorControlParams> = HashMap::new();
    let mut n: u16 = 0;
    while n < 256
        invariant
            n <= 256,
            zeros@ == zero_map(map@.dom().filter(|id: u8| id < n)),
        decreases 256 - n,
    {
        let id: u8 = n as u8;
        if map.contains_key(&id) {
            zeros.insert(id, MotorControlParams { position: 0, velocity: 0, kp: 0, kd: 0, torque: 0 });
        }
        n = n + 1;
        assert(zeros@ =~= zero_map(map@.dom().filter(|id: u8| id < n)));
    }
    assert(zeros@ =~= zero_map(map@.dom()));
    zeros
}

fn zeros_for_set(set: &HashSet<u8>) -> (zeros: HashMap<u8, MotorControlParams>)
    ensures
        zeros@ == zero_map(set@),
{
    let mut zeros: HashMap<u8, MotorControlParams> = HashMap::new();
    let mut n: u16 = 0;
    while n < 256
        invariant
            n <= 256,
            zeros@ == zero_map(set@.filter(|id: u8| id < n)),
        decreases 256 - n,
    {
        let id: u8 = n as u8;
        if set.contains(&id) {
            zeros.insert(id, MotorControlParams { position: 0, velocity: 0, kp: 0, kd: 0, torque: 0 });
        }
        n = n + 1;
        assert(zeros@ =~= zero_map(set@.filter(|id: u8| id < n)));
    }
    assert(zeros@ =~= zero_map(set@));
    zeros
}

fn bump(
    counters: &mut HashMap<u8, u64>,
    batch: &HashMap<u8, MotorControlParams>,
    failures: Option<&HashMap<u8, MotorError>>,
)
    ensures
        final(counters)@ == bumped(
            old(counters)@,
            match failures {
                Some(f) => batch@.dom().intersect(f@.dom()),
                None => batch@.dom(),
            },
        ),
{
    let ghost ids = match failures {
        Some(f) => batch@.dom().intersect(f@.dom()),
        None => batch@.dom(),
    };
    let mut n: u16 = 0;
    while n < 256
        invariant
            n <= 256,
            ids == (match failures {
                Some(f) => batch@.dom().intersect(f@.dom()),
                None => batch@.dom(),
            }),
            counters@ == bumped(old(counters)@, ids.filter(|id: u8| id < n)),
        decreases 256 - n,
    {
        let id: u8 = n as u8;
        let listed = match failures {
            Some(f) => f.contains_key(&id),
            None => true,
        };
        if listed && batch.contains_key(&id) {
            let count: Option<u64> = match counters.get(&id) {
                Some(c) => Some(*c),
                None => None,
            };
            match count {
                Some(c) => {
                    if c < 0xffff_ffff_ffff_ffff {
                        counters.insert(id, c + 1);
                    }
                },
                None => {},
            }
        }
        n = n + 1;
        assert(counters@ =~= bumped(old(counters)@, ids.filter(|id: u8| id < n)));
    }
    assert(counters@ =~= bumped(old(counters)@, ids));
}

fn zero_counters(types: &HashMap<u8, MotorType>) -> (counters: HashMap<u8, u64>)
    ensures
        counters@ == Map::new(|id: u8| types@.contains_key(id), |id: u8| 0u64),
{
    let mut counters: HashMap<u8, u64> = HashMap::new();
    let mut n: u16 = 0;
    while n < 256
        invariant
            n <= 256,
            counters@ == Map::new(|id: u8| types@.contains_key(id) && id < n, |id: u8| 0u64),
        decreases 256 - n,
    {
        let id: u8 = n as u8;
        if types.contains_key(&id) {
            counters.insert(id, 0);
        }
        n = n + 1;
        assert(counters@ =~= Map::new(|id: u8| types@.contains_key(id) && id < n, |id: u8| 0u64));
    }
    assert(counters@ =~= Map::new(|id: u8| types@.contains_key(id), |id: u8| 0u64));
    counters
}

fn single_encoder_motors(types: &HashMap<u8, MotorType>) -> (set: HashSet<u8>)
    ensures
        set@ == zero_on_init(types@),
{
    let mut set: HashSet<u8> = HashSet::new();
    let mut n: u16 = 0;
    while n < 256
        invariant
            n <= 256,
            set@ == zero_on_init(types@).filter(|id: u8| id < n),
        decreases 256 - n,
    {
        let id: u8 = n as u8;
        match types.get(&id) {
            Some(motor_type) => {
                if motor_type.config().zero_on_init {
                    set.insert(id);
                }
            },
            None => {},
        }
        n = n + 1;
        assert(set@ =~= zero_on_init(types@).filter(|id: u8| id < n));
    }
    assert(set@ =~= zero_on_init(types@));
    set
}

/// The supervisor.
pub struct MotorsSupervisor {
    motors: Motors,
    target_params: HashMap<u8, MotorControlParams>,
    running: bool,
    latest_feedback: HashMap<u8, MotorFeedback>,
    motors_to_zero: HashSet<u8>,
    paused: bool,
    restart: bool,
    timeout_pending: bool,
    total_commands: HashMap<u8, u64>,
    failed_commands: HashMap<u8, u64>,
    min_update_rate: u64,
    target_update_rate: u64,
    actual_update_rate: u64,
    phase: Phase,
    batch: HashMap<u8, MotorControlParams>,
    tick_start: u64,
    last_update_time: u64,
}

impl View for MotorsSupervisor {
    type V = SupervisorView;

    closed spec fn view(&self) -> SupervisorView {
        SupervisorView {
            motors: self.motors@,
            target_params: self.target_params@,
            running: self.running,
            latest_feedback: self.latest_feedback@,
            motors_to_zero: self.motors_to_zero@,
            paused: self.paused,
            restart: self.restart,
            timeout_pending: self.timeout_pending,
            total_commands: self.total_commands@,
            failed_commands: self.failed_commands@,
            min_update_rate: self.min_update_rate,
            target_update_rate: self.target_update_rate,
            actual_update_rate: self.actual_update_rate,
            phase: self.phase,
            batch: self.batch@,
            tick_start: self.tick_start,
            last_update_time: self.last_update_time,
        }
    }
}

fn worker_action(action: Action) -> (r: Result<WorkerAction, Result<(), MotorError>>)
    ensures
        match action@ {
            ActionView::Exchange { bytes, sleep_ms, frames } => r matches Ok(a) && a@
                == (WorkerActionView::Exchange { bytes, sleep_ms, frames }),
            ActionView::Done(result) => r matches Err(e) && e == result,
        },
{
    match action {
        Action::Exchange { bytes, sleep_ms, frames } => Ok(
            WorkerAction::Exchange { bytes, sleep_ms, frames },
        ),
        Action::Done(result) => Err(result),
    }
}

impl MotorsSupervisor {
    /// A new supervisor for the given motors: every setpoint zero, every
    /// counter zero, the motors with a single encoder waiting to be zeroed,
    /// the worker not started.
    pub fn new(motor_infos: &HashMap<u8, MotorType>, min_update_rate: u64, target_update_rate: u64) -> (supervisor:
        MotorsSupervisor)
        ensures
            supervisor@ == SupervisorView::initial(
                motor_infos@,
                min_update_rate,
                target_update_rate,
            ),
            supervisor@.wf(),
    {
        MotorsSupervisor {
            motors: Motors::new(motor_infos),
            target_params: zeros_for_keys(motor_infos),
            running: true,
            latest_feedback: HashMap::new(),
            motors_to_zero: single_encoder_motors(motor_infos),
            paused: false,
            restart: false,
            timeout_pending: false,
            total_commands: zero_counters(motor_infos),
            failed_commands: zero_counters(motor_infos),
            min_update_rate,
            target_update_rate,
            actual_update_rate: 0,
            phase: Phase::Created,
            batch: HashMap::new(),
            tick_start: 0,
            last_update_time: 0,
        }
    }

    fn prepare(&mut self, phase: Phase, now: u64)
        ensures
            final(self)@ == old(self)@.prepare(phase, now),
    {
        match phase {
            Phase::RestartResets => {
                self.restart = false;
            },
            Phase::Timeout => {
                self.timeout_pending = false;
            },
            Phase::Zeros => {
                self.tick_start = now;
                self.latest_feedback = self.motors.get_latest_feedback();
                self.batch = zeros_for_set(&self.motors_to_zero);
                self.motors_to_zero.clear();
            },
            Phase::Controls => {
                self.batch = self.target_params.clone();
            },
            Phase::StopControls => {
                let heard = self.motors.get_latest_feedback();
                self.batch = zeros_for_keys(&heard);
            },
            Phase::StopResets => {
                self.batch = zeros_for_keys(self.motors.motor_types());
            },
            _ => {},
        }
    }

    fn begin_op(&mut self, phase: Phase) -> (action: Action)
        ensures
            (final(self)@.motors, action@) == old(self)@.begin_op(phase),
            final(self)@ == (SupervisorView { motors: final(self)@.motors, ..old(self)@ }),
    {
        match phase {
            Phase::StartResets => self.motors.send_resets(),
            Phase::RestartResets => self.motors.send_resets(),
            Phase::StopResets => self.motors.send_resets(),
            Phase::StartStarts => self.motors.send_starts(),
            Phase::RestartStarts => self.motors.send_starts(),
            Phase::StartTimeout => self.motors.send_can_timeout(watchdog_ms(self.min_update_rate)),
            Phase::Timeout => self.motors.send_can_timeout(watchdog_ms(self.min_update_rate)),
            Phase::Zeros => {
                let ids = ids_of(&self.batch);
                self.motors.send_set_zeros(Some(ids.as_slice()))
            },
            Phase::ZeroControls => self.motors.send_motor_controls(&self.batch),
            Phase::Controls => self.motors.send_motor_controls(&self.batch),
            Phase::StopControls => self.motors.send_motor_controls(&self.batch),
            _ => Action::Done(Ok(())),
        }
    }

    fn account(&mut self, phase: Phase, result: Result<(), MotorError>, now: u64)
        ensures
            final(self)@ == old(self)@.account(phase, result, now),
            old(self)@.kept(final(self)@),
    {
        match phase {
            Phase::StopControls | Phase::StopResets => {
                bump(&mut self.total_commands, &self.batch, None);
                proof {
                    let before = old(self)@;
                    let after = self@;
                    if before.wf() {
                        assert(after.target_params == before.target_params);
                        assert forall|id: u8| #[trigger]
                            after.failed_commands.contains_key(id) implies after.total_commands.contains_key(
                            id,
                        ) && after.failed_commands[id] <= after.total_commands[id] by {
                            assert(before.failed_commands.contains_key(id));
                        }
                    }
                }
            },
            Phase::Zeros | Phase::ZeroControls | Phase::Controls => {
                bump(&mut self.total_commands, &self.batch, None);
                if result.is_err() {
                    bump(&mut self.failed_commands, &self.batch, None);
                } else {
                    let failures = self.motors.failures();
                    bump(&mut self.failed_commands, &self.batch, Some(&failures));
                }
                proof {
                    let before = old(self)@;
                    let after = self@;
                    if before.wf() {
                        assert forall|id: u8| #[trigger]
                            after.failed_commands.contains_key(id) implies after.total_commands.contains_key(
                            id,
                        ) && after.failed_commands[id] <= after.total_commands[id] by {
                            assert(before.failed_commands.contains_key(id));
                        }
                    }
                }
            },
            Phase::StartTimeout => {
                self.last_update_time = now;
            },
            _ => {},
        }
    }
}

impl Phase {
    /// The phase that follows when the operation of a phase is done.
    pub fn following(self) -> (phase: Phase)
        ensures
            phase == self.next(),
    {
        match self {
            Phase::Created => Phase::StartResets,
            Phase::StartResets => Phase::StartStarts,
            Phase::StartStarts => Phase::StartTimeout,
            Phase::StartTimeout => Phase::Top,
            Phase::Top => Phase::RestartResets,
            Phase::RestartResets => Phase::RestartStarts,
            Phase::RestartStarts => Phase::Timeout,
            Phase::Timeout => Phase::Zeros,
            Phase::Zeros => Phase::ZeroControls,
            Phase::ZeroControls => Phase::Controls,
            Phase::Controls => Phase::Pace,
            Phase::Pace => Phase::Stopped,
            Phase::StopControls => Phase::StopResets,
            Phase::StopResets => Phase::Stopped,
            Phase::Stopped => Phase::Stopped,
        }
    }
}

impl MotorsSupervisor {
    fn pace(&mut self, now: u64) -> (action: WorkerAction)
        ensures
            (final(self)@, action@) == old(self)@.paced(now),
            old(self)@.kept(final(self)@),
    {
        let period = reciprocal(self.target_update_rate);
        let ns = sleep_ns(period, since(now, self.tick_start));
        self.actual_update_rate = reciprocal(since(self.tick_start, self.last_update_time));
        self.last_update_time = self.tick_start;
        self.phase = Phase::Top;
        proof {
            assert(self@.total_commands == old(self)@.total_commands);
            assert(self@.failed_commands == old(self)@.failed_commands);
            assert(self@.target_params == old(self)@.target_params);
            assert(old(self)@.kept(self@));
        }
        WorkerAction::Sleep { ns }
    }

    fn run(&mut self, phase: Phase, now: u64) -> (action: WorkerAction)
        ensures
            (final(self)@, action@) == old(self)@.run(phase, now),
            old(self)@.kept(final(self)@),
        decreases phase.rank(), 1int,
    {
        match phase {
            Phase::Created => self.run(Phase::StartResets, now),
            Phase::Stopped => {
                self.phase = Phase::Stopped;
                WorkerAction::Exit
            },
            Phase::Pace => self.pace(now),
            Phase::Top => {
                if !self.running {
                    self.run(Phase::StopControls, now)
                } else if self.paused {
                    self.phase = Phase::Top;
                    WorkerAction::Sleep { ns: PAUSE_SLEEP_NS }
                } else {
                    self.run(Phase::RestartResets, now)
                }
            },
            _ => {
                if phase == Phase::RestartResets && !self.restart {
                    return self.run(Phase::Timeout, now);
                }
                if phase == Phase::Timeout && !self.timeout_pending {
                    return self.run(Phase::Zeros, now);
                }
                self.prepare(phase, now);
                if phase == Phase::Zeros && ids_of(&self.batch).len() == 0 {
                    return self.run(Phase::Controls, now);
                }
                let action = self.begin_op(phase);
                self.phase = phase;
                match worker_action(action) {
                    Ok(exchange) => exchange,
                    Err(result) => self.settle(phase, result, now),
                }
            },
        }
    }

    fn settle(&mut self, phase: Phase, result: Result<(), MotorError>, now: u64) -> (action:
        WorkerAction)
        ensures
            (final(self)@, action@) == old(self)@.settle(phase, result, now),
            old(self)@.kept(final(self)@),
        decreases phase.rank(), 0int,
    {
        match phase {
            Phase::Stopped => WorkerAction::Exit,
            _ => {
                self.account(phase, result, now);
                self.run(phase.following(), now)
            },
        }
    }

    /// One step of the worker: takes what happened since the last step and
    /// the time now, in nanoseconds, and tells what to do next.
    ///
    /// A step never loses a counter or lets one go down, and it keeps the
    /// failures of each motor at or below its commands.
    pub fn step(&mut self, event: WorkerEvent, now: u64) -> (action: WorkerAction)
        ensures
            (final(self)@, action@) == old(self)@.step(event@, now),
            old(self)@.kept(final(self)@),
    {
        match self.phase {
            Phase::Stopped => WorkerAction::Exit,
            Phase::Created => self.run(Phase::Created, now),
            Phase::Top => self.run(Phase::Top, now),
            Phase::Pace => self.run(Phase::Top, now),
            _ => {
                let link = match event {
                    WorkerEvent::Reply(bytes) => Event::Reply(bytes),
                    _ => Event::Failed,
                };
                let action = self.motors.step(link);
                match worker_action(action) {
                    Ok(exchange) => exchange,
                    Err(result) => self.settle(self.phase, result, now),
                }
            },
        }
    }
}

fn clear_counters(counters: &mut HashMap<u8, u64>)
    ensures
        final(counters)@ == Map::new(|id: u8| old(counters)@.contains_key(id), |id: u8| 0u64),
{
    let mut n: u16 = 0;
    while n < 256
        invariant
            n <= 256,
            counters@ == Map::new(
                |id: u8| old(counters)@.contains_key(id),
                |id: u8|
                    if id < n {
                        0u64
                    } else {
                        old(counters)@[id]
                    },
            ),
        decreases 256 - n,
    {
        let id: u8 = n as u8;
        if counters.contains_key(&id) {
            counters.insert(id, 0);
        }
        n = n + 1;
        assert(counters@ =~= Map::new(
            |id: u8| old(counters)@.contains_key(id),
            |id: u8|
                if id < n {
                    0u64
                } else {
                    old(counters)@[id]
                },
        ));
    }
    assert(counters@ =~= Map::new(|id: u8| old(counters)@.contains_key(id), |id: u8| 0u64));
}

impl MotorsSupervisor {
    fn target(&self, motor_id: u8) -> (r: Result<MotorControlParams, MotorError>)
        ensures
            self@.target_params.contains_key(motor_id) ==> r == Ok::<
                MotorControlParams,
                MotorError,
            >(self@.target_params[motor_id]),
            !self@.target_params.contains_key(motor_id) ==> r == Err::<
                MotorControlParams,
                MotorError,
            >(MotorError::MotorIdNotFound(motor_id)),
    {
        match self.target_params.get(&motor_id) {
            Some(params) => Ok(*params),
            None => Err(MotorError::MotorIdNotFound(motor_id)),
        }
    }

    fn put_target(&mut self, motor_id: u8, params: MotorControlParams)
        ensures
            final(self)@ == old(self)@.with_target(motor_id, params),
            old(self)@.wf() && params.valid() ==> final(self)@.wf(),
    {
        self.target_params.insert(motor_id, params);
        proof {
            if old(self)@.wf() && params.valid() {
                assert forall|id: u8| #[trigger]
                    self@.target_params.contains_key(id) implies self@.target_params[id].valid() by {
                    if id != motor_id {
                        assert(old(self)@.target_params.contains_key(id));
                    }
                }
                assert(self@.total_commands == old(self)@.total_commands);
                assert(self@.failed_commands == old(self)@.failed_commands);
            }
        }
    }

    /// The number of commands sent to a motor, if the supervisor has the
    /// motor.
    pub fn get_total_commands(&self, motor_id: u8) -> (r: Result<u64, MotorError>)
        ensures
            self@.total_commands.contains_key(motor_id) ==> r == Ok::<u64, MotorError>(
                self@.total_commands[motor_id],
            ),
            !self@.total_commands.contains_key(motor_id) ==> r == Err::<u64, MotorError>(
                MotorError::MotorIdNotFound(motor_id),
            ),
    {
        match self.total_commands.get(&motor_id) {
            Some(count) => Ok(*count),
            None => Err(MotorError::MotorIdNotFound(motor_id)),
        }
    }

    /// The number of commands to a motor that failed, if the supervisor has
    /// the motor.
    pub fn get_failed_commands(&self, motor_id: u8) -> (r: Result<u64, MotorError>)
        ensures
            self@.failed_commands.contains_key(motor_id) ==> r == Ok::<u64, MotorError>(
                self@.failed_commands[motor_id],
            ),
            !self@.failed_commands.contains_key(motor_id) ==> r == Err::<u64, MotorError>(
                MotorError::MotorIdNotFound(motor_id),
            ),
    {
        match self.failed_commands.get(&motor_id) {
            Some(count) => Ok(*count),
            None => Err(MotorError::MotorIdNotFound(motor_id)),
        }
    }

    /// Sets every counter to zero.
    pub fn reset_command_counters(&mut self)
        ensures
            final(self)@ == old(self)@.with_counters_reset(),
            old(self)@.wf() ==> final(self)@.wf(),
    {
        clear_counters(&mut self.total_commands);
        clear_counters(&mut self.failed_commands);
        proof {
            if old(self)@.wf() {
                assert(self@.target_params == old(self)@.target_params);
                assert forall|id: u8| #[trigger]
                    self@.failed_commands.contains_key(id) implies self@.total_commands.contains_key(
                    id,
                ) && self@.failed_commands[id] <= self@.total_commands[id] by {
                    assert(old(self)@.failed_commands.contains_key(id));
                }
            }
        }
    }

    /// Replaces the setpoint of a motor that the supervisor has. Negative
    /// gains are raised to zero. For any other motor nothing changes, and
    /// the motor is reported as not found.
    pub fn set_params(&mut self, motor_id: u8, params: MotorControlParams) -> (r: Result<
        (),
        MotorError,
    >)
        ensures
            old(self)@.target_params.contains_key(motor_id) ==> r is Ok && final(self)@ == old(
                self,
            )@.with_target(motor_id, params.spec_clamped()),
            !old(self)@.target_params.contains_key(motor_id) ==> r == Err::<(), MotorError>(
                MotorError::MotorIdNotFound(motor_id),
            ) && final(self)@ == old(self)@,
            old(self)@.wf() ==> final(self)@.wf(),
    {
        match self.target(motor_id) {
            Ok(_) => {
                self.put_target(motor_id, params.clamped());
                Ok(())
            },
            Err(error) => Err(error),
        }
    }

    /// Sets the position of the setpoint of a motor, and hands it back.
    pub fn set_position(&mut self, motor_id: u8, position: i64) -> (r: Result<i64, MotorError>)
        ensures
            old(self)@.target_params.contains_key(motor_id) ==> r == Ok::<i64, MotorError>(position)
                && final(self)@ == old(self)@.with_target(
                motor_id,
                MotorControlParams { position, ..old(self)@.target_params[motor_id] },
            ),
            !old(self)@.target_params.contains_key(motor_id) ==> r == Err::<i64, MotorError>(
                MotorError::MotorIdNotFound(motor_id),
            ) && final(self)@ == old(self)@,
            old(self)@.wf() ==> final(self)@.wf(),
    {
        match self.target(motor_id) {
            Ok(params) => {
                self.put_target(motor_id, MotorControlParams { position, ..params });
                Ok(position)
            },
            Err(error) => Err(error),
        }
    }

    /// Sets the velocity of the setpoint of a motor, and hands it back.
    pub fn set_velocity(&mut self, motor_id: u8, velocity: i64) -> (r: Result<i64, MotorError>)
        ensures
            old(self)@.target_params.contains_key(motor_id) ==> r == Ok::<i64, MotorError>(velocity)
                && final(self)@ == old(self)@.with_target(
                motor_id,
                MotorControlParams { velocity, ..old(self)@.target_params[motor_id] },
            ),
            !old(self)@.target_params.contains_key(motor_id) ==> r == Err::<i64, MotorError>(
                MotorError::MotorIdNotFound(motor_id),
            ) && final(self)@ == old(self)@,
            old(self)@.wf() ==> final(self)@.wf(),
    {
        match self.target(motor_id) {
            Ok(params) => {
                self.put_target(motor_id, MotorControlParams { velocity, ..params });
                Ok(velocity)
            },
            Err(error) => Err(error),
        }
    }

    /// Sets the torque of the setpoint of a motor, and hands it back.
    pub fn set_torque(&mut self, motor_id: u8, torque: i64) -> (r: Result<i64, MotorError>)
        ensures
            old(self)@.target_params.contains_key(motor_id) ==> r == Ok::<i64, MotorError>(torque)
                && final(self)@ == old(self)@.with_target(
                motor_id,
                MotorControlParams { torque, ..old(self)@.target_params[motor_id] },
            ),
            !old(self)@.target_params.contains_key(motor_id) ==> r == Err::<i64, MotorError>(
                MotorError::MotorIdNotFound(motor_id),
            ) && final(self)@ == old(self)@,
            old(self)@.wf() ==> final(self)@.wf(),
    {
        match self.target(motor_id) {
            Ok(params) => {
                self.put_target(motor_id, MotorControlParams { torque, ..params });
                Ok(torque)
            },
            Err(error) => Err(error),
        }
    }

    /// Sets the position gain of the setpoint of a motor, raised to zero if
    /// it is negative, and hands back what was set.
    pub fn set_kp(&mut self, motor_id: u8, kp: i64) -> (r: Result<i64, MotorError>)
        ensures
            old(self)@.target_params.contains_key(motor_id) ==> r == Ok::<i64, MotorError>(
                if kp < 0 {
                    0
                } else {
                    kp
                },
            ) && final(self)@ == old(self)@.with_target(
                motor_id,
                MotorControlParams {
                    kp: if kp < 0 {
                        0
                    } else {
                        kp
                    },
                    ..old(self)@.target_params[motor_id]
                },
            ),
            !old(self)@.target_params.contains_key(motor_id) ==> r == Err::<i64, MotorError>(
                MotorError::MotorIdNotFound(motor_id),
            ) && final(self)@ == old(self)@,
            r matches Ok(set) ==> set >= 0 && final(self)@.target_params[motor_id].kp >= 0,
            old(self)@.wf() ==> final(self)@.wf(),
    {
        match self.target(motor_id) {
            Ok(params) => {
                let kp: i64 = if kp < 0 {
                    0
                } else {
                    kp
                };
                self.put_target(motor_id, MotorControlParams { kp, ..params });
                Ok(kp)
            },
            Err(error) => Err(error),
        }
    }

    /// Sets the velocity gain of the setpoint of a motor, raised to zero if
    /// it is negative, and hands back what was set.
    pub fn set_kd(&mut self, motor_id: u8, kd: i64) -> (r: Result<i64, MotorError>)
        ensures
            old(self)@.target_params.contains_key(motor_id) ==> r == Ok::<i64, MotorError>(
                if kd < 0 {
                    0
                } else {
                    kd
                },
            ) && final(self)@ == old(self)@.with_target(
                motor_id,
                MotorControlParams {
                    kd: if kd < 0 {
                        0
                    } else {
                        kd
                    },
                    ..old(self)@.target_params[motor_id]
                },
            ),
            !old(self)@.target_params.contains_key(motor_id) ==> r == Err::<i64, MotorError>(
                MotorError::MotorIdNotFound(motor_id),
            ) && final(self)@ == old(self)@,
            r matches Ok(set) ==> set >= 0 && final(self)@.target_params[motor_id].kd >= 0,
            old(self)@.wf() ==> final(self)@.wf(),
    {
        match self.target(motor_id) {
            Ok(params) => {
                let kd: i64 = if kd < 0 {
                    0
                } else {
                    kd
                };
                self.put_target(motor_id, MotorControlParams { kd, ..params });
                Ok(kd)
            },
            Err(error) => Err(error),
        }
    }
}

impl MotorsSupervisor {
    /// The position of the setpoint of a motor: what the worker sends next.
    pub fn get_position(&self, motor_id: u8) -> (r: Result<i64, MotorError>)
        ensures
            self@.target_params.contains_key(motor_id) ==> r == Ok::<i64, MotorError>(
                self@.target_params[motor_id].position,
            ),
            !self@.target_params.contains_key(motor_id) ==> r == Err::<i64, MotorError>(
                MotorError::MotorIdNotFound(motor_id),
            ),
    {
        match self.target(motor_id) {
            Ok(params) => Ok(params.position),
            Err(error) => Err(error),
        }
    }

    /// The velocity of the setpoint of a motor: what the worker sends next.
    pub fn get_velocity(&self, motor_id: u8) -> (r: Result<i64, MotorError>)
        ensures
            self@.target_params.contains_key(motor_id) ==> r == Ok::<i64, MotorError>(
                self@.target_params[motor_id].velocity,
            ),
            !self@.target_params.contains_key(motor_id) ==> r == Err::<i64, MotorError>(
                MotorError::MotorIdNotFound(motor_id),
            ),
    {
        match self.target(motor_id) {
            Ok(params) => Ok(params.velocity),
            Err(error) => Err(error),
        }
    }

    /// The position gain of the setpoint of a motor: what the worker sends next.
    pub fn get_kp(&self, motor_id: u8) -> (r: Result<i64, MotorError>)
        ensures
            self@.target_params.contains_key(motor_id) ==> r == Ok::<i64, MotorError>(
                self@.target_params[motor_id].kp,
            ),
            !self@.target_params.contains_key(motor_id) ==> r == Err::<i64, MotorError>(
                MotorError::MotorIdNotFound(motor_id),
            ),
    {
        match self.target(motor_id) {
            Ok(params) => Ok(params.kp),
            Err(error) => Err(error),
        }
    }

    /// The velocity gain of the setpoint of a motor: what the worker sends next.
    pub fn get_kd(&self, motor_id: u8) -> (r: Result<i64, MotorError>)
        ensures
            self@.target_params.contains_key(motor_id) ==> r == Ok::<i64, MotorError>(
                self@.target_params[motor_id].kd,
            ),
            !self@.target_params.contains_key(motor_id) ==> r == Err::<i64, MotorError>(
                MotorError::MotorIdNotFound(motor_id),
            ),
    {
        match self.target(motor_id) {
            Ok(params) => Ok(params.kd),
            Err(error) => Err(error),
        }
    }

    /// The torque of the setpoint of a motor: what the worker sends next.
    pub fn get_torque(&self, motor_id: u8) -> (r: Result<i64, MotorError>)
        ensures
            self@.target_params.contains_key(motor_id) ==> r == Ok::<i64, MotorError>(
                self@.target_params[motor_id].torque,
            ),
            !self@.target_params.contains_key(motor_id) ==> r == Err::<i64, MotorError>(
                MotorError::MotorIdNotFound(motor_id),
            ),
    {
        match self.target(motor_id) {
            Ok(params) => Ok(params.torque),
            Err(error) => Err(error),
        }
    }

    /// The whole setpoint of a motor.
    pub fn get_params(&self, motor_id: u8) -> (r: Result<MotorControlParams, MotorError>)
        ensures
            self@.target_params.contains_key(motor_id) ==> r == Ok::<
                MotorControlParams,
                MotorError,
            >(self@.target_params[motor_id]),
            !self@.target_params.contains_key(motor_id) ==> r == Err::<
                MotorControlParams,
                MotorError,
            >(MotorError::MotorIdNotFound(motor_id)),
    {
        self.target(motor_id)
    }

    /// Marks a motor to be zeroed in the next iteration, and sets the
    /// position, velocity and torque of its setpoint to zero, so that the
    /// motor does not jump once it is zeroed. For a motor that the
    /// supervisor does not have, nothing changes.
    pub fn add_motor_to_zero(&mut self, motor_id: u8) -> (r: Result<(), MotorError>)
        ensures
            old(self)@.target_params.contains_key(motor_id) ==> r is Ok && final(self)@ == old(
                self,
            )@.with_zero_request(motor_id),
            !old(self)@.target_params.contains_key(motor_id) ==> r == Err::<(), MotorError>(
                MotorError::MotorIdNotFound(motor_id),
            ) && final(self)@ == old(self)@,
            old(self)@.wf() ==> final(self)@.wf(),
    {
        match self.target(motor_id) {
            Ok(params) => {
                self.put_target(
                    motor_id,
                    MotorControlParams { position: 0, velocity: 0, torque: 0, ..params },
                );
                self.motors_to_zero.insert(motor_id);
                proof {
                    if old(self)@.wf() {
                        assert forall|id: u8| #[trigger]
                            self@.target_params.contains_key(id) implies self@.target_params[id].valid() by {
                            if id != motor_id {
                                assert(old(self)@.target_params.contains_key(id));
                            }
                        }
                        assert(self@.total_commands == old(self)@.total_commands);
                        assert(self@.failed_commands == old(self)@.failed_commands);
                    }
                }
                Ok(())
            },
            Err(error) => Err(error),
        }
    }

    /// The feedback of each motor as the worker last published it.
    pub fn get_latest_feedback(&self) -> (feedback: HashMap<u8, MotorFeedback>)
        ensures
            feedback@ == self@.latest_feedback,
    {
        self.latest_feedback.clone()
    }

    /// Pauses the worker, or lets it go on.
    pub fn toggle_pause(&mut self)
        ensures
            final(self)@ == (SupervisorView { paused: !old(self)@.paused, ..old(self)@ }),
    {
        self.paused = !self.paused;
    }

    /// Asks the worker to stop every motor and let it run again, once, at
    /// the start of its next iteration.
    pub fn reset(&mut self)
        ensures
            final(self)@ == (SupervisorView { restart: true, ..old(self)@ }),
    {
        self.restart = true;
    }

    /// Tells the worker to end: at the top of its loop it shuts the motors
    /// down and exits.
    pub fn stop(&mut self)
        ensures
            final(self)@ == (SupervisorView { running: false, ..old(self)@ }),
    {
        self.running = false;
    }

    /// Sets the lowest rate at which the host promises to send; the worker
    /// sets the bus watchdog of the motors to match at the start of its next
    /// iteration.
    pub fn set_min_update_rate(&mut self, rate: u64)
        ensures
            final(self)@ == (SupervisorView {
                min_update_rate: rate,
                timeout_pending: true,
                ..old(self)@
            }),
    {
        self.min_update_rate = rate;
        self.timeout_pending = true;
    }

    /// Sets the rate at which the worker is to iterate.
    pub fn set_target_update_rate(&mut self, rate: u64)
        ensures
            final(self)@ == (SupervisorView { target_update_rate: rate, ..old(self)@ }),
    {
        self.target_update_rate = rate;
    }

    /// The rate that the worker measured last.
    pub fn get_actual_update_rate(&self) -> (rate: u64)
        ensures
            rate == self@.actual_update_rate,
    {
        self.actual_update_rate
    }

    /// Whether the worker is to go on.
    pub fn is_running(&self) -> (running: bool)
        ensures
            running == self@.running,
    {
        self.running
    }

    /// Whether the worker is paused.
    pub fn is_paused(&self) -> (paused: bool)
        ensures
            paused == self@.paused,
    {
        self.paused
    }

    /// Where the worker is in its loop.
    pub fn phase(&self) -> (phase: Phase)
        ensures
            phase == self@.phase,
    {
        self.phase
    }

    /// The session.
    pub fn motors(&self) -> (motors: &Motors)
        ensures
            motors@ == self@.motors,
    {
        &self.motors
    }
}

/// After a motor was marked to be zeroed, the position, velocity and torque
/// of its setpoint are zero, and stay so until they are set again: a step of
/// the worker changes no setpoint.
pub proof fn lemma_zero_request_clears_setpoint(
    s: SupervisorView,
    id: u8,
    event: WorkerEventView,
    now: u64,
)
    requires
        s.target_params.contains_key(id),
    ensures
        s.with_zero_request(id).target_params[id].position == 0,
        s.with_zero_request(id).target_params[id].velocity == 0,
        s.with_zero_request(id).target_params[id].torque == 0,
        s.with_zero_request(id).motors_to_zero.contains(id),
        s.with_zero_request(id).step(event, now).0.target_params == s.with_zero_request(
            id,
        ).target_params,
{
    lemma_step_keeps_setpoints(s.with_zero_request(id), event, now);
}

/// A step of the worker changes no setpoint, nor whether the worker is to
/// go on or is paused.
pub proof fn lemma_step_keeps_setpoints(s: SupervisorView, event: WorkerEventView, now: u64)
    ensures
        s.step(event, now).0.target_params == s.target_params,
        s.step(event, now).0.running == s.running,
        s.step(event, now).0.paused == s.paused,
{
    match s.phase {
        Phase::Stopped => {},
        Phase::Created => lemma_run_keeps_setpoints(s, Phase::Created, now),
        Phase::Top => lemma_run_keeps_setpoints(s, Phase::Top, now),
        Phase::Pace => lemma_run_keeps_setpoints(s, Phase::Top, now),
        _ => {
            let (motors, action) = s.motors.step(event.link());
            let moved = SupervisorView { motors, ..s };
            match action {
                ActionView::Exchange { .. } => {},
                ActionView::Done(result) => lemma_settle_keeps_setpoints(
                    moved,
                    s.phase,
                    result,
                    now,
                ),
            }
        },
    }
}

/// Going on from a phase changes no setpoint.
pub proof fn lemma_run_keeps_setpoints(s: SupervisorView, phase: Phase, now: u64)
    ensures
        s.run(phase, now).0.target_params == s.target_params,
        s.run(phase, now).0.running == s.running,
        s.run(phase, now).0.paused == s.paused,
    decreases phase.rank(), 1int,
{
    match phase {
        Phase::Created => lemma_run_keeps_setpoints(s, Phase::StartResets, now),
        Phase::Stopped => {},
        Phase::Pace => {},
        Phase::Top => {
            if !s.running {
                lemma_run_keeps_setpoints(s, Phase::StopControls, now);
            } else if !s.paused {
                lemma_run_keeps_setpoints(s, Phase::RestartResets, now);
            }
        },
        _ => {
            if phase == Phase::RestartResets && !s.restart {
                lemma_run_keeps_setpoints(s, Phase::Timeout, now);
            } else if phase == Phase::Timeout && !s.timeout_pending {
                lemma_run_keeps_setpoints(s, Phase::Zeros, now);
            } else {
                let ready = s.prepare(phase, now);
                if phase == Phase::Zeros && all_ids(ready.batch.dom()).len() == 0 {
                    lemma_run_keeps_setpoints(ready, Phase::Controls, now);
                } else {
                    let (motors, action) = ready.begin_op(phase);
                    let begun = SupervisorView { motors, phase, ..ready };
                    match action {
                        ActionView::Exchange { .. } => {},
                        ActionView::Done(result) => lemma_settle_keeps_setpoints(
                            begun,
                            phase,
                            result,
                            now,
                        ),
                    }
                }
            }
        },
    }
}

/// Ending the operation of a phase changes no setpoint.
pub proof fn lemma_settle_keeps_setpoints(
    s: SupervisorView,
    phase: Phase,
    result: Result<(), MotorError>,
    now: u64,
)
    ensures
        s.settle(phase, result, now).0.target_params == s.target_params,
        s.settle(phase, result, now).0.running == s.running,
        s.settle(phase, result, now).0.paused == s.paused,
    decreases phase.rank(), 0int,
{
    if phase.rank() != 0 {
        lemma_run_keeps_setpoints(s.account(phase, result, now), phase.next(), now);
    }
}

/// A worker that has ended stays ended: every further step tells it to
/// exit, asks for nothing on the link, and changes nothing.
pub proof fn lemma_stopped_stays_stopped(s: SupervisorView, event: WorkerEventView, now: u64)
    requires
        s.phase == Phase::Stopped,
    ensures
        s.step(event, now) == (s, WorkerActionView::Exit),
{
}

/// When the operation of a phase that counts is done, every motor of its
/// batch that has a counter has one more command, unless the counter is at
/// its end; and a motor that the operation did not fail for has no more
/// failures than before.
pub proof fn lemma_account_counts(
    s: SupervisorView,
    phase: Phase,
    result: Result<(), MotorError>,
    now: u64,
    id: u8,
)
    requires
        phase.counts(),
        s.batch.contains_key(id),
        s.total_commands.contains_key(id),
        s.total_commands[id] < 0xffff_ffff_ffff_ffff,
    ensures
        s.account(phase, result, now).total_commands[id] == s.total_commands[id] + 1,
        s.failed_commands.contains_key(id) && !s.affected(result).contains(id) ==> s.account(
            phase,
            result,
            now,
        ).failed_commands[id] == s.failed_commands[id],
{
}

/// A worker that is told to end begins to shut down at the top of its loop:
/// from there on it is in one of the phases of shutdown.
pub proof fn lemma_stop_begins_shutdown(s: SupervisorView, event: WorkerEventView, now: u64)
    requires
        !s.running,
        s.phase == Phase::Top || s.phase == Phase::Pace,
    ensures
        s.step(event, now).0.phase.shutting_down(),
{
    lemma_run_shutdown(s, Phase::StopControls, now);
}

/// A worker that is shutting down never goes back: after every step it is
/// still shutting down, or has ended. So it sends no setpoint of the
/// supervisor's any more, and after it has ended it sends nothing at all.
pub proof fn lemma_shutdown_is_final(s: SupervisorView, event: WorkerEventView, now: u64)
    requires
        s.phase.shutting_down(),
    ensures
        s.step(event, now).0.phase.shutting_down(),
{
    if s.phase != Phase::Stopped {
        let (motors, action) = s.motors.step(event.link());
        let moved = SupervisorView { motors, ..s };
        match action {
            ActionView::Exchange { .. } => {},
            ActionView::Done(result) => lemma_settle_shutdown(moved, s.phase, result, now),
        }
    }
}

/// Going on from a phase of shutdown ends in a phase of shutdown.
pub proof fn lemma_run_shutdown(s: SupervisorView, phase: Phase, now: u64)
    requires
        phase.shutting_down(),
    ensures
        s.run(phase, now).0.phase.shutting_down(),
    decreases phase.rank(), 1int,
{
    if phase != Phase::Stopped {
        let ready = s.prepare(phase, now);
        let (motors, action) = ready.begin_op(phase);
        let begun = SupervisorView { motors, phase, ..ready };
        match action {
            ActionView::Exchange { .. } => {},
            ActionView::Done(result) => lemma_settle_shutdown(begun, phase, result, now),
        }
    }
}

/// Ending the operation of a phase of shutdown ends in a phase of shutdown.
pub proof fn lemma_settle_shutdown(
    s: SupervisorView,
    phase: Phase,
    result: Result<(), MotorError>,
    now: u64,
)
    requires
        phase.shutting_down(),
        s.phase.shutting_down(),
    ensures
        s.settle(phase, result, now).0.phase.shutting_down(),
    decreases phase.rank(), 0int,
{
    if phase.rank() != 0 {
        lemma_run_shutdown(s.account(phase, result, now), phase.next(), now);
    }
}

/// The supervisor after a run of steps of the worker, each with its event
/// and its time, and no setpoint changed in between.
pub open spec fn after_steps(s: SupervisorView, events: Seq<(WorkerEventView, u64)>) -> SupervisorView
    decreases events.len(),
{
    if events.len() == 0 {
        s
    } else {
        after_steps(s, events.drop_last()).step(events.last().0, events.last().1).0
    }
}

/// A supervisor that is at work on an iteration begun from `start`, seen
/// from one motor: the setpoints are those of `start`, the worker is to go
/// on and is not paused, and the motor's counter of commands is at least
/// what it was.
pub open spec fn at_work(start: SupervisorView, s: SupervisorView, id: u8) -> bool {
    &&& start.target_params.contains_key(id)
    &&& start.total_commands.contains_key(id)
    &&& start.total_commands[id] < 0xffff_ffff_ffff_ffff
    &&& s.target_params == start.target_params
    &&& s.running
    &&& !s.paused
    &&& s.total_commands.contains_key(id)
    &&& s.total_commands[id] >= start.total_commands[id]
}

/// What the worker owes a motor while it is at work: it is in a phase of
/// the iteration; when it sends the setpoints, the motor's is among them;
/// and when it is back between two iterations, the motor has been sent at
/// least one command more.
pub open spec fn owed(start: SupervisorView, s: SupervisorView, id: u8) -> bool {
    &&& at_work(start, s, id)
    &&& 4 <= s.phase.rank() <= 10
    &&& s.phase == Phase::Controls ==> s.batch == s.target_params
    &&& s.phase == Phase::Top ==> s.total_commands[id] > start.total_commands[id]
}

/// Going on from a phase of the iteration keeps what the worker owes.
pub proof fn lemma_run_owed(
    start: SupervisorView,
    s: SupervisorView,
    phase: Phase,
    now: u64,
    id: u8,
)
    requires
        at_work(start, s, id),
        3 <= phase.rank() <= 10,
        phase == Phase::Pace ==> s.total_commands[id] > start.total_commands[id],
    ensures
        owed(start, s.run(phase, now).0, id),
    decreases phase.rank(), 1int,
{
    match phase {
        Phase::Pace => {},
        Phase::Top => lemma_run_owed(start, s, Phase::RestartResets, now, id),
        _ => {
            if phase == Phase::RestartResets && !s.restart {
                lemma_run_owed(start, s, Phase::Timeout, now, id);
            } else if phase == Phase::Timeout && !s.timeout_pending {
                lemma_run_owed(start, s, Phase::Zeros, now, id);
            } else {
                let ready = s.prepare(phase, now);
                if phase == Phase::Zeros && all_ids(ready.batch.dom()).len() == 0 {
                    lemma_run_owed(start, ready, Phase::Controls, now, id);
                } else {
                    let (motors, action) = ready.begin_op(phase);
                    let begun = SupervisorView { motors, phase, ..ready };
                    match action {
                        ActionView::Exchange { .. } => {},
                        ActionView::Done(result) => lemma_settle_owed(
                            start,
                            begun,
                            phase,
                            result,
                            now,
                            id,
                        ),
                    }
                }
            }
        },
    }
}

/// Ending the operation of a phase of the iteration keeps what the worker
/// owes; ending the setpoints pays it.
pub proof fn lemma_settle_owed(
    start: SupervisorView,
    s: SupervisorView,
    phase: Phase,
    result: Result<(), MotorError>,
    now: u64,
    id: u8,
)
    requires
        at_work(start, s, id),
        4 <= phase.rank() <= 9,
        phase == Phase::Controls ==> s.batch == s.target_params,
    ensures
        owed(start, s.settle(phase, result, now).0, id),
    decreases phase.rank(), 0int,
{
    let counted = s.account(phase, result, now);
    assert(counted.total_commands.contains_key(id));
    assert(counted.total_commands[id] >= s.total_commands[id]);
    if phase == Phase::Controls {
        assert(s.batch.dom().contains(id));
        assert(counted.total_commands[id] > start.total_commands[id]);
    }
    lemma_run_owed(start, counted, phase.next(), now, id);
}

/// A step of the worker keeps what it owes, and the first step of an
/// iteration takes the debt on.
pub proof fn lemma_step_owed(
    start: SupervisorView,
    s: SupervisorView,
    event: WorkerEventView,
    now: u64,
    id: u8,
)
    requires
        at_work(start, s, id),
        owed(start, s, id) || s.phase == Phase::Top,
    ensures
        owed(start, s.step(event, now).0, id),
{
    match s.phase {
        Phase::Top => lemma_run_owed(start, s, Phase::Top, now, id),
        _ => {
            let (motors, action) = s.motors.step(event.link());
            let moved = SupervisorView { motors, ..s };
            match action {
                ActionView::Exchange { .. } => {},
                ActionView::Done(result) => lemma_settle_owed(
                    start,
                    moved,
                    s.phase,
                    result,
                    now,
                    id,
                ),
            }
        },
    }
}

/// Whatever the link brings, the worker keeps what it owes through a run of
/// steps that begins between two iterations.
pub proof fn lemma_steps_owed(
    start: SupervisorView,
    events: Seq<(WorkerEventView, u64)>,
    id: u8,
)
    requires
        start.phase == Phase::Top,
        at_work(start, start, id),
        events.len() > 0,
    ensures
        owed(start, after_steps(start, events), id),
    decreases events.len(),
{
    let before = after_steps(start, events.drop_last());
    if events.len() == 1 {
        assert(events.drop_last().len() == 0);
        assert(before == start);
    } else {
        lemma_steps_owed(start, events.drop_last(), id);
    }
    lemma_step_owed(start, before, events.last().0, events.last().1, id);
}

/// Every iteration of the worker sends every motor a command. If the worker
/// is between two iterations, is to go on and is not paused, and no
/// setpoint is changed meanwhile, then whenever it is between two
/// iterations again, after one step or many and whatever the link brought,
/// the counter of commands of every motor that has a setpoint is higher
/// than it was, unless it was at its end.
pub proof fn lemma_iteration_counts(
    start: SupervisorView,
    events: Seq<(WorkerEventView, u64)>,
    id: u8,
)
    requires
        start.phase == Phase::Top,
        start.running,
        !start.paused,
        start.target_params.contains_key(id),
        start.total_commands.contains_key(id),
        start.total_commands[id] < 0xffff_ffff_ffff_ffff,
        events.len() > 0,
        after_steps(start, events).phase == Phase::Top,
    ensures
        after_steps(start, events).total_commands.contains_key(id),
        after_steps(start, events).total_commands[id] > start.total_commands[id],
{
    lemma_steps_owed(start, events, id);
}

/// Counting the outcome of a phase keeps a well-formed supervisor well
/// formed, loses no counter of commands and lets none go down.
pub proof fn lemma_account_kept(
    s: SupervisorView,
    phase: Phase,
    result: Result<(), MotorError>,
    now: u64,
)
    ensures
        s.kept(s.account(phase, result, now)),
{
    let after = s.account(phase, result, now);
    if s.wf() {
        assert forall|id: u8| #[trigger]
            after.failed_commands.contains_key(id) implies after.total_commands.contains_key(id)
            && after.failed_commands[id] <= after.total_commands[id] by {
            assert(s.failed_commands.contains_key(id));
        }
        assert forall|id: u8| #[trigger]
            after.target_params.contains_key(id) implies after.target_params[id].valid() by {
            assert(s.target_params.contains_key(id));
        }
    }
}

/// What is kept from one state to the next is kept over both.
pub proof fn lemma_kept_twice(a: SupervisorView, b: SupervisorView, c: SupervisorView)
    requires
        a.kept(b),
        b.kept(c),
    ensures
        a.kept(c),
{
    assert forall|id: u8| #[trigger]
        a.total_commands.contains_key(id) implies c.total_commands.contains_key(id)
        && a.total_commands[id] <= c.total_commands[id] by {
        assert(b.total_commands.contains_key(id));
    }
}

/// A state that differs from another in neither setpoints nor counters
/// keeps what the other has.
pub proof fn lemma_kept_same(a: SupervisorView, b: SupervisorView)
    requires
        b.target_params == a.target_params,
        b.total_commands == a.total_commands,
        b.failed_commands == a.failed_commands,
    ensures
        a.kept(b),
{
}

/// Going on from a phase keeps a well-formed supervisor well formed, loses
/// no counter of commands and lets none go down.
pub proof fn lemma_run_kept(s: SupervisorView, phase: Phase, now: u64)
    ensures
        s.kept(s.run(phase, now).0),
    decreases phase.rank(), 1int,
{
    match phase {
        Phase::Created => lemma_run_kept(s, Phase::StartResets, now),
        Phase::Stopped => lemma_kept_same(s, s.run(phase, now).0),
        Phase::Pace => lemma_kept_same(s, s.run(phase, now).0),
        Phase::Top => {
            if !s.running {
                lemma_run_kept(s, Phase::StopControls, now);
            } else if s.paused {
                lemma_kept_same(s, s.run(phase, now).0);
            } else {
                lemma_run_kept(s, Phase::RestartResets, now);
            }
        },
        _ => {
            if phase == Phase::RestartResets && !s.restart {
                lemma_run_kept(s, Phase::Timeout, now);
            } else if phase == Phase::Timeout && !s.timeout_pending {
                lemma_run_kept(s, Phase::Zeros, now);
            } else {
                let ready = s.prepare(phase, now);
                lemma_kept_same(s, ready);
                if phase == Phase::Zeros && all_ids(ready.batch.dom()).len() == 0 {
                    lemma_run_kept(ready, Phase::Controls, now);
                    lemma_kept_twice(s, ready, ready.run(Phase::Controls, now).0);
                } else {
                    let (motors, action) = ready.begin_op(phase);
                    let begun = SupervisorView { motors, phase, ..ready };
                    lemma_kept_same(s, begun);
                    match action {
                        ActionView::Exchange { .. } => {},
                        ActionView::Done(result) => {
                            lemma_settle_kept(begun, phase, result, now);
                            lemma_kept_twice(s, begun, begun.settle(phase, result, now).0);
                        },
                    }
                }
            }
        },
    }
}

/// Ending the operation of a phase keeps a well-formed supervisor well
/// formed, loses no counter of commands and lets none go down.
pub proof fn lemma_settle_kept(
    s: SupervisorView,
    phase: Phase,
    result: Result<(), MotorError>,
    now: u64,
)
    ensures
        s.kept(s.settle(phase, result, now).0),
    decreases phase.rank(), 0int,
{
    if phase.rank() == 0 {
        lemma_kept_same(s, s);
    } else {
        let counted = s.account(phase, result, now);
        lemma_account_kept(s, phase, result, now);
        lemma_run_kept(counted, phase.next(), now);
        lemma_kept_twice(s, counted, counted.run(phase.next(), now).0);
    }
}

/// A step of the worker keeps a well-formed supervisor well formed: after
/// it no setpoint has a negative gain and the failures of each motor do not
/// pass its commands. It loses no counter of commands and lets none go
/// down.
pub proof fn lemma_step_kept(s: SupervisorView, event: WorkerEventView, now: u64)
    ensures
        s.kept(s.step(event, now).0),
{
    match s.phase {
        Phase::Stopped => lemma_kept_same(s, s),
        Phase::Created => lemma_run_kept(s, Phase::Created, now),
        Phase::Top => lemma_run_kept(s, Phase::Top, now),
        Phase::Pace => lemma_run_kept(s, Phase::Top, now),
        _ => {
            let (motors, action) = s.motors.step(event.link());
            let moved = SupervisorView { motors, ..s };
            lemma_kept_same(s, moved);
            match action {
                ActionView::Exchange { .. } => {},
                ActionView::Done(result) => {
                    lemma_settle_kept(moved, s.phase, result, now);
                    lemma_kept_twice(s, moved, moved.settle(s.phase, result, now).0);
                },
            }
        },
    }
}

/// Over any run of steps of the worker, a well-formed supervisor stays well
/// formed, so the failures of each motor never pass its commands; and no
/// counter of commands is lost or goes down.
pub proof fn lemma_steps_kept(s: SupervisorView, events: Seq<(WorkerEventView, u64)>)
    ensures
        s.kept(after_steps(s, events)),
    decreases events.len(),
{
    if events.len() == 0 {
        lemma_kept_same(s, s);
    } else {
        let before = after_steps(s, events.drop_last());
        lemma_steps_kept(s, events.drop_last());
        lemma_step_kept(before, events.last().0, events.last().1);
        lemma_kept_twice(s, before, after_steps(s, events));
    }
}

/// Once the worker has been told to end while it is between two iterations,
/// it is shutting down or has ended after every further step, whatever the
/// link brings: it sends no more setpoints of the supervisor's, only the
/// frames of shutdown, and nothing once it has ended.
pub proof fn lemma_steps_after_stop(s: SupervisorView, events: Seq<(WorkerEventView, u64)>)
    requires
        !s.running,
        s.phase == Phase::Top || s.phase.shutting_down(),
        events.len() > 0,
    ensures
        after_steps(s, events).phase.shutting_down(),
    decreases events.len(),
{
    let before = after_steps(s, events.drop_last());
    if events.len() == 1 {
        assert(events.drop_last().len() == 0);
        assert(before == s);
        if s.phase == Phase::Top {
            lemma_stop_begins_shutdown(s, events.last().0, events.last().1);
        } else {
            lemma_shutdown_is_final(s, events.last().0, events.last().1);
        }
    } else {
        lemma_steps_after_stop(s, events.drop_last());
        lemma_shutdown_is_final(before, events.last().0, events.last().1);
    }
}

/// A supervisor that has been told to end, seen from one motor of the
/// session: the session has the motors that it had, and the motor's counter
/// of commands is at least what it was.
pub open spec fn ending(start: SupervisorView, s: SupervisorView, id: u8) -> bool {
    &&& start.motors.motor_types.contains_key(id)
    &&& start.total_commands.contains_key(id)
    &&& start.total_commands[id] < 0xffff_ffff_ffff_ffff
    &&& s.motors.motor_types == start.motors.motor_types
    &&& !s.running
    &&& s.total_commands.contains_key(id)
    &&& s.total_commands[id] >= start.total_commands[id]
}

/// What the worker owes a motor of the session on its way to the end: it is
/// starting up or shutting down; when it stops the motors, the motor is among
/// them; and when it has ended, the motor has been sent at least one command
/// more.
pub open spec fn closing(start: SupervisorView, s: SupervisorView, id: u8) -> bool {
    &&& ending(start, s, id)
    &&& s.phase.rank() >= 11 || s.phase.shutting_down()
    &&& s.phase == Phase::StopResets ==> s.batch.contains_key(id)
    &&& s.phase == Phase::Stopped ==> s.total_commands[id] > start.total_commands[id]
}

/// The operation of a phase, begun on the session, does not change which
/// motors the session has.
pub proof fn lemma_begin_op_keeps_motors(s: SupervisorView, phase: Phase)
    ensures
        s.begin_op(phase).0.motor_types == s.motors.motor_types,
{
    lemma_begin_keeps_motors(s.motors, sends(s.motors.ids(), Request::Reset));
    lemma_begin_keeps_motors(s.motors, sends(s.motors.ids(), Request::Start));
    lemma_begin_keeps_motors(
        s.motors,
        sends(s.motors.ids(), Request::WriteTimeout(spec_watchdog_ms(s.min_update_rate))),
    );
    lemma_batch_keeps_motors(s.motors, all_ids(s.batch.dom()), s.batch);
}

/// Going on from a phase of start-up or shutdown keeps what the worker owes
/// on its way to the end.
pub proof fn lemma_run_closing(
    start: SupervisorView,
    s: SupervisorView,
    phase: Phase,
    now: u64,
    id: u8,
)
    requires
        ending(start, s, id),
        phase.rank() >= 10 || phase.shutting_down(),
        phase == Phase::Stopped ==> s.total_commands[id] > start.total_commands[id],
    ensures
        closing(start, s.run(phase, now).0, id),
    decreases phase.rank(), 1int,
{
    match phase {
        Phase::Created => lemma_run_closing(start, s, Phase::StartResets, now, id),
        Phase::Stopped => {},
        Phase::Top => lemma_run_closing(start, s, Phase::StopControls, now, id),
        _ => {
            let ready = s.prepare(phase, now);
            let (motors, action) = ready.begin_op(phase);
            let begun = SupervisorView { motors, phase, ..ready };
            lemma_begin_op_keeps_motors(ready, phase);
            match action {
                ActionView::Exchange { .. } => {},
                ActionView::Done(result) => lemma_settle_closing(
                    start,
                    begun,
                    phase,
                    result,
                    now,
                    id,
                ),
            }
        },
    }
}

/// Ending the operation of a phase of start-up or shutdown keeps what the
/// worker owes on its way to the end; ending the last phase pays it.
pub proof fn lemma_settle_closing(
    start: SupervisorView,
    s: SupervisorView,
    phase: Phase,
    result: Result<(), MotorError>,
    now: u64,
    id: u8,
)
    requires
        ending(start, s, id),
        phase.rank() >= 11 || phase == Phase::StopControls || phase == Phase::StopResets,
        phase == Phase::StopResets ==> s.batch.contains_key(id),
    ensures
        closing(start, s.settle(phase, result, now).0, id),
    decreases phase.rank(), 0int,
{
    let counted = s.account(phase, result, now);
    assert(counted.total_commands.contains_key(id));
    assert(counted.total_commands[id] >= s.total_commands[id]);
    if phase == Phase::StopResets {
        assert(s.batch.dom().contains(id));
        assert(counted.total_commands[id] > start.total_commands[id]);
    }
    lemma_run_closing(start, counted, phase.next(), now, id);
}

/// A step of the worker keeps what it owes on its way to the end.
pub proof fn lemma_step_closing(
    start: SupervisorView,
    s: SupervisorView,
    event: WorkerEventView,
    now: u64,
    id: u8,
)
    requires
        ending(start, s, id),
        closing(start, s, id) || s.phase == Phase::Top || s.phase == Phase::Created,
    ensures
        closing(start, s.step(event, now).0, id),
{
    match s.phase {
        Phase::Stopped => {},
        Phase::Created => lemma_run_closing(start, s, Phase::Created, now, id),
        Phase::Top => lemma_run_closing(start, s, Phase::Top, now, id),
        _ => {
            let (motors, action) = s.motors.step(event.link());
            let moved = SupervisorView { motors, ..s };
            lemma_step_keeps_motors(s.motors, event.link());
            match action {
                ActionView::Exchange { .. } => {},
                ActionView::Done(result) => lemma_settle_closing(
                    start,
                    moved,
                    s.phase,
                    result,
                    now,
                    id,
                ),
            }
        },
    }
}

/// A worker that is told to end before it has begun, or between two
/// iterations, still stops every motor of the session, and that counts: when
/// it has ended, after however many steps and whatever the link brought,
/// the counter of commands of every motor of the session is higher than it
/// was, unless it was at its end.
pub proof fn lemma_shutdown_counts(
    start: SupervisorView,
    events: Seq<(WorkerEventView, u64)>,
    id: u8,
)
    requires
        start.phase == Phase::Created || start.phase == Phase::Top,
        !start.running,
        start.motors.motor_types.contains_key(id),
        start.total_commands.contains_key(id),
        start.total_commands[id] < 0xffff_ffff_ffff_ffff,
        events.len() > 0,
    ensures
        closing(start, after_steps(start, events), id),
        after_steps(start, events).phase == Phase::Stopped ==> after_steps(
            start,
            events,
        ).total_commands[id] > start.total_commands[id],
    decreases events.len(),
{
    let before = after_steps(start, events.drop_last());
    if events.len() == 1 {
        assert(events.drop_last().len() == 0);
        assert(before == start);
    } else {
        lemma_shutdown_counts(start, events.drop_last(), id);
    }
    lemma_step_closing(start, before, events.last().0, events.last().1, id);
}

} // verus!
