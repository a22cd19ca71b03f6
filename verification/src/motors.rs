//! The motor session: one serial link, a fixed set of motors, and the
//! request and reply discipline between them.
//!
//! The session does no input or output itself. An operation is begun by one
//! of the `send_..` or `read_..` methods, which hands back the first thing
//! to do on the link; whoever owns the link does it and hands the outcome to
//! [`Motors::step`], which hands back the next thing to do, until the
//! operation is done. What each of them hands back, and how the session
//! changes, is stated by the functions of [`MotorsView`].

use vstd::prelude::*;
use std::collections::HashMap;
use std::collections::VecDeque;
use crate::command::{
    can_timeout_of,
    can_timeout_pack,
    control_pack,
    feedback_of,
    get_mode_pack,
    param_text,
    param_u16,
    read_param_pack,
    reset_pack,
    run_mode_of,
    set_mode_pack,
    spec_can_timeout_of,
    spec_can_timeout_pack,
    spec_control_pack,
    spec_feedback_of,
    spec_get_mode_pack,
    spec_param_text,
    spec_param_u16,
    spec_read_param_pack,
    spec_reset_pack,
    spec_run_mode_of,
    spec_sender,
    spec_set_mode_pack,
    spec_start_pack,
    spec_zero_pack,
    start_pack,
    zero_pack,
    PARAM_BAR_CODE,
    PARAM_BUILD_DATE,
    PARAM_CAN_TIMEOUT,
    PARAM_NAME,
};
use crate::frame::{frame_at, frames_ok, rx_unpacks, spec_decode_frame, spec_encode_pack, tx_packs};
use crate::types::{
    CanPack,
    CanPackView,
    MotorConfig,
    MotorControlParams,
    MotorError,
    MotorFeedback,
    MotorType,
    RunMode,
};

verus! {

broadcast use vstd::std_specs::hash::group_hash_axioms;

/// What the host asks of one motor in one frame.
#[derive(Copy, Clone, Debug, PartialEq, Eq, Structural)]
pub enum Request {
    /// Stop.
    Reset,
    /// Run.
    Start,
    /// Take the present position as zero.
    Zero,
    /// Tell the run mode.
    ReadMode,
    /// Change to a run mode.
    WriteMode(RunMode),
    /// Set the bus watchdog to so many milliseconds.
    WriteTimeout(u32),
    /// Tell a text parameter, which comes in so many frames.
    ReadText { index: u16, frames: u8 },
    /// Tell the timeout of the bus watchdog.
    ReadTimeout,
    /// Follow a setpoint.
    Control(MotorControlParams),
}

impl Request {
    /// Whether the host waits between sending the frame and reading the
    /// reply: it does after every command but a mode request, a parameter
    /// request and a setpoint.
    pub open spec fn spec_sleeps(self) -> bool {
        match self {
            Request::Reset => true,
            Request::Start => true,
            Request::Zero => true,
            Request::WriteMode(_) => true,
            Request::WriteTimeout(_) => true,
            Request::ReadMode => false,
            Request::ReadText { .. } => false,
            Request::ReadTimeout => false,
            Request::Control(_) => false,
        }
    }

    /// The number of frames that come back.
    pub open spec fn spec_reply_frames(self) -> usize {
        match self {
            Request::ReadText { index, frames } => frames as usize,
            _ => 1,
        }
    }

    /// Whether a failure on this request is put down against its motor. When
    /// the run mode is read or changed, a motor that does not answer is
    /// passed over in silence.
    pub open spec fn spec_reported(self) -> bool {
        match self {
            Request::ReadMode => false,
            Request::WriteMode(_) => false,
            _ => true,
        }
    }

    /// Whether the host waits between sending the frame and reading the
    /// reply.
    pub fn sleeps(&self) -> (b: bool)
        ensures
            b == self.spec_sleeps(),
    {
        match self {
            Request::Reset => true,
            Request::Start => true,
            Request::Zero => true,
            Request::WriteMode(_) => true,
            Request::WriteTimeout(_) => true,
            Request::ReadMode => false,
            Request::ReadText { .. } => false,
            Request::ReadTimeout => false,
            Request::Control(_) => false,
        }
    }

    /// The number of frames that come back.
    pub fn reply_frames(&self) -> (n: usize)
        ensures
            n == self.spec_reply_frames(),
    {
        match self {
            Request::ReadText { index, frames } => *frames as usize,
            _ => 1,
        }
    }

    /// Whether a failure on this request is put down against its motor.
    pub fn reported(&self) -> (b: bool)
        ensures
            b == self.spec_reported(),
    {
        match self {
            Request::ReadMode => false,
            Request::WriteMode(_) => false,
            _ => true,
        }
    }
}

/// One step of an operation that has not been taken yet.
#[derive(Copy, Clone, Debug, PartialEq, Eq, Structural)]
pub enum Step {
    /// Send a request to a motor and read its reply.
    Send { id: u8, request: Request },
    /// Make sure that the motors are in a run mode, asking them first if the
    /// host does not know.
    EnsureMode(RunMode),
    /// The motors have been asked: settle what the host believes, and change
    /// the mode if it is not the wanted one.
    DecideMode(RunMode),
}

/// What the link did with the last exchange.
#[derive(Debug, PartialEq, Eq)]
pub enum Event {
    /// The bytes that were read.
    Reply(Vec<u8>),
    /// Writing or reading failed.
    Failed,
}

/// An event as a mathematical value.
pub enum EventView {
    Reply(Seq<u8>),
    Failed,
}

impl View for Event {
    type V = EventView;

    open spec fn view(&self) -> EventView {
        match self {
            Event::Reply(bytes) => EventView::Reply(bytes@),
            Event::Failed => EventView::Failed,
        }
    }
}

/// What to do next.
#[derive(Debug, PartialEq, Eq)]
pub enum Action {
    /// Write `bytes` and flush; wait `sleep_ms` milliseconds; read `frames`
    /// frames of 17 bytes; hand what was read, or the failure, to `step`.
    Exchange { bytes: Vec<u8>, sleep_ms: u64, frames: usize },
    /// The operation is over, with this result.
    Done(Result<(), MotorError>),
}

/// An action as a mathematical value.
pub enum ActionView {
    Exchange { bytes: Seq<u8>, sleep_ms: u64, frames: usize },
    Done(Result<(), MotorError>),
}

impl View for Action {
    type V = ActionView;

    open spec fn view(&self) -> ActionView {
        match self {
            Action::Exchange { bytes, sleep_ms, frames } => ActionView::Exchange {
                bytes: bytes@,
                sleep_ms: *sleep_ms,
                frames: *frames,
            },
            Action::Done(r) => ActionView::Done(*r),
        }
    }
}

/// The ids below `n` that a set holds, in rising order.
pub open spec fn ids_below(ids: Set<u8>, n: int) -> Seq<u8>
    decreases n,
{
    if n <= 0 {
        Seq::empty()
    } else if ids.contains((n - 1) as u8) {
        ids_below(ids, n - 1).push((n - 1) as u8)
    } else {
        ids_below(ids, n - 1)
    }
}

/// All ids that a set holds, in rising order.
pub open spec fn all_ids(ids: Set<u8>) -> Seq<u8> {
    ids_below(ids, 256)
}

/// One request to each of some motors, in the order of their ids.
pub open spec fn sends(ids: Seq<u8>, request: Request) -> Seq<Step> {
    Seq::new(ids.len(), |i: int| Step::Send { id: ids[i], request })
}

/// For each of the first `k` motors in turn: make sure of the run mode for
/// setpoints, then send the motor its setpoint.
pub open spec fn controls(ids: Seq<u8>, params: Map<u8, MotorControlParams>, k: int) -> Seq<Step>
    decreases k,
{
    if k <= 0 {
        Seq::empty()
    } else {
        controls(ids, params, k - 1).push(Step::EnsureMode(RunMode::MitMode)).push(
            Step::Send { id: ids[k - 1], request: Request::Control(params[ids[k - 1]]) },
        )
    }
}

/// The steps that zero some motors: stop each, then zero each, then let each
/// run, every time in the order given.
pub open spec fn zero_steps(ids: Seq<u8>) -> Seq<Step> {
    sends(ids, Request::Reset) + sends(ids, Request::Zero) + sends(ids, Request::Start)
}

/// The first id of a sequence that a set does not hold, if there is one.
pub open spec fn first_unknown(ids: Seq<u8>, known: Set<u8>, k: int) -> Option<u8>
    decreases k,
{
    if k <= 0 {
        None
    } else {
        match first_unknown(ids, known, k - 1) {
            Some(id) => Some(id),
            None => if known.contains(ids[k - 1]) {
                None
            } else {
                Some(ids[k - 1])
            },
        }
    }
}

/// The characters that a sequence of bytes stands for, one for each byte.
pub open spec fn chars_of(bytes: Seq<u8>) -> Seq<char> {
    Seq::new(bytes.len(), |i: int| bytes[i] as char)
}

/// The frames that a buffer spells, if it holds `count` of them.
pub open spec fn spec_frames(buffer: Seq<u8>, count: int) -> Seq<CanPackView> {
    Seq::new(count as nat, |k: int| spec_decode_frame(frame_at(buffer, k)))
}

/// The session as a mathematical value.
pub struct MotorsView {
    /// The variant of each motor of the session.
    pub motor_types: Map<u8, MotorType>,
    /// The feedback seen last from each motor.
    pub latest_feedback: Map<u8, MotorFeedback>,
    /// The run mode that the host believes the motors to be in.
    pub mode: RunMode,
    /// How long the host waits after a command, in milliseconds.
    pub sleep_time_ms: u64,
    /// The steps of the operation that are still to be taken.
    pub queue: Seq<Step>,
    /// The request whose reply is awaited.
    pub in_flight: Option<(u8, Request)>,
    /// The first run mode that a motor told since the host last asked.
    pub poll_first: Option<RunMode>,
    /// Whether every motor that answered since told that same run mode.
    pub poll_same: bool,
    /// The run modes read by the operation.
    pub modes: Map<u8, RunMode>,
    /// The feedback that answered the setpoints of the operation.
    pub feedbacks: Map<u8, MotorFeedback>,
    /// The texts read by the operation.
    pub texts: Map<u8, Seq<char>>,
    /// The watchdog timeouts read by the operation, in millionths of a
    /// millisecond.
    pub timeouts: Map<u8, i64>,
    /// For each motor that a command of the operation failed on, the first
    /// failure.
    pub failures: Map<u8, MotorError>,
}

impl MotorsView {
    /// A new session: nothing seen, the run mode unknown, 50 ms after each
    /// command, no operation under way.
    pub open spec fn initial(motor_types: Map<u8, MotorType>) -> MotorsView {
        MotorsView {
            motor_types,
            latest_feedback: Map::empty(),
            mode: RunMode::UnsetMode,
            sleep_time_ms: 50,
            queue: Seq::empty(),
            in_flight: None,
            poll_first: None,
            poll_same: true,
            modes: Map::empty(),
            feedbacks: Map::empty(),
            texts: Map::empty(),
            timeouts: Map::empty(),
            failures: Map::empty(),
        }
    }

    /// The failure that an operation is reported with when some of its
    /// commands failed: the failure of the motor with the lowest id among
    /// those that a command failed on, if there is one.
    pub open spec fn first_failure(self) -> Option<MotorError> {
        let ids = all_ids(self.failures.dom());
        if ids.len() == 0 {
            None
        } else {
            Some(self.failures[ids[0]])
        }
    }

    /// How long the link may take to bring the reply to a request, in
    /// milliseconds: five times the wait after a command, as far as 64 bits
    /// go.
    pub open spec fn read_deadline_ms(self) -> u64 {
        if 5 * self.sleep_time_ms > 0xffff_ffff_ffff_ffff {
            0xffff_ffff_ffff_ffffu64
        } else {
            (5 * self.sleep_time_ms) as u64
        }
    }

    /// Whether no operation is under way.
    pub open spec fn idle(self) -> bool {
        self.queue.len() == 0 && self.in_flight is None
    }

    /// The ids of the motors of the session, in rising order.
    pub open spec fn ids(self) -> Seq<u8> {
        all_ids(self.motor_types.dom())
    }

    /// The ranges of a motor of the session.
    pub open spec fn config_of(self, id: u8) -> Option<MotorConfig> {
        if self.motor_types.contains_key(id) {
            Some(self.motor_types[id].spec_config())
        } else {
            None
        }
    }

    /// The frame that carries a request to a motor. There is none for a
    /// change to `UnsetMode`, nor for a setpoint to a motor whose ranges the
    /// session does not know.
    pub open spec fn request_pack(self, id: u8, request: Request) -> Option<CanPackView> {
        match request {
            Request::Reset => Some(spec_reset_pack(id)),
            Request::Start => Some(spec_start_pack(id)),
            Request::Zero => Some(spec_zero_pack(id)),
            Request::ReadMode => Some(spec_get_mode_pack(id)),
            Request::WriteMode(mode) => match mode.spec_code() {
                Some(code) => Some(spec_set_mode_pack(id, code)),
                None => None,
            },
            Request::WriteTimeout(timeout) => Some(spec_can_timeout_pack(id, timeout)),
            Request::ReadText { index, frames } => Some(spec_read_param_pack(id, index)),
            Request::ReadTimeout => Some(spec_read_param_pack(id, PARAM_CAN_TIMEOUT)),
            Request::Control(params) => match self.config_of(id) {
                Some(config) => Some(spec_control_pack(id, params, config)),
                None => None,
            },
        }
    }

    /// The feedback that a frame holds, if it comes from a motor of the
    /// session.
    pub open spec fn feedback(self, pack: CanPackView) -> Option<MotorFeedback> {
        match self.config_of(spec_sender(pack)) {
            Some(config) => Some(spec_feedback_of(pack, config)),
            None => None,
        }
    }

    /// The operation as a whole ends with a failure: what was still to do is
    /// dropped.
    pub open spec fn failed(self, error: MotorError) -> (MotorsView, ActionView) {
        (
            MotorsView { queue: Seq::empty(), in_flight: None, ..self },
            ActionView::Done(Err(error)),
        )
    }

    /// A request goes out: its frame is to be written, and its reply is
    /// awaited.
    pub open spec fn exchange(self, id: u8, request: Request, pack: CanPackView) -> (
        MotorsView,
        ActionView,
    ) {
        (
            MotorsView { in_flight: Some((id, request)), ..self },
            ActionView::Exchange {
                bytes: spec_encode_pack(pack),
                sleep_ms: if request.spec_sleeps() {
                    self.sleep_time_ms
                } else {
                    0
                },
                frames: request.spec_reply_frames(),
            },
        )
    }

    /// Takes steps from the queue until one of them needs the link, or the
    /// queue is empty, or a step fails.
    pub open spec fn advance(self) -> (MotorsView, ActionView)
        decreases self.queue.len(), 0int,
    {
        if self.queue.len() == 0 {
            (MotorsView { in_flight: None, ..self }, ActionView::Done(Ok(())))
        } else {
            let rest = MotorsView { queue: self.queue.drop_first(), in_flight: None, ..self };
            match self.queue[0] {
                Step::Send { id, request } => match rest.request_pack(id, request) {
                    Some(pack) => rest.exchange(id, request, pack),
                    None => match request {
                        Request::Control(_) => rest.failed(MotorError::MotorNotFound),
                        _ => rest.advance(),
                    },
                },
                Step::EnsureMode(mode) => if rest.mode == RunMode::UnsetMode {
                    rest.poll(mode)
                } else {
                    rest.apply_mode(mode)
                },
                Step::DecideMode(mode) => rest.decide(mode),
            }
        }
    }

    /// The host does not know the run mode: it asks every motor, and decides
    /// after the last one. With no motor to ask, the mode stays unknown and
    /// the operation fails.
    pub open spec fn poll(self, mode: RunMode) -> (MotorsView, ActionView) {
        let ids = self.ids();
        if ids.len() == 0 {
            self.failed(MotorError::ModeUnknown)
        } else {
            (MotorsView {
                queue: sends(ids.drop_first(), Request::ReadMode) + seq![Step::DecideMode(mode)]
                    + self.queue,
                poll_first: None,
                poll_same: true,
                ..self
            }).exchange(ids[0], Request::ReadMode, spec_get_mode_pack(ids[0]))
        }
    }

    /// The motors have been asked. If none answered, the operation fails. If
    /// all that answered told the same mode, the host believes it. Then the
    /// mode is changed if it is not the wanted one.
    pub open spec fn decide(self, mode: RunMode) -> (MotorsView, ActionView)
        decreases self.queue.len(), 2int,
    {
        match self.poll_first {
            None => self.failed(MotorError::ModeUnknown),
            Some(told) => (MotorsView {
                mode: if self.poll_same {
                    told
                } else {
                    self.mode
                },
                ..self
            }).apply_mode(mode),
        }
    }

    /// If the host believes the motors to be in the wanted mode, nothing is
    /// sent. Otherwise the host takes the wanted mode for the new one and
    /// tells every motor to change to it.
    pub open spec fn apply_mode(self, mode: RunMode) -> (MotorsView, ActionView)
        decreases self.queue.len(), 1int,
    {
        if self.mode == mode {
            self.advance()
        } else {
            let changed = MotorsView { mode, ..self };
            let ids = self.ids();
            match mode.spec_code() {
                Some(code) if ids.len() > 0 => (MotorsView {
                    queue: sends(ids.drop_first(), Request::WriteMode(mode)) + self.queue,
                    ..changed
                }).exchange(ids[0], Request::WriteMode(mode), spec_set_mode_pack(ids[0], code)),
                _ => changed.advance(),
            }
        }
    }

    /// A request to a motor failed: the link failed, or gave bytes that are
    /// no frames, or the reply was of no use. The first failure of each
    /// motor is kept, and the operation goes on with the next step: one
    /// motor that fails does not stop the others.
    pub open spec fn link_failure(self, id: u8, request: Request, error: MotorError) -> (
        MotorsView,
        ActionView,
    ) {
        if request.spec_reported() && !self.failures.contains_key(id) {
            (MotorsView { failures: self.failures.insert(id, error), ..self }).advance()
        } else {
            self.advance()
        }
    }

    /// The reply to a request has come: the session takes from it what the
    /// request was for, and goes on.
    pub open spec fn absorb(self, id: u8, request: Request, packs: Seq<CanPackView>) -> (
        MotorsView,
        ActionView,
    ) {
        match request {
            Request::Reset => self.advance(),
            Request::Start => self.advance(),
            Request::Zero => self.advance(),
            Request::WriteTimeout(_) => self.advance(),
            Request::ReadMode => {
                let told = spec_run_mode_of(packs[0]);
                (MotorsView {
                    modes: self.modes.insert(id, told),
                    poll_first: if self.poll_first is None {
                        Some(told)
                    } else {
                        self.poll_first
                    },
                    poll_same: self.poll_same && (self.poll_first is None || self.poll_first
                        == Some(told)),
                    ..self
                }).advance()
            },
            Request::WriteMode(_) => match self.feedback(packs[0]) {
                Some(feedback) => (MotorsView {
                    latest_feedback: self.latest_feedback.insert(feedback.can_id, feedback),
                    ..self
                }).advance(),
                None => self.link_failure(id, request, MotorError::MotorNotFound),
            },
            Request::Control(_) => match self.feedback(packs[0]) {
                Some(feedback) => (MotorsView {
                    latest_feedback: self.latest_feedback.insert(feedback.can_id, feedback),
                    feedbacks: self.feedbacks.insert(id, feedback),
                    ..self
                }).advance(),
                None => self.link_failure(id, request, MotorError::MotorNotFound),
            },
            Request::ReadText { index, frames } => (MotorsView {
                texts: self.texts.insert(id, chars_of(spec_param_text(packs, packs.len() as int))),
                ..self
            }).advance(),
            Request::ReadTimeout => (MotorsView {
                timeouts: self.timeouts.insert(id, spec_can_timeout_of(spec_param_u16(packs[0]))),
                ..self
            }).advance(),
        }
    }

    /// What the session does with the outcome of an exchange. With no reply
    /// awaited it just goes on with what is in the queue.
    pub open spec fn step(self, event: EventView) -> (MotorsView, ActionView) {
        match self.in_flight {
            None => self.advance(),
            Some((id, request)) => match event {
                EventView::Failed => self.link_failure(id, request, MotorError::Link),
                EventView::Reply(bytes) => if frames_ok(
                    bytes,
                    request.spec_reply_frames() as int,
                ) {
                    self.absorb(id, request, spec_frames(bytes, request.spec_reply_frames() as int))
                } else {
                    self.link_failure(id, request, MotorError::BadFrame)
                },
            },
        }
    }

    /// An operation begins: what an earlier one left is dropped, and the
    /// steps are taken up.
    pub open spec fn begin(self, steps: Seq<Step>) -> (MotorsView, ActionView) {
        (MotorsView {
            queue: steps,
            in_flight: None,
            poll_first: None,
            poll_same: true,
            modes: Map::empty(),
            feedbacks: Map::empty(),
            texts: Map::empty(),
            timeouts: Map::empty(),
            failures: Map::empty(),
            ..self
        }).advance()
    }

    /// Zeroing begins if the session knows every motor named; if not, the
    /// first unknown one is reported and nothing changes.
    pub open spec fn begin_zeros(self, ids: Seq<u8>) -> (MotorsView, ActionView) {
        match first_unknown(ids, self.motor_types.dom(), ids.len() as int) {
            Some(id) => (self, ActionView::Done(Err(MotorError::InvalidMotorId(id)))),
            None => self.begin(zero_steps(ids)),
        }
    }

    /// Setpoints go out if the session knows every motor that has one; if
    /// not, the unknown one with the lowest id is reported and nothing
    /// changes.
    pub open spec fn begin_controls(self, params: Map<u8, MotorControlParams>) -> (
        MotorsView,
        ActionView,
    ) {
        let ids = all_ids(params.dom());
        match first_unknown(ids, self.motor_types.dom(), ids.len() as int) {
            Some(id) => (self, ActionView::Done(Err(MotorError::InvalidMotorId(id)))),
            None => self.begin(controls(ids, params, ids.len() as int)),
        }
    }
}


/// The session: the motors it talks to, what it has seen of them, and the
/// operation that is under way.
pub struct Motors {
    motor_types: HashMap<u8, MotorType>,
    latest_feedback: HashMap<u8, MotorFeedback>,
    mode: RunMode,
    sleep_time_ms: u64,
    queue: VecDeque<Step>,
    in_flight: Option<(u8, Request)>,
    poll_first: Option<RunMode>,
    poll_same: bool,
    modes: HashMap<u8, RunMode>,
    feedbacks: HashMap<u8, MotorFeedback>,
    texts: HashMap<u8, String>,
    timeouts: HashMap<u8, i64>,
    failures: HashMap<u8, MotorError>,
}

impl View for Motors {
    type V = MotorsView;

    closed spec fn view(&self) -> MotorsView {
        MotorsView {
            motor_types: self.motor_types@,
            latest_feedback: self.latest_feedback@,
            mode: self.mode,
            sleep_time_ms: self.sleep_time_ms,
            queue: self.queue@,
            in_flight: self.in_flight,
            poll_first: self.poll_first,
            poll_same: self.poll_same,
            modes: self.modes@,
            feedbacks: self.feedbacks@,
            texts: self.texts@.map_values(|s: String| s@),
            timeouts: self.timeouts@,
            failures: self.failures@,
        }
    }
}

/// `String::push` of the standard library: the string afterwards is the
/// string before with the character at its end.
pub assume_specification[ String::push ](s: &mut String, ch: char)
    ensures
        final(s)@ == old(s)@.push(ch),
;

/// The ids that a map holds, in rising order.
pub fn ids_of<V>(map: &HashMap<u8, V>) -> (ids: Vec<u8>)
    ensures
        ids@ == all_ids(map@.dom()),
{
    let mut ids: Vec<u8> = Vec::new();
    let mut n: u16 = 0;
    while n < 256
        invariant
            n <= 256,
            ids@ == ids_below(map@.dom(), n as int),
        decreases 256 - n,
    {
        let id: u8 = n as u8;
        if map.contains_key(&id) {
            ids.push(id);
        }
        n = n + 1;
    }
    ids
}

fn text_of(bytes: &Vec<u8>) -> (s: String)
    ensures
        s@ == chars_of(bytes@),
{
    let mut s = String::new();
    let mut i: usize = 0;
    while i < bytes.len()
        invariant
            i <= bytes@.len(),
            s@ == chars_of(bytes@.subrange(0, i as int)),
        decreases bytes@.len() - i,
    {
        s.push(bytes[i] as char);
        assert(s@ =~= chars_of(bytes@.subrange(0, i + 1)));
        i = i + 1;
    }
    assert(bytes@.subrange(0, i as int) =~= bytes@);
    s
}

fn push_sends(queue: &mut VecDeque<Step>, ids: &[u8], request: Request)
    ensures
        final(queue)@ == old(queue)@ + sends(ids@, request),
{
    let mut i: usize = 0;
    while i < ids.len()
        invariant
            i <= ids@.len(),
            queue@ == old(queue)@ + sends(ids@.subrange(0, i as int), request),
        decreases ids@.len() - i,
    {
        queue.push_back(Step::Send { id: ids[i], request });
        assert(queue@ =~= old(queue)@ + sends(ids@.subrange(0, i + 1), request));
        i = i + 1;
    }
    assert(ids@.subrange(0, i as int) =~= ids@);
}

fn prepend_sends(queue: &mut VecDeque<Step>, ids: &Vec<u8>, request: Request)
    requires
        ids@.len() > 0,
    ensures
        final(queue)@ == sends(ids@.drop_first(), request) + old(queue)@,
{
    let mut i: usize = ids.len();
    while i > 1
        invariant
            1 <= i <= ids@.len(),
            queue@ == sends(ids@.subrange(i as int, ids@.len() as int), request) + old(queue)@,
        decreases i,
    {
        i = i - 1;
        queue.push_front(Step::Send { id: ids[i], request });
        assert(queue@ =~= sends(ids@.subrange(i as int, ids@.len() as int), request) + old(
            queue,
        )@);
    }
    assert(ids@.subrange(1, ids@.len() as int) =~= ids@.drop_first());
}

impl Motors {
    /// A new session with the given motors: nothing seen, the run mode
    /// unknown, no operation under way.
    pub fn new(motor_infos: &HashMap<u8, MotorType>) -> (motors: Motors)
        ensures
            motors@ == MotorsView::initial(motor_infos@),
    {
        let motors = Motors {
            motor_types: motor_infos.clone(),
            latest_feedback: HashMap::new(),
            mode: RunMode::UnsetMode,
            sleep_time_ms: 50,
            queue: VecDeque::new(),
            in_flight: None,
            poll_first: None,
            poll_same: true,
            modes: HashMap::new(),
            feedbacks: HashMap::new(),
            texts: HashMap::new(),
            timeouts: HashMap::new(),
            failures: HashMap::new(),
        };
        assert(motors@.texts =~= Map::empty());
        motors
    }

    fn fail(&mut self, error: MotorError) -> (action: Action)
        ensures
            (final(self)@, action@) == old(self)@.failed(error),
    {
        self.queue.clear();
        self.in_flight = None;
        assert(self.queue@ =~= Seq::empty());
        Action::Done(Err(error))
    }

    fn exchange(&mut self, id: u8, request: Request, pack: CanPack) -> (action: Action)
        ensures
            (final(self)@, action@) == old(self)@.exchange(id, request, pack@),
    {
        let mut packs: Vec<CanPack> = Vec::new();
        packs.push(pack);
        let bytes = tx_packs(packs.as_slice());
        proof {
            let views = crate::frame::pack_views(packs@);
            reveal_with_fuel(crate::frame::spec_tx_packs, 2);
            assert(crate::frame::spec_tx_packs(views, 1) =~= spec_encode_pack(pack@));
        }
        self.in_flight = Some((id, request));
        Action::Exchange {
            bytes,
            sleep_ms: if request.sleeps() {
                self.sleep_time_ms
            } else {
                0
            },
            frames: request.reply_frames(),
        }
    }

    fn request_pack(&self, id: u8, request: Request) -> (pack: Option<CanPack>)
        ensures
            match self@.request_pack(id, request) {
                Some(v) => pack matches Some(p) && p@ == v,
                None => pack is None,
            },
    {
        match request {
            Request::Reset => Some(reset_pack(id)),
            Request::Start => Some(start_pack(id)),
            Request::Zero => Some(zero_pack(id)),
            Request::ReadMode => Some(get_mode_pack(id)),
            Request::WriteMode(mode) => set_mode_pack(id, mode),
            Request::WriteTimeout(timeout) => Some(can_timeout_pack(id, timeout)),
            Request::ReadText { index, frames } => Some(read_param_pack(id, index)),
            Request::ReadTimeout => Some(read_param_pack(id, PARAM_CAN_TIMEOUT)),
            Request::Control(params) => match self.motor_types.get(&id) {
                Some(motor_type) => {
                    let config = motor_type.config();
                    Some(control_pack(id, &params, &config))
                },
                None => None,
            },
        }
    }

    fn feedback(&self, pack: &CanPack) -> (feedback: Option<MotorFeedback>)
        ensures
            feedback == self@.feedback(pack@),
            feedback matches Some(f) ==> f.can_id == spec_sender(pack@),
    {
        let sender: u8 = (pack.ex_id.data % 256) as u8;
        match self.motor_types.get(&sender) {
            Some(motor_type) => {
                let config = motor_type.config();
                Some(feedback_of(pack, &config))
            },
            None => None,
        }
    }

    fn advance(&mut self) -> (action: Action)
        ensures
            (final(self)@, action@) == old(self)@.advance(),
        decreases old(self)@.queue.len(), 0int,
    {
        self.in_flight = None;
        match self.queue.pop_front() {
            None => Action::Done(Ok(())),
            Some(step) => {
                assert(self.queue@ =~= old(self)@.queue.drop_first());
                match step {
                    Step::Send { id, request } => match self.request_pack(id, request) {
                        Some(pack) => self.exchange(id, request, pack),
                        None => match request {
                            Request::Control(_) => self.fail(MotorError::MotorNotFound),
                            _ => self.advance(),
                        },
                    },
                    Step::EnsureMode(mode) => match self.mode {
                        RunMode::UnsetMode => self.poll(mode),
                        _ => self.apply_mode(mode),
                    },
                    Step::DecideMode(mode) => self.decide(mode),
                }
            },
        }
    }

    fn poll(&mut self, mode: RunMode) -> (action: Action)
        ensures
            (final(self)@, action@) == old(self)@.poll(mode),
    {
        let ids = ids_of(&self.motor_types);
        if ids.len() == 0 {
            self.fail(MotorError::ModeUnknown)
        } else {
            self.queue.push_front(Step::DecideMode(mode));
            prepend_sends(&mut self.queue, &ids, Request::ReadMode);
            self.poll_first = None;
            self.poll_same = true;
            assert(self.queue@ =~= sends(ids@.drop_first(), Request::ReadMode) + seq![
                Step::DecideMode(mode),
            ] + old(self)@.queue);
            let pack = get_mode_pack(ids[0]);
            self.exchange(ids[0], Request::ReadMode, pack)
        }
    }

    fn decide(&mut self, mode: RunMode) -> (action: Action)
        ensures
            (final(self)@, action@) == old(self)@.decide(mode),
        decreases old(self)@.queue.len(), 2int,
    {
        match self.poll_first {
            None => self.fail(MotorError::ModeUnknown),
            Some(told) => {
                if self.poll_same {
                    self.mode = told;
                }
                self.apply_mode(mode)
            },
        }
    }

    fn apply_mode(&mut self, mode: RunMode) -> (action: Action)
        ensures
            (final(self)@, action@) == old(self)@.apply_mode(mode),
        decreases old(self)@.queue.len(), 1int,
    {
        if self.mode == mode {
            return self.advance();
        }
        self.mode = mode;
        let ids = ids_of(&self.motor_types);
        if ids.len() == 0 {
            return self.advance();
        }
        match set_mode_pack(ids[0], mode) {
            Some(pack) => {
                prepend_sends(&mut self.queue, &ids, Request::WriteMode(mode));
                self.exchange(ids[0], Request::WriteMode(mode), pack)
            },
            None => self.advance(),
        }
    }
}

impl Motors {
    fn link_failure(&mut self, id: u8, request: Request, error: MotorError) -> (action: Action)
        ensures
            (final(self)@, action@) == old(self)@.link_failure(id, request, error),
    {
        if request.reported() && !self.failures.contains_key(&id) {
            self.failures.insert(id, error);
        }
        self.advance()
    }

    fn absorb(&mut self, id: u8, request: Request, packs: &Vec<CanPack>) -> (action: Action)
        requires
            packs@.len() == request.spec_reply_frames(),
        ensures
            (final(self)@, action@) == old(self)@.absorb(
                id,
                request,
                crate::frame::pack_views(packs@),
            ),
    {
        let ghost views = crate::frame::pack_views(packs@);
        match request {
            Request::Reset => self.advance(),
            Request::Start => self.advance(),
            Request::Zero => self.advance(),
            Request::WriteTimeout(_) => self.advance(),
            Request::ReadMode => {
                let told = run_mode_of(&packs[0]);
                self.modes.insert(id, told);
                match self.poll_first {
                    None => {
                        self.poll_first = Some(told);
                    },
                    Some(first) => {
                        if first != told {
                            self.poll_same = false;
                        }
                    },
                }
                self.advance()
            },
            Request::WriteMode(_) => match self.feedback(&packs[0]) {
                Some(feedback) => {
                    self.latest_feedback.insert(feedback.can_id, feedback);
                    self.advance()
                },
                None => self.link_failure(id, request, MotorError::MotorNotFound),
            },
            Request::Control(_) => match self.feedback(&packs[0]) {
                Some(feedback) => {
                    self.latest_feedback.insert(feedback.can_id, feedback);
                    self.feedbacks.insert(id, feedback);
                    self.advance()
                },
                None => self.link_failure(id, request, MotorError::MotorNotFound),
            },
            Request::ReadText { index, frames } => {
                let bytes = param_text(packs.as_slice());
                let text = text_of(&bytes);
                self.texts.insert(id, text);
                assert(self@.texts =~= old(self)@.texts.insert(
                    id,
                    chars_of(spec_param_text(views, views.len() as int)),
                ));
                self.advance()
            },
            Request::ReadTimeout => {
                let timeout = can_timeout_of(param_u16(&packs[0]));
                self.timeouts.insert(id, timeout);
                self.advance()
            },
        }
    }

    /// Hands the outcome of the last exchange to the session, and tells what
    /// to do next.
    ///
    /// The reply to a request is cut into frames; bytes that are no frames
    /// count as a failure of the link. A failure is put down against the
    /// motor of the request and does not end the operation: the session goes
    /// on with the next step. A good reply is taken in as the request asks.
    /// The operation as a whole fails only if no motor tells its run mode
    /// when the host has to know it.
    pub fn step(&mut self, event: Event) -> (action: Action)
        ensures
            (final(self)@, action@) == old(self)@.step(event@),
    {
        match self.in_flight {
            None => self.advance(),
            Some((id, request)) => match event {
                Event::Failed => self.link_failure(id, request, MotorError::Link),
                Event::Reply(bytes) => match rx_unpacks(bytes.as_slice(), request.reply_frames()) {
                    Ok(packs) => {
                        assert(crate::frame::pack_views(packs@) =~= spec_frames(
                            bytes@,
                            request.spec_reply_frames() as int,
                        ));
                        self.absorb(id, request, &packs)
                    },
                    Err(error) => self.link_failure(id, request, error),
                },
            },
        }
    }

    fn begin(&mut self, steps: VecDeque<Step>) -> (action: Action)
        ensures
            (final(self)@, action@) == old(self)@.begin(steps@),
    {
        self.queue = steps;
        self.in_flight = None;
        self.poll_first = None;
        self.poll_same = true;
        self.modes = HashMap::new();
        self.feedbacks = HashMap::new();
        self.texts = HashMap::new();
        self.timeouts = HashMap::new();
        self.failures = HashMap::new();
        assert(self@.texts =~= Map::empty());
        self.advance()
    }

    fn broadcast(&mut self, request: Request) -> (action: Action)
        ensures
            (final(self)@, action@) == old(self)@.begin(sends(old(self)@.ids(), request)),
    {
        let ids = ids_of(&self.motor_types);
        let mut steps: VecDeque<Step> = VecDeque::new();
        push_sends(&mut steps, ids.as_slice(), request);
        assert(steps@ =~= sends(ids@, request));
        self.begin(steps)
    }

    /// Whether no operation is under way.
    pub fn is_idle(&self) -> (idle: bool)
        ensures
            idle == self@.idle(),
    {
        self.queue.len() == 0 && self.in_flight.is_none()
    }

    /// The run mode that the host believes the motors to be in.
    pub fn run_mode(&self) -> (mode: RunMode)
        ensures
            mode == self@.mode,
    {
        self.mode
    }

    /// The ids of the motors of the session, in rising order.
    pub fn motor_ids(&self) -> (ids: Vec<u8>)
        ensures
            ids@ == self@.ids(),
    {
        ids_of(&self.motor_types)
    }

    /// The variant of each motor of the session.
    pub fn motor_types(&self) -> (types: &HashMap<u8, MotorType>)
        ensures
            types@ == self@.motor_types,
    {
        &self.motor_types
    }

    /// Asks every motor for its run mode, in the order of the ids. A motor
    /// that does not answer is passed over; the answers of the others are in
    /// `modes` when the operation is done.
    pub fn send_get_mode(&mut self) -> (action: Action)
        ensures
            (final(self)@, action@) == old(self)@.begin(
                sends(old(self)@.ids(), Request::ReadMode),
            ),
    {
        self.broadcast(Request::ReadMode)
    }

    /// Stops every motor, in the order of the ids.
    pub fn send_resets(&mut self) -> (action: Action)
        ensures
            (final(self)@, action@) == old(self)@.begin(sends(old(self)@.ids(), Request::Reset)),
    {
        self.broadcast(Request::Reset)
    }

    /// Lets every motor run, in the order of the ids.
    pub fn send_starts(&mut self) -> (action: Action)
        ensures
            (final(self)@, action@) == old(self)@.begin(sends(old(self)@.ids(), Request::Start)),
    {
        self.broadcast(Request::Start)
    }

    /// Sets the bus watchdog of every motor to `timeout` milliseconds.
    pub fn send_can_timeout(&mut self, timeout: u32) -> (action: Action)
        ensures
            (final(self)@, action@) == old(self)@.begin(
                sends(old(self)@.ids(), Request::WriteTimeout(timeout)),
            ),
    {
        self.broadcast(Request::WriteTimeout(timeout))
    }

    /// Reads the name of every motor; the names are in `texts` when the
    /// operation is done.
    pub fn read_names(&mut self) -> (action: Action)
        ensures
            (final(self)@, action@) == old(self)@.begin(
                sends(old(self)@.ids(), Request::ReadText { index: PARAM_NAME, frames: 4 }),
            ),
    {
        self.broadcast(Request::ReadText { index: PARAM_NAME, frames: 4 })
    }

    /// Reads the bar code of every motor; the codes are in `texts` when the
    /// operation is done.
    pub fn read_bar_codes(&mut self) -> (action: Action)
        ensures
            (final(self)@, action@) == old(self)@.begin(
                sends(old(self)@.ids(), Request::ReadText { index: PARAM_BAR_CODE, frames: 4 }),
            ),
    {
        self.broadcast(Request::ReadText { index: PARAM_BAR_CODE, frames: 4 })
    }

    /// Reads the build date of every motor; the dates are in `texts` when
    /// the operation is done.
    pub fn read_build_dates(&mut self) -> (action: Action)
        ensures
            (final(self)@, action@) == old(self)@.begin(
                sends(old(self)@.ids(), Request::ReadText { index: PARAM_BUILD_DATE, frames: 3 }),
            ),
    {
        self.broadcast(Request::ReadText { index: PARAM_BUILD_DATE, frames: 3 })
    }

    /// Reads the watchdog timeout of every motor; the timeouts are in
    /// `timeouts` when the operation is done.
    pub fn read_can_timeouts(&mut self) -> (action: Action)
        ensures
            (final(self)@, action@) == old(self)@.begin(
                sends(old(self)@.ids(), Request::ReadTimeout),
            ),
    {
        self.broadcast(Request::ReadTimeout)
    }
}

fn find_unknown(ids: &[u8], known: &HashMap<u8, MotorType>) -> (unknown: Option<u8>)
    ensures
        unknown == first_unknown(ids@, known@.dom(), ids@.len() as int),
{
    let mut i: usize = 0;
    while i < ids.len()
        invariant
            i <= ids@.len(),
            first_unknown(ids@, known@.dom(), i as int) is None,
        decreases ids@.len() - i,
    {
        if !known.contains_key(&ids[i]) {
            proof {
                lemma_first_unknown_stays(ids@, known@.dom(), i + 1, ids@.len() as int);
            }
            return Some(ids[i]);
        }
        i = i + 1;
    }
    None
}

/// Once an unknown id has been found among the first `k`, it stays the
/// first unknown one however many more ids are looked at.
pub proof fn lemma_first_unknown_stays(ids: Seq<u8>, known: Set<u8>, k: int, n: int)
    requires
        0 <= k <= n,
        first_unknown(ids, known, k) is Some,
    ensures
        first_unknown(ids, known, n) == first_unknown(ids, known, k),
    decreases n - k,
{
    if k < n {
        lemma_first_unknown_stays(ids, known, k, n - 1);
    }
}

impl Motors {
    /// Zeroes the motors named, or all motors if none are named: each is
    /// stopped, then each is zeroed, then each is let run, every time in the
    /// order given. If a motor named is not part of the session, nothing is
    /// sent and the session does not change.
    pub fn send_set_zeros(&mut self, motor_ids: Option<&[u8]>) -> (action: Action)
        ensures
            (final(self)@, action@) == old(self)@.begin_zeros(
                match motor_ids {
                    Some(ids) => ids@,
                    None => old(self)@.ids(),
                },
            ),
    {
        let all = ids_of(&self.motor_types);
        let ids: &[u8] = match motor_ids {
            Some(ids) => ids,
            None => all.as_slice(),
        };
        match find_unknown(ids, &self.motor_types) {
            Some(id) => Action::Done(Err(MotorError::InvalidMotorId(id))),
            None => {
                let mut steps: VecDeque<Step> = VecDeque::new();
                push_sends(&mut steps, ids, Request::Reset);
                push_sends(&mut steps, ids, Request::Zero);
                push_sends(&mut steps, ids, Request::Start);
                assert(steps@ =~= zero_steps(ids@));
                self.begin(steps)
            },
        }
    }

    /// Sends each motor of the map its setpoint, in the order of the ids,
    /// after making sure that the motors are in the run mode for setpoints.
    /// The feedback that answers each setpoint is in `feedbacks` when the
    /// operation is done. If a motor of the map is not part of the session,
    /// nothing is sent and the session does not change.
    pub fn send_motor_controls(&mut self, params_map: &HashMap<u8, MotorControlParams>) -> (action:
        Action)
        ensures
            (final(self)@, action@) == old(self)@.begin_controls(params_map@),
    {
        let ids = ids_of(params_map);
        match find_unknown(ids.as_slice(), &self.motor_types) {
            Some(id) => Action::Done(Err(MotorError::InvalidMotorId(id))),
            None => {
                let mut steps: VecDeque<Step> = VecDeque::new();
                let mut k: usize = 0;
                while k < ids.len()
                    invariant
                        k <= ids@.len(),
                        ids@ == all_ids(params_map@.dom()),
                        steps@ == controls(ids@, params_map@, k as int),
                    decreases ids@.len() - k,
                {
                    let id: u8 = ids[k];
                    let params = match params_map.get(&id) {
                        Some(p) => *p,
                        None => MotorControlParams {
                            position: 0,
                            velocity: 0,
                            kp: 0,
                            kd: 0,
                            torque: 0,
                        },
                    };
                    proof {
                        lemma_ids_below_known(params_map@.dom(), 256, k as int);
                    }
                    steps.push_back(Step::EnsureMode(RunMode::MitMode));
                    steps.push_back(Step::Send { id, request: Request::Control(params) });
                    k = k + 1;
                }
                self.begin(steps)
            },
        }
    }

    /// The feedback seen last from each motor.
    pub fn get_latest_feedback(&self) -> (feedback: HashMap<u8, MotorFeedback>)
        ensures
            feedback@ == self@.latest_feedback,
    {
        self.latest_feedback.clone()
    }

    /// The feedback seen last from one motor, if any has been seen.
    pub fn get_latest_feedback_for(&self, motor_id: u8) -> (r: Result<MotorFeedback, MotorError>)
        ensures
            self@.latest_feedback.contains_key(motor_id) ==> r == Ok::<MotorFeedback, MotorError>(
                self@.latest_feedback[motor_id],
            ),
            !self@.latest_feedback.contains_key(motor_id) ==> r == Err::<MotorFeedback, MotorError>(
                MotorError::NoFeedback,
            ),
    {
        match self.latest_feedback.get(&motor_id) {
            Some(feedback) => Ok(*feedback),
            None => Err(MotorError::NoFeedback),
        }
    }

    /// The run modes that the last operation read.
    pub fn modes(&self) -> (modes: HashMap<u8, RunMode>)
        ensures
            modes@ == self@.modes,
    {
        self.modes.clone()
    }

    /// The feedback that answered the setpoints of the last operation.
    pub fn feedbacks(&self) -> (feedbacks: HashMap<u8, MotorFeedback>)
        ensures
            feedbacks@ == self@.feedbacks,
    {
        self.feedbacks.clone()
    }

    /// The texts that the last operation read.
    pub fn texts(&self) -> (texts: HashMap<u8, String>)
        ensures
            texts@.map_values(|s: String| s@) == self@.texts,
    {
        self.texts.clone()
    }

    /// The failure of the motor with the lowest id among those that a
    /// command of the last operation failed on, or `None` if no command
    /// failed.
    pub fn first_failure(&self) -> (r: Option<MotorError>)
        ensures
            r == self@.first_failure(),
            r is None <==> self@.failures.dom() =~= Set::<u8>::empty(),
            r matches Some(error) ==> exists|id: u8|
                {
                    &&& #[trigger] self@.failures.contains_key(id)
                    &&& self@.failures[id] == error
                    &&& forall|lower: u8|
                        lower < id ==> !(#[trigger] self@.failures.contains_key(lower))
                },
    {
        let ids = ids_of(&self.failures);
        proof {
            lemma_ids_below_all(self.failures@.dom(), 256);
        }
        if ids.len() == 0 {
            None
        } else {
            proof {
                lemma_ids_below_known(self.failures@.dom(), 256, 0);
                lemma_ids_first_is_lowest(self.failures@.dom(), 256);
                assert(self@.failures.contains_key(ids@[0]));
            }
            match self.failures.get(&ids[0]) {
                Some(error) => Some(*error),
                None => None,
            }
        }
    }

    /// How long the link may take to bring the reply to a request, in
    /// milliseconds: five times the wait after a command.
    pub fn read_deadline_ms(&self) -> (ms: u64)
        ensures
            ms == self@.read_deadline_ms(),
    {
        if self.sleep_time_ms > 0xffff_ffff_ffff_ffff / 5 {
            0xffff_ffff_ffff_ffff
        } else {
            5 * self.sleep_time_ms
        }
    }

    /// For each motor that a command of the last operation failed on, the
    /// first failure.
    pub fn failures(&self) -> (failures: HashMap<u8, MotorError>)
        ensures
            failures@ == self@.failures,
    {
        self.failures.clone()
    }

    /// The watchdog timeouts that the last operation read, in millionths of
    /// a millisecond.
    pub fn timeouts(&self) -> (timeouts: HashMap<u8, i64>)
        ensures
            timeouts@ == self@.timeouts,
    {
        self.timeouts.clone()
    }
}

/// The rising sequence of a set leaves out no id of the set below `n`: if
/// the sequence is empty, the set holds no id below `n`.
pub proof fn lemma_ids_below_all(ids: Set<u8>, n: int)
    requires
        0 <= n <= 256,
    ensures
        ids_below(ids, n).len() == 0 <==> (forall|id: u8| id < n ==> !ids.contains(id)),
    decreases n,
{
    if n > 0 {
        lemma_ids_below_all(ids, n - 1);
        if ids_below(ids, n).len() == 0 {
            assert forall|id: u8| id < n implies !ids.contains(id) by {
                if id == n - 1 {
                    assert(!ids.contains((n - 1) as u8));
                }
            }
        } else if !ids.contains((n - 1) as u8) {
            assert(ids_below(ids, n - 1).len() != 0);
        } else {
            assert(ids.contains((n - 1) as u8) && ((n - 1) as u8) < n);
        }
    }
}

/// The first id of the rising sequence of a set is the lowest id of the set.
pub proof fn lemma_ids_first_is_lowest(ids: Set<u8>, n: int)
    requires
        0 <= n <= 256,
        ids_below(ids, n).len() > 0,
    ensures
        ids.contains(ids_below(ids, n)[0]),
        forall|lower: u8| lower < ids_below(ids, n)[0] ==> !(#[trigger] ids.contains(lower)),
    decreases n,
{
    if ids_below(ids, n - 1).len() > 0 {
        lemma_ids_first_is_lowest(ids, n - 1);
    } else {
        lemma_ids_below_all(ids, n - 1);
    }
}

/// Every id that the rising sequence of a set holds is in the set.
pub proof fn lemma_ids_below_known(ids: Set<u8>, n: int, k: int)
    requires
        0 <= k < ids_below(ids, n).len(),
    ensures
        ids.contains(ids_below(ids, n)[k]),
        ids_below(ids, n)[k] < n,
    decreases n,
{
    if n > 0 {
        let rest = ids_below(ids, n - 1);
        if k < rest.len() {
            lemma_ids_below_known(ids, n - 1, k);
        }
    }
}

/// The rising sequence of a set with one id is that id alone.
pub proof fn lemma_ids_below_single(id: u8, n: int)
    requires
        0 <= n <= 256,
    ensures
        ids_below(set![id], n) == (if n > id {
            seq![id]
        } else {
            Seq::<u8>::empty()
        }),
    decreases n,
{
    if n > 0 {
        lemma_ids_below_single(id, n - 1);
        if n - 1 == id {
            assert(set![id].contains((n - 1) as u8));
            assert(Seq::<u8>::empty().push(id) =~= seq![id]);
        } else {
            assert(!set![id].contains((n - 1) as u8));
        }
    }
}

/// The steps of a setpoint for one motor: make sure of the run mode, then
/// send the setpoint.
pub open spec fn setpoint_steps(id: u8, params: MotorControlParams) -> Seq<Step> {
    seq![
        Step::EnsureMode(RunMode::MitMode),
        Step::Send { id, request: Request::Control(params) },
    ]
}

/// A setpoint for one motor of the session begins the steps of a setpoint.
pub proof fn lemma_one_setpoint_steps(s: MotorsView, id: u8, params: MotorControlParams)
    requires
        s.motor_types.contains_key(id),
    ensures
        s.begin_controls(map![id => params]) == s.begin(setpoint_steps(id, params)),
{
    let m = map![id => params];
    assert(m.dom() =~= set![id]);
    lemma_ids_below_single(id, 256);
    let ids = all_ids(m.dom());
    assert(ids == seq![id]);
    reveal_with_fuel(first_unknown, 2);
    reveal_with_fuel(controls, 2);
    assert(controls(ids, m, 1) =~= setpoint_steps(id, params));
}

/// The first setpoint of a session begins by asking every motor for its run
/// mode, in the order of the ids: the request to the first motor goes out,
/// the requests to the others wait in the queue, and behind them the
/// decision and the setpoint itself.
pub proof fn lemma_first_setpoint_polls(s: MotorsView, id: u8, params: MotorControlParams)
    requires
        s.mode == RunMode::UnsetMode,
        s.motor_types.contains_key(id),
    ensures
        s.ids().len() > 0,
        ({
            let ids = s.ids();
            let (after, action) = s.begin(setpoint_steps(id, params));
            &&& after.queue == sends(ids.drop_first(), Request::ReadMode) + seq![
                Step::DecideMode(RunMode::MitMode),
            ] + seq![Step::Send { id, request: Request::Control(params) }]
            &&& after.in_flight == Some((ids[0], Request::ReadMode))
            &&& after.poll_first is None
            &&& after.mode == RunMode::UnsetMode
            &&& action == (ActionView::Exchange {
                bytes: spec_encode_pack(spec_get_mode_pack(ids[0])),
                sleep_ms: 0,
                frames: 1,
            })
        }),
{
    lemma_ids_below_all(s.motor_types.dom(), 256);
    let steps = setpoint_steps(id, params);
    assert(steps.drop_first() =~= seq![Step::Send { id, request: Request::Control(params) }]);
}

/// When the motors have been asked and all that answered told the same run
/// mode, the host believes it. If it is the mode for setpoints, no motor is
/// told to change and the session goes straight on; if it is another, every
/// motor is told to change, in the order of the ids, before the session goes
/// on. Either way the host then takes the motors to be in the mode for
/// setpoints.
pub proof fn lemma_decide_after_poll(s: MotorsView, told: RunMode)
    requires
        s.poll_first == Some(told),
        s.poll_same,
        s.ids().len() > 0,
    ensures
        told == RunMode::MitMode ==> s.decide(RunMode::MitMode) == (MotorsView {
            mode: RunMode::MitMode,
            ..s
        }).advance(),
        told != RunMode::MitMode ==> s.decide(RunMode::MitMode) == (
            MotorsView {
                mode: RunMode::MitMode,
                queue: sends(s.ids().drop_first(), Request::WriteMode(RunMode::MitMode)) + s.queue,
                in_flight: Some((s.ids()[0], Request::WriteMode(RunMode::MitMode))),
                ..s
            },
            ActionView::Exchange {
                bytes: spec_encode_pack(spec_set_mode_pack(s.ids()[0], 0)),
                sleep_ms: s.sleep_time_ms,
                frames: 1,
            },
        ),
{
}

/// Once the host takes the motors to be in the mode for setpoints, a
/// setpoint goes out at once: no motor is asked for its mode or told to
/// change it, and nothing is left in the queue.
pub proof fn lemma_later_setpoint_goes_at_once(s: MotorsView, id: u8, params: MotorControlParams)
    requires
        s.mode == RunMode::MitMode,
        s.motor_types.contains_key(id),
    ensures
        ({
            let (after, action) = s.begin(setpoint_steps(id, params));
            &&& after.queue.len() == 0
            &&& after.in_flight == Some((id, Request::Control(params)))
            &&& after.mode == RunMode::MitMode
            &&& action == (ActionView::Exchange {
                bytes: spec_encode_pack(
                    spec_control_pack(id, params, s.motor_types[id].spec_config()),
                ),
                sleep_ms: 0,
                frames: 1,
            })
        }),
{
    let steps = setpoint_steps(id, params);
    let started = MotorsView {
        queue: steps,
        in_flight: None,
        poll_first: None,
        poll_same: true,
        modes: Map::empty(),
        feedbacks: Map::empty(),
        texts: Map::empty(),
        timeouts: Map::empty(),
        failures: Map::empty(),
        ..s
    };
    let rest = MotorsView { queue: steps.drop_first(), in_flight: None, ..started };
    assert(steps.drop_first() =~= seq![Step::Send { id, request: Request::Control(params) }]);
    assert(rest.queue.drop_first() =~= Seq::<Step>::empty());
    assert(started.advance() == rest.apply_mode(RunMode::MitMode));
    assert(rest.apply_mode(RunMode::MitMode) == rest.advance());
}

/// What it means that a request has gone out of the head of the queue of
/// `before`: the queue is shorter by it, its frame is to be written, its
/// reply is awaited, and neither the motors of the session nor the run mode
/// have changed.
pub open spec fn sent_next(
    before: MotorsView,
    id: u8,
    request: Request,
    after: MotorsView,
    action: ActionView,
) -> bool {
    &&& after.queue == before.queue.drop_first()
    &&& after.in_flight == Some((id, request))
    &&& after.mode == before.mode
    &&& after.motor_types == before.motor_types
    &&& action == (ActionView::Exchange {
        bytes: spec_encode_pack(before.request_pack(id, request).unwrap()),
        sleep_ms: if request.spec_sleeps() {
            before.sleep_time_ms
        } else {
            0
        },
        frames: request.spec_reply_frames(),
    })
}

/// A request at the head of the queue that has a frame goes out next.
pub proof fn lemma_advance_sends_next(s: MotorsView, id: u8, request: Request)
    requires
        s.queue.len() > 0,
        s.queue[0] == (Step::Send { id, request }),
        s.request_pack(id, request) is Some,
    ensures
        sent_next(s, id, request, s.advance().0, s.advance().1),
{
}

/// While requests wait at the head of the queue, they go out in the order
/// of the queue, whatever the link brings: when the outcome of an exchange
/// is handed in and the next step is a request that has a frame, that
/// request goes out next.
pub proof fn lemma_step_sends_next(s: MotorsView, event: EventView, id: u8, request: Request)
    requires
        s.in_flight is Some,
        s.queue.len() > 0,
        s.queue[0] == (Step::Send { id, request }),
        s.request_pack(id, request) is Some,
    ensures
        sent_next(s, id, request, s.step(event).0, s.step(event).1),
{
    let (flying, asked) = s.in_flight.unwrap();
    match event {
        EventView::Failed => {
            lemma_link_failure_sends_next(s, flying, asked, MotorError::Link, id, request);
        },
        EventView::Reply(bytes) => {
            let frames = asked.spec_reply_frames() as int;
            if frames_ok(bytes, frames) {
                lemma_absorb_sends_next(s, flying, asked, spec_frames(bytes, frames), id, request);
            } else {
                lemma_link_failure_sends_next(s, flying, asked, MotorError::BadFrame, id, request);
            }
        },
    }
}

/// A failure of one request lets the next request of the queue go out.
pub proof fn lemma_link_failure_sends_next(
    s: MotorsView,
    flying: u8,
    asked: Request,
    error: MotorError,
    id: u8,
    request: Request,
)
    requires
        s.queue.len() > 0,
        s.queue[0] == (Step::Send { id, request }),
        s.request_pack(id, request) is Some,
    ensures
        sent_next(
            s,
            id,
            request,
            s.link_failure(flying, asked, error).0,
            s.link_failure(flying, asked, error).1,
        ),
{
    if asked.spec_reported() && !s.failures.contains_key(flying) {
        lemma_advance_sends_next(
            MotorsView { failures: s.failures.insert(flying, error), ..s },
            id,
            request,
        );
    } else {
        lemma_advance_sends_next(s, id, request);
    }
}

/// A reply to one request lets the next request of the queue go out.
pub proof fn lemma_absorb_sends_next(
    s: MotorsView,
    flying: u8,
    asked: Request,
    packs: Seq<CanPackView>,
    id: u8,
    request: Request,
)
    requires
        s.queue.len() > 0,
        s.queue[0] == (Step::Send { id, request }),
        s.request_pack(id, request) is Some,
    ensures
        sent_next(
            s,
            id,
            request,
            s.absorb(flying, asked, packs).0,
            s.absorb(flying, asked, packs).1,
        ),
{
    match asked {
        Request::Reset => lemma_advance_sends_next(s, id, request),
        Request::Start => lemma_advance_sends_next(s, id, request),
        Request::Zero => lemma_advance_sends_next(s, id, request),
        Request::WriteTimeout(_) => lemma_advance_sends_next(s, id, request),
        Request::ReadMode => {
            let told = spec_run_mode_of(packs[0]);
            lemma_advance_sends_next(
                MotorsView {
                    modes: s.modes.insert(flying, told),
                    poll_first: if s.poll_first is None {
                        Some(told)
                    } else {
                        s.poll_first
                    },
                    poll_same: s.poll_same && (s.poll_first is None || s.poll_first == Some(told)),
                    ..s
                },
                id,
                request,
            );
        },
        Request::WriteMode(_) => match s.feedback(packs[0]) {
            Some(feedback) => lemma_advance_sends_next(
                MotorsView {
                    latest_feedback: s.latest_feedback.insert(feedback.can_id, feedback),
                    ..s
                },
                id,
                request,
            ),
            None => lemma_link_failure_sends_next(
                s,
                flying,
                asked,
                MotorError::MotorNotFound,
                id,
                request,
            ),
        },
        Request::Control(_) => match s.feedback(packs[0]) {
            Some(feedback) => lemma_advance_sends_next(
                MotorsView {
                    latest_feedback: s.latest_feedback.insert(feedback.can_id, feedback),
                    feedbacks: s.feedbacks.insert(flying, feedback),
                    ..s
                },
                id,
                request,
            ),
            None => lemma_link_failure_sends_next(
                s,
                flying,
                asked,
                MotorError::MotorNotFound,
                id,
                request,
            ),
        },
        Request::ReadText { index, frames } => lemma_advance_sends_next(
            MotorsView {
                texts: s.texts.insert(
                    flying,
                    chars_of(spec_param_text(packs, packs.len() as int)),
                ),
                ..s
            },
            id,
            request,
        ),
        Request::ReadTimeout => lemma_advance_sends_next(
            MotorsView {
                timeouts: s.timeouts.insert(
                    flying,
                    spec_can_timeout_of(spec_param_u16(packs[0])),
                ),
                ..s
            },
            id,
            request,
        ),
    }
}

/// Taking steps from the queue does not change which motors the session
/// has.
pub proof fn lemma_advance_keeps_motors(s: MotorsView)
    ensures
        s.advance().0.motor_types == s.motor_types,
    decreases s.queue.len(), 0int,
{
    if s.queue.len() > 0 {
        let rest = MotorsView { queue: s.queue.drop_first(), in_flight: None, ..s };
        match s.queue[0] {
            Step::Send { id, request } => {
                if rest.request_pack(id, request) is None {
                    match request {
                        Request::Control(_) => {},
                        _ => lemma_advance_keeps_motors(rest),
                    }
                }
            },
            Step::EnsureMode(mode) => {
                if rest.mode != RunMode::UnsetMode {
                    lemma_apply_mode_keeps_motors(rest, mode);
                }
            },
            Step::DecideMode(mode) => lemma_decide_keeps_motors(rest, mode),
        }
    }
}

/// Settling the run mode does not change which motors the session has.
pub proof fn lemma_decide_keeps_motors(s: MotorsView, mode: RunMode)
    ensures
        s.decide(mode).0.motor_types == s.motor_types,
    decreases s.queue.len(), 2int,
{
    match s.poll_first {
        None => {},
        Some(told) => lemma_apply_mode_keeps_motors(
            MotorsView {
                mode: if s.poll_same {
                    told
                } else {
                    s.mode
                },
                ..s
            },
            mode,
        ),
    }
}

/// Changing the run mode does not change which motors the session has.
pub proof fn lemma_apply_mode_keeps_motors(s: MotorsView, mode: RunMode)
    ensures
        s.apply_mode(mode).0.motor_types == s.motor_types,
    decreases s.queue.len(), 1int,
{
    if s.mode == mode {
        lemma_advance_keeps_motors(s);
    } else {
        let changed = MotorsView { mode, ..s };
        let ids = s.ids();
        match mode.spec_code() {
            Some(code) => {
                if ids.len() == 0 {
                    lemma_advance_keeps_motors(changed);
                }
            },
            None => lemma_advance_keeps_motors(changed),
        }
    }
}

/// Beginning an operation does not change which motors the session has.
pub proof fn lemma_begin_keeps_motors(s: MotorsView, steps: Seq<Step>)
    ensures
        s.begin(steps).0.motor_types == s.motor_types,
{
    lemma_advance_keeps_motors(
        MotorsView {
            queue: steps,
            in_flight: None,
            poll_first: None,
            poll_same: true,
            modes: Map::empty(),
            feedbacks: Map::empty(),
            texts: Map::empty(),
            timeouts: Map::empty(),
            failures: Map::empty(),
            ..s
        },
    );
}

/// Beginning to zero motors, or to send setpoints, does not change which
/// motors the session has.
pub proof fn lemma_batch_keeps_motors(
    s: MotorsView,
    ids: Seq<u8>,
    params: Map<u8, MotorControlParams>,
)
    ensures
        s.begin_zeros(ids).0.motor_types == s.motor_types,
        s.begin_controls(params).0.motor_types == s.motor_types,
{
    lemma_begin_keeps_motors(s, zero_steps(ids));
    let all = all_ids(params.dom());
    lemma_begin_keeps_motors(s, controls(all, params, all.len() as int));
}

/// A step of the session does not change which motors the session has.
pub proof fn lemma_step_keeps_motors(s: MotorsView, event: EventView)
    ensures
        s.step(event).0.motor_types == s.motor_types,
{
    match s.in_flight {
        None => lemma_advance_keeps_motors(s),
        Some((id, request)) => match event {
            EventView::Failed => lemma_link_failure_keeps_motors(s, id, request, MotorError::Link),
            EventView::Reply(bytes) => {
                let frames = request.spec_reply_frames() as int;
                if frames_ok(bytes, frames) {
                    lemma_absorb_keeps_motors(s, id, request, spec_frames(bytes, frames));
                } else {
                    lemma_link_failure_keeps_motors(s, id, request, MotorError::BadFrame);
                }
            },
        },
    }
}

/// A failure of a request does not change which motors the session has.
pub proof fn lemma_link_failure_keeps_motors(
    s: MotorsView,
    id: u8,
    request: Request,
    error: MotorError,
)
    ensures
        s.link_failure(id, request, error).0.motor_types == s.motor_types,
{
    if request.spec_reported() && !s.failures.contains_key(id) {
        lemma_advance_keeps_motors(MotorsView { failures: s.failures.insert(id, error), ..s });
    } else {
        lemma_advance_keeps_motors(s);
    }
}

/// A reply to a request does not change which motors the session has.
pub proof fn lemma_absorb_keeps_motors(
    s: MotorsView,
    id: u8,
    request: Request,
    packs: Seq<CanPackView>,
)
    ensures
        s.absorb(id, request, packs).0.motor_types == s.motor_types,
{
    match request {
        Request::Reset => lemma_advance_keeps_motors(s),
        Request::Start => lemma_advance_keeps_motors(s),
        Request::Zero => lemma_advance_keeps_motors(s),
        Request::WriteTimeout(_) => lemma_advance_keeps_motors(s),
        Request::ReadMode => {
            let told = spec_run_mode_of(packs[0]);
            lemma_advance_keeps_motors(
                MotorsView {
                    modes: s.modes.insert(id, told),
                    poll_first: if s.poll_first is None {
                        Some(told)
                    } else {
                        s.poll_first
                    },
                    poll_same: s.poll_same && (s.poll_first is None || s.poll_first == Some(told)),
                    ..s
                },
            );
        },
        Request::WriteMode(_) => match s.feedback(packs[0]) {
            Some(feedback) => lemma_advance_keeps_motors(
                MotorsView {
                    latest_feedback: s.latest_feedback.insert(feedback.can_id, feedback),
                    ..s
                },
            ),
            None => lemma_link_failure_keeps_motors(s, id, request, MotorError::MotorNotFound),
        },
        Request::Control(_) => match s.feedback(packs[0]) {
            Some(feedback) => lemma_advance_keeps_motors(
                MotorsView {
                    latest_feedback: s.latest_feedback.insert(feedback.can_id, feedback),
                    feedbacks: s.feedbacks.insert(id, feedback),
                    ..s
                },
            ),
            None => lemma_link_failure_keeps_motors(s, id, request, MotorError::MotorNotFound),
        },
        Request::ReadText { index, frames } => lemma_advance_keeps_motors(
            MotorsView {
                texts: s.texts.insert(id, chars_of(spec_param_text(packs, packs.len() as int))),
                ..s
            },
        ),
        Request::ReadTimeout => lemma_advance_keeps_motors(
            MotorsView {
                timeouts: s.timeouts.insert(id, spec_can_timeout_of(spec_param_u16(packs[0]))),
                ..s
            },
        ),
    }
}

} // verus!
