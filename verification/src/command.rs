//! The frames that the host sends, and what it reads out of the replies.

use vstd::prelude::*;
use crate::fixed::{fixed_to_uint, spec_fixed_to_uint, spec_uint_to_fixed, uint_to_fixed};
use crate::frame::{spec_unpack_raw_feedback, unpack_raw_feedback};
use crate::types::{
    CanComMode,
    CanPack,
    CanPackView,
    ExId,
    MotorConfig,
    MotorControlParams,
    MotorFeedback,
    MotorFeedbackRaw,
    RunMode,
};

verus! {

/// Index of the parameter that holds the motor's name.
pub const PARAM_NAME: u16 = 0x0000;

/// Index of the parameter that holds the motor's bar code.
pub const PARAM_BAR_CODE: u16 = 0x0001;

/// Index of the parameter that holds the build date of the firmware.
pub const PARAM_BUILD_DATE: u16 = 0x1001;

/// Index of the parameter that holds the timeout of the bus watchdog.
pub const PARAM_CAN_TIMEOUT: u16 = 0x200C;

/// Index of the parameter that holds the run mode.
pub const PARAM_RUN_MODE: u16 = 0x7005;

/// The largest value that the watchdog parameter is set to.
pub const CAN_TIMEOUT_MAX: u32 = 100_000;

/// A frame from the host to motor `id`: the host's address in the data
/// field, no reserved bits, eight payload bytes.
pub open spec fn spec_host_pack(id: u8, mode: CanComMode, data: Seq<u8>) -> CanPackView {
    CanPackView { ex_id: ExId { id, data: 0xFD, mode, res: 0 }, len: 8, data }
}

/// The two bytes of a sixteen-bit value, the least significant first.
pub open spec fn spec_le_u16(x: u16) -> Seq<u8> {
    seq![(x % 256) as u8, (x / 256) as u8]
}

/// The two bytes of a sixteen-bit value, the most significant first.
pub open spec fn spec_be_u16(x: u16) -> Seq<u8> {
    seq![(x / 256) as u8, (x % 256) as u8]
}

/// The value that the watchdog parameter is set to for a timeout in
/// milliseconds: twenty times the timeout, and at most 100000.
pub open spec fn spec_can_timeout_value(timeout: u32) -> u32 {
    if timeout * 20 > 100_000 {
        100_000u32
    } else {
        (timeout * 20) as u32
    }
}

/// The frame that stops motor `id`.
pub open spec fn spec_reset_pack(id: u8) -> CanPackView {
    spec_host_pack(id, CanComMode::MotorReset, seq![0u8, 0u8, 0u8, 0u8, 0u8, 0u8, 0u8, 0u8])
}

/// The frame that lets motor `id` run.
pub open spec fn spec_start_pack(id: u8) -> CanPackView {
    spec_host_pack(id, CanComMode::MotorIn, seq![0u8, 0u8, 0u8, 0u8, 0u8, 0u8, 0u8, 0u8])
}

/// The frame that makes motor `id` take its present position as zero.
pub open spec fn spec_zero_pack(id: u8) -> CanPackView {
    spec_host_pack(id, CanComMode::MotorZero, seq![1u8, 0u8, 0u8, 0u8, 0u8, 0u8, 0u8, 0u8])
}

/// The frame that asks motor `id` for the parameter `index`.
pub open spec fn spec_read_param_pack(id: u8, index: u16) -> CanPackView {
    spec_host_pack(
        id,
        CanComMode::ParaRead,
        spec_le_u16(index) + seq![0u8, 0u8, 0u8, 0u8, 0u8, 0u8],
    )
}

/// The frame that sets the watchdog of motor `id`: the parameter's index,
/// the type tag 4, and the value as four bytes, the least significant first.
pub open spec fn spec_can_timeout_pack(id: u8, timeout: u32) -> CanPackView {
    let value = spec_can_timeout_value(timeout);
    spec_host_pack(
        id,
        CanComMode::ParaWrite,
        seq![
            0x0Cu8,
            0x20u8,
            0x04u8,
            0u8,
            (value % 256) as u8,
            ((value / 256) % 256) as u8,
            ((value / 65536) % 256) as u8,
            (value / 16777216) as u8,
        ],
    )
}

/// The frame that asks motor `id` for its run mode.
pub open spec fn spec_get_mode_pack(id: u8) -> CanPackView {
    spec_host_pack(id, CanComMode::SdoRead, seq![0x05u8, 0x70u8, 0u8, 0u8, 0u8, 0u8, 0u8, 0u8])
}

/// The frame that puts motor `id` into the run mode with the byte `code`.
pub open spec fn spec_set_mode_pack(id: u8, code: u8) -> CanPackView {
    spec_host_pack(id, CanComMode::SdoWrite, seq![0x05u8, 0x70u8, 0u8, 0u8, code, 0u8, 0u8, 0u8])
}

/// The five codes of a setpoint in the ranges of a configuration.
pub struct ControlCodes {
    pub position: u16,
    pub velocity: u16,
    pub kp: u16,
    pub kd: u16,
    pub torque: u16,
}

/// The codes of a setpoint: each quantity encoded in its own range.
pub open spec fn spec_control_codes(params: MotorControlParams, config: MotorConfig) -> ControlCodes {
    ControlCodes {
        position: spec_fixed_to_uint(
            params.position as int,
            config.p_min as int,
            config.p_max as int,
        ) as u16,
        velocity: spec_fixed_to_uint(
            params.velocity as int,
            config.v_min as int,
            config.v_max as int,
        ) as u16,
        kp: spec_fixed_to_uint(params.kp as int, config.kp_min as int, config.kp_max as int) as u16,
        kd: spec_fixed_to_uint(params.kd as int, config.kd_min as int, config.kd_max as int) as u16,
        torque: spec_fixed_to_uint(
            params.torque as int,
            config.t_min as int,
            config.t_max as int,
        ) as u16,
    }
}

/// The frame that gives motor `id` a setpoint: the torque code in the data
/// field of the identifier; position, velocity and the two gains in the
/// payload, two bytes each, the most significant first.
pub open spec fn spec_control_pack(
    id: u8,
    params: MotorControlParams,
    config: MotorConfig,
) -> CanPackView {
    let codes = spec_control_codes(params, config);
    CanPackView {
        ex_id: ExId { id, data: codes.torque, mode: CanComMode::MotorCtrl, res: 0 },
        len: 8,
        data: spec_be_u16(codes.position) + spec_be_u16(codes.velocity) + spec_be_u16(codes.kp)
            + spec_be_u16(codes.kd),
    }
}

fn host_pack(id: u8, mode: CanComMode, data: [u8; 8]) -> (pack: CanPack)
    ensures
        pack@ == spec_host_pack(id, mode, data@),
        pack@.wf(),
{
    let mut bytes: Vec<u8> = Vec::new();
    let mut i: usize = 0;
    while i < 8
        invariant
            i <= 8,
            bytes@ == data@.subrange(0, i as int),
        decreases 8 - i,
    {
        bytes.push(data[i]);
        assert(bytes@ =~= data@.subrange(0, i + 1));
        i = i + 1;
    }
    assert(bytes@ =~= data@);
    CanPack { ex_id: ExId { id, data: 0xFD, mode, res: 0 }, len: 8, data: bytes }
}

/// Builds the frame that stops motor `id`.
pub fn reset_pack(id: u8) -> (pack: CanPack)
    ensures
        pack@ == spec_reset_pack(id),
{
    let pack = host_pack(id, CanComMode::MotorReset, [0, 0, 0, 0, 0, 0, 0, 0]);
    assert(pack@.data =~= spec_reset_pack(id).data);
    pack
}

/// Builds the frame that lets motor `id` run.
pub fn start_pack(id: u8) -> (pack: CanPack)
    ensures
        pack@ == spec_start_pack(id),
{
    let pack = host_pack(id, CanComMode::MotorIn, [0, 0, 0, 0, 0, 0, 0, 0]);
    assert(pack@.data =~= spec_start_pack(id).data);
    pack
}

/// Builds the frame that makes motor `id` take its present position as zero.
pub fn zero_pack(id: u8) -> (pack: CanPack)
    ensures
        pack@ == spec_zero_pack(id),
{
    let pack = host_pack(id, CanComMode::MotorZero, [1, 0, 0, 0, 0, 0, 0, 0]);
    assert(pack@.data =~= spec_zero_pack(id).data);
    pack
}

/// Builds the frame that asks motor `id` for the parameter `index`.
pub fn read_param_pack(id: u8, index: u16) -> (pack: CanPack)
    ensures
        pack@ == spec_read_param_pack(id, index),
{
    let pack = host_pack(
        id,
        CanComMode::ParaRead,
        [(index % 256) as u8, (index / 256) as u8, 0, 0, 0, 0, 0, 0],
    );
    assert(pack@.data =~= spec_read_param_pack(id, index).data);
    pack
}

/// Builds the frame that sets the watchdog of motor `id` to `timeout`
/// milliseconds, as far as the parameter goes.
pub fn can_timeout_pack(id: u8, timeout: u32) -> (pack: CanPack)
    ensures
        pack@ == spec_can_timeout_pack(id, timeout),
{
    let scaled: u64 = timeout as u64 * 20;
    let value: u32 = if scaled > 100_000 {
        100_000
    } else {
        scaled as u32
    };
    let pack = host_pack(
        id,
        CanComMode::ParaWrite,
        [
            0x0C,
            0x20,
            0x04,
            0,
            (value % 256) as u8,
            ((value / 256) % 256) as u8,
            ((value / 65536) % 256) as u8,
            (value / 16777216) as u8,
        ],
    );
    assert(pack@.data =~= spec_can_timeout_pack(id, timeout).data);
    pack
}

/// Builds the frame that asks motor `id` for its run mode.
pub fn get_mode_pack(id: u8) -> (pack: CanPack)
    ensures
        pack@ == spec_get_mode_pack(id),
{
    let pack = host_pack(id, CanComMode::SdoRead, [0x05, 0x70, 0, 0, 0, 0, 0, 0]);
    assert(pack@.data =~= spec_get_mode_pack(id).data);
    pack
}

/// Builds the frame that puts motor `id` into a run mode, if the mode is one
/// that goes on the wire: there is no frame for `UnsetMode`.
pub fn set_mode_pack(id: u8, mode: RunMode) -> (pack: Option<CanPack>)
    ensures
        match mode.spec_code() {
            Some(code) => pack matches Some(p) && p@ == spec_set_mode_pack(id, code),
            None => pack is None,
        },
{
    match mode.code() {
        Some(code) => {
            let pack = host_pack(id, CanComMode::SdoWrite, [0x05, 0x70, 0, 0, code, 0, 0, 0]);
            assert(pack@.data =~= spec_set_mode_pack(id, code).data);
            Some(pack)
        },
        None => None,
    }
}

/// Encodes a setpoint in the ranges of a configuration.
pub fn control_codes(params: &MotorControlParams, config: &MotorConfig) -> (codes: ControlCodes)
    requires
        config.valid(),
    ensures
        codes == spec_control_codes(*params, *config),
{
    ControlCodes {
        position: fixed_to_uint(params.position, config.p_min, config.p_max),
        velocity: fixed_to_uint(params.velocity, config.v_min, config.v_max),
        kp: fixed_to_uint(params.kp, config.kp_min, config.kp_max),
        kd: fixed_to_uint(params.kd, config.kd_min, config.kd_max),
        torque: fixed_to_uint(params.torque, config.t_min, config.t_max),
    }
}

/// Builds the frame that gives motor `id` a setpoint.
pub fn control_pack(id: u8, params: &MotorControlParams, config: &MotorConfig) -> (pack: CanPack)
    requires
        config.valid(),
    ensures
        pack@ == spec_control_pack(id, *params, *config),
        pack@.wf(),
{
    let codes = control_codes(params, config);
    let mut data: Vec<u8> = Vec::new();
    data.push((codes.position / 256) as u8);
    data.push((codes.position % 256) as u8);
    data.push((codes.velocity / 256) as u8);
    data.push((codes.velocity % 256) as u8);
    data.push((codes.kp / 256) as u8);
    data.push((codes.kp % 256) as u8);
    data.push((codes.kd / 256) as u8);
    data.push((codes.kd % 256) as u8);
    assert(data@ =~= spec_control_pack(id, *params, *config).data);
    CanPack {
        ex_id: ExId { id, data: codes.torque, mode: CanComMode::MotorCtrl, res: 0 },
        len: 8,
        data,
    }
}

/// The feedback that raw codes stand for in the ranges of a configuration.
pub open spec fn spec_feedback_from_raw(raw: MotorFeedbackRaw, config: MotorConfig) -> MotorFeedback {
    MotorFeedback {
        can_id: raw.can_id,
        position: spec_uint_to_fixed(raw.pos_int as int, config.p_min as int, config.p_max as int) as i64,
        velocity: spec_uint_to_fixed(raw.vel_int as int, config.v_min as int, config.v_max as int) as i64,
        torque: spec_uint_to_fixed(raw.torque_int as int, config.t_min as int, config.t_max as int) as i64,
        mode: raw.mode,
        faults: raw.faults,
    }
}

/// Decodes raw feedback into physical units. Id, state and fault bits are
/// kept as they are.
pub fn feedback_from_raw(raw: &MotorFeedbackRaw, config: &MotorConfig) -> (feedback: MotorFeedback)
    requires
        config.valid(),
    ensures
        feedback == spec_feedback_from_raw(*raw, *config),
        config.p_min <= feedback.position <= config.p_max,
        config.v_min <= feedback.velocity <= config.v_max,
        config.t_min <= feedback.torque <= config.t_max,
{
    MotorFeedback {
        can_id: raw.can_id,
        position: uint_to_fixed(raw.pos_int, config.p_min, config.p_max),
        velocity: uint_to_fixed(raw.vel_int, config.v_min, config.v_max),
        torque: uint_to_fixed(raw.torque_int, config.t_min, config.t_max),
        mode: raw.mode,
        faults: raw.faults,
    }
}

/// The feedback that a frame holds, in the ranges of a configuration.
///
/// A feedback frame gives position, velocity and torque as its three codes
/// decode in their ranges. A frame of any other kind carries no measurement:
/// position, velocity and torque are zero, and only the sender's id, state
/// and fault bits are read.
pub open spec fn spec_feedback_of(pack: CanPackView, config: MotorConfig) -> MotorFeedback {
    let raw = spec_unpack_raw_feedback(pack);
    if pack.ex_id.mode == CanComMode::MotorFeedback {
        spec_feedback_from_raw(raw, config)
    } else {
        MotorFeedback {
            can_id: raw.can_id,
            position: 0,
            velocity: 0,
            torque: 0,
            mode: raw.mode,
            faults: raw.faults,
        }
    }
}

/// The id of the motor that a frame says it comes from: the low eight bits
/// of the data field of its identifier.
pub open spec fn spec_sender(pack: CanPackView) -> u8 {
    (pack.ex_id.data % 256) as u8
}

/// Reads the feedback out of a frame, in the ranges of a configuration. A
/// frame that is no feedback frame gives zero for position, velocity and
/// torque.
pub fn feedback_of(pack: &CanPack, config: &MotorConfig) -> (feedback: MotorFeedback)
    requires
        config.valid(),
    ensures
        feedback == spec_feedback_of(pack@, *config),
        feedback.can_id == spec_sender(pack@),
        pack@.ex_id.mode != CanComMode::MotorFeedback ==> feedback.position == 0
            && feedback.velocity == 0 && feedback.torque == 0,
{
    let raw = unpack_raw_feedback(pack);
    match pack.ex_id.mode {
        CanComMode::MotorFeedback => feedback_from_raw(&raw, config),
        _ => MotorFeedback {
            can_id: raw.can_id,
            position: 0,
            velocity: 0,
            torque: 0,
            mode: raw.mode,
            faults: raw.faults,
        },
    }
}

/// The run mode that a reply to a mode request names: its fifth payload
/// byte.
pub open spec fn spec_run_mode_of(pack: CanPackView) -> RunMode {
    RunMode::spec_from_code(pack.payload_byte(4))
}

/// Reads the run mode out of a reply to a mode request.
pub fn run_mode_of(pack: &CanPack) -> (mode: RunMode)
    ensures
        mode == spec_run_mode_of(pack@),
{
    RunMode::from_code(pack.byte(4))
}

/// The sixteen-bit value of a parameter reply: payload bytes 4 and 5, the
/// least significant first.
pub open spec fn spec_param_u16(pack: CanPackView) -> u16 {
    (pack.payload_byte(4) + 256 * pack.payload_byte(5)) as u16
}

/// Reads the sixteen-bit value out of a parameter reply.
pub fn param_u16(pack: &CanPack) -> (value: u16)
    ensures
        value == spec_param_u16(pack@),
{
    pack.byte(4) as u16 + 256 * (pack.byte(5) as u16)
}

/// The watchdog timeout that a raw parameter value stands for, in
/// millionths of a millisecond: a twentieth of a millisecond for each unit.
pub open spec fn spec_can_timeout_of(raw: u16) -> i64 {
    (raw * 50_000) as i64
}

/// Converts the raw value of the watchdog parameter into a time.
pub fn can_timeout_of(raw: u16) -> (timeout: i64)
    ensures
        timeout == spec_can_timeout_of(raw),
{
    raw as i64 * 50_000
}

/// The bytes of a text parameter in the first `k` reply frames: payload
/// bytes 4 to 7 of each frame in turn, without the zero bytes.
pub open spec fn spec_param_text(packs: Seq<CanPackView>, k: int) -> Seq<u8>
    decreases k,
{
    if k <= 0 {
        Seq::empty()
    } else {
        spec_param_text(packs, k - 1) + spec_text_of(packs[k - 1], 8)
    }
}

/// The bytes of a text parameter in one reply frame, as far as payload byte
/// `upto` (not included): the bytes from position 4 on that are not zero.
pub open spec fn spec_text_of(pack: CanPackView, upto: int) -> Seq<u8>
    decreases upto,
{
    if upto <= 4 {
        Seq::empty()
    } else if pack.payload_byte(upto - 1) == 0 {
        spec_text_of(pack, upto - 1)
    } else {
        spec_text_of(pack, upto - 1).push(pack.payload_byte(upto - 1))
    }
}

/// Reads a text parameter out of its reply frames, as bytes.
pub fn param_text(packs: &[CanPack]) -> (text: Vec<u8>)
    ensures
        text@ == spec_param_text(crate::frame::pack_views(packs@), packs@.len() as int),
{
    let mut text: Vec<u8> = Vec::new();
    let mut k: usize = 0;
    while k < packs.len()
        invariant
            k <= packs@.len(),
            text@ == spec_param_text(crate::frame::pack_views(packs@), k as int),
        decreases packs@.len() - k,
    {
        let ghost before = text@;
        let mut i: usize = 4;
        while i < 8
            invariant
                4 <= i <= 8,
                k < packs@.len(),
                text@ == before + spec_text_of(packs@[k as int]@, i as int),
            decreases 8 - i,
        {
            let b = packs[k].byte(i);
            if b != 0 {
                text.push(b);
            }
            assert(text@ =~= before + spec_text_of(packs@[k as int]@, i + 1));
            i = i + 1;
        }
        k = k + 1;
    }
    text
}

} // verus!
