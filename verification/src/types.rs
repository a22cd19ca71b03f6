//! The plain data of the protocol: message kinds, motor variants, frames,
//! feedback and setpoints.
//!
//! Physical quantities (radians, radians per second, newton metres, gains)
//! are held as signed integers that count millionths of the unit, so that
//! every computation on them is exact.

use vstd::prelude::*;

verus! {

/// The kind of a message, carried in the five mode bits of the extended
/// identifier. The position of a variant in this list is its value on the
/// wire.
#[derive(Copy, Clone, Debug, PartialEq, Eq, Structural)]
pub enum CanComMode {
    AnnounceDevId,
    MotorCtrl,
    MotorFeedback,
    MotorIn,
    MotorReset,
    MotorCali,
    MotorZero,
    MotorId,
    ParaWrite,
    ParaRead,
    ParaUpdate,
    OtaStart,
    OtaInfo,
    OtaIng,
    OtaEnd,
    CaliIng,
    CaliRst,
    SdoRead,
    SdoWrite,
    ParaStrInfo,
    MotorBrake,
    FaultWarn,
    ModeTotal,
}

impl CanComMode {
    /// The value of the kind on the wire.
    pub open spec fn spec_code(self) -> u8 {
        match self {
            CanComMode::AnnounceDevId => 0,
            CanComMode::MotorCtrl => 1,
            CanComMode::MotorFeedback => 2,
            CanComMode::MotorIn => 3,
            CanComMode::MotorReset => 4,
            CanComMode::MotorCali => 5,
            CanComMode::MotorZero => 6,
            CanComMode::MotorId => 7,
            CanComMode::ParaWrite => 8,
            CanComMode::ParaRead => 9,
            CanComMode::ParaUpdate => 10,
            CanComMode::OtaStart => 11,
            CanComMode::OtaInfo => 12,
            CanComMode::OtaIng => 13,
            CanComMode::OtaEnd => 14,
            CanComMode::CaliIng => 15,
            CanComMode::CaliRst => 16,
            CanComMode::SdoRead => 17,
            CanComMode::SdoWrite => 18,
            CanComMode::ParaStrInfo => 19,
            CanComMode::MotorBrake => 20,
            CanComMode::FaultWarn => 21,
            CanComMode::ModeTotal => 22,
        }
    }

    /// The kind that a value on the wire stands for. Every value above the
    /// last assigned one reads as `ModeTotal`.
    pub open spec fn spec_from_code(code: u8) -> CanComMode {
        if code == 0 {
            CanComMode::AnnounceDevId
        } else if code == 1 {
            CanComMode::MotorCtrl
        } else if code == 2 {
            CanComMode::MotorFeedback
        } else if code == 3 {
            CanComMode::MotorIn
        } else if code == 4 {
            CanComMode::MotorReset
        } else if code == 5 {
            CanComMode::MotorCali
        } else if code == 6 {
            CanComMode::MotorZero
        } else if code == 7 {
            CanComMode::MotorId
        } else if code == 8 {
            CanComMode::ParaWrite
        } else if code == 9 {
            CanComMode::ParaRead
        } else if code == 10 {
            CanComMode::ParaUpdate
        } else if code == 11 {
            CanComMode::OtaStart
        } else if code == 12 {
            CanComMode::OtaInfo
        } else if code == 13 {
            CanComMode::OtaIng
        } else if code == 14 {
            CanComMode::OtaEnd
        } else if code == 15 {
            CanComMode::CaliIng
        } else if code == 16 {
            CanComMode::CaliRst
        } else if code == 17 {
            CanComMode::SdoRead
        } else if code == 18 {
            CanComMode::SdoWrite
        } else if code == 19 {
            CanComMode::ParaStrInfo
        } else if code == 20 {
            CanComMode::MotorBrake
        } else if code == 21 {
            CanComMode::FaultWarn
        } else {
            CanComMode::ModeTotal
        }
    }

    /// The value of the kind on the wire; it fits the five mode bits.
    pub fn code(self) -> (c: u8)
        ensures
            c == self.spec_code(),
            c <= 22,
    {
        match self {
            CanComMode::AnnounceDevId => 0,
            CanComMode::MotorCtrl => 1,
            CanComMode::MotorFeedback => 2,
            CanComMode::MotorIn => 3,
            CanComMode::MotorReset => 4,
            CanComMode::MotorCali => 5,
            CanComMode::MotorZero => 6,
            CanComMode::MotorId => 7,
            CanComMode::ParaWrite => 8,
            CanComMode::ParaRead => 9,
            CanComMode::ParaUpdate => 10,
            CanComMode::OtaStart => 11,
            CanComMode::OtaInfo => 12,
            CanComMode::OtaIng => 13,
            CanComMode::OtaEnd => 14,
            CanComMode::CaliIng => 15,
            CanComMode::CaliRst => 16,
            CanComMode::SdoRead => 17,
            CanComMode::SdoWrite => 18,
            CanComMode::ParaStrInfo => 19,
            CanComMode::MotorBrake => 20,
            CanComMode::FaultWarn => 21,
            CanComMode::ModeTotal => 22,
        }
    }

    /// Reads a kind from its value on the wire. The mapping is total:
    /// unassigned values read as `ModeTotal`.
    pub fn from_code(code: u8) -> (m: CanComMode)
        ensures
            m == Self::spec_from_code(code),
            code <= 22 ==> m.spec_code() == code,
    {
        match code {
            0 => CanComMode::AnnounceDevId,
            1 => CanComMode::MotorCtrl,
            2 => CanComMode::MotorFeedback,
            3 => CanComMode::MotorIn,
            4 => CanComMode::MotorReset,
            5 => CanComMode::MotorCali,
            6 => CanComMode::MotorZero,
            7 => CanComMode::MotorId,
            8 => CanComMode::ParaWrite,
            9 => CanComMode::ParaRead,
            10 => CanComMode::ParaUpdate,
            11 => CanComMode::OtaStart,
            12 => CanComMode::OtaInfo,
            13 => CanComMode::OtaIng,
            14 => CanComMode::OtaEnd,
            15 => CanComMode::CaliIng,
            16 => CanComMode::CaliRst,
            17 => CanComMode::SdoRead,
            18 => CanComMode::SdoWrite,
            19 => CanComMode::ParaStrInfo,
            20 => CanComMode::MotorBrake,
            21 => CanComMode::FaultWarn,
            _ => CanComMode::ModeTotal,
        }
    }
}

/// Reading a kind back from its own wire value gives the same kind.
pub proof fn lemma_com_mode_round_trip(m: CanComMode)
    ensures
        CanComMode::spec_from_code(m.spec_code()) == m,
        m.spec_code() <= 22,
{
}

/// What a motor reports itself to be doing, in the two top bits of the data
/// field of a feedback frame.
#[derive(Copy, Clone, Debug, PartialEq, Eq, Structural)]
pub enum MotorMode {
    Reset,
    Cali,
    Motor,
    Brake,
}

impl MotorMode {
    /// The state that a two-bit value stands for; anything else reads as
    /// `Reset`.
    pub open spec fn spec_from_code(code: u8) -> MotorMode {
        if code == 1 {
            MotorMode::Cali
        } else if code == 2 {
            MotorMode::Motor
        } else if code == 3 {
            MotorMode::Brake
        } else {
            MotorMode::Reset
        }
    }

    /// Reads a state from its value on the wire. The mapping is total.
    pub fn from_code(code: u8) -> (m: MotorMode)
        ensures
            m == Self::spec_from_code(code),
    {
        match code {
            1 => MotorMode::Cali,
            2 => MotorMode::Motor,
            3 => MotorMode::Brake,
            _ => MotorMode::Reset,
        }
    }
}

impl Default for MotorMode {
    fn default() -> (m: MotorMode)
        ensures
            m == MotorMode::Reset,
    {
        MotorMode::Reset
    }
}

/// The control mode of the motors as the host believes it to be.
/// `UnsetMode` means that the host does not know; it never goes on the wire.
#[derive(Copy, Clone, Debug, PartialEq, Eq, Structural)]
pub enum RunMode {
    UnsetMode,
    MitMode,
    PositionMode,
    SpeedMode,
    CurrentMode,
    ToZeroMode,
    CspPositionMode,
}

impl RunMode {
    /// The mode that a byte of a reply stands for; a byte that names no mode
    /// reads as `UnsetMode`.
    pub open spec fn spec_from_code(code: u8) -> RunMode {
        if code == 0 {
            RunMode::MitMode
        } else if code == 1 {
            RunMode::PositionMode
        } else if code == 2 {
            RunMode::SpeedMode
        } else if code == 3 {
            RunMode::CurrentMode
        } else if code == 4 {
            RunMode::ToZeroMode
        } else if code == 5 {
            RunMode::CspPositionMode
        } else {
            RunMode::UnsetMode
        }
    }

    /// The byte that names the mode on the wire; `UnsetMode` has none.
    pub open spec fn spec_code(self) -> Option<u8> {
        match self {
            RunMode::UnsetMode => None,
            RunMode::MitMode => Some(0u8),
            RunMode::PositionMode => Some(1u8),
            RunMode::SpeedMode => Some(2u8),
            RunMode::CurrentMode => Some(3u8),
            RunMode::ToZeroMode => Some(4u8),
            RunMode::CspPositionMode => Some(5u8),
        }
    }

    /// Reads a mode from a byte of a reply. The mapping is total.
    pub fn from_code(code: u8) -> (m: RunMode)
        ensures
            m == Self::spec_from_code(code),
    {
        match code {
            0 => RunMode::MitMode,
            1 => RunMode::PositionMode,
            2 => RunMode::SpeedMode,
            3 => RunMode::CurrentMode,
            4 => RunMode::ToZeroMode,
            5 => RunMode::CspPositionMode,
            _ => RunMode::UnsetMode,
        }
    }

    /// The byte that names the mode on the wire, or `None` for `UnsetMode`.
    pub fn code(self) -> (c: Option<u8>)
        ensures
            c == self.spec_code(),
            c is None <==> self == RunMode::UnsetMode,
    {
        match self {
            RunMode::UnsetMode => None,
            RunMode::MitMode => Some(0),
            RunMode::PositionMode => Some(1),
            RunMode::SpeedMode => Some(2),
            RunMode::CurrentMode => Some(3),
            RunMode::ToZeroMode => Some(4),
            RunMode::CspPositionMode => Some(5),
        }
    }
}

/// A mode that can go on the wire is read back from its byte unchanged.
pub proof fn lemma_run_mode_round_trip(m: RunMode)
    requires
        m != RunMode::UnsetMode,
    ensures
        m.spec_code() is Some,
        RunMode::spec_from_code(m.spec_code().unwrap()) == m,
{
}

/// The extended identifier of a frame.
#[derive(Copy, Clone, Debug, PartialEq, Eq, Structural)]
pub struct ExId {
    /// The motor that the frame is for, or that it comes from.
    pub id: u8,
    /// The sender's address, or sixteen bits of payload.
    pub data: u16,
    /// The kind of message.
    pub mode: CanComMode,
    /// Three reserved bits.
    pub res: u8,
}

/// A frame: its identifier, the number of payload bytes that count, and the
/// payload.
#[derive(Debug, PartialEq, Eq)]
pub struct CanPack {
    pub ex_id: ExId,
    pub len: u8,
    pub data: Vec<u8>,
}

/// A frame as a mathematical value.
pub struct CanPackView {
    pub ex_id: ExId,
    pub len: u8,
    pub data: Seq<u8>,
}

impl CanPackView {
    /// A frame is well formed if it has at most eight payload bytes and
    /// holds exactly as many as it says.
    pub open spec fn wf(self) -> bool {
        &&& self.len <= 8
        &&& self.data.len() == self.len
    }

    /// The payload byte at position `i` on the wire: byte `i` of `data` if
    /// `i` is below `len` and `data` is that long, and zero otherwise.
    pub open spec fn payload_byte(self, i: int) -> u8 {
        if 0 <= i < self.len && i < self.data.len() {
            self.data[i]
        } else {
            0
        }
    }

    /// The eight payload bytes as they stand on the wire.
    pub open spec fn payload(self) -> Seq<u8> {
        Seq::new(8, |i: int| self.payload_byte(i))
    }
}

impl View for CanPack {
    type V = CanPackView;

    open spec fn view(&self) -> CanPackView {
        CanPackView { ex_id: self.ex_id, len: self.len, data: self.data@ }
    }
}

impl CanPack {
    /// The payload byte at position `i` on the wire; a byte that the frame
    /// does not hold reads as zero.
    pub fn byte(&self, i: usize) -> (b: u8)
        ensures
            b == self@.payload_byte(i as int),
    {
        if i < self.len as usize && i < self.data.len() {
            self.data[i]
        } else {
            0
        }
    }
}

impl Clone for CanPack {
    fn clone(&self) -> (r: CanPack)
        ensures
            r@ == self@,
    {
        CanPack { ex_id: self.ex_id, len: self.len, data: self.data.clone() }
    }
}

/// What a motor reported last, in physical units (millionths).
#[derive(Copy, Clone, Debug, PartialEq, Eq, Structural)]
pub struct MotorFeedback {
    pub can_id: u8,
    pub position: i64,
    pub velocity: i64,
    pub torque: i64,
    pub mode: MotorMode,
    pub faults: u16,
}

impl Default for MotorFeedback {
    fn default() -> (f: MotorFeedback)
        ensures
            f == (MotorFeedback {
                can_id: 0,
                position: 0,
                velocity: 0,
                torque: 0,
                mode: MotorMode::Reset,
                faults: 0,
            }),
    {
        MotorFeedback {
            can_id: 0,
            position: 0,
            velocity: 0,
            torque: 0,
            mode: MotorMode::Reset,
            faults: 0,
        }
    }
}

/// What a motor reported, as the sixteen-bit codes of the frame.
#[derive(Copy, Clone, Debug, PartialEq, Eq, Structural)]
pub struct MotorFeedbackRaw {
    pub can_id: u8,
    pub pos_int: u16,
    pub vel_int: u16,
    pub torque_int: u16,
    pub mode: MotorMode,
    pub faults: u16,
}

impl Default for MotorFeedbackRaw {
    fn default() -> (f: MotorFeedbackRaw)
        ensures
            f == (MotorFeedbackRaw {
                can_id: 0,
                pos_int: 0,
                vel_int: 0,
                torque_int: 0,
                mode: MotorMode::Reset,
                faults: 0,
            }),
    {
        MotorFeedbackRaw {
            can_id: 0,
            pos_int: 0,
            vel_int: 0,
            torque_int: 0,
            mode: MotorMode::Reset,
            faults: 0,
        }
    }
}

/// The setpoint of one motor, in physical units (millionths): where to be,
/// how fast, with which gains and with how much torque fed forward.
#[derive(Copy, Clone, Debug, PartialEq, Eq, Structural)]
pub struct MotorControlParams {
    pub position: i64,
    pub velocity: i64,
    pub kp: i64,
    pub kd: i64,
    pub torque: i64,
}

impl MotorControlParams {
    /// The setpoint with everything at zero.
    pub open spec fn zero() -> MotorControlParams {
        MotorControlParams { position: 0, velocity: 0, kp: 0, kd: 0, torque: 0 }
    }

    /// A setpoint is valid if neither gain is negative.
    pub open spec fn valid(self) -> bool {
        self.kp >= 0 && self.kd >= 0
    }

    /// The same setpoint with negative gains raised to zero.
    pub open spec fn spec_clamped(self) -> MotorControlParams {
        MotorControlParams {
            kp: if self.kp < 0 { 0 } else { self.kp },
            kd: if self.kd < 0 { 0 } else { self.kd },
            ..self
        }
    }

    /// Raises negative gains to zero and leaves the rest as it is.
    pub fn clamped(self) -> (p: MotorControlParams)
        ensures
            p == self.spec_clamped(),
            p.valid(),
            self.valid() ==> p == self,
    {
        MotorControlParams {
            position: self.position,
            velocity: self.velocity,
            kp: if self.kp < 0 { 0 } else { self.kp },
            kd: if self.kd < 0 { 0 } else { self.kd },
            torque: self.torque,
        }
    }
}

impl Default for MotorControlParams {
    fn default() -> (p: MotorControlParams)
        ensures
            p == MotorControlParams::zero(),
    {
        MotorControlParams { position: 0, velocity: 0, kp: 0, kd: 0, torque: 0 }
    }
}

/// The physical ranges of one motor variant (millionths), and whether the
/// motor has to be zeroed when a session starts.
#[derive(Copy, Clone, Debug, PartialEq, Eq, Structural)]
pub struct MotorConfig {
    pub p_min: i64,
    pub p_max: i64,
    pub v_min: i64,
    pub v_max: i64,
    pub kp_min: i64,
    pub kp_max: i64,
    pub kd_min: i64,
    pub kd_max: i64,
    pub t_min: i64,
    pub t_max: i64,
    pub zero_on_init: bool,
}

impl MotorConfig {
    /// A configuration is valid if every range has a lower end below its
    /// upper end.
    pub open spec fn valid(self) -> bool {
        &&& self.p_min < self.p_max
        &&& self.v_min < self.v_max
        &&& self.kp_min < self.kp_max
        &&& self.kd_min < self.kd_max
        &&& self.t_min < self.t_max
    }

    /// Whether the configuration is valid.
    pub fn is_valid(&self) -> (b: bool)
        ensures
            b == self.valid(),
    {
        self.p_min < self.p_max && self.v_min < self.v_max && self.kp_min < self.kp_max
            && self.kd_min < self.kd_max && self.t_min < self.t_max
    }
}

/// The motor variants.
#[derive(Copy, Clone, Debug, PartialEq, Eq, Hash, Structural)]
pub enum MotorType {
    Type01,
    Type02,
    Type03,
    Type04,
}

impl MotorType {
    /// The ranges of the variant.
    pub open spec fn spec_config(self) -> MotorConfig {
        match self {
            MotorType::Type01 => MotorConfig {
                p_min: (-12_500_000) as i64,
                p_max: 12_500_000,
                v_min: (-44_000_000) as i64,
                v_max: 44_000_000,
                kp_min: 0,
                kp_max: 500_000_000,
                kd_min: 0,
                kd_max: 5_000_000,
                t_min: (-12_000_000) as i64,
                t_max: 12_000_000,
                zero_on_init: true,
            },
            MotorType::Type02 => MotorConfig {
                p_min: (-12_500_000) as i64,
                p_max: 12_500_000,
                v_min: (-44_000_000) as i64,
                v_max: 44_000_000,
                kp_min: 0,
                kp_max: 500_000_000,
                kd_min: 0,
                kd_max: 5_000_000,
                t_min: (-12_000_000) as i64,
                t_max: 12_000_000,
                zero_on_init: false,
            },
            MotorType::Type03 => MotorConfig {
                p_min: (-12_500_000) as i64,
                p_max: 12_500_000,
                v_min: (-20_000_000) as i64,
                v_max: 20_000_000,
                kp_min: 0,
                kp_max: 5_000_000_000,
                kd_min: 0,
                kd_max: 100_000_000,
                t_min: (-60_000_000) as i64,
                t_max: 60_000_000,
                zero_on_init: false,
            },
            MotorType::Type04 => MotorConfig {
                p_min: (-12_500_000) as i64,
                p_max: 12_500_000,
                v_min: (-15_000_000) as i64,
                v_max: 15_000_000,
                kp_min: 0,
                kp_max: 5_000_000_000,
                kd_min: 0,
                kd_max: 100_000_000,
                t_min: (-120_000_000) as i64,
                t_max: 120_000_000,
                zero_on_init: false,
            },
        }
    }

    /// The ranges of the variant. The first variant has a single encoder
    /// and is zeroed when a session starts; the ranges of the second are
    /// provisional.
    pub fn config(self) -> (c: MotorConfig)
        ensures
            c == self.spec_config(),
            c.valid(),
    {
        match self {
            MotorType::Type01 => MotorConfig {
                p_min: -12_500_000,
                p_max: 12_500_000,
                v_min: -44_000_000,
                v_max: 44_000_000,
                kp_min: 0,
                kp_max: 500_000_000,
                kd_min: 0,
                kd_max: 5_000_000,
                t_min: -12_000_000,
                t_max: 12_000_000,
                zero_on_init: true,
            },
            MotorType::Type02 => MotorConfig {
                p_min: -12_500_000,
                p_max: 12_500_000,
                v_min: -44_000_000,
                v_max: 44_000_000,
                kp_min: 0,
                kp_max: 500_000_000,
                kd_min: 0,
                kd_max: 5_000_000,
                t_min: -12_000_000,
                t_max: 12_000_000,
                zero_on_init: false,
            },
            MotorType::Type03 => MotorConfig {
                p_min: -12_500_000,
                p_max: 12_500_000,
                v_min: -20_000_000,
                v_max: 20_000_000,
                kp_min: 0,
                kp_max: 5_000_000_000,
                kd_min: 0,
                kd_max: 100_000_000,
                t_min: -60_000_000,
                t_max: 60_000_000,
                zero_on_init: false,
            },
            MotorType::Type04 => MotorConfig {
                p_min: -12_500_000,
                p_max: 12_500_000,
                v_min: -15_000_000,
                v_max: 15_000_000,
                kp_min: 0,
                kp_max: 5_000_000_000,
                kd_min: 0,
                kd_max: 100_000_000,
                t_min: -120_000_000,
                t_max: 120_000_000,
                zero_on_init: false,
            },
        }
    }
}

/// The variant that a two-character name stands for, if it names one.
pub open spec fn spec_motor_type_from_str(s: Seq<char>) -> Option<MotorType> {
    if s == seq!['0', '1'] {
        Some(MotorType::Type01)
    } else if s == seq!['0', '2'] {
        Some(MotorType::Type02)
    } else if s == seq!['0', '3'] {
        Some(MotorType::Type03)
    } else if s == seq!['0', '4'] {
        Some(MotorType::Type04)
    } else {
        None
    }
}

/// Reads a motor variant from its name: `"01"`, `"02"`, `"03"` or `"04"`.
/// Any other text is refused as invalid input.
pub fn motor_type_from_str(s: &str) -> (r: Result<MotorType, MotorError>)
    ensures
        match spec_motor_type_from_str(s@) {
            Some(t) => r == Ok::<MotorType, MotorError>(t),
            None => r == Err::<MotorType, MotorError>(MotorError::InvalidMotorType),
        },
{
    if s.unicode_len() != 2 {
        return Err(MotorError::InvalidMotorType);
    }
    let first = s.get_char(0);
    let second = s.get_char(1);
    assert(s@ =~= seq![first, second]);
    if first != '0' {
        assert(s@[0] != '0');
        return Err(MotorError::InvalidMotorType);
    }
    assert(s@ =~= seq!['0', second]);
    if second == '1' {
        Ok(MotorType::Type01)
    } else if second == '2' {
        Ok(MotorType::Type02)
    } else if second == '3' {
        Ok(MotorType::Type03)
    } else if second == '4' {
        Ok(MotorType::Type04)
    } else {
        assert(s@[1] != '1' && s@[1] != '2' && s@[1] != '3' && s@[1] != '4');
        Err(MotorError::InvalidMotorType)
    }
}

/// The broad class of a failure.
#[derive(Copy, Clone, Debug, PartialEq, Eq, Structural)]
pub enum ErrorKind {
    /// An argument names nothing that exists, or is malformed.
    InvalidInput,
    /// What was asked for is not there.
    NotFound,
    /// The link gave too few bytes, or bytes that are no frame.
    UnexpectedEof,
    /// The link itself failed.
    Link,
    /// Anything else.
    Other,
}

/// The failures of the library.
#[derive(Copy, Clone, Debug, PartialEq, Eq, Structural)]
pub enum MotorError {
    /// The text names no motor variant.
    InvalidMotorType,
    /// The motor is not part of the session.
    InvalidMotorId(u8),
    /// A frame names a motor that the session has no ranges for.
    MotorNotFound,
    /// The supervisor holds nothing for the motor.
    MotorIdNotFound(u8),
    /// No feedback has been seen from the motor.
    NoFeedback,
    /// The bytes that came back are too few, or are not a frame.
    BadFrame,
    /// No motor told its run mode.
    ModeUnknown,
    /// The serial link reported a failure.
    Link,
}

impl MotorError {
    /// The class of the failure.
    pub open spec fn spec_kind(self) -> ErrorKind {
        match self {
            MotorError::InvalidMotorType => ErrorKind::InvalidInput,
            MotorError::InvalidMotorId(_) => ErrorKind::InvalidInput,
            MotorError::MotorNotFound => ErrorKind::NotFound,
            MotorError::MotorIdNotFound(_) => ErrorKind::NotFound,
            MotorError::NoFeedback => ErrorKind::NotFound,
            MotorError::BadFrame => ErrorKind::UnexpectedEof,
            MotorError::ModeUnknown => ErrorKind::Other,
            MotorError::Link => ErrorKind::Link,
        }
    }

    /// The class of the failure.
    pub fn kind(self) -> (k: ErrorKind)
        ensures
            k == self.spec_kind(),
    {
        match self {
            MotorError::InvalidMotorType => ErrorKind::InvalidInput,
            MotorError::InvalidMotorId(_) => ErrorKind::InvalidInput,
            MotorError::MotorNotFound => ErrorKind::NotFound,
            MotorError::MotorIdNotFound(_) => ErrorKind::NotFound,
            MotorError::NoFeedback => ErrorKind::NotFound,
            MotorError::BadFrame => ErrorKind::UnexpectedEof,
            MotorError::ModeUnknown => ErrorKind::Other,
            MotorError::Link => ErrorKind::Link,
        }
    }
}

} // verus!
