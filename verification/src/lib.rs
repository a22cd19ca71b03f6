//! Host-side driver core for Robstride servo actuators on a CAN bus that is
//! tunnelled through a USB serial adapter.
//!
//! The library turns setpoints into frames and frames into feedback, and
//! decides what goes over the link and when; it never touches the link
//! itself. Its parts, from the leaves up:
//!
//! - [`types`]: kinds of message, motor variants and their ranges, frames,
//!   feedback, setpoints, failures;
//! - [`fixed`]: the linear map between a physical range and a 16-bit code;
//! - [`bits`]: bit fields, and the extended identifier of a frame;
//! - [`frame`]: the 17 bytes of a frame on the wire;
//! - [`command`]: the frames that the host sends, and what it reads out of
//!   the replies;
//! - [`motors`]: the session, which steps through an operation one exchange
//!   at a time;
//! - [`supervisor`]: setpoints, counters, and the steps of the periodic
//!   worker.

use vstd::prelude::*;

pub mod bits;
pub mod command;
pub mod fixed;
pub mod frame;
pub mod motors;
pub mod supervisor;
pub mod types;

verus! {

/// Bus address of the master.
pub const CAN_ID_MASTER: u8 = 0x00;

/// Address a motor answers to before it has been given one.
pub const CAN_ID_MOTOR_DEFAULT: u8 = 0x7F;

/// Address that every motor listens to.
pub const CAN_ID_BROADCAST: u8 = 0xFE;

/// Address the host sends from.
pub const CAN_ID_DEBUG_UI: u8 = 0xFD;

/// Line speed of the serial adapter, in baud.
pub const BAUDRATE: u32 = 921600;

} // verus!
