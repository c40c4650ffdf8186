//! The LINAK desk wire protocol: characteristic UUIDs, command bytes and the
//! layout of the height notification.

use vstd::prelude::*;

verus! {

/// LINAK desks advertise as "Desk XXXX".
pub const DESK_NAME_PREFIX: &'static str = "Desk";

/// Direct up/down/stop writes (`99fa0002-338a-1024-8a49-009c0215f78a`).
pub const CHARACTERISTIC_MOVE: u128 = 0x99fa0002_338a_1024_8a49_009c0215f78a;

/// Height and speed notifications (`99fa0021-338a-1024-8a49-009c0215f78a`).
pub const CHARACTERISTIC_REFERENCE_OUT: u128 = 0x99fa0021_338a_1024_8a49_009c0215f78a;

/// Release / move-to-target writes (`99fa0031-338a-1024-8a49-009c0215f78a`).
pub const CHARACTERISTIC_REFERENCE_IN: u128 = 0x99fa0031_338a_1024_8a49_009c0215f78a;

/// Drive the desk up.
pub const COMMAND_UP: [u8; 2] = [0x47, 0x00];

/// Drive the desk down.
pub const COMMAND_DOWN: [u8; 2] = [0x46, 0x00];

/// Stop the motor.
pub const COMMAND_STOP: [u8; 2] = [0xff, 0x00];

/// Release the move-to-target latch.
pub const COMMAND_RELEASE: [u8; 2] = [0x01, 0x80];

/// The desk's dead-man timer in milliseconds: it halts when it sees no
/// movement command for about this long.
pub const DEAD_MAN_MS: u64 = 250;

/// Keep-alive period of a held move in milliseconds, inside the dead-man
/// timer.
pub const POLL_MS: u64 = 200;

/// Which way a press-and-hold move drives the desk.
#[derive(Clone, Copy, Debug, PartialEq, Eq, Structural)]
pub enum Direction {
    Up,
    Down,
}

/// The command bytes of a direction, as a sequence.
pub open spec fn command_bytes(direction: Direction) -> Seq<u8> {
    match direction {
        Direction::Up => seq![0x47u8, 0x00u8],
        Direction::Down => seq![0x46u8, 0x00u8],
    }
}

impl Direction {
    /// The move-characteristic command bytes for this direction.
    pub fn command(self) -> (bytes: [u8; 2])
        ensures
            bytes@ == command_bytes(self),
    {
        match self {
            Direction::Up => [0x47, 0x00],
            Direction::Down => [0x46, 0x00],
        }
    }
}

/// The two directions send different commands, and neither is the stop or
/// the release command.
pub proof fn lemma_commands_distinct()
    ensures
        command_bytes(Direction::Up) != command_bytes(Direction::Down),
        command_bytes(Direction::Up) != seq![0xffu8, 0x00u8],
        command_bytes(Direction::Down) != seq![0xffu8, 0x00u8],
        command_bytes(Direction::Up) != seq![0x01u8, 0x80u8],
        command_bytes(Direction::Down) != seq![0x01u8, 0x80u8],
{
    assert(command_bytes(Direction::Up)[0] != command_bytes(Direction::Down)[0]);
    assert(command_bytes(Direction::Up)[0] != seq![0xffu8, 0x00u8][0]);
    assert(command_bytes(Direction::Down)[0] != seq![0xffu8, 0x00u8][0]);
    assert(command_bytes(Direction::Up)[0] != seq![0x01u8, 0x80u8][0]);
    assert(command_bytes(Direction::Down)[0] != seq![0x01u8, 0x80u8][0]);
}

/// A little-endian `u16` from two bytes.
pub open spec fn le_u16(lo: u8, hi: u8) -> int {
    lo as int + 256 * (hi as int)
}

/// A little-endian two's-complement `i16` from two bytes.
pub open spec fn le_i16(lo: u8, hi: u8) -> int {
    if hi < 128 {
        le_u16(lo, hi)
    } else {
        le_u16(lo, hi) - 65536
    }
}

/// The raw height carried by a notification: a little-endian `u16` in its
/// first two bytes, if it has them.
pub open spec fn notified_height(data: Seq<u8>) -> Option<int> {
    if data.len() >= 2 {
        Some(le_u16(data[0], data[1]))
    } else {
        None
    }
}

/// The signed speed carried by a notification: a little-endian `i16` in bytes
/// two and three, if it has them (positive up, negative down, `0` stopped).
pub open spec fn notified_speed(data: Seq<u8>) -> Option<int> {
    if data.len() >= 4 {
        Some(le_i16(data[2], data[3]))
    } else {
        None
    }
}

/// Decode the raw height of a height notification.
pub fn parse_height(data: &[u8]) -> (height: Option<i32>)
    ensures
        match notified_height(data@) {
            Some(h) => height == Some(h as i32) && 0 <= h <= 65535,
            None => height is None,
        },
{
    if data.len() < 2 {
        return None;
    }
    let lo = data[0] as i32;
    let hi = data[1] as i32;
    Some(lo + 256 * hi)
}

/// Decode the signed speed of a height notification.
pub fn parse_speed(data: &[u8]) -> (speed: Option<i32>)
    ensures
        match notified_speed(data@) {
            Some(v) => speed == Some(v as i32) && -32768 <= v <= 32767,
            None => speed is None,
        },
{
    if data.len() < 4 {
        return None;
    }
    let lo = data[2] as i32;
    let hi = data[3] as i32;
    let unsigned = lo + 256 * hi;
    if hi < 128 {
        Some(unsigned)
    } else {
        Some(unsigned - 65536)
    }
}

} // verus!
