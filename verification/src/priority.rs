//! Packet priorities, 0 to 127; a higher number is more urgent.

use vstd::prelude::*;

verus! {

pub const UNSET: u8 = 0;

pub const MIN: u8 = 1;

pub const BACKGROUND: u8 = 10;

pub const DEFAULT: u8 = 64;

pub const RELIABLE: u8 = 70;

pub const ACK: u8 = 120;

pub const MAX: u8 = 127;

} // verus!
