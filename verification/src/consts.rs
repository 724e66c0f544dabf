//! Function codes of the requests that the decoder understands.

use vstd::prelude::*;

verus! {

pub const READ_COIL: u8 = 0x01;

pub const READ_INPUT: u8 = 0x02;

pub const READ_OUTPUT_REGISTERS: u8 = 0x03;

pub const READ_INPUT_REGISTERS: u8 = 0x04;

pub const SET_COIL: u8 = 0x05;

pub const SET_REGISTER: u8 = 0x06;

pub const SET_COILS: u8 = 0x0F;

pub const SET_REGISTERS: u8 = 0x10;

} // verus!
