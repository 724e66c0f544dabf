//! Request frames: how long one is, and what it says.

use crate::consts::{
    READ_COIL, READ_INPUT, READ_INPUT_REGISTERS, READ_OUTPUT_REGISTERS, SET_COIL, SET_COILS,
    SET_REGISTER, SET_REGISTERS,
};
use crate::data::{coils, registers, CoilState, CoilStore, RegisterStore};
use crate::error::Error;
use crate::general::{crc16_modbus, modbus_crc};
use crate::ring::{grant_buf, grant_bytes, mark_release, release, RING_SIZE};
use crate::wire::{
    body_of, byte_at, field_at, payload, read_body, read_byte, read_field, BYTE_COUNT_AT,
};
use bbqueue::GrantR;
use vstd::prelude::*;
use vstd::slice::slice_subrange;

verus! {

/// A request together with the slave it is addressed to.
#[derive(Debug, PartialEq)]
pub struct RequestFrame<'a> {
    pub slave_id: usize,
    pub request: Request<'a>,
}

/// A single modbus RTU request.
#[derive(Debug, PartialEq)]
pub enum Request<'a> {
    ReadCoil { address: u16, count: u16 },
    ReadInput { address: u16, count: u16 },
    ReadOutputRegisters { address: u16, count: u16 },
    ReadInputRegisters { address: u16, count: u16 },
    SetCoil { address: u16, status: CoilState },
    SetRegister { address: u16, value: u16 },
    SetCoils { address: u16, count: u16, coils: CoilStore<'a> },
    SetRegisters { address: u16, count: u16, registers: RegisterStore<'a> },
}

/// What a request says, with the coils and registers of the write-multiple
/// requests written out.
pub enum RequestView {
    ReadCoil { address: u16, count: u16 },
    ReadInput { address: u16, count: u16 },
    ReadOutputRegisters { address: u16, count: u16 },
    ReadInputRegisters { address: u16, count: u16 },
    SetCoil { address: u16, status: CoilState },
    SetRegister { address: u16, value: u16 },
    SetCoils { address: u16, count: u16, coils: Seq<CoilState> },
    SetRegisters { address: u16, count: u16, registers: Seq<u16> },
}

/// What a request frame says.
pub struct FrameView {
    pub slave_id: usize,
    pub request: RequestView,
}

impl<'a> View for Request<'a> {
    type V = RequestView;

    open spec fn view(&self) -> RequestView {
        match self {
            Request::ReadCoil { address, count } => RequestView::ReadCoil {
                address: *address,
                count: *count,
            },
            Request::ReadInput { address, count } => RequestView::ReadInput {
                address: *address,
                count: *count,
            },
            Request::ReadOutputRegisters { address, count } => RequestView::ReadOutputRegisters {
                address: *address,
                count: *count,
            },
            Request::ReadInputRegisters { address, count } => RequestView::ReadInputRegisters {
                address: *address,
                count: *count,
            },
            Request::SetCoil { address, status } => RequestView::SetCoil {
                address: *address,
                status: *status,
            },
            Request::SetRegister { address, value } => RequestView::SetRegister {
                address: *address,
                value: *value,
            },
            Request::SetCoils { address, count, coils } => RequestView::SetCoils {
                address: *address,
                count: *count,
                coils: coils@,
            },
            Request::SetRegisters { address, count, registers } => RequestView::SetRegisters {
                address: *address,
                count: *count,
                registers: registers@,
            },
        }
    }
}

impl<'a> Request<'a> {
    /// How many bytes go back to the ring when the request is dropped: those
    /// that its view of coils or registers holds on to, and none where it
    /// has no such view.
    pub open spec fn released_on_drop(&self) -> nat {
        match self {
            Request::SetCoils { coils, .. } => coils.released_on_drop(),
            Request::SetRegisters { registers, .. } => registers.released_on_drop(),
            _ => 0,
        }
    }
}

impl<'a> View for RequestFrame<'a> {
    type V = FrameView;

    open spec fn view(&self) -> FrameView {
        FrameView { slave_id: self.slave_id, request: self.request@ }
    }
}

/// The length of the frame that `data` begins with, slave address and
/// checksum included: `Ok(None)` while the bytes at hand do not tell, an
/// error where the function code is not known.
pub open spec fn request_len(data: Seq<u8>) -> Result<Option<usize>, Error> {
    if data.len() < 2 {
        Ok(None)
    } else if READ_COIL <= data[1] <= SET_REGISTER {
        Ok(Some(8))
    } else if data[1] == SET_COILS || data[1] == SET_REGISTERS {
        if data.len() > BYTE_COUNT_AT {
            Ok(Some((9 + data[BYTE_COUNT_AT as int]) as usize))
        } else {
            Ok(None)
        }
    } else {
        Err(Error::UnknownFunction(data[1]))
    }
}

/// The request that the frame `bytes` holds, by its function code. Behind
/// the function code lie the address, then a count, a status or a value.
pub open spec fn request_of(bytes: Seq<u8>) -> Result<RequestView, Error> {
    let function = byte_at(bytes, 1);
    let address = field_at(body_of(bytes), 0);
    let value = field_at(body_of(bytes), 2);
    if function == READ_COIL {
        Ok(RequestView::ReadCoil { address, count: value })
    } else if function == READ_INPUT {
        Ok(RequestView::ReadInput { address, count: value })
    } else if function == READ_OUTPUT_REGISTERS {
        Ok(RequestView::ReadOutputRegisters { address, count: value })
    } else if function == READ_INPUT_REGISTERS {
        Ok(RequestView::ReadInputRegisters { address, count: value })
    } else if function == SET_COIL {
        Ok(RequestView::SetCoil { address, status: CoilState::of_status(value) })
    } else if function == SET_REGISTER {
        Ok(RequestView::SetRegister { address, value })
    } else if function == SET_COILS {
        Ok(
            RequestView::SetCoils {
                address,
                count: value,
                coils: coils(payload(bytes), value as nat),
            },
        )
    } else if function == SET_REGISTERS {
        Ok(
            RequestView::SetRegisters {
                address,
                count: value,
                registers: registers(payload(bytes), value as nat),
            },
        )
    } else {
        Err(Error::UnknownFunction(function))
    }
}

/// What the frame `bytes` says whose checksum came out as `crc`: nothing
/// unless the checksum is zero.
pub open spec fn decode_checked(bytes: Seq<u8>, crc: u16) -> Result<FrameView, Error> {
    if crc != 0 {
        Err(Error::Crc)
    } else {
        match request_of(bytes) {
            Ok(request) => Ok(FrameView { slave_id: byte_at(bytes, 0) as usize, request }),
            Err(error) => Err(error),
        }
    }
}

/// What the frame says that the first `frame_len` of `bytes` are. Nothing
/// behind the frame is looked at.
pub open spec fn decode(bytes: Seq<u8>, frame_len: int) -> Result<FrameView, Error> {
    decode_checked(bytes.take(frame_len), modbus_crc(bytes.take(frame_len)))
}

/// What a decoded frame says, or the error in its place.
pub open spec fn decoded_view(decoded: Result<RequestFrame<'_>, Error>) -> Result<
    FrameView,
    Error,
> {
    match decoded {
        Ok(frame) => Ok(frame@),
        Err(error) => Err(error),
    }
}

impl<'a> RequestFrame<'a> {
    /// Parses a single modbus RTU request frame: the first `frame_len` bytes
    /// of the grant.
    ///
    /// Beside what the frame says comes the number of bytes that are given
    /// back to the ring: those of the frame, whatever it says. They are
    /// given back at once, but for a write-multiple request, which keeps the
    /// grant and gives them back when it is dropped.
    pub fn parse_frame(rgr: GrantR<'a, RING_SIZE>, frame_len: usize) -> (parsed: (
        Result<RequestFrame<'a>, Error>,
        usize,
    ))
        requires
            4 <= frame_len <= grant_bytes(&rgr).len(),
        ensures
            decoded_view(parsed.0) == decode(grant_bytes(&rgr), frame_len as int),
            parsed.1 == frame_len,
            parsed.0 matches Ok(frame) ==> (frame.request is SetCoils || frame.request
                is SetRegisters) ==> frame.request.released_on_drop() == frame_len,
    {
        let crc = crc16_modbus(slice_subrange(grant_buf(&rgr), 0, frame_len));
        Self::parse_checked(rgr, frame_len, crc)
    }

    /// Parses the frame that the first `frame_len` bytes of the grant are,
    /// given the checksum that was computed over the frame.
    pub fn parse_checked(rgr: GrantR<'a, RING_SIZE>, frame_len: usize, crc: u16) -> (parsed: (
        Result<RequestFrame<'a>, Error>,
        usize,
    ))
        requires
            frame_len <= grant_bytes(&rgr).len(),
        ensures
            decoded_view(parsed.0) == decode_checked(
                grant_bytes(&rgr).take(frame_len as int),
                crc,
            ),
            parsed.1 == frame_len,
            parsed.0 matches Ok(frame) ==> (frame.request is SetCoils || frame.request
                is SetRegisters) ==> frame.request.released_on_drop() == frame_len,
    {
        // Make sure the received CRC is valid.
        // If it is not valid, immediately return an error.
        if crc != 0 {
            return (Err(Error::Crc), release(rgr, frame_len));
        }
        let frame = slice_subrange(grant_buf(&rgr), 0, frame_len);

        // Get the universal request fields.
        let slave_id = read_byte(frame, 0) as usize;
        let function_id = read_byte(frame, 1);

        // Get the actual data frame in the buffer, behind the function id.
        let (address, value) = Self::parse_read_request(read_body(frame));

        // Parse the actual requests.
        if function_id == SET_COILS {
            let mut rgr = rgr;
            // Make sure we mark the right amount of bytes as read in our read buffer.
            mark_release(&mut rgr, frame_len);
            let coils = CoilStore::framed(rgr, value as usize, frame_len);
            let request = Request::SetCoils { address, count: value, coils };
            return (Ok(RequestFrame { slave_id, request }), frame_len);
        }
        if function_id == SET_REGISTERS {
            let mut rgr = rgr;
            mark_release(&mut rgr, frame_len);
            let registers = RegisterStore::framed(rgr, frame_len);
            let request = Request::SetRegisters { address, count: value, registers };
            return (Ok(RequestFrame { slave_id, request }), frame_len);
        }
        let released = release(rgr, frame_len);
        let request = if function_id == READ_COIL {
            Request::ReadCoil { address, count: value }
        } else if function_id == READ_INPUT {
            Request::ReadInput { address, count: value }
        } else if function_id == READ_OUTPUT_REGISTERS {
            Request::ReadOutputRegisters { address, count: value }
        } else if function_id == READ_INPUT_REGISTERS {
            Request::ReadInputRegisters { address, count: value }
        } else if function_id == SET_COIL {
            Request::SetCoil { address, status: CoilState::from_status(value) }
        } else if function_id == SET_REGISTER {
            Request::SetRegister { address, value }
        } else {
            return (Err(Error::UnknownFunction(function_id)), released);
        };

        (Ok(RequestFrame { slave_id, request }), released)
    }

    /// Returns the complete length of a request dataframe including slave ID and CRC.
    /// The returned Result is always Ok except if the function code was unknown.
    /// If there was not enough databytes received yet, Ok(None) is returned.
    pub fn parse_request_len(data: &[u8]) -> (len: Result<Option<usize>, Error>)
        ensures
            len == request_len(data@),
    {
        // If the packet is not at least two bytes long, we cannot determine the function code
        // as well as the packet length, so we instanly return None, signaling that we await more bytes.
        if data.len() < 2 {
            return Ok(None);
        }
        let fn_code = data[1];
        if READ_COIL <= fn_code && fn_code <= SET_REGISTER {
            Ok(Some(8))
        } else if fn_code == SET_COILS || fn_code == SET_REGISTERS {
            if data.len() > BYTE_COUNT_AT {
                Ok(Some(9 + data[BYTE_COUNT_AT] as usize))
            } else {
                // incomplete frame
                Ok(None)
            }
        } else {
            Err(Error::UnknownFunction(fn_code))
        }
    }

    /// Parses the two 16-bit fields that every request begins with behind
    /// its function code: the address, and a count, a status or a value.
    pub fn parse_read_request(data: &[u8]) -> (fields: (u16, u16))
        ensures
            fields.0 == field_at(data@, 0),
            fields.1 == field_at(data@, 2),
    {
        (read_field(data, 0), read_field(data, 2))
    }
}

} // verus!
