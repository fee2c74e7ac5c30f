//! Response frames sent by the watch: a command byte, a signed status byte and
//! a packed body whose layout depends on the request.
use vstd::prelude::*;

use crate::codec::{read_u16, read_u32, read_u64, u16_at, u32_at, u64_at, push_range};

verus! {

/// Number of bytes before the body: the command byte and the status byte.
pub const HEADER_LEN: usize = 2;

/// A decoded response header and body.
#[derive(Clone, Copy, Debug)]
pub struct Response<T> {
    pub command: u8,
    pub status: i8,
    pub body: T,
}

/// Why a response frame was refused.
#[derive(Debug, PartialEq, Eq, Structural, Clone, Copy)]
pub enum ProtocolError {
    /// The frame is shorter than its header and body, or, for a fixed-size
    /// response, of another length.
    BadLength,
    /// The command byte is not the request opcode plus one.
    WrongCommand(u8),
    /// The status byte is not 1.
    BadStatus(i8),
    /// A file chunk came for another offset than the one requested.
    OffsetMismatch,
    /// A directory entry came out of order.
    EntryOutOfOrder,
    /// A declared length differs from the number of bytes that follow it.
    LengthMismatch,
    /// The chunks received add up to more than the announced file length.
    Overrun,
}

/// A packed response body.
pub trait Body: Sized {
    /// The command byte that announces this body.
    spec fn spec_command() -> u8;

    /// Number of body bytes after the header.
    spec fn spec_size() -> nat;

    /// The body read from `frame[HEADER_LEN..HEADER_LEN + size]`.
    spec fn spec_parse(frame: Seq<u8>) -> Self;

    fn command() -> (r: u8)
        ensures
            r == Self::spec_command(),
    ;

    fn size() -> (r: usize)
        ensures
            r as nat == Self::spec_size(),
            r <= 64,
    ;

    fn parse(frame: &[u8]) -> (r: Self)
        requires
            frame@.len() >= HEADER_LEN + Self::spec_size(),
        ensures
            r == Self::spec_parse(frame@),
    ;
}

/// One directory entry as sent by the watch, followed by `path_len` bytes of name.
#[derive(Clone, Copy, Debug)]
pub struct RawDirEntry {
    pub path_len: u16,
    pub entry_number: u32,
    pub entry_count: u32,
    pub flags: u32,
    pub timestamp: u64,
    pub size: u32,
}

/// One chunk of a file being read, followed by `current_len` bytes of data.
#[derive(Clone, Copy, Debug)]
pub struct FileChunk {
    pub offset: u32,
    pub total_len: u32,
    pub current_len: u32,
}

/// The answer to a write-file start or chunk.
#[derive(Clone, Copy, Debug)]
pub struct WriteReceipt {
    pub offset: u32,
    pub timestamp: u64,
    pub remaining: u32,
}

/// The answer to a create-dir request.
#[derive(Clone, Copy, Debug)]
pub struct MkdirReceipt {
    pub timestamp: u64,
}

/// The answer to a move request: no body.
#[derive(Clone, Copy, Debug)]
pub struct MvReceipt;

/// The answer to a delete-file request: no body.
#[derive(Clone, Copy, Debug)]
pub struct RmReceipt;

impl Body for RawDirEntry {
    open spec fn spec_command() -> u8 {
        0x51
    }

    open spec fn spec_size() -> nat {
        26
    }

    open spec fn spec_parse(frame: Seq<u8>) -> Self {
        RawDirEntry {
            path_len: u16_at(frame, 2),
            entry_number: u32_at(frame, 4),
            entry_count: u32_at(frame, 8),
            flags: u32_at(frame, 12),
            timestamp: u64_at(frame, 16),
            size: u32_at(frame, 24),
        }
    }

    fn command() -> (r: u8) {
        0x51
    }

    fn size() -> (r: usize) {
        26
    }

    fn parse(frame: &[u8]) -> (r: Self) {
        RawDirEntry {
            path_len: read_u16(frame, 2),
            entry_number: read_u32(frame, 4),
            entry_count: read_u32(frame, 8),
            flags: read_u32(frame, 12),
            timestamp: read_u64(frame, 16),
            size: read_u32(frame, 24),
        }
    }
}

impl Body for FileChunk {
    open spec fn spec_command() -> u8 {
        0x11
    }

    open spec fn spec_size() -> nat {
        14
    }

    open spec fn spec_parse(frame: Seq<u8>) -> Self {
        FileChunk {
            offset: u32_at(frame, 4),
            total_len: u32_at(frame, 8),
            current_len: u32_at(frame, 12),
        }
    }

    fn command() -> (r: u8) {
        0x11
    }

    fn size() -> (r: usize) {
        14
    }

    fn parse(frame: &[u8]) -> (r: Self) {
        FileChunk {
            offset: read_u32(frame, 4),
            total_len: read_u32(frame, 8),
            current_len: read_u32(frame, 12),
        }
    }
}

impl Body for WriteReceipt {
    open spec fn spec_command() -> u8 {
        0x21
    }

    open spec fn spec_size() -> nat {
        18
    }

    open spec fn spec_parse(frame: Seq<u8>) -> Self {
        WriteReceipt {
            offset: u32_at(frame, 4),
            timestamp: u64_at(frame, 8),
            remaining: u32_at(frame, 16),
        }
    }

    fn command() -> (r: u8) {
        0x21
    }

    fn size() -> (r: usize) {
        18
    }

    fn parse(frame: &[u8]) -> (r: Self) {
        WriteReceipt {
            offset: read_u32(frame, 4),
            timestamp: read_u64(frame, 8),
            remaining: read_u32(frame, 16),
        }
    }
}

impl Body for MkdirReceipt {
    open spec fn spec_command() -> u8 {
        0x41
    }

    open spec fn spec_size() -> nat {
        14
    }

    open spec fn spec_parse(frame: Seq<u8>) -> Self {
        MkdirReceipt { timestamp: u64_at(frame, 8) }
    }

    fn command() -> (r: u8) {
        0x41
    }

    fn size() -> (r: usize) {
        14
    }

    fn parse(frame: &[u8]) -> (r: Self) {
        MkdirReceipt { timestamp: read_u64(frame, 8) }
    }
}

impl Body for MvReceipt {
    open spec fn spec_command() -> u8 {
        0x61
    }

    open spec fn spec_size() -> nat {
        0
    }

    open spec fn spec_parse(frame: Seq<u8>) -> Self {
        MvReceipt
    }

    fn command() -> (r: u8) {
        0x61
    }

    fn size() -> (r: usize) {
        0
    }

    fn parse(frame: &[u8]) -> (r: Self) {
        MvReceipt
    }
}

impl Body for RmReceipt {
    open spec fn spec_command() -> u8 {
        0x31
    }

    open spec fn spec_size() -> nat {
        0
    }

    open spec fn spec_parse(frame: Seq<u8>) -> Self {
        RmReceipt
    }

    fn command() -> (r: u8) {
        0x31
    }

    fn size() -> (r: usize) {
        0
    }

    fn parse(frame: &[u8]) -> (r: Self) {
        RmReceipt
    }
}

/// The first fault of a frame's header: fewer than two bytes, then a wrong
/// command byte, then a status other than 1, whose raw value is kept.
pub open spec fn status_fault<T: Body>(frame: Seq<u8>) -> Option<ProtocolError> {
    if frame.len() < HEADER_LEN {
        Some(ProtocolError::BadLength)
    } else if frame[0] != T::spec_command() {
        Some(ProtocolError::WrongCommand(frame[0]))
    } else if frame[1] != 1 {
        Some(ProtocolError::BadStatus(frame[1] as i8))
    } else {
        None
    }
}

/// The first fault of a frame that must hold at least a header and a `T` body:
/// a fault of its header, then a length too short for the body.
pub open spec fn header_fault<T: Body>(frame: Seq<u8>) -> Option<ProtocolError> {
    if status_fault::<T>(frame) is Some {
        status_fault::<T>(frame)
    } else if frame.len() < HEADER_LEN + T::spec_size() {
        Some(ProtocolError::BadLength)
    } else {
        None
    }
}

/// The first fault of a frame that must be exactly a header and a `T` body:
/// a fault of its header, then any other length.
pub open spec fn fixed_fault<T: Body>(frame: Seq<u8>) -> Option<ProtocolError> {
    if status_fault::<T>(frame) is Some {
        status_fault::<T>(frame)
    } else if frame.len() != HEADER_LEN + T::spec_size() {
        Some(ProtocolError::BadLength)
    } else {
        None
    }
}

/// The response that a well-formed frame holds.
pub open spec fn spec_response<T: Body>(frame: Seq<u8>) -> Response<T> {
    Response { command: frame[0], status: 1, body: T::spec_parse(frame) }
}

/// The bytes after a frame's header and `T` body.
pub open spec fn spec_payload<T: Body>(frame: Seq<u8>) -> Seq<u8> {
    frame.subrange(HEADER_LEN + T::spec_size(), frame.len() as int)
}

/// Decodes a frame that must be exactly a header and a `T` body.
pub fn recv<T: Body>(frame: &[u8]) -> (r: Result<Response<T>, ProtocolError>)
    ensures
        match r {
            Ok(resp) => fixed_fault::<T>(frame@) is None && resp == spec_response::<T>(frame@),
            Err(e) => fixed_fault::<T>(frame@) == Some(e),
        },
{
    check_status::<T>(frame)?;
    if frame.len() != HEADER_LEN + T::size() {
        return Err(ProtocolError::BadLength);
    }
    Ok(Response { command: frame[0], status: 1, body: T::parse(frame) })
}

/// Decodes a frame that holds a header, a `T` body and a payload of any length.
pub fn payload_recv<T: Body>(frame: &[u8]) -> (r: Result<(Response<T>, Vec<u8>), ProtocolError>)
    ensures
        match r {
            Ok((resp, payload)) => header_fault::<T>(frame@) is None && resp == spec_response::<T>(
                frame@,
            ) && payload@ == spec_payload::<T>(frame@),
            Err(e) => header_fault::<T>(frame@) == Some(e),
        },
{
    check_status::<T>(frame)?;
    if frame.len() < HEADER_LEN + T::size() {
        return Err(ProtocolError::BadLength);
    }
    let mut payload: Vec<u8> = Vec::new();
    push_range(&mut payload, frame, HEADER_LEN + T::size(), frame.len());
    assert(payload@ =~= spec_payload::<T>(frame@));
    Ok((Response { command: frame[0], status: 1, body: T::parse(frame) }, payload))
}

fn check_status<T: Body>(frame: &[u8]) -> (r: Result<(), ProtocolError>)
    ensures
        match r {
            Ok(()) => status_fault::<T>(frame@) is None,
            Err(e) => status_fault::<T>(frame@) == Some(e),
        },
{
    if frame.len() < HEADER_LEN {
        Err(ProtocolError::BadLength)
    } else if frame[0] != T::command() {
        Err(ProtocolError::WrongCommand(frame[0]))
    } else if frame[1] != 1 {
        Err(ProtocolError::BadStatus(frame[1] as i8))
    } else {
        Ok(())
    }
}

} // verus!
