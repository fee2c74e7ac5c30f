//! The per-operation state machines. Each one turns the next notification from
//! the watch into the next request to send, or into the end of the operation.
//! The caller sends the requests and hands over the notifications, in order.
use vstd::prelude::*;

use crate::codec::{
    create_dir_frame, delete_frame, encode_create_dir, encode_delete, encode_list_dir,
    encode_move, encode_read_continue, encode_read_start, encode_write_chunk, encode_write_start,
    list_dir_frame, move_frame, read_continue_frame, read_start_frame, u32_at, write_chunk_frame,
    write_start_frame, MAX_PATH_LEN, MAX_PAYLOAD,
};
use crate::responses::{
    fixed_fault, header_fault, payload_recv, recv, spec_payload, Body, FileChunk, ProtocolError, RawDirEntry,
    WriteReceipt,
};

verus! {

/// Why a request could not be framed.
#[derive(Debug, PartialEq, Eq, Structural, Clone, Copy)]
pub enum ArgumentError {
    /// A path is longer than its 16-bit length field can say.
    PathTooLong,
    /// The file is longer than its 32-bit length field can say.
    DataTooLong,
}

/// A point in time, as nanoseconds since the Unix epoch.
pub trait Timestamp {
    spec fn spec_nanos(&self) -> u64;

    fn to_u64(&self) -> (r: u64)
        ensures
            r == self.spec_nanos(),
    ;
}

impl Timestamp for u64 {
    open spec fn spec_nanos(&self) -> u64 {
        *self
    }

    fn to_u64(&self) -> (r: u64) {
        *self
    }
}

/// A directory entry as the client reports it.
#[derive(Debug)]
pub struct DirEntry {
    pub flags: u32,
    pub timestamp: u64,
    pub size: u32,
    pub path: String,
}

/// The text of an entry name: the bytes decoded as UTF-8, each invalid
/// sequence replaced by U+FFFD.
pub uninterp spec fn utf8_lossy(b: Seq<u8>) -> Seq<char>;

/// Relies on `String::from_utf8_lossy`: the text depends on the bytes alone.
#[verifier::external_body]
fn decode_name(b: &[u8]) -> (r: String)
    ensures
        r@ == utf8_lossy(b@),
{
    String::from_utf8_lossy(b).into_owned()
}

/// Byte `i` of `b`, or zero past its end.
pub open spec fn byte_or_zero(b: Seq<u8>, i: int) -> u8 {
    if i < b.len() {
        b[i]
    } else {
        0
    }
}

/// The protocol version held by the version characteristic: its first four
/// bytes, padded with zeros, as a little-endian integer.
pub open spec fn spec_version(b: Seq<u8>) -> u32 {
    u32_at(
        seq![byte_or_zero(b, 0), byte_or_zero(b, 1), byte_or_zero(b, 2), byte_or_zero(b, 3)],
        0,
    )
}

/// Reads the protocol version out of the version characteristic's value.
pub fn version_from_bytes(b: &[u8]) -> (r: u32)
    ensures
        r == spec_version(b@),
{
    let mut four: Vec<u8> = Vec::new();
    let mut i: usize = 0;
    while i < 4
        invariant
            i <= 4,
            four@.len() == i,
            forall|j: int| 0 <= j < i ==> four@[j] == byte_or_zero(b@, j),
        decreases 4 - i,
    {
        if i < b.len() {
            four.push(b[i]);
        } else {
            four.push(0);
        }
        i = i + 1;
    }
    assert(four@ =~= seq![
        byte_or_zero(b@, 0),
        byte_or_zero(b@, 1),
        byte_or_zero(b@, 2),
        byte_or_zero(b@, 3),
    ]);
    crate::codec::read_u32(four.as_slice(), 0)
}

/// Builds the delete-file request for `path`.
pub fn delete_request(path: &[u8]) -> (r: Result<Vec<u8>, ArgumentError>)
    ensures
        match r {
            Ok(req) => path@.len() <= MAX_PATH_LEN && req@ == delete_frame(path@),
            Err(e) => path@.len() > MAX_PATH_LEN && e == ArgumentError::PathTooLong,
        },
{
    if path.len() > MAX_PATH_LEN {
        return Err(ArgumentError::PathTooLong);
    }
    Ok(encode_delete(path))
}

/// Builds the create-dir request for `path`.
pub fn create_dir_request(path: &[u8], timestamp: u64) -> (r: Result<Vec<u8>, ArgumentError>)
    ensures
        match r {
            Ok(req) => path@.len() <= MAX_PATH_LEN && req@ == create_dir_frame(path@, timestamp),
            Err(e) => path@.len() > MAX_PATH_LEN && e == ArgumentError::PathTooLong,
        },
{
    if path.len() > MAX_PATH_LEN {
        return Err(ArgumentError::PathTooLong);
    }
    Ok(encode_create_dir(path, timestamp))
}

/// Builds the move request from `from` to `to`.
pub fn move_request(from: &[u8], to: &[u8]) -> (r: Result<Vec<u8>, ArgumentError>)
    ensures
        match r {
            Ok(req) => from@.len() <= MAX_PATH_LEN && to@.len() <= MAX_PATH_LEN && req@
                == move_frame(from@, to@),
            Err(e) => (from@.len() > MAX_PATH_LEN || to@.len() > MAX_PATH_LEN) && e
                == ArgumentError::PathTooLong,
        },
{
    if from.len() > MAX_PATH_LEN || to.len() > MAX_PATH_LEN {
        return Err(ArgumentError::PathTooLong);
    }
    Ok(encode_move(from, to))
}

// ---------------------------------------------------------------- list_dir

/// A directory listing in progress.
pub struct ListDir {
    pub entries: Vec<DirEntry>,
}

/// The first fault of a directory entry frame, given how many entries came before.
pub open spec fn list_fault(received: nat, frame: Seq<u8>) -> Option<ProtocolError> {
    if header_fault::<RawDirEntry>(frame) is Some {
        header_fault::<RawDirEntry>(frame)
    } else if RawDirEntry::spec_parse(frame).entry_number != received {
        Some(ProtocolError::EntryOutOfOrder)
    } else if RawDirEntry::spec_parse(frame).path_len != spec_payload::<RawDirEntry>(frame).len() {
        Some(ProtocolError::LengthMismatch)
    } else {
        None
    }
}

/// The end marker of an empty directory, which adds no entry.
pub open spec fn is_empty_marker(raw: RawDirEntry) -> bool {
    raw.entry_number == 0 && raw.entry_count == 0 && raw.path_len == 0
}

/// The entry that a directory entry record and its name make.
pub open spec fn entry_of(raw: RawDirEntry, name: Seq<char>, e: DirEntry) -> bool {
    e.flags == raw.flags && e.timestamp == raw.timestamp && e.size == raw.size && e.path@ == name
}

/// How one notification takes a listing from the entries `before` to the
/// entries `after`, with `r` saying whether the listing is complete.
pub open spec fn list_step(
    before: Seq<DirEntry>,
    frame: Seq<u8>,
    after: Seq<DirEntry>,
    r: Result<bool, ProtocolError>,
) -> bool {
    match r {
        Err(e) => list_fault(before.len(), frame) == Some(e) && after == before,
        Ok(done) => {
            let raw = RawDirEntry::spec_parse(frame);
            let name = utf8_lossy(spec_payload::<RawDirEntry>(frame));
            &&& list_fault(before.len(), frame) is None
            &&& done == (raw.entry_number == raw.entry_count)
            &&& is_empty_marker(raw) ==> after == before
            &&& !is_empty_marker(raw) ==> after.len() == before.len() + 1 && after.take(
                before.len() as int,
            ) == before && entry_of(raw, name, after.last())
        },
    }
}

impl ListDir {
    /// Starts listing `path`: the listing and the request to send.
    pub fn start(path: &[u8]) -> (r: Result<(ListDir, Vec<u8>), ArgumentError>)
        ensures
            match r {
                Ok((l, req)) => path@.len() <= MAX_PATH_LEN && l.entries@.len() == 0 && req@
                    == list_dir_frame(path@),
                Err(e) => path@.len() > MAX_PATH_LEN && e == ArgumentError::PathTooLong,
            },
    {
        if path.len() > MAX_PATH_LEN {
            return Err(ArgumentError::PathTooLong);
        }
        Ok((ListDir { entries: Vec::new() }, encode_list_dir(path)))
    }

    /// Records one checked entry record with its decoded name, and says whether
    /// it was the last one.
    pub fn push_entry(&mut self, raw: &RawDirEntry, name: String) -> (done: bool)
        ensures
            done == (raw.entry_number == raw.entry_count),
            is_empty_marker(*raw) ==> final(self).entries@ == old(self).entries@,
            !is_empty_marker(*raw) ==> final(self).entries@.len() == old(self).entries@.len() + 1
                && final(self).entries@.take(old(self).entries@.len() as int)
                == old(self).entries@ && entry_of(
                *raw,
                name@,
                final(self).entries@.last(),
            ),
    {
        let done = raw.entry_number == raw.entry_count;
        if !(raw.entry_number == 0 && raw.entry_count == 0 && raw.path_len == 0) {
            self.entries.push(
                DirEntry { flags: raw.flags, timestamp: raw.timestamp, size: raw.size, path: name },
            );
            assert(self.entries@.take(old(self).entries@.len() as int) =~= old(self).entries@);
        }
        done
    }

    /// Takes the next notification. Entries must come numbered from zero on,
    /// each with a name of the announced length; the listing ends with the
    /// entry whose number equals the entry count.
    pub fn on_frame(&mut self, frame: &[u8]) -> (r: Result<bool, ProtocolError>)
        ensures
            list_step(old(self).entries@, frame@, final(self).entries@, r),
    {
        let (resp, payload) = payload_recv::<RawDirEntry>(frame)?;
        if resp.body.entry_number as usize != self.entries.len() {
            return Err(ProtocolError::EntryOutOfOrder);
        }
        if resp.body.path_len as usize != payload.len() {
            return Err(ProtocolError::LengthMismatch);
        }
        let name = decode_name(payload.as_slice());
        Ok(self.push_entry(&resp.body, name))
    }
}

// ---------------------------------------------------------------- read_file

/// A file read in progress: the bytes received so far, and the offset of the
/// next chunk, which is their number.
pub struct ReadFile {
    pub offset: u32,
    pub contents: Vec<u8>,
}

/// What to do after a file chunk was taken.
pub enum ReadStep {
    /// Send this continuation request.
    Request(Vec<u8>),
    /// The whole file has come.
    Done,
}

/// The outcome of a file chunk frame for a read that has `contents` so far:
/// the new contents and whether the read is complete, or the first fault.
pub open spec fn read_transition(contents: Seq<u8>, frame: Seq<u8>) -> Result<
    (Seq<u8>, bool),
    ProtocolError,
> {
    let chunk = FileChunk::spec_parse(frame);
    let payload = spec_payload::<FileChunk>(frame);
    if header_fault::<FileChunk>(frame) is Some {
        Err(header_fault::<FileChunk>(frame)->Some_0)
    } else if chunk.offset != contents.len() {
        Err(ProtocolError::OffsetMismatch)
    } else if chunk.current_len != payload.len() {
        Err(ProtocolError::LengthMismatch)
    } else if contents.len() + payload.len() > chunk.total_len {
        Err(ProtocolError::Overrun)
    } else {
        Ok((contents + payload, contents.len() + payload.len() == chunk.total_len))
    }
}

impl ReadFile {
    pub open spec fn wf(&self) -> bool {
        self.offset == self.contents@.len()
    }

    /// Starts reading `path`: the read and the request to send.
    pub fn start(path: &[u8]) -> (r: Result<(ReadFile, Vec<u8>), ArgumentError>)
        ensures
            match r {
                Ok((s, req)) => path@.len() <= MAX_PATH_LEN && s.wf() && s.contents@.len() == 0
                    && req@ == read_start_frame(path@),
                Err(e) => path@.len() > MAX_PATH_LEN && e == ArgumentError::PathTooLong,
            },
    {
        if path.len() > MAX_PATH_LEN {
            return Err(ArgumentError::PathTooLong);
        }
        Ok((ReadFile { offset: 0, contents: Vec::new() }, encode_read_start(path)))
    }

    /// Takes the next notification: a chunk at the current offset whose data
    /// has the announced length. The read is complete when the bytes received
    /// add up to the announced total; until then each chunk is answered by a
    /// request for up to `MAX_PAYLOAD` more bytes at the new offset.
    pub fn on_frame(&mut self, frame: &[u8]) -> (r: Result<ReadStep, ProtocolError>)
        requires
            old(self).wf(),
        ensures
            final(self).wf(),
            match (r, read_transition(old(self).contents@, frame@)) {
                (Err(e), Err(f)) => e == f && *final(self) == *old(self),
                (Ok(ReadStep::Done), Ok((c, done))) => done && final(self).contents@ == c,
                (Ok(ReadStep::Request(req)), Ok((c, done))) => !done && final(self).contents@ == c
                    && req@ == read_continue_frame(final(self).offset),
                _ => false,
            },
    {
        let (resp, payload) = match payload_recv::<FileChunk>(frame) {
            Ok(x) => x,
            Err(e) => return Err(e),
        };
        if resp.body.offset != self.offset {
            return Err(ProtocolError::OffsetMismatch);
        }
        if resp.body.current_len as usize != payload.len() {
            return Err(ProtocolError::LengthMismatch);
        }
        if self.offset > resp.body.total_len
            || resp.body.current_len > resp.body.total_len - self.offset {
            return Err(ProtocolError::Overrun);
        }
        crate::codec::push_all(&mut self.contents, payload.as_slice());
        self.offset = self.offset + resp.body.current_len;
        if self.offset == resp.body.total_len {
            Ok(ReadStep::Done)
        } else {
            Ok(ReadStep::Request(encode_read_continue(self.offset)))
        }
    }

    /// The bytes received.
    pub fn into_contents(self) -> (r: Vec<u8>)
        ensures
            r@ == self.contents@,
    {
        self.contents
    }
}

// ---------------------------------------------------------------- write_file

/// A file write in progress: the data, and the offset of the next chunk.
pub struct WriteFile {
    pub data: Vec<u8>,
    pub offset: u32,
}

/// What to do after a write receipt was taken.
pub enum WriteStep {
    /// Send this chunk request.
    Request(Vec<u8>),
    /// All the data has been sent.
    Done,
}

/// Where the chunk that starts at `offset` ends: at most `MAX_PAYLOAD` bytes on.
pub open spec fn chunk_end(len: nat, offset: nat) -> nat {
    if offset + MAX_PAYLOAD < len {
        (offset + MAX_PAYLOAD) as nat
    } else {
        len
    }
}

/// The data bytes sent in the chunk that starts at `offset`.
pub open spec fn chunk_at(data: Seq<u8>, offset: nat) -> Seq<u8> {
    data.subrange(offset as int, chunk_end(data.len(), offset) as int)
}

impl WriteFile {
    pub open spec fn wf(&self) -> bool {
        self.offset <= self.data@.len() <= u32::MAX
    }

    /// Starts writing `data` to `path`: the write and the request to send.
    pub fn start(path: &[u8], data: Vec<u8>, timestamp: u64) -> (r: Result<
        (WriteFile, Vec<u8>),
        ArgumentError,
    >)
        ensures
            match r {
                Ok((w, req)) => path@.len() <= MAX_PATH_LEN && data@.len() <= u32::MAX && w.wf()
                    && w.offset == 0 && w.data@ == data@ && req@ == write_start_frame(
                    path@,
                    timestamp,
                    data@.len() as u32,
                ),
                Err(e) => if path@.len() > MAX_PATH_LEN {
                    e == ArgumentError::PathTooLong
                } else {
                    data@.len() > u32::MAX && e == ArgumentError::DataTooLong
                },
            },
    {
        if path.len() > MAX_PATH_LEN {
            return Err(ArgumentError::PathTooLong);
        }
        if data.len() > u32::MAX as usize {
            return Err(ArgumentError::DataTooLong);
        }
        let req = encode_write_start(path, timestamp, data.len() as u32);
        Ok((WriteFile { data, offset: 0 }, req))
    }

    /// Takes the next notification, a write receipt. The offset it echoes is
    /// not compared with the client's. The answer is the chunk of up to
    /// `MAX_PAYLOAD` bytes at the current offset, or the end once all the data
    /// has gone.
    pub fn on_receipt(&mut self, frame: &[u8]) -> (r: Result<WriteStep, ProtocolError>)
        requires
            old(self).wf(),
        ensures
            final(self).wf(),
            final(self).data@ == old(self).data@,
            match r {
                Err(e) => fixed_fault::<WriteReceipt>(frame@) == Some(e) && final(self).offset
                    == old(self).offset,
                Ok(WriteStep::Done) => fixed_fault::<WriteReceipt>(frame@) is None
                    && old(self).offset == old(self).data@.len() && final(self).offset
                    == old(self).offset,
                Ok(WriteStep::Request(req)) => {
                    let chunk = chunk_at(old(self).data@, old(self).offset as nat);
                    &&& fixed_fault::<WriteReceipt>(frame@) is None
                    &&& old(self).offset < old(self).data@.len()
                    &&& req@ == write_chunk_frame(old(self).offset, chunk)
                    &&& 0 < chunk.len() <= MAX_PAYLOAD
                    &&& final(self).offset == chunk_end(
                        old(self).data@.len(),
                        old(self).offset as nat,
                    )
                },
            },
    {
        match recv::<WriteReceipt>(frame) {
            Ok(_) => {},
            Err(e) => return Err(e),
        }
        let len = self.data.len() as u32;
        if self.offset == len {
            return Ok(WriteStep::Done);
        }
        let end: u32 = if len - self.offset > MAX_PAYLOAD {
            self.offset + MAX_PAYLOAD
        } else {
            len
        };
        let req = encode_write_chunk(self.data.as_slice(), self.offset, end);
        self.offset = end;
        Ok(WriteStep::Request(req))
    }
}

} // verus!
