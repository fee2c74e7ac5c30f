//! The request/response engine of one session: it holds the single command in
//! flight, refuses a second one, and routes each notification to it.
use vstd::prelude::*;

use crate::codec::{
    create_dir_frame, delete_frame, list_dir_frame, move_frame, read_continue_frame,
    read_start_frame, write_chunk_frame, write_start_frame, MAX_PATH_LEN,
};
use crate::responses::{fixed_fault, recv, MkdirReceipt, MvReceipt, ProtocolError, RmReceipt, WriteReceipt};
use crate::transfer::{
    chunk_at, chunk_end, create_dir_request, delete_request, list_step, move_request,
    read_transition, ArgumentError, DirEntry, ListDir, ReadFile, ReadStep, WriteFile, WriteStep,
};

verus! {

/// The command in flight, with its transfer state.
pub enum InFlight {
    Idle,
    List(ListDir),
    Read(ReadFile),
    Write(WriteFile),
    Delete,
    CreateDir,
    Move,
}

/// What a notification leads to.
pub enum Outcome {
    /// Send this frame; the command goes on.
    Send(Vec<u8>),
    /// Nothing to send; the command waits for the next notification.
    Wait,
    /// The listing is complete.
    Entries(Vec<DirEntry>),
    /// The whole file has been read.
    Contents(Vec<u8>),
    /// The command has completed.
    Complete,
}

/// Why the engine refused a command or a notification.
#[derive(Debug, PartialEq, Eq, Structural, Clone, Copy)]
pub enum EngineError {
    /// Another command is in flight.
    Busy,
    /// A notification came while no command was in flight.
    NothingPending,
    /// The notifications ended before the command in flight was complete.
    Disconnected,
    Argument(ArgumentError),
    Protocol(ProtocolError),
}

/// A session's engine.
pub struct Engine {
    pub pending: InFlight,
}

/// The fault of a single-receipt frame for the given command, if any.
pub open spec fn receipt_fault(pending: InFlight, frame: Seq<u8>) -> Option<ProtocolError> {
    match pending {
        InFlight::Delete => fixed_fault::<RmReceipt>(frame),
        InFlight::CreateDir => fixed_fault::<MkdirReceipt>(frame),
        _ => fixed_fault::<MvReceipt>(frame),
    }
}

impl Engine {
    pub open spec fn wf(&self) -> bool {
        match self.pending {
            InFlight::Read(r) => r.wf(),
            InFlight::Write(w) => w.wf(),
            _ => true,
        }
    }

    pub fn new() -> (e: Engine)
        ensures
            e.pending is Idle,
    {
        Engine { pending: InFlight::Idle }
    }

    pub fn is_idle(&self) -> (r: bool)
        ensures
            r == self.pending is Idle,
    {
        match self.pending {
            InFlight::Idle => true,
            _ => false,
        }
    }

    /// Begins listing `path`; the frame to send.
    pub fn list_dir(&mut self, path: &[u8]) -> (r: Result<Vec<u8>, EngineError>)
        requires
            old(self).wf(),
        ensures
            final(self).wf(),
            !(old(self).pending is Idle) ==> r == Err::<Vec<u8>, EngineError>(EngineError::Busy)
                && *final(self) == *old(self),
            old(self).pending is Idle ==> match r {
                Ok(req) => path@.len() <= MAX_PATH_LEN && req@ == list_dir_frame(path@)
                    && final(self).pending is List && final(self).pending->List_0.entries@.len()
                    == 0,
                Err(e) => path@.len() > MAX_PATH_LEN && e == EngineError::Argument(
                    ArgumentError::PathTooLong,
                ) && final(self).pending is Idle,
            },
    {
        if !self.is_idle() {
            return Err(EngineError::Busy);
        }
        match ListDir::start(path) {
            Ok((l, req)) => {
                self.pending = InFlight::List(l);
                Ok(req)
            },
            Err(e) => Err(EngineError::Argument(e)),
        }
    }

    /// Begins reading `path`; the frame to send.
    pub fn read_file(&mut self, path: &[u8]) -> (r: Result<Vec<u8>, EngineError>)
        requires
            old(self).wf(),
        ensures
            final(self).wf(),
            !(old(self).pending is Idle) ==> r == Err::<Vec<u8>, EngineError>(EngineError::Busy)
                && *final(self) == *old(self),
            old(self).pending is Idle ==> match r {
                Ok(req) => path@.len() <= MAX_PATH_LEN && req@ == read_start_frame(path@)
                    && final(self).pending is Read && final(self).pending->Read_0.contents@.len()
                    == 0,
                Err(e) => path@.len() > MAX_PATH_LEN && e == EngineError::Argument(
                    ArgumentError::PathTooLong,
                ) && final(self).pending is Idle,
            },
    {
        if !self.is_idle() {
            return Err(EngineError::Busy);
        }
        match ReadFile::start(path) {
            Ok((s, req)) => {
                self.pending = InFlight::Read(s);
                Ok(req)
            },
            Err(e) => Err(EngineError::Argument(e)),
        }
    }

    /// Begins writing `data` to `path`; the frame to send.
    pub fn write_file(&mut self, path: &[u8], data: Vec<u8>, timestamp: u64) -> (r: Result<
        Vec<u8>,
        EngineError,
    >)
        requires
            old(self).wf(),
        ensures
            final(self).wf(),
            !(old(self).pending is Idle) ==> r == Err::<Vec<u8>, EngineError>(EngineError::Busy)
                && *final(self) == *old(self),
            old(self).pending is Idle ==> match r {
                Ok(req) => path@.len() <= MAX_PATH_LEN && data@.len() <= u32::MAX && req@
                    == write_start_frame(path@, timestamp, data@.len() as u32)
                    && final(self).pending is Write && final(self).pending->Write_0.data@ == data@
                    && final(self).pending->Write_0.offset == 0,
                Err(e) => final(self).pending is Idle && if path@.len() > MAX_PATH_LEN {
                    e == EngineError::Argument(ArgumentError::PathTooLong)
                } else {
                    data@.len() > u32::MAX && e == EngineError::Argument(
                        ArgumentError::DataTooLong,
                    )
                },
            },
    {
        if !self.is_idle() {
            return Err(EngineError::Busy);
        }
        match WriteFile::start(path, data, timestamp) {
            Ok((w, req)) => {
                self.pending = InFlight::Write(w);
                Ok(req)
            },
            Err(e) => Err(EngineError::Argument(e)),
        }
    }

    /// Begins deleting `path`; the frame to send.
    pub fn delete_file(&mut self, path: &[u8]) -> (r: Result<Vec<u8>, EngineError>)
        requires
            old(self).wf(),
        ensures
            final(self).wf(),
            !(old(self).pending is Idle) ==> r == Err::<Vec<u8>, EngineError>(EngineError::Busy)
                && *final(self) == *old(self),
            old(self).pending is Idle ==> match r {
                Ok(req) => path@.len() <= MAX_PATH_LEN && req@ == delete_frame(path@)
                    && final(self).pending is Delete,
                Err(e) => path@.len() > MAX_PATH_LEN && e == EngineError::Argument(
                    ArgumentError::PathTooLong,
                ) && final(self).pending is Idle,
            },
    {
        if !self.is_idle() {
            return Err(EngineError::Busy);
        }
        match delete_request(path) {
            Ok(req) => {
                self.pending = InFlight::Delete;
                Ok(req)
            },
            Err(e) => Err(EngineError::Argument(e)),
        }
    }

    /// Begins creating the directory `path`; the frame to send.
    pub fn create_dir(&mut self, path: &[u8], timestamp: u64) -> (r: Result<Vec<u8>, EngineError>)
        requires
            old(self).wf(),
        ensures
            final(self).wf(),
            !(old(self).pending is Idle) ==> r == Err::<Vec<u8>, EngineError>(EngineError::Busy)
                && *final(self) == *old(self),
            old(self).pending is Idle ==> match r {
                Ok(req) => path@.len() <= MAX_PATH_LEN && req@ == create_dir_frame(path@, timestamp)
                    && final(self).pending is CreateDir,
                Err(e) => path@.len() > MAX_PATH_LEN && e == EngineError::Argument(
                    ArgumentError::PathTooLong,
                ) && final(self).pending is Idle,
            },
    {
        if !self.is_idle() {
            return Err(EngineError::Busy);
        }
        match create_dir_request(path, timestamp) {
            Ok(req) => {
                self.pending = InFlight::CreateDir;
                Ok(req)
            },
            Err(e) => Err(EngineError::Argument(e)),
        }
    }

    /// Begins moving `from` to `to`; the frame to send.
    pub fn move_file(&mut self, from: &[u8], to: &[u8]) -> (r: Result<Vec<u8>, EngineError>)
        requires
            old(self).wf(),
        ensures
            final(self).wf(),
            !(old(self).pending is Idle) ==> r == Err::<Vec<u8>, EngineError>(EngineError::Busy)
                && *final(self) == *old(self),
            old(self).pending is Idle ==> match r {
                Ok(req) => from@.len() <= MAX_PATH_LEN && to@.len() <= MAX_PATH_LEN && req@
                    == move_frame(from@, to@) && final(self).pending is Move,
                Err(e) => (from@.len() > MAX_PATH_LEN || to@.len() > MAX_PATH_LEN) && e
                    == EngineError::Argument(ArgumentError::PathTooLong)
                    && final(self).pending is Idle,
            },
    {
        if !self.is_idle() {
            return Err(EngineError::Busy);
        }
        match move_request(from, to) {
            Ok(req) => {
                self.pending = InFlight::Move;
                Ok(req)
            },
            Err(e) => Err(EngineError::Argument(e)),
        }
    }

    /// Gives up the command in flight and hands back its state, leaving the
    /// engine idle.
    pub fn cancel(&mut self) -> (r: InFlight)
        requires
            old(self).wf(),
        ensures
            r == old(self).pending,
            final(self).pending is Idle,
            final(self).wf(),
    {
        let mut pending = InFlight::Idle;
        std::mem::swap(&mut self.pending, &mut pending);
        pending
    }

    /// Ends the command in flight because no more notifications will come. A
    /// listing ends with the entries received so far; any other command fails.
    pub fn on_stream_end(&mut self) -> (r: Result<Outcome, EngineError>)
        requires
            old(self).wf(),
        ensures
            final(self).wf(),
            final(self).pending is Idle,
            match old(self).pending {
                InFlight::Idle => r == Err::<Outcome, EngineError>(EngineError::NothingPending),
                InFlight::List(l) => match r {
                    Ok(Outcome::Entries(es)) => es@ == l.entries@,
                    _ => false,
                },
                _ => r == Err::<Outcome, EngineError>(EngineError::Disconnected),
            },
    {
        match self.cancel() {
            InFlight::Idle => Err(EngineError::NothingPending),
            InFlight::List(l) => Ok(Outcome::Entries(l.entries)),
            _ => Err(EngineError::Disconnected),
        }
    }

    /// Hands the next notification to the command in flight. A command that
    /// completes or fails leaves the engine idle.
    pub fn on_notification(&mut self, frame: &[u8]) -> (r: Result<Outcome, EngineError>)
        requires
            old(self).wf(),
        ensures
            final(self).wf(),
            match old(self).pending {
                InFlight::Idle => r == Err::<Outcome, EngineError>(EngineError::NothingPending)
                    && final(self).pending is Idle,
                InFlight::List(l) => match r {
                    Ok(Outcome::Wait) => final(self).pending is List && list_step(
                        l.entries@,
                        frame@,
                        final(self).pending->List_0.entries@,
                        Ok(false),
                    ),
                    Ok(Outcome::Entries(es)) => final(self).pending is Idle && list_step(
                        l.entries@,
                        frame@,
                        es@,
                        Ok(true),
                    ),
                    Err(EngineError::Protocol(e)) => final(self).pending is Idle && list_step(
                        l.entries@,
                        frame@,
                        l.entries@,
                        Err(e),
                    ),
                    _ => false,
                },
                InFlight::Read(s) => match r {
                    Ok(Outcome::Send(req)) => final(self).pending is Read && read_transition(
                        s.contents@,
                        frame@,
                    ) == Ok::<(Seq<u8>, bool), ProtocolError>(
                        (final(self).pending->Read_0.contents@, false),
                    ) && req@ == read_continue_frame(final(self).pending->Read_0.offset),
                    Ok(Outcome::Contents(c)) => final(self).pending is Idle && read_transition(
                        s.contents@,
                        frame@,
                    ) == Ok::<(Seq<u8>, bool), ProtocolError>((c@, true)),
                    Err(EngineError::Protocol(e)) => final(self).pending is Idle
                        && read_transition(s.contents@, frame@) == Err::<
                        (Seq<u8>, bool),
                        ProtocolError,
                    >(e),
                    _ => false,
                },
                InFlight::Write(w) => match r {
                    Ok(Outcome::Send(req)) => {
                        &&& fixed_fault::<WriteReceipt>(frame@) is None
                        &&& w.offset < w.data@.len()
                        &&& req@ == write_chunk_frame(w.offset, chunk_at(w.data@, w.offset as nat))
                        &&& final(self).pending is Write
                        &&& final(self).pending->Write_0.data@ == w.data@
                        &&& final(self).pending->Write_0.offset == chunk_end(
                            w.data@.len(),
                            w.offset as nat,
                        )
                    },
                    Ok(Outcome::Complete) => fixed_fault::<WriteReceipt>(frame@) is None
                        && w.offset == w.data@.len() && final(self).pending is Idle,
                    Err(EngineError::Protocol(e)) => fixed_fault::<WriteReceipt>(frame@) == Some(
                        e,
                    ) && final(self).pending is Idle,
                    _ => false,
                },
                _ => final(self).pending is Idle && match r {
                    Ok(Outcome::Complete) => receipt_fault(old(self).pending, frame@) is None,
                    Err(EngineError::Protocol(e)) => receipt_fault(old(self).pending, frame@)
                        == Some(e),
                    _ => false,
                },
            },
    {
        let mut pending = InFlight::Idle;
        std::mem::swap(&mut self.pending, &mut pending);
        match pending {
            InFlight::Idle => Err(EngineError::NothingPending),
            InFlight::List(mut l) => match l.on_frame(frame) {
                Ok(true) => Ok(Outcome::Entries(l.entries)),
                Ok(false) => {
                    self.pending = InFlight::List(l);
                    Ok(Outcome::Wait)
                },
                Err(e) => Err(EngineError::Protocol(e)),
            },
            InFlight::Read(mut s) => match s.on_frame(frame) {
                Ok(ReadStep::Request(req)) => {
                    self.pending = InFlight::Read(s);
                    Ok(Outcome::Send(req))
                },
                Ok(ReadStep::Done) => Ok(Outcome::Contents(s.into_contents())),
                Err(e) => Err(EngineError::Protocol(e)),
            },
            InFlight::Write(mut w) => match w.on_receipt(frame) {
                Ok(WriteStep::Request(req)) => {
                    self.pending = InFlight::Write(w);
                    Ok(Outcome::Send(req))
                },
                Ok(WriteStep::Done) => Ok(Outcome::Complete),
                Err(e) => Err(EngineError::Protocol(e)),
            },
            InFlight::Delete => match recv::<RmReceipt>(frame) {
                Ok(_) => Ok(Outcome::Complete),
                Err(e) => Err(EngineError::Protocol(e)),
            },
            InFlight::CreateDir => match recv::<MkdirReceipt>(frame) {
                Ok(_) => Ok(Outcome::Complete),
                Err(e) => Err(EngineError::Protocol(e)),
            },
            InFlight::Move => match recv::<MvReceipt>(frame) {
                Ok(_) => Ok(Outcome::Complete),
                Err(e) => Err(EngineError::Protocol(e)),
            },
        }
    }
}

} // verus!
