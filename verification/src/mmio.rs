//! Mapped register windows, one access at a time.

use crate::status::STATUS_OK;
use vstd::prelude::*;

verus! {

/// Why a mapping or an access was refused.
#[derive(Clone, Copy, Debug, PartialEq, Eq, Structural)]
pub struct MmioAccessError {
    pub code: i32,
}

/// Why a mapped access gave nothing.
#[derive(Clone, Copy, Debug, PartialEq, Eq, Structural)]
pub enum MmioFault {
    Access(MmioAccessError),
    Unmap(i32),
}

/// One access to a register.
#[derive(Clone, Copy, Debug, PartialEq, Eq, Structural)]
pub enum RegisterAccess {
    Read8,
    Write8(u8),
    Read32,
    Write32(u32),
}

impl RegisterAccess {
    #[verifier::allow_in_spec]
    pub fn length(self) -> usize
        returns
            (match self {
                RegisterAccess::Read8 => 1usize,
                RegisterAccess::Write8(_) => 1usize,
                RegisterAccess::Read32 => 4usize,
                RegisterAccess::Write32(_) => 4usize,
            }),
    {
        match self {
            RegisterAccess::Read8 | RegisterAccess::Write8(_) => 1,
            RegisterAccess::Read32 | RegisterAccess::Write32(_) => 4,
        }
    }
}

/// One window at a time onto device memory.
pub trait RegisterWindow {
    /// All that the window was asked and answered.
    open spec fn history(&self) -> Seq<MmioEvent> {
        arbitrary()
    }

    fn map(&mut self, physical: u64, length: usize) -> (reply: Result<(), MmioAccessError>)
        ensures
            final(self).history() == old(self).history().push(
                MmioEvent::Open { physical, length, mapped: crate::trace::refusal(reply) },
            ),
    ;

    fn read_u32(&mut self, offset: usize) -> (reply: Result<u32, MmioAccessError>)
        ensures
            final(self).history() == old(self).history().push(MmioEvent::Read { offset, reply }),
    ;

    /// Performs an access at the start of the window. A write answers zero.
    fn access(&mut self, access: RegisterAccess) -> (reply: Result<u32, MmioAccessError>)
        ensures
            final(self).history() == old(self).history().push(
                MmioEvent::Access { access, reply },
            ),
    ;

    fn close(&mut self) -> (status: i32)
        ensures
            final(self).history() == old(self).history().push(MmioEvent::Close(status)),
    ;
}

/// A window that is lent.
impl<W: RegisterWindow> RegisterWindow for &mut W {
    open spec fn history(&self) -> Seq<MmioEvent> {
        (**self).history()
    }

    fn map(&mut self, physical: u64, length: usize) -> (reply: Result<(), MmioAccessError>) {
        (**self).map(physical, length)
    }

    fn read_u32(&mut self, offset: usize) -> (reply: Result<u32, MmioAccessError>) {
        (**self).read_u32(offset)
    }

    fn access(&mut self, access: RegisterAccess) -> (reply: Result<u32, MmioAccessError>) {
        (**self).access(access)
    }

    fn close(&mut self) -> (status: i32) {
        (**self).close()
    }
}

/// One exchange with a window.
pub enum MmioEvent {
    Open { physical: u64, length: usize, mapped: Option<MmioAccessError> },
    Read { offset: usize, reply: Result<u32, MmioAccessError> },
    Access { access: RegisterAccess, reply: Result<u32, MmioAccessError> },
    Close(i32),
}

/// A window in use. Its transcript is the history of the window.
pub struct MmioTrace<W> {
    pub window: W,
}

/// What a mapping was refused for at a place of the transcript.
pub open spec fn map_at(log: Seq<MmioEvent>, at: int, physical: u64, length: usize) -> Option<
    Option<MmioAccessError>,
> {
    if 0 <= at < log.len() {
        match log[at] {
            MmioEvent::Open { physical: base, length: bytes, mapped } => if base == physical
                && bytes == length {
                Some(mapped)
            } else {
                None
            },
            _ => None,
        }
    } else {
        None
    }
}

/// What a read gave at a place of the transcript.
pub open spec fn read_at(log: Seq<MmioEvent>, at: int, offset: usize) -> Option<
    Result<u32, MmioAccessError>,
> {
    if 0 <= at < log.len() {
        match log[at] {
            MmioEvent::Read { offset: from, reply } => if from == offset {
                Some(reply)
            } else {
                None
            },
            _ => None,
        }
    } else {
        None
    }
}

/// What an access gave at a place of the transcript.
pub open spec fn access_at(log: Seq<MmioEvent>, at: int, access: RegisterAccess) -> Option<
    Result<u32, MmioAccessError>,
> {
    if 0 <= at < log.len() {
        match log[at] {
            MmioEvent::Access { access: made, reply } => if made == access {
                Some(reply)
            } else {
                None
            },
            _ => None,
        }
    } else {
        None
    }
}

/// What closing gave at a place of the transcript.
pub open spec fn close_at(log: Seq<MmioEvent>, at: int) -> Option<i32> {
    if 0 <= at < log.len() {
        match log[at] {
            MmioEvent::Close(status) => Some(status),
            _ => None,
        }
    } else {
        None
    }
}

/// A result stands only once its window closed cleanly.
#[verifier::allow_in_spec]
pub fn closed_word(result: Result<u32, MmioAccessError>, status: i32) -> Result<u32, MmioFault>
    returns
        (if status != STATUS_OK {
            Err(MmioFault::Unmap(status))
        } else {
            match result {
                Ok(word) => Ok::<u32, MmioFault>(word),
                Err(error) => Err(MmioFault::Access(error)),
            }
        }),
{
    if status != STATUS_OK {
        return Err(MmioFault::Unmap(status));
    }
    match result {
        Ok(word) => Ok(word),
        Err(error) => Err(MmioFault::Access(error)),
    }
}

/// One access through a window of its own, by the transcript.
pub open spec fn access_run(
    physical: u64,
    access: RegisterAccess,
    log: Seq<MmioEvent>,
    at: int,
) -> Option<(Result<u32, MmioFault>, int)> {
    match map_at(log, at, physical, access.length()) {
        None => None,
        Some(Some(error)) => Some((Err(MmioFault::Access(error)), at + 1)),
        Some(None) => match (access_at(log, at + 1, access), close_at(log, at + 2)) {
            (Some(reply), Some(status)) => Some((closed_word(reply, status), at + 3)),
            _ => None,
        },
    }
}

impl<W: RegisterWindow> MmioTrace<W> {
    pub open spec fn log(&self) -> Seq<MmioEvent> {
        self.window.history()
    }

    pub fn new(window: W) -> (trace: Self)
        ensures
            trace.window == window,
    {
        MmioTrace { window }
    }

    pub fn map(&mut self, physical: u64, length: usize) -> (mapped: Option<MmioAccessError>)
        ensures
            final(self).log() == old(self).log().push(MmioEvent::Open { physical, length, mapped }),
    {
        let mapped = match self.window.map(physical, length) {
            Ok(()) => None,
            Err(error) => Some(error),
        };
        mapped
    }

    pub fn read_u32(&mut self, offset: usize) -> (reply: Result<u32, MmioAccessError>)
        ensures
            final(self).log() == old(self).log().push(MmioEvent::Read { offset, reply }),
    {
        let reply = self.window.read_u32(offset);
        reply
    }

    pub fn close(&mut self) -> (status: i32)
        ensures
            final(self).log() == old(self).log().push(MmioEvent::Close(status)),
    {
        let status: i32 = self.window.close();
        status
    }

    pub fn access(&mut self, access: RegisterAccess) -> (reply: Result<u32, MmioAccessError>)
        ensures
            final(self).log() == old(self).log().push(MmioEvent::Access { access, reply }),
    {
        let reply = self.window.access(access);
        reply
    }

    /// Maps one register, performs the access and closes the window again.
    pub fn with_window(&mut self, physical: u64, access: RegisterAccess) -> (result: Result<
        u32,
        MmioFault,
    >)
        ensures
            crate::trace::continues(final(self).log(), old(self).log()),
            forall|log: Seq<MmioEvent>| #[trigger]
                crate::trace::continues(log, final(self).log()) ==> access_run(
                    physical,
                    access,
                    log,
                    old(self).log().len() as int,
                ) == Some((result, final(self).log().len() as int)),
    {
        let ghost start = self.log().len() as int;
        match self.map(physical, access.length()) {
            Some(error) => {
                assert(self.log()[start] is Open);
                Err(MmioFault::Access(error))
            },
            None => {
                let ghost mapped = self.log();
                assert(mapped[start] is Open);
                let reply = self.access(access);
                let ghost read = self.log();
                assert(read[start] == mapped[start]);
                assert(read[start + 1] is Access);
                let status: i32 = self.close();
                assert(self.log()[start] == read[start]);
                assert(self.log()[start + 1] == read[start + 1]);
                assert(self.log()[start + 2] is Close);
                closed_word(reply, status)
            },
        }
    }
}

} // verus!
