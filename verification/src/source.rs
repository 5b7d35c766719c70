//! The readiness-backed async I/O source. Every operation is an explicit
//! state machine that retries its syscall: the embedding program performs one
//! attempt and reports the outcome; success finishes the operation, a
//! would-block condition registers readiness interest and suspends it until
//! the registry fires, and any other error finishes it with that error.
//! Buffers stay inside the operation for its whole life, so a finished read
//! or write hands back the very vector it was given.

use crate::readiness::{Direction, ReadinessBackend, ReadinessError};
use crate::completion::{CqePayload, RingError};
use crate::sg::{spec_region_total, MemRegion};
use vstd::bytes::u64_from_le_bytes;
use vstd::bytes::spec_u64_from_le_bytes;
use vstd::prelude::*;

verus! {

/// Errors of an async I/O source, each naming the failing operation and
/// carrying the kernel's error number verbatim.
#[derive(Clone, Copy, PartialEq, Eq, Structural, Debug)]
pub enum Error {
    /// Registering a waker with the readiness registry failed.
    AddingWaker(ReadinessError),
    /// An executor-internal error: ring saturation or a protocol violation.
    Executor(RingError),
    /// `fallocate` failed with this error number.
    Fallocate(i32),
    /// `fsync` failed with this error number.
    Fsync(i32),
    /// A read failed with this error number.
    Read(i32),
    /// A seek failed with this error number.
    Seeking(i32),
    /// Setting the descriptor non-blocking failed with this error number.
    SettingNonBlocking(i32),
    /// A write failed with this error number.
    Write(i32),
}

/// What a finished operation produced; reads and writes return the very
/// buffer they were given.
#[derive(PartialEq, Eq, Debug)]
pub enum IoDone {
    /// A vector read: the byte count and the caller's buffer, its prefix
    /// filled.
    BytesRead { count: usize, buf: Vec<u8> },
    /// A vector write: the byte count and the caller's data, untouched.
    Written { count: usize, data: Vec<u8> },
    /// The 8-byte value of a countable notification object.
    Value(u64),
    /// The byte count of a vectored region operation.
    MemCount(usize),
    /// Success with nothing further: fsync, fallocate, wait-readable.
    Done,
}

/// The operation an I/O state machine performs.
#[derive(Clone, Copy, PartialEq, Eq, Structural, Debug)]
pub enum OpKind {
    ReadVec,
    WriteVec,
    ReadValue,
    ReadRegions,
    WriteRegions,
    Fsync,
    Fallocate,
    WaitReadable,
}

/// The readiness direction an operation waits in when it would block.
pub open spec fn spec_dir_of(kind: OpKind) -> Direction {
    match kind {
        OpKind::WriteVec => Direction::Write,
        OpKind::WriteRegions => Direction::Write,
        _ => Direction::Read,
    }
}

/// The error that tags a failed syscall of this operation kind.
pub open spec fn err_of(kind: OpKind, errno: i32) -> Error {
    match kind {
        OpKind::ReadVec => Error::Read(errno),
        OpKind::ReadValue => Error::Read(errno),
        OpKind::ReadRegions => Error::Read(errno),
        OpKind::WriteVec => Error::Write(errno),
        OpKind::WriteRegions => Error::Write(errno),
        OpKind::Fsync => Error::Fsync(errno),
        OpKind::Fallocate => Error::Fallocate(errno),
        OpKind::WaitReadable => Error::Read(errno),
    }
}

/// The outcome of one attempted syscall, reported by the performer.
#[derive(PartialEq, Eq, Debug)]
pub enum Attempted {
    /// The syscall succeeded with this payload: bytes for reads, a count
    /// for writes and region operations, nothing for fsync and fallocate.
    Did(CqePayload),
    /// The syscall reported it would block.
    WouldBlock,
    /// The syscall failed with this error number.
    Failed(i32),
}

/// Whether a success payload is one this operation's syscall can produce:
/// the shape matches the kind and the kernel's bounds hold (a read returns
/// at most the requested bytes, a write reports at most the bytes given, a
/// vectored count is at most the regions' total length, a notification
/// value is 8 bytes). `buf` is the operation's buffer: the read target for a
/// vector read, the data for a vector write; `regions` are the regions of a
/// vectored operation.
pub open spec fn payload_fits(kind: OpKind, buf: Seq<u8>, regions: Seq<MemRegion>, p: CqePayload) -> bool {
    match p {
        CqePayload::Bytes(d) => {
            ||| (kind == OpKind::ReadVec && d@.len() <= buf.len())
            ||| (kind == OpKind::ReadValue && d@.len() == 8)
        },
        CqePayload::Count(n) => {
            ||| (kind == OpKind::WriteVec && n <= buf.len())
            ||| (kind == OpKind::ReadRegions && n <= usize::MAX && n <= spec_region_total(regions))
            ||| (kind == OpKind::WriteRegions && n <= usize::MAX && n <= spec_region_total(
                regions,
            ))
        },
        CqePayload::Unit => {
            ||| kind == OpKind::Fsync
            ||| kind == OpKind::Fallocate
            ||| kind == OpKind::WaitReadable
        },
    }
}

/// The one result a fitting success payload yields for an operation of this
/// kind over this buffer. Both source families promise exactly this of their
/// successes, which is what makes them substitutable for each other: a read
/// hands back the caller's buffer with the payload as its prefix, a write
/// hands back the caller's data with the kernel's count, a notification read
/// decodes the 8 little-endian bytes, a region operation reports the
/// kernel's count, and the one-shot operations report bare success.
pub open spec fn success_result(kind: OpKind, buf: Seq<u8>, p: CqePayload, done: IoDone) -> bool {
    match p {
        CqePayload::Bytes(d) => {
            if kind == OpKind::ReadVec {
                done matches IoDone::BytesRead { count, buf: b } && count == d@.len() && count
                    <= buf.len() && b@.len() == buf.len() && b@ == d@ + buf.skip(d@.len() as int)
            } else {
                done == IoDone::Value(spec_u64_from_le_bytes(d@))
            }
        },
        CqePayload::Count(n) => {
            if kind == OpKind::WriteVec {
                done matches IoDone::Written { count, data } && count == n && data@ == buf
            } else {
                done == IoDone::MemCount(n as usize)
            }
        },
        CqePayload::Unit => done == IoDone::Done,
    }
}

enum PollPhase {
    Attempt,
    Waiting { token: u64 },
    Finished,
}

/// What the performer should do next for a readiness-backed operation.
#[derive(Clone, Copy, PartialEq, Eq, Structural, Debug)]
pub enum PollAction {
    /// Perform the operation's syscall once and report it to `on_attempt`.
    Attempt,
    /// Drive the demultiplexer; re-poll after events are delivered.
    Wait,
    /// Finished: take the result.
    Done,
}

/// One readiness-backed I/O operation: a suspended retry loop.
pub struct PollOp {
    fd: i32,
    offset: u64,
    kind: OpKind,
    buf: Vec<u8>,
    regions: Vec<MemRegion>,
    alloc_len: u64,
    alloc_mode: u32,
    phase: PollPhase,
    result: Option<Result<IoDone, Error>>,
}

impl PollOp {
    /// About to attempt its syscall.
    pub closed spec fn attempting(self) -> bool {
        self.phase is Attempt
    }

    /// Suspended until the readiness registry fires its token.
    pub closed spec fn waiting(self) -> bool {
        self.phase is Waiting
    }

    /// The token a suspended operation waits for.
    pub closed spec fn waiting_token(self) -> u64 {
        self.phase->Waiting_token
    }

    /// Finished: the result is ready (or was already taken, or the
    /// operation was cancelled).
    pub closed spec fn finished(self) -> bool {
        self.phase is Finished
    }

    /// The finished operation's unclaimed result.
    pub closed spec fn result_view(self) -> Option<Result<IoDone, Error>> {
        self.result
    }

    pub closed spec fn op_fd(self) -> i32 {
        self.fd
    }

    pub closed spec fn op_offset(self) -> u64 {
        self.offset
    }

    pub closed spec fn op_kind(self) -> OpKind {
        self.kind
    }

    /// The buffer the operation owns: the read target or the write data.
    pub closed spec fn buf_view(self) -> Seq<u8> {
        self.buf@
    }

    /// The regions of a vectored operation.
    pub closed spec fn regions_view(self) -> Seq<MemRegion> {
        self.regions@
    }

    /// The length argument of a fallocate operation.
    pub closed spec fn alloc_len_view(self) -> u64 {
        self.alloc_len
    }

    /// The mode argument of a fallocate operation.
    pub closed spec fn alloc_mode_view(self) -> u32 {
        self.alloc_mode
    }

    /// A result is stored only once the operation is finished.
    pub closed spec fn wf(self) -> bool {
        self.result is Some ==> self.phase is Finished
    }

    /// Whether a reported outcome is one its syscall can produce for this
    /// operation: payload shapes match the kind and the kernel's bounds
    /// (a read returns at most the requested bytes, a write reports at most
    /// the bytes given, a notification value is 8 bytes), and only the
    /// retrying kinds block.
    pub open spec fn outcome_fits(self, outcome: Attempted) -> bool {
        match outcome {
            Attempted::Did(p) => payload_fits(
                self.op_kind(),
                self.buf_view(),
                self.regions_view(),
                p,
            ),
            Attempted::WouldBlock => {
                ||| self.op_kind() == OpKind::ReadVec
                ||| self.op_kind() == OpKind::WriteVec
                ||| self.op_kind() == OpKind::ReadValue
                ||| self.op_kind() == OpKind::ReadRegions
                ||| self.op_kind() == OpKind::WriteRegions
            },
            Attempted::Failed(_) => true,
        }
    }

    /// What the performer should do next.
    pub fn action(&self) -> (r: PollAction)
        ensures
            r == PollAction::Attempt <==> self.attempting(),
            r == PollAction::Wait <==> self.waiting(),
            r == PollAction::Done <==> self.finished(),
    {
        match self.phase {
            PollPhase::Attempt => PollAction::Attempt,
            PollPhase::Waiting { .. } => PollAction::Wait,
            PollPhase::Finished => PollAction::Done,
        }
    }

    /// The descriptor, for the performer.
    pub fn fd(&self) -> (r: i32)
        ensures
            r == self.op_fd(),
    {
        self.fd
    }

    /// The file offset, for the performer.
    pub fn offset(&self) -> (r: u64)
        ensures
            r == self.op_offset(),
    {
        self.offset
    }

    /// The operation kind, for the performer.
    pub fn kind(&self) -> (r: OpKind)
        ensures
            r == self.op_kind(),
    {
        self.kind
    }

    /// How many bytes a vector read asks for, or a vector write provides.
    pub fn buf_len(&self) -> (r: usize)
        ensures
            r == self.buf_view().len(),
    {
        self.buf.len()
    }

    /// The write data, for the performer.
    pub fn write_data(&self) -> (r: &Vec<u8>)
        ensures
            r@ == self.buf_view(),
    {
        &self.buf
    }

    /// The regions of a vectored operation, for resolution.
    pub fn regions(&self) -> (r: &Vec<MemRegion>)
        ensures
            r@ == self.regions_view(),
    {
        &self.regions
    }

    /// The length argument of a fallocate operation.
    pub fn alloc_len(&self) -> (r: u64)
        ensures
            r == self.alloc_len_view(),
    {
        self.alloc_len
    }

    /// The mode argument of a fallocate operation.
    pub fn alloc_mode(&self) -> (r: u32)
        ensures
            r == self.alloc_mode_view(),
    {
        self.alloc_mode
    }

    /// Feeds the outcome of one attempted syscall. Success finishes the
    /// operation with its kind's result, built from the caller's own buffer;
    /// a would-block condition registers readiness interest and suspends; any
    /// other error finishes it with that error, tagged with the operation.
    pub fn on_attempt(&mut self, outcome: Attempted, reg: &mut ReadinessBackend)
        requires
            old(self).attempting(),
            old(self).wf(),
            old(self).outcome_fits(outcome),
            old(self).op_kind() != OpKind::WaitReadable,
            old(reg).wf(),
        ensures
            final(self).wf(),
            final(reg).wf(),
            final(self).op_fd() == old(self).op_fd(),
            final(self).op_kind() == old(self).op_kind(),
            final(self).op_offset() == old(self).op_offset(),
            outcome matches Attempted::Failed(e) ==> final(self).finished() && final(self).result_view() == Some(Err::<IoDone, Error>(err_of(old(self).op_kind(), e)))
                && *final(reg) == *old(reg),
            outcome matches Attempted::Did(p) ==> final(self).finished() && *final(reg) == *old(reg)
                && (final(self).result_view() matches Some(Ok(done)) && success_result(
                old(self).op_kind(),
                old(self).buf_view(),
                p,
                done,
            )),
            outcome == Attempted::WouldBlock ==> final(self).buf_view() == old(self).buf_view()
                && final(self).regions_view() == old(self).regions_view() && final(self).alloc_len_view() == old(self).alloc_len_view() && final(self).alloc_mode_view() == old(self).alloc_mode_view(),
            outcome == Attempted::WouldBlock ==> {
                &&& final(reg).capacity() == old(reg).capacity()
                &&& final(reg).tokens_used() <= old(reg).tokens_used() + 1
                &&& (forall|t2: u64|
                    final(reg).fired_token(t2) == old(reg).fired_token(t2))
                &&& (forall|fd2: int, dir2: Direction|
                    (fd2, dir2) != (old(self).op_fd() as int, spec_dir_of(old(self).op_kind()))
                        ==> final(reg).registered(fd2, dir2) == old(reg).registered(fd2, dir2) && (
                    old(reg).registered(fd2, dir2) ==> final(reg).token_of(fd2, dir2) == old(reg).token_of(fd2, dir2)))
            },
            outcome == Attempted::WouldBlock ==> {
                let dir = spec_dir_of(old(self).op_kind());
                &&& (final(self).waiting() ==> {
                    &&& final(reg).registered(old(self).op_fd() as int, dir)
                    &&& final(self).waiting_token() == final(reg).token_of(
                        old(self).op_fd() as int,
                        dir,
                    )
                })
                &&& (!final(self).waiting() ==> final(self).finished() && (final(self).result_view() matches Some(Err(Error::AddingWaker(_)))) && *final(reg) == *old(reg))
                &&& (old(reg).tokens_left() && (old(reg).registered(
                    old(self).op_fd() as int,
                    dir,
                ) || old(reg).pending_count() < old(reg).capacity()) ==> final(self).waiting())
            },
    {
        match outcome {
            Attempted::Failed(e) => {
                let err = match self.kind {
                    OpKind::ReadVec => Error::Read(e),
                    OpKind::ReadValue => Error::Read(e),
                    OpKind::ReadRegions => Error::Read(e),
                    OpKind::WriteVec => Error::Write(e),
                    OpKind::WriteRegions => Error::Write(e),
                    OpKind::Fsync => Error::Fsync(e),
                    OpKind::Fallocate => Error::Fallocate(e),
                    OpKind::WaitReadable => Error::Read(e),
                };
                self.phase = PollPhase::Finished;
                self.result = Some(Err(err));
            }
            Attempted::WouldBlock => {
                let dir = match self.kind {
                    OpKind::WriteVec => Direction::Write,
                    OpKind::WriteRegions => Direction::Write,
                    _ => Direction::Read,
                };
                match reg.register(self.fd, dir) {
                    Ok(token) => {
                        self.phase = PollPhase::Waiting { token };
                    }
                    Err(e) => {
                        self.phase = PollPhase::Finished;
                        self.result = Some(Err(Error::AddingWaker(e)));
                    }
                }
            }
            Attempted::Did(payload) => {
                let done = match payload {
                    CqePayload::Bytes(d) => {
                        let is_read_vec = match self.kind {
                            OpKind::ReadVec => true,
                            _ => false,
                        };
                        if is_read_vec {
                            fill_prefix(&mut self.buf, &d);
                            let mut taken: Vec<u8> = Vec::new();
                            core::mem::swap(&mut self.buf, &mut taken);
                            IoDone::BytesRead { count: d.len(), buf: taken }
                        } else {
                            IoDone::Value(u64_from_le_bytes(d.as_slice()))
                        }
                    }
                    CqePayload::Count(n) => {
                        let is_write_vec = match self.kind {
                            OpKind::WriteVec => true,
                            _ => false,
                        };
                        if is_write_vec {
                            let data_len = self.buf.len();
                            proof {
                                assert(n <= data_len);
                            }
                            let mut taken: Vec<u8> = Vec::new();
                            core::mem::swap(&mut self.buf, &mut taken);
                            IoDone::Written { count: n as usize, data: taken }
                        } else {
                            IoDone::MemCount(n as usize)
                        }
                    }
                    CqePayload::Unit => IoDone::Done,
                };
                self.phase = PollPhase::Finished;
                self.result = Some(Ok(done));
            }
        }
    }

    /// Checks for the operation's wakeup and takes the next step: a fired
    /// token is consumed exactly once, a plain wait finishes, a retrying
    /// operation goes back to attempting its syscall. Anything else is
    /// untouched and the result, if finished, can be taken.
    pub fn poll(&mut self, reg: &mut ReadinessBackend) -> (r: Option<Result<IoDone, Error>>)
        requires
            old(self).wf(),
            old(reg).wf(),
        ensures
            final(self).wf(),
            final(reg).wf(),
            final(self).op_fd() == old(self).op_fd(),
            final(self).op_kind() == old(self).op_kind(),
            final(self).op_offset() == old(self).op_offset(),
            old(self).attempting() || old(self).waiting() || old(self).finished(),
            old(self).finished() ==> r == old(self).result_view() && final(self).finished()
                && final(self).result_view() is None && *final(reg) == *old(reg),
            old(self).finished() && old(self).result_view() is None ==> *final(self) == *old(self),
            r is Some ==> final(self).finished() && final(self).result_view() is None,
            old(self).attempting() ==> r is None && *final(self) == *old(self) && *final(reg)
                == *old(reg),
            old(self).waiting() ==> r is None && final(self).buf_view() == old(self).buf_view()
                && final(self).regions_view() == old(self).regions_view() && {
                let t = old(self).waiting_token();
                &&& !final(reg).fired_token(t)
                &&& (old(reg).fired_token(t) ==> (if old(self).op_kind() == OpKind::WaitReadable {
                    final(self).finished() && final(self).result_view() == Some(Ok::<
                        IoDone,
                        Error,
                    >(IoDone::Done))
                } else {
                    final(self).attempting()
                }))
                &&& (!old(reg).fired_token(t) ==> final(self).waiting() && final(self).waiting_token() == t)
                &&& (forall|t2: u64|
                    t2 != t ==> final(reg).fired_token(t2) == old(reg).fired_token(t2))
                &&& (forall|t2: u64|
                    final(reg).waiting_token(t2) == old(reg).waiting_token(t2))
                &&& (forall|fd2: int, dir2: Direction|
                    final(reg).registered(fd2, dir2) == old(reg).registered(fd2, dir2) && (old(reg).registered(fd2, dir2) ==> final(reg).token_of(fd2, dir2) == old(reg).token_of(fd2, dir2)))
            },
    {
        match self.phase {
            PollPhase::Finished => {
                let mut taken: Option<Result<IoDone, Error>> = None;
                core::mem::swap(&mut self.result, &mut taken);
                taken
            }
            PollPhase::Attempt => None,
            PollPhase::Waiting { token } => {
                if reg.take_fired(token) {
                    let is_wait = match self.kind {
                        OpKind::WaitReadable => true,
                        _ => false,
                    };
                    if is_wait {
                        self.phase = PollPhase::Finished;
                        self.result = Some(Ok(IoDone::Done));
                    } else {
                        self.phase = PollPhase::Attempt;
                    }
                }
                None
            }
        }
    }

    /// Abandons the operation: its registration and any undelivered wakeup
    /// are dropped, so no later event can touch it, and no result is left to
    /// claim. Every other key and token of the registry is untouched.
    pub fn cancel(&mut self, reg: &mut ReadinessBackend)
        requires
            old(self).wf(),
            old(reg).wf(),
        ensures
            final(self).wf(),
            final(reg).wf(),
            final(self).finished(),
            final(self).result_view() is None,
            old(self).waiting() ==> {
                let t = old(self).waiting_token();
                &&& !final(reg).waiting_token(t)
                &&& !final(reg).fired_token(t)
                &&& (forall|t2: u64|
                    t2 != t ==> final(reg).fired_token(t2) == old(reg).fired_token(t2))
                &&& (forall|t2: u64|
                    t2 != t ==> final(reg).waiting_token(t2) == old(reg).waiting_token(t2))
                &&& (forall|fd2: int, dir2: Direction|
                    old(reg).registered(fd2, dir2) && old(reg).token_of(fd2, dir2) != t ==> final(reg).registered(fd2, dir2) && final(reg).token_of(fd2, dir2) == old(reg).token_of(
                        fd2,
                        dir2,
                    ))
            },
            !old(self).waiting() ==> *final(reg) == *old(reg),
    {
        if let PollPhase::Waiting { token } = self.phase {
            reg.cancel(token);
        }
        self.phase = PollPhase::Finished;
        self.result = None;
    }
}

/// Copies `d` over the prefix of `buf`, leaving the rest alone: what a
/// successful partial read does to the caller's buffer.
fn fill_prefix(buf: &mut Vec<u8>, d: &Vec<u8>)
    requires
        d@.len() <= old(buf)@.len(),
    ensures
        final(buf)@ == d@ + old(buf)@.skip(d@.len() as int),
{
    let n = d.len();
    let mut i: usize = 0;
    while i < n
        invariant
            n == d@.len(),
            i <= n,
            buf@.len() == old(buf)@.len(),
            n <= buf@.len(),
            forall|j: int| 0 <= j < i ==> buf@[j] == d@[j],
            forall|j: int| i <= j < buf@.len() ==> buf@[j] == old(buf)@[j],
        decreases n - i,
    {
        buf[i] = d[i];
        i = i + 1;
    }
    proof {
        assert(buf@ =~= d@ + old(buf)@.skip(d@.len() as int));
    }
}

/// An async I/O source over one raw descriptor, driven by the readiness
/// backend. The descriptor must be in non-blocking mode for the life of the
/// wrapper; the embedding program sets that before wrapping and reports a
/// failure to do so as `Error::SettingNonBlocking`.
pub struct PollSource {
    fd: i32,
}

impl PollSource {
    /// The wrapped raw descriptor.
    pub closed spec fn fd_view(self) -> i32 {
        self.fd
    }

    /// Wraps a raw descriptor already set non-blocking.
    pub fn new(fd: i32) -> (r: PollSource)
        ensures
            r.fd_view() == fd,
    {
        PollSource { fd }
    }

    /// Hands the raw descriptor back, intact.
    pub fn into_source(self) -> (r: i32)
        ensures
            r == self.fd_view(),
    {
        self.fd
    }

    /// A reference to the wrapped descriptor.
    pub fn as_source(&self) -> (r: &i32)
        ensures
            *r == self.fd_view(),
    {
        &self.fd
    }

    /// A mutable reference to the wrapped descriptor.
    pub fn as_source_mut(&mut self) -> (r: &mut i32)
        ensures
            *r == old(self).fd_view(),
            final(self).fd_view() == *final(r),
    {
        &mut self.fd
    }

    /// Starts a read of `vec.len()` bytes at `file_offset` into `vec`.
    pub fn read_to_vec(&self, file_offset: u64, vec: Vec<u8>) -> (op: PollOp)
        ensures
            op.wf(),
            op.attempting(),
            op.op_fd() == self.fd_view(),
            op.op_offset() == file_offset,
            op.op_kind() == OpKind::ReadVec,
            op.buf_view() == vec@,
    {
        PollOp {
            fd: self.fd,
            offset: file_offset,
            kind: OpKind::ReadVec,
            buf: vec,
            regions: Vec::new(),
            alloc_len: 0,
            alloc_mode: 0,
            phase: PollPhase::Attempt,
            result: None,
        }
    }

    /// Starts a vectored read at `file_offset` into backing-memory regions.
    pub fn read_to_mem(&self, file_offset: u64, mem_offsets: Vec<MemRegion>) -> (op: PollOp)
        ensures
            op.wf(),
            op.attempting(),
            op.op_fd() == self.fd_view(),
            op.op_offset() == file_offset,
            op.op_kind() == OpKind::ReadRegions,
            op.regions_view() == mem_offsets@,
    {
        PollOp {
            fd: self.fd,
            offset: file_offset,
            kind: OpKind::ReadRegions,
            buf: Vec::new(),
            regions: mem_offsets,
            alloc_len: 0,
            alloc_mode: 0,
            phase: PollPhase::Attempt,
            result: None,
        }
    }

    /// Starts a bare wait for the descriptor to become readable: interest is
    /// registered at once, and the operation finishes when it fires.
    pub fn wait_readable(&self, reg: &mut ReadinessBackend) -> (op: PollOp)
        requires
            old(reg).wf(),
        ensures
            final(reg).wf(),
            final(reg).capacity() == old(reg).capacity(),
            final(reg).tokens_used() <= old(reg).tokens_used() + 1,
            op.wf(),
            op.op_fd() == self.fd_view(),
            op.op_kind() == OpKind::WaitReadable,
            op.waiting() ==> final(reg).registered(self.fd_view() as int, Direction::Read)
                && op.waiting_token() == final(reg).token_of(self.fd_view() as int, Direction::Read),
            !op.waiting() ==> op.finished() && (op.result_view() matches Some(Err(
                Error::AddingWaker(_),
            ))) && *final(reg) == *old(reg),
            old(reg).tokens_left() && (old(reg).registered(self.fd_view() as int, Direction::Read)
                || old(reg).pending_count() < old(reg).capacity()) ==> op.waiting(),
            !old(reg).registered(self.fd_view() as int, Direction::Read) && old(reg).pending_count() >= old(reg).capacity() ==> !op.waiting(),
            op.waiting() && old(reg).registered(self.fd_view() as int, Direction::Read) ==> !final(reg).waiting_token(old(reg).token_of(self.fd_view() as int, Direction::Read)),
            forall|t2: u64| final(reg).fired_token(t2) == old(reg).fired_token(t2),
            forall|fd2: int, dir2: Direction|
                (fd2, dir2) != (self.fd_view() as int, Direction::Read) ==> final(reg).registered(
                    fd2,
                    dir2,
                ) == old(reg).registered(fd2, dir2) && (old(reg).registered(fd2, dir2) ==> final(reg).token_of(fd2, dir2) == old(reg).token_of(fd2, dir2)),
    {
        let (phase, result) = match reg.register(self.fd, Direction::Read) {
            Ok(token) => (PollPhase::Waiting { token }, None),
            Err(e) => (PollPhase::Finished, Some(Err(Error::AddingWaker(e)))),
        };
        PollOp {
            fd: self.fd,
            offset: 0,
            kind: OpKind::WaitReadable,
            buf: Vec::new(),
            regions: Vec::new(),
            alloc_len: 0,
            alloc_mode: 0,
            phase,
            result,
        }
    }

    /// Starts a read of the 8-byte value of a countable notification object.
    /// The value is decoded little-endian, the byte order of the targets
    /// this library serves.
    pub fn read_u64(&self) -> (op: PollOp)
        ensures
            op.wf(),
            op.attempting(),
            op.op_fd() == self.fd_view(),
            op.op_kind() == OpKind::ReadValue,
    {
        PollOp {
            fd: self.fd,
            offset: 0,
            kind: OpKind::ReadValue,
            buf: Vec::new(),
            regions: Vec::new(),
            alloc_len: 0,
            alloc_mode: 0,
            phase: PollPhase::Attempt,
            result: None,
        }
    }

    /// Starts a write of the bytes of `vec` at `file_offset`.
    pub fn write_from_vec(&self, file_offset: u64, vec: Vec<u8>) -> (op: PollOp)
        ensures
            op.wf(),
            op.attempting(),
            op.op_fd() == self.fd_view(),
            op.op_offset() == file_offset,
            op.op_kind() == OpKind::WriteVec,
            op.buf_view() == vec@,
    {
        PollOp {
            fd: self.fd,
            offset: file_offset,
            kind: OpKind::WriteVec,
            buf: vec,
            regions: Vec::new(),
            alloc_len: 0,
            alloc_mode: 0,
            phase: PollPhase::Attempt,
            result: None,
        }
    }

    /// Starts a vectored write at `file_offset` from backing-memory regions.
    pub fn write_from_mem(&self, file_offset: u64, mem_offsets: Vec<MemRegion>) -> (op: PollOp)
        ensures
            op.wf(),
            op.attempting(),
            op.op_fd() == self.fd_view(),
            op.op_offset() == file_offset,
            op.op_kind() == OpKind::WriteRegions,
            op.regions_view() == mem_offsets@,
    {
        PollOp {
            fd: self.fd,
            offset: file_offset,
            kind: OpKind::WriteRegions,
            buf: Vec::new(),
            regions: mem_offsets,
            alloc_len: 0,
            alloc_mode: 0,
            phase: PollPhase::Attempt,
            result: None,
        }
    }

    /// Starts a one-shot fallocate: no retry path, failures surface directly.
    pub fn fallocate(&self, file_offset: u64, len: u64, mode: u32) -> (op: PollOp)
        ensures
            op.wf(),
            op.attempting(),
            op.op_fd() == self.fd_view(),
            op.op_offset() == file_offset,
            op.op_kind() == OpKind::Fallocate,
            op.alloc_len_view() == len,
            op.alloc_mode_view() == mode,
    {
        PollOp {
            fd: self.fd,
            offset: file_offset,
            kind: OpKind::Fallocate,
            buf: Vec::new(),
            regions: Vec::new(),
            alloc_len: len,
            alloc_mode: mode,
            phase: PollPhase::Attempt,
            result: None,
        }
    }

    /// Starts a one-shot fsync: no retry path, failures surface directly.
    pub fn fsync(&self) -> (op: PollOp)
        ensures
            op.wf(),
            op.attempting(),
            op.op_fd() == self.fd_view(),
            op.op_kind() == OpKind::Fsync,
    {
        PollOp {
            fd: self.fd,
            offset: 0,
            kind: OpKind::Fsync,
            buf: Vec::new(),
            regions: Vec::new(),
            alloc_len: 0,
            alloc_mode: 0,
            phase: PollPhase::Attempt,
            result: None,
        }
    }
}

} // verus!
