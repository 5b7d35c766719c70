//! The completion-backed async I/O source. Every operation submits one fully
//! described kernel operation to the completion-queue backend and suspends
//! until its single completion arrives; there is no retry loop, would-block
//! is not a possible outcome, and errors are terminal per call. Callers see
//! the same results as from the readiness-backed source: only the concurrency
//! strategy differs.

use crate::completion::{CompletionBackend, CqePayload, OpDesc, RingError, SlotView};
use crate::sg::{region_total, MemRegion};
use crate::source::{err_of, payload_fits, success_result, Error, IoDone, OpKind};
use vstd::bytes::u64_from_le_bytes;
use vstd::prelude::*;

verus! {

/// The buffer a completion is checked against: the data riding in a vector
/// write's table entry, the operation's own buffer otherwise.
pub open spec fn desc_buf(kind: OpKind, buf: Seq<u8>, desc: OpDesc) -> Seq<u8> {
    if kind == OpKind::WriteVec {
        (desc->WriteVec_data)@
    } else {
        buf
    }
}

/// The regions a completion's count is bounded by, from the table entry.
pub open spec fn desc_regions(desc: OpDesc) -> Seq<MemRegion> {
    match desc {
        OpDesc::ReadRegions { regions, .. } => regions@,
        OpDesc::WriteRegions { regions, .. } => regions@,
        _ => Seq::empty(),
    }
}

/// Whether the table entry's shape matches the operation kind wherever the
/// completion check draws on its payload.
pub open spec fn desc_shape_ok(kind: OpKind, desc: OpDesc) -> bool {
    &&& (kind == OpKind::WriteVec ==> desc is WriteVec)
    &&& (kind == OpKind::ReadRegions ==> desc is ReadRegions)
    &&& (kind == OpKind::WriteRegions ==> desc is WriteRegions)
}

/// The result a claimed completion yields for an operation of this kind:
/// the kernel's error verbatim, tagged with the operation; a fitting success
/// payload's `success_result`, exactly as the readiness-backed source
/// computes it; and a payload that cannot belong to the operation is the
/// `Malformed` protocol violation.
pub open spec fn ring_outcome(
    kind: OpKind,
    buf: Seq<u8>,
    desc: OpDesc,
    res: Result<CqePayload, i32>,
    out: Result<IoDone, Error>,
) -> bool {
    match res {
        Err(e) => out == Err::<IoDone, Error>(err_of(kind, e)),
        Ok(p) => {
            let bufx = desc_buf(kind, buf, desc);
            if payload_fits(kind, bufx, desc_regions(desc), p) && desc_shape_ok(kind, desc) {
                out matches Ok(done) && success_result(kind, bufx, p, done)
            } else {
                out == Err::<IoDone, Error>(Error::Executor(RingError::Malformed))
            }
        },
    }
}

enum RingPhase {
    Submitted { token: u64 },
    Finished,
}

/// One completion-backed I/O operation: submitted once, then suspended until
/// its completion is claimed.
pub struct RingOp {
    fd: i32,
    kind: OpKind,
    buf: Vec<u8>,
    phase: RingPhase,
    result: Option<Result<IoDone, Error>>,
}

impl RingOp {
    /// Submitted and awaiting its completion.
    pub closed spec fn submitted(self) -> bool {
        self.phase is Submitted
    }

    /// The correlation token of a submitted operation.
    pub closed spec fn token(self) -> u64 {
        self.phase->Submitted_token
    }

    /// Finished: the result is ready (or was already taken, or the operation
    /// was cancelled).
    pub closed spec fn finished(self) -> bool {
        self.phase is Finished
    }

    /// The finished operation's unclaimed result.
    pub closed spec fn result_view(self) -> Option<Result<IoDone, Error>> {
        self.result
    }

    pub closed spec fn op_fd(self) -> i32 {
        self.fd
    }

    pub closed spec fn op_kind(self) -> OpKind {
        self.kind
    }

    /// The read buffer the operation keeps for its caller.
    pub closed spec fn buf_view(self) -> Seq<u8> {
        self.buf@
    }

    /// A result is stored only once the operation is finished.
    pub closed spec fn wf(self) -> bool {
        self.result is Some ==> self.phase is Finished
    }

    /// Checks for the operation's completion: claims it if it arrived,
    /// producing the kind's result exactly as the readiness-backed source
    /// would, with the kernel's count or error verbatim; `None` while the
    /// completion is still outstanding. A payload that cannot belong to the
    /// operation is a protocol violation and finishes it with
    /// `Error::Executor(RingError::Malformed)`.
    pub fn poll(&mut self, ring: &mut CompletionBackend) -> (r: Option<Result<IoDone, Error>>)
        requires
            old(self).wf(),
            old(ring).wf(),
        ensures
            final(self).wf(),
            final(ring).wf(),
            final(self).op_fd() == old(self).op_fd(),
            final(self).op_kind() == old(self).op_kind(),
            old(self).finished() ==> r == old(self).result_view() && final(self).finished()
                && final(self).result_view() is None && *final(ring) == *old(ring),
            old(self).finished() && old(self).result_view() is None ==> *final(self) == *old(self),
            r is Some ==> final(self).finished() && final(self).result_view() is None,
            old(self).finished() || old(self).submitted(),
            old(self).submitted() ==> {
                let t = old(self).token();
                &&& (!(old(ring).slot_view(t) is Complete) ==> r is None && *final(self) == *old(self) && *final(ring) == *old(ring))
                &&& (old(ring).slot_view(t) matches SlotView::Complete { desc, res } ==> {
                    &&& final(self).finished()
                    &&& final(self).result_view() is None
                    &&& final(ring).slot_view(t) == SlotView::Absent
                    &&& (forall|t2: u64|
                        t2 != t ==> final(ring).slot_view(t2) == old(ring).slot_view(t2))
                    &&& (r matches Some(out) && ring_outcome(
                        old(self).op_kind(),
                        old(self).buf_view(),
                        desc,
                        res,
                        out,
                    ))
                })
            },
    {
        match self.phase {
            RingPhase::Finished => {
                let mut taken: Option<Result<IoDone, Error>> = None;
                core::mem::swap(&mut self.result, &mut taken);
                taken
            }
            RingPhase::Submitted { token } => {
                match ring.claim(token) {
                    None => None,
                    Some((desc, res)) => {
                        self.phase = RingPhase::Finished;
                        let out: Result<IoDone, Error> = match res {
                            Err(e) => {
                                let err = match self.kind {
                                    OpKind::ReadVec => Error::Read(e),
                                    OpKind::ReadValue => Error::Read(e),
                                    OpKind::ReadRegions => Error::Read(e),
                                    OpKind::WriteVec => Error::Write(e),
                                    OpKind::WriteRegions => Error::Write(e),
                                    OpKind::Fsync => Error::Fsync(e),
                                    OpKind::Fallocate => Error::Fallocate(e),
                                    OpKind::WaitReadable => Error::Read(e),
                                };
                                Err(err)
                            }
                            Ok(p) => match p {
                                CqePayload::Bytes(d) => {
                                    let is_read_vec = match self.kind {
                                        OpKind::ReadVec => true,
                                        _ => false,
                                    };
                                    let is_read_value = match self.kind {
                                        OpKind::ReadValue => true,
                                        _ => false,
                                    };
                                    if is_read_vec && d.len() <= self.buf.len() {
                                        fill_buf_prefix(&mut self.buf, &d);
                                        let mut taken: Vec<u8> = Vec::new();
                                        core::mem::swap(&mut self.buf, &mut taken);
                                        Ok(IoDone::BytesRead { count: d.len(), buf: taken })
                                    } else if is_read_value && d.len() == 8 {
                                        Ok(IoDone::Value(u64_from_le_bytes(d.as_slice())))
                                    } else {
                                        Err(Error::Executor(RingError::Malformed))
                                    }
                                }
                                CqePayload::Count(n) => {
                                    let is_write_vec = match self.kind {
                                        OpKind::WriteVec => true,
                                        _ => false,
                                    };
                                    let is_read_regions = match self.kind {
                                        OpKind::ReadRegions => true,
                                        _ => false,
                                    };
                                    let is_write_regions = match self.kind {
                                        OpKind::WriteRegions => true,
                                        _ => false,
                                    };
                                    if is_write_vec {
                                        match desc {
                                            OpDesc::WriteVec { data, .. } => {
                                                if n <= data.len() as u64 {
                                                    Ok(IoDone::Written {
                                                        count: n as usize,
                                                        data,
                                                    })
                                                } else {
                                                    Err(Error::Executor(RingError::Malformed))
                                                }
                                            }
                                            _ => Err(Error::Executor(RingError::Malformed)),
                                        }
                                    } else if is_read_regions {
                                        match desc {
                                            OpDesc::ReadRegions { regions, .. } => {
                                                let total = region_total(&regions);
                                                if n <= usize::MAX as u64 && n <= total {
                                                    Ok(IoDone::MemCount(n as usize))
                                                } else {
                                                    Err(Error::Executor(RingError::Malformed))
                                                }
                                            }
                                            _ => Err(Error::Executor(RingError::Malformed)),
                                        }
                                    } else if is_write_regions {
                                        match desc {
                                            OpDesc::WriteRegions { regions, .. } => {
                                                let total = region_total(&regions);
                                                if n <= usize::MAX as u64 && n <= total {
                                                    Ok(IoDone::MemCount(n as usize))
                                                } else {
                                                    Err(Error::Executor(RingError::Malformed))
                                                }
                                            }
                                            _ => Err(Error::Executor(RingError::Malformed)),
                                        }
                                    } else {
                                        Err(Error::Executor(RingError::Malformed))
                                    }
                                }
                                CqePayload::Unit => {
                                    let is_oneshot = match self.kind {
                                        OpKind::Fsync => true,
                                        OpKind::Fallocate => true,
                                        OpKind::WaitReadable => true,
                                        _ => false,
                                    };
                                    if is_oneshot {
                                        Ok(IoDone::Done)
                                    } else {
                                        Err(Error::Executor(RingError::Malformed))
                                    }
                                }
                            },
                        };
                        Some(out)
                    }
                }
            }
        }
    }

    /// Abandons the operation: its table entry is cancelled, so a late
    /// completion is a harmless discard and the token can never be claimed,
    /// and no result is left. Every other token's entry is untouched.
    pub fn cancel(&mut self, ring: &mut CompletionBackend)
        requires
            old(self).wf(),
            old(ring).wf(),
        ensures
            final(self).wf(),
            final(ring).wf(),
            final(self).finished(),
            final(self).result_view() is None,
            old(self).submitted() ==> {
                let t = old(self).token();
                &&& !(final(ring).slot_view(t) is InFlight)
                &&& !(final(ring).slot_view(t) is Complete)
                &&& (forall|t2: u64|
                    t2 != t ==> final(ring).slot_view(t2) == old(ring).slot_view(t2))
            },
            !old(self).submitted() ==> *final(ring) == *old(ring),
    {
        if let RingPhase::Submitted { token } = self.phase {
            ring.cancel(token);
        }
        self.phase = RingPhase::Finished;
        self.result = None;
    }
}

/// Copies `d` over the prefix of `buf`, leaving the rest alone.
fn fill_buf_prefix(buf: &mut Vec<u8>, d: &Vec<u8>)
    requires
        d@.len() <= old(buf)@.len(),
    ensures
        final(buf)@ == d@ + old(buf)@.skip(d@.len() as int),
{
    let n = d.len();
    let mut i: usize = 0;
    while i < n
        invariant
            n == d@.len(),
            i <= n,
            buf@.len() == old(buf)@.len(),
            n <= buf@.len(),
            forall|j: int| 0 <= j < i ==> buf@[j] == d@[j],
            forall|j: int| i <= j < buf@.len() ==> buf@[j] == old(buf)@[j],
        decreases n - i,
    {
        buf[i] = d[i];
        i = i + 1;
    }
    proof {
        assert(buf@ =~= d@ + old(buf)@.skip(d@.len() as int));
    }
}

/// An async I/O source over one raw descriptor, driven by the
/// completion-queue backend.
pub struct RingSource {
    fd: i32,
}

impl RingSource {
    /// The wrapped raw descriptor.
    pub closed spec fn fd_view(self) -> i32 {
        self.fd
    }

    /// Wraps a raw descriptor.
    pub fn new(fd: i32) -> (r: RingSource)
        ensures
            r.fd_view() == fd,
    {
        RingSource { fd }
    }

    /// Hands the raw descriptor back, intact.
    pub fn into_source(self) -> (r: i32)
        ensures
            r == self.fd_view(),
    {
        self.fd
    }

    /// Submits one described operation, producing a suspended operation; on
    /// saturation the operation is born finished with the error instead.
    fn start(
        &self,
        kind: OpKind,
        buf: Vec<u8>,
        desc: OpDesc,
        ring: &mut CompletionBackend,
    ) -> (op: RingOp)
        requires
            old(ring).wf(),
        ensures
            final(ring).wf(),
            final(ring).capacity() == old(ring).capacity(),
            op.wf(),
            op.op_fd() == self.fd_view(),
            op.op_kind() == kind,
            op.submitted() ==> {
                &&& op.buf_view() == buf@
                &&& old(ring).slot_view(op.token()) == SlotView::Absent
                &&& final(ring).slot_view(op.token()) == (SlotView::InFlight {
                    started: false,
                    desc,
                })
                &&& final(ring).occupied_count() == old(ring).occupied_count() + 1
                &&& (forall|t2: u64|
                    t2 != op.token() ==> final(ring).slot_view(t2) == old(ring).slot_view(t2))
            },
            !op.submitted() ==> op.finished() && op.result_view() == Some(Err::<IoDone, Error>(
                Error::Executor(RingError::Saturated),
            )) && *final(ring) == *old(ring),
            old(ring).occupied_count() < old(ring).capacity() && old(ring).tokens_left()
                ==> op.submitted(),
    {
        match ring.submit(desc) {
            Ok(token) => RingOp {
                fd: self.fd,
                kind,
                buf,
                phase: RingPhase::Submitted { token },
                result: None,
            },
            Err(_) => RingOp {
                fd: self.fd,
                kind,
                buf: Vec::new(),
                phase: RingPhase::Finished,
                result: Some(Err(Error::Executor(RingError::Saturated))),
            },
        }
    }

    /// Submits a read of `vec.len()` bytes at `file_offset` into `vec`.
    pub fn read_to_vec(&self, file_offset: u64, vec: Vec<u8>, ring: &mut CompletionBackend) -> (op:
        RingOp)
        requires
            old(ring).wf(),
        ensures
            final(ring).wf(),
            final(ring).capacity() == old(ring).capacity(),
            op.wf(),
            op.op_fd() == self.fd_view(),
            op.op_kind() == OpKind::ReadVec,
            op.submitted() ==> {
                &&& op.buf_view() == vec@
                &&& final(ring).slot_view(op.token()) == (SlotView::InFlight {
                    started: false,
                    desc: OpDesc::ReadVec {
                        fd: self.fd_view(),
                        offset: file_offset,
                        len: vec@.len() as usize,
                    },
                })
                &&& (forall|t2: u64|
                    t2 != op.token() ==> final(ring).slot_view(t2) == old(ring).slot_view(t2))
            },
            !op.submitted() ==> op.finished() && op.result_view() == Some(Err::<IoDone, Error>(
                Error::Executor(RingError::Saturated),
            )) && *final(ring) == *old(ring),
            old(ring).occupied_count() < old(ring).capacity() && old(ring).tokens_left()
                ==> op.submitted(),
    {
        let len = vec.len();
        self.start(
            OpKind::ReadVec,
            vec,
            OpDesc::ReadVec { fd: self.fd, offset: file_offset, len },
            ring,
        )
    }

    /// Submits a vectored read at `file_offset` into backing-memory regions.
    pub fn read_to_mem(
        &self,
        file_offset: u64,
        mem_offsets: Vec<MemRegion>,
        ring: &mut CompletionBackend,
    ) -> (op: RingOp)
        requires
            old(ring).wf(),
        ensures
            final(ring).wf(),
            final(ring).capacity() == old(ring).capacity(),
            op.wf(),
            op.op_fd() == self.fd_view(),
            op.op_kind() == OpKind::ReadRegions,
            op.submitted() ==> final(ring).slot_view(op.token()) == (SlotView::InFlight {
                started: false,
                desc: OpDesc::ReadRegions {
                    fd: self.fd_view(),
                    offset: file_offset,
                    regions: mem_offsets,
                },
            }) && (forall|t2: u64|
                t2 != op.token() ==> final(ring).slot_view(t2) == old(ring).slot_view(t2)),
            !op.submitted() ==> op.finished() && op.result_view() == Some(Err::<IoDone, Error>(
                Error::Executor(RingError::Saturated),
            )) && *final(ring) == *old(ring),
            old(ring).occupied_count() < old(ring).capacity() && old(ring).tokens_left()
                ==> op.submitted(),
    {
        self.start(
            OpKind::ReadRegions,
            Vec::new(),
            OpDesc::ReadRegions { fd: self.fd, offset: file_offset, regions: mem_offsets },
            ring,
        )
    }

    /// Submits a wait for the descriptor to become readable.
    pub fn wait_readable(&self, ring: &mut CompletionBackend) -> (op: RingOp)
        requires
            old(ring).wf(),
        ensures
            final(ring).wf(),
            final(ring).capacity() == old(ring).capacity(),
            op.wf(),
            op.op_fd() == self.fd_view(),
            op.op_kind() == OpKind::WaitReadable,
            op.submitted() ==> final(ring).slot_view(op.token()) == (SlotView::InFlight {
                started: false,
                desc: OpDesc::WaitReadable { fd: self.fd_view() },
            }) && (forall|t2: u64|
                t2 != op.token() ==> final(ring).slot_view(t2) == old(ring).slot_view(t2)),
            !op.submitted() ==> op.finished() && op.result_view() == Some(Err::<IoDone, Error>(
                Error::Executor(RingError::Saturated),
            )) && *final(ring) == *old(ring),
            old(ring).occupied_count() < old(ring).capacity() && old(ring).tokens_left()
                ==> op.submitted(),
    {
        self.start(OpKind::WaitReadable, Vec::new(), OpDesc::WaitReadable { fd: self.fd }, ring)
    }

    /// Submits a read of the 8-byte value of a countable notification object.
    /// The value is decoded little-endian, the byte order of the targets
    /// this library serves.
    pub fn read_u64(&self, ring: &mut CompletionBackend) -> (op: RingOp)
        requires
            old(ring).wf(),
        ensures
            final(ring).wf(),
            final(ring).capacity() == old(ring).capacity(),
            op.wf(),
            op.op_fd() == self.fd_view(),
            op.op_kind() == OpKind::ReadValue,
            op.submitted() ==> final(ring).slot_view(op.token()) == (SlotView::InFlight {
                started: false,
                desc: OpDesc::ReadValue { fd: self.fd_view() },
            }) && (forall|t2: u64|
                t2 != op.token() ==> final(ring).slot_view(t2) == old(ring).slot_view(t2)),
            !op.submitted() ==> op.finished() && op.result_view() == Some(Err::<IoDone, Error>(
                Error::Executor(RingError::Saturated),
            )) && *final(ring) == *old(ring),
            old(ring).occupied_count() < old(ring).capacity() && old(ring).tokens_left()
                ==> op.submitted(),
    {
        self.start(OpKind::ReadValue, Vec::new(), OpDesc::ReadValue { fd: self.fd }, ring)
    }

    /// Submits a write of the bytes of `vec` at `file_offset`; the data rides
    /// in the table entry and comes back with the completion.
    pub fn write_from_vec(
        &self,
        file_offset: u64,
        vec: Vec<u8>,
        ring: &mut CompletionBackend,
    ) -> (op: RingOp)
        requires
            old(ring).wf(),
        ensures
            final(ring).wf(),
            final(ring).capacity() == old(ring).capacity(),
            op.wf(),
            op.op_fd() == self.fd_view(),
            op.op_kind() == OpKind::WriteVec,
            op.submitted() ==> final(ring).slot_view(op.token()) == (SlotView::InFlight {
                started: false,
                desc: OpDesc::WriteVec { fd: self.fd_view(), offset: file_offset, data: vec },
            }) && (forall|t2: u64|
                t2 != op.token() ==> final(ring).slot_view(t2) == old(ring).slot_view(t2)),
            !op.submitted() ==> op.finished() && op.result_view() == Some(Err::<IoDone, Error>(
                Error::Executor(RingError::Saturated),
            )) && *final(ring) == *old(ring),
            old(ring).occupied_count() < old(ring).capacity() && old(ring).tokens_left()
                ==> op.submitted(),
    {
        self.start(
            OpKind::WriteVec,
            Vec::new(),
            OpDesc::WriteVec { fd: self.fd, offset: file_offset, data: vec },
            ring,
        )
    }

    /// Submits a vectored write at `file_offset` from backing-memory regions.
    pub fn write_from_mem(
        &self,
        file_offset: u64,
        mem_offsets: Vec<MemRegion>,
        ring: &mut CompletionBackend,
    ) -> (op: RingOp)
        requires
            old(ring).wf(),
        ensures
            final(ring).wf(),
            final(ring).capacity() == old(ring).capacity(),
            op.wf(),
            op.op_fd() == self.fd_view(),
            op.op_kind() == OpKind::WriteRegions,
            op.submitted() ==> final(ring).slot_view(op.token()) == (SlotView::InFlight {
                started: false,
                desc: OpDesc::WriteRegions {
                    fd: self.fd_view(),
                    offset: file_offset,
                    regions: mem_offsets,
                },
            }) && (forall|t2: u64|
                t2 != op.token() ==> final(ring).slot_view(t2) == old(ring).slot_view(t2)),
            !op.submitted() ==> op.finished() && op.result_view() == Some(Err::<IoDone, Error>(
                Error::Executor(RingError::Saturated),
            )) && *final(ring) == *old(ring),
            old(ring).occupied_count() < old(ring).capacity() && old(ring).tokens_left()
                ==> op.submitted(),
    {
        self.start(
            OpKind::WriteRegions,
            Vec::new(),
            OpDesc::WriteRegions { fd: self.fd, offset: file_offset, regions: mem_offsets },
            ring,
        )
    }

    /// Submits a fallocate operation.
    pub fn fallocate(
        &self,
        file_offset: u64,
        len: u64,
        mode: u32,
        ring: &mut CompletionBackend,
    ) -> (op: RingOp)
        requires
            old(ring).wf(),
        ensures
            final(ring).wf(),
            final(ring).capacity() == old(ring).capacity(),
            op.wf(),
            op.op_fd() == self.fd_view(),
            op.op_kind() == OpKind::Fallocate,
            op.submitted() ==> final(ring).slot_view(op.token()) == (SlotView::InFlight {
                started: false,
                desc: OpDesc::Fallocate {
                    fd: self.fd_view(),
                    offset: file_offset,
                    space: len,
                    mode,
                },
            }) && (forall|t2: u64|
                t2 != op.token() ==> final(ring).slot_view(t2) == old(ring).slot_view(t2)),
            !op.submitted() ==> op.finished() && op.result_view() == Some(Err::<IoDone, Error>(
                Error::Executor(RingError::Saturated),
            )) && *final(ring) == *old(ring),
            old(ring).occupied_count() < old(ring).capacity() && old(ring).tokens_left()
                ==> op.submitted(),
    {
        self.start(
            OpKind::Fallocate,
            Vec::new(),
            OpDesc::Fallocate { fd: self.fd, offset: file_offset, space: len, mode },
            ring,
        )
    }

    /// Submits an fsync operation.
    pub fn fsync(&self, ring: &mut CompletionBackend) -> (op: RingOp)
        requires
            old(ring).wf(),
        ensures
            final(ring).wf(),
            final(ring).capacity() == old(ring).capacity(),
            op.wf(),
            op.op_fd() == self.fd_view(),
            op.op_kind() == OpKind::Fsync,
            op.submitted() ==> final(ring).slot_view(op.token()) == (SlotView::InFlight {
                started: false,
                desc: OpDesc::Fsync { fd: self.fd_view() },
            }) && (forall|t2: u64|
                t2 != op.token() ==> final(ring).slot_view(t2) == old(ring).slot_view(t2)),
            !op.submitted() ==> op.finished() && op.result_view() == Some(Err::<IoDone, Error>(
                Error::Executor(RingError::Saturated),
            )) && *final(ring) == *old(ring),
            old(ring).occupied_count() < old(ring).capacity() && old(ring).tokens_left()
                ==> op.submitted(),
    {
        self.start(OpKind::Fsync, Vec::new(), OpDesc::Fsync { fd: self.fd }, ring)
    }
}

} // verus!
