//! An async wrapper for a countable notification object (an eventfd-like
//! descriptor): `next_val` is one read of the 8-byte accumulated count,
//! with no buffering across calls, built on either source family.

use crate::completion::{CqePayload, OpDesc, RingError, SlotView};
use crate::executor::{Executor, ExecutorKind, SourceOp};
use crate::ring::RingSource;
use crate::source::{success_result, Error, IoDone, OpKind, PollSource};
use vstd::bytes::{spec_u64_from_le_bytes, spec_u64_to_le_bytes};
use vstd::prelude::*;

verus! {

enum EvSrc {
    Poll(PollSource),
    Ring(RingSource),
}

/// An async view of a countable notification descriptor.
pub struct EventAsync {
    src: EvSrc,
}

impl EventAsync {
    /// The wrapped raw descriptor.
    pub closed spec fn fd_view(self) -> i32 {
        match self.src {
            EvSrc::Poll(s) => s.fd_view(),
            EvSrc::Ring(s) => s.fd_view(),
        }
    }

    /// The completion strategy this wrapper's reads run on.
    pub closed spec fn kind_view(self) -> ExecutorKind {
        match self.src {
            EvSrc::Poll(_) => ExecutorKind::Poll,
            EvSrc::Ring(_) => ExecutorKind::Ring,
        }
    }

    /// Wraps a notification descriptor, following the executor's backend.
    pub fn new(fd: i32, ex: &Executor) -> (r: EventAsync)
        ensures
            r.fd_view() == fd,
            r.kind_view() == ex.kind_of(),
    {
        match ex {
            Executor::Poll(_) => EventAsync::new_poll(fd),
            Executor::Ring(_) => EventAsync::new_uring(fd),
        }
    }

    /// Wraps a notification descriptor over the readiness-backed source.
    pub fn new_poll(fd: i32) -> (r: EventAsync)
        ensures
            r.fd_view() == fd,
            r.kind_view() == ExecutorKind::Poll,
    {
        EventAsync { src: EvSrc::Poll(PollSource::new(fd)) }
    }

    /// Wraps a notification descriptor over the completion-backed source.
    pub fn new_uring(fd: i32) -> (r: EventAsync)
        ensures
            r.fd_view() == fd,
            r.kind_view() == ExecutorKind::Ring,
    {
        EventAsync { src: EvSrc::Ring(RingSource::new(fd)) }
    }

    /// Starts one read of the next accumulated count: an operation that
    /// resolves to `IoDone::Value` of the 8-byte little-endian value the
    /// descriptor delivers. Each call is an independent read with no buffered
    /// history. On the completion backend the read is submitted at once:
    /// below capacity it holds a fresh table entry whose completion will
    /// resolve it, every other entry untouched; a saturated table makes the
    /// operation fail fast with that error instead.
    pub fn next_val(&self, ex: &mut Executor) -> (op: SourceOp)
        requires
            self.kind_view() == old(ex).kind_of(),
            old(ex).wf(),
        ensures
            final(ex).wf(),
            final(ex).kind_of() == old(ex).kind_of(),
            op.wf(),
            self.kind_view() == ExecutorKind::Poll ==> *final(ex) == *old(ex) && (op matches
                SourceOp::Poll(p) && p.attempting() && p.op_kind() == OpKind::ReadValue && p.op_fd()
                == self.fd_view()),
            self.kind_view() == ExecutorKind::Ring ==> (op matches SourceOp::Ring(p) && p.op_kind()
                == OpKind::ReadValue && p.op_fd() == self.fd_view() && (*old(ex) matches
                Executor::Ring(ring0) && *final(ex) matches Executor::Ring(ring1) && {
                &&& ring1.capacity() == ring0.capacity()
                &&& (p.submitted() ==> ring1.slot_view(p.token()) == (SlotView::InFlight {
                    started: false,
                    desc: OpDesc::ReadValue { fd: self.fd_view() },
                }) && (forall|t2: u64|
                    t2 != p.token() ==> ring1.slot_view(t2) == ring0.slot_view(t2)))
                &&& (!p.submitted() ==> p.finished() && p.result_view() == Some(Err::<
                    IoDone,
                    Error,
                >(Error::Executor(RingError::Saturated))) && ring1 == ring0)
                &&& (ring0.occupied_count() < ring0.capacity() && ring0.tokens_left()
                    ==> p.submitted())
            })),
    {
        match &self.src {
            EvSrc::Poll(s) => SourceOp::Poll(s.read_u64()),
            EvSrc::Ring(s) => {
                match ex {
                    Executor::Ring(ring) => SourceOp::Ring(s.read_u64(ring)),
                    Executor::Poll(_) => {
                        // excluded by the precondition: the wrapper's backend
                        // matches the executor's
                        proof {
                            assert(false);
                        }
                        SourceOp::Poll(PollSource::new(0).read_u64())
                    }
                }
            }
        }
    }
}

/// The notification byte codec is lossless: a count written as its 8
/// little-endian bytes is decoded back as exactly that count.
pub proof fn lemma_value_round_trip(v: u64)
    ensures
        spec_u64_to_le_bytes(v).len() == 8,
        spec_u64_from_le_bytes(spec_u64_to_le_bytes(v)) == v,
{
    vstd::bytes::lemma_auto_spec_u64_to_from_le_bytes();
}

/// The notification round trip is exact on either backend: whenever a
/// notification read succeeds with a payload that is the 8 little-endian
/// bytes of a written count — and both source families promise
/// `success_result` of every success — the operation resolves to exactly
/// that count.
pub proof fn lemma_notification_round_trip(v: u64, d: Vec<u8>, buf: Seq<u8>, done: IoDone)
    requires
        d@ == spec_u64_to_le_bytes(v),
        success_result(OpKind::ReadValue, buf, CqePayload::Bytes(d), done),
    ensures
        done == IoDone::Value(v),
{
    lemma_value_round_trip(v);
}

} // verus!
