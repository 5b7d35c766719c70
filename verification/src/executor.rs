//! The executor facade: one concrete backend, chosen at construction
//! (readiness polling, or the completion-queue ring when the kernel offers
//! one), and the future abstraction driven against it. The embedding program
//! owns the blocking side of `run until done`: it polls the root future and,
//! while that is pending, performs the backend's outstanding kernel work and
//! feeds the events back in; a demultiplexing failure or an unknown
//! completion token is fatal to the run, never retried.

use crate::completion::{CompletionBackend, SlotView};
use crate::readiness::{Direction, ReadinessBackend};
use crate::ring::{ring_outcome, RingOp};
use crate::source::{Error, IoDone, PollOp};
use vstd::prelude::*;

verus! {

/// One executor instance: exactly one backend, owned for its lifetime.
pub enum Executor {
    /// Driven by readiness polling and syscall retry.
    Poll(ReadinessBackend),
    /// Driven by a completion-queue ring.
    Ring(CompletionBackend),
}

/// Which completion strategy an executor was built with.
#[derive(Clone, Copy, PartialEq, Eq, Structural, Debug)]
pub enum ExecutorKind {
    Poll,
    Ring,
}

impl Executor {
    /// Both backends start consistent.
    pub open spec fn wf(self) -> bool {
        match self {
            Executor::Poll(reg) => reg.wf(),
            Executor::Ring(ring) => ring.wf(),
        }
    }

    /// The completion strategy this executor drives, fixed at construction.
    pub open spec fn kind_of(self) -> ExecutorKind {
        match self {
            Executor::Poll(_) => ExecutorKind::Poll,
            Executor::Ring(_) => ExecutorKind::Ring,
        }
    }

    /// The completion strategy this executor drives.
    pub fn kind(&self) -> (r: ExecutorKind)
        ensures
            r == self.kind_of(),
    {
        match self {
            Executor::Poll(_) => ExecutorKind::Poll,
            Executor::Ring(_) => ExecutorKind::Ring,
        }
    }

    /// A readiness-backed executor whose registry holds up to `capacity`
    /// interests.
    pub fn new_poll(capacity: usize) -> (r: Executor)
        ensures
            r.wf(),
            r matches Executor::Poll(b) && b.capacity() == capacity && b.pending_count() == 0
                && b.tokens_used() == 0 && (forall|fd: int, dir: Direction|
                !b.registered(fd, dir)) && (forall|t: u64|
                !b.fired_token(t) && !b.waiting_token(t)),
    {
        Executor::Poll(ReadinessBackend::new(capacity))
    }

    /// A completion-backed executor whose ring holds up to `capacity`
    /// in-flight operations.
    pub fn new_ring(capacity: usize) -> (r: Executor)
        ensures
            r.wf(),
            r matches Executor::Ring(b) && b.capacity() == capacity && b.occupied_count() == 0
                && b.tokens_used() == 0 && (forall|t: u64| b.slot_view(t) == SlotView::Absent),
    {
        Executor::Ring(CompletionBackend::new(capacity))
    }
}

/// A suspended computation the executor can drive: polling it either
/// produces its output once, or leaves it suspended. Once resolved (its
/// output delivered or the operation abandoned), polling is a no-op that
/// touches nothing — a resolved future is never driven again.
pub trait Pollable: Sized {
    type Output;

    /// Delivered its output, or abandoned: polling does nothing any more.
    spec fn resolved(&self) -> bool;

    /// The completion strategy this future may be driven against.
    spec fn fits(&self, kind: ExecutorKind) -> bool;

    /// Takes the future's next step against the executor's backend.
    fn poll(&mut self, ex: &mut Executor) -> (r: Option<Self::Output>)
        requires
            old(self).fits(old(ex).kind_of()),
            old(ex).wf(),
        ensures
            final(ex).wf(),
            final(ex).kind_of() == old(ex).kind_of(),
            final(self).fits(old(ex).kind_of()),
            old(self).resolved() ==> r is None && *final(self) == *old(self) && *final(ex) == *old(ex),
            r is Some ==> final(self).resolved(),
    ;
}

/// One async I/O source operation, from either source family, as a future.
pub enum SourceOp {
    Poll(PollOp),
    Ring(RingOp),
}

impl SourceOp {
    /// The unclaimed result of a finished operation.
    pub open spec fn result_view(self) -> Option<Result<IoDone, Error>> {
        match self {
            SourceOp::Poll(op) => op.result_view(),
            SourceOp::Ring(op) => op.result_view(),
        }
    }

    /// The operation's state machine is consistent.
    pub open spec fn wf(self) -> bool {
        match self {
            SourceOp::Poll(op) => op.wf(),
            SourceOp::Ring(op) => op.wf(),
        }
    }
}

/// Whether `out` is the result this operation's next poll must deliver: a
/// finished operation's unclaimed result, or — for a submitted
/// completion-backed operation — the outcome of the completion waiting in
/// the executor's ring table.
pub open spec fn delivered(op: SourceOp, ex: Executor, out: Result<IoDone, Error>) -> bool {
    match op {
        SourceOp::Poll(p) => p.finished() && p.result_view() == Some(out),
        SourceOp::Ring(p) => {
            if p.finished() {
                p.result_view() == Some(out)
            } else {
                &&& p.submitted()
                &&& (ex matches Executor::Ring(ring) && ring.slot_view(p.token())
                    matches SlotView::Complete { desc, res } && ring_outcome(
                    p.op_kind(),
                    p.buf_view(),
                    desc,
                    res,
                    out,
                ))
            }
        },
    }
}

/// Whether some result is due from this operation's next poll.
pub open spec fn deliverable(op: SourceOp, ex: Executor) -> bool {
    exists|out: Result<IoDone, Error>| delivered(op, ex, out)
}

impl Pollable for SourceOp {
    type Output = Result<IoDone, Error>;

    /// Finished with nothing left to claim.
    open spec fn resolved(&self) -> bool {
        match self {
            SourceOp::Poll(op) => op.finished() && op.result_view() is None,
            SourceOp::Ring(op) => op.finished() && op.result_view() is None,
        }
    }

    /// The operation's family matches the executor's completion strategy.
    open spec fn fits(&self, kind: ExecutorKind) -> bool {
        &&& self.wf()
        &&& match self {
            SourceOp::Poll(_) => kind == ExecutorKind::Poll,
            SourceOp::Ring(_) => kind == ExecutorKind::Ring,
        }
    }

    /// Polling delivers exactly what is due: whenever a result is due from
    /// this operation (`deliverable`), the poll returns it, and whatever it
    /// returns is the due result (`delivered`); a completion-backed
    /// operation that returns nothing leaves the executor untouched.
    fn poll(&mut self, ex: &mut Executor) -> (r: Option<Result<IoDone, Error>>)
        ensures
            deliverable(*old(self), *old(ex)) ==> r is Some,
            r matches Some(o) ==> delivered(*old(self), *old(ex), o),
            old(self) matches SourceOp::Ring(_) && r is None ==> *final(ex) == *old(ex),
    {
        match self {
            SourceOp::Poll(op) => match ex {
                Executor::Poll(reg) => op.poll(reg),
                Executor::Ring(_) => None,
            },
            SourceOp::Ring(op) => match ex {
                Executor::Ring(ring) => op.poll(ring),
                Executor::Poll(_) => None,
            },
        }
    }
}

/// The discriminated result of a six-way race: which future finished, and
/// with what.
#[derive(PartialEq, Eq, Debug)]
pub enum SelectResult<T1, T2, T3, T4, T5, T6> {
    First(T1),
    Second(T2),
    Third(T3),
    Fourth(T4),
    Fifth(T5),
    Sixth(T6),
}

/// Six futures racing to first completion. Polling polls the children in
/// fixed index order — deterministic for a build — and resolves with the
/// first to finish; the rest are never polled again and are dropped with the
/// combinator, their registrations cancelled by their own drop paths.
pub struct Select6<F1, F2, F3, F4, F5, F6> {
    pub f1: F1,
    pub f2: F2,
    pub f3: F3,
    pub f4: F4,
    pub f5: F5,
    pub f6: F6,
    pub done: bool,
}

/// Races six futures; the combined future resolves with the first to finish.
pub fn select6<F1, F2, F3, F4, F5, F6>(f1: F1, f2: F2, f3: F3, f4: F4, f5: F5, f6: F6) -> (r:
    Select6<F1, F2, F3, F4, F5, F6>)
    ensures
        !r.resolved(),
        r.f1 == f1 && r.f2 == f2 && r.f3 == f3 && r.f4 == f4 && r.f5 == f5 && r.f6 == f6,
{
    Select6 { f1, f2, f3, f4, f5, f6, done: false }
}

impl<F1, F2, F3, F4, F5, F6> Select6<F1, F2, F3, F4, F5, F6> {
    /// Resolved: one child finished and none will be polled again.
    pub open spec fn resolved(self) -> bool {
        self.done
    }
}

impl<
    F1: Pollable,
    F2: Pollable,
    F3: Pollable,
    F4: Pollable,
    F5: Pollable,
    F6: Pollable,
> Pollable for Select6<F1, F2, F3, F4, F5, F6> {
    type Output = SelectResult<
        F1::Output,
        F2::Output,
        F3::Output,
        F4::Output,
        F5::Output,
        F6::Output,
    >;

    open spec fn resolved(&self) -> bool {
        Select6::resolved(*self)
    }

    /// All six children fit the same completion strategy.
    open spec fn fits(&self, kind: ExecutorKind) -> bool {
        &&& self.f1.fits(kind)
        &&& self.f2.fits(kind)
        &&& self.f3.fits(kind)
        &&& self.f4.fits(kind)
        &&& self.f5.fits(kind)
        &&& self.f6.fits(kind)
    }

    /// Polls the children in index order and resolves with the first ready
    /// result; the children after the winner are not polled in that step,
    /// and after resolution nothing is ever polled again. For a race of six
    /// source operations, `poll_sources` states the delivery exactly: which
    /// child wins and with what result.
    fn poll(&mut self, ex: &mut Executor) -> (r: Option<Self::Output>)
        ensures
            r matches Some(SelectResult::First(_)) ==> final(self).f2 == old(self).f2 && final(self).f3 == old(self).f3 && final(self).f4 == old(self).f4 && final(self).f5 == old(self).f5 && final(self).f6 == old(self).f6,
            r matches Some(SelectResult::Second(_)) ==> final(self).f3 == old(self).f3 && final(self).f4 == old(self).f4 && final(self).f5 == old(self).f5 && final(self).f6 == old(self).f6,
            r matches Some(SelectResult::Third(_)) ==> final(self).f4 == old(self).f4 && final(self).f5 == old(self).f5 && final(self).f6 == old(self).f6,
            r matches Some(SelectResult::Fourth(_)) ==> final(self).f5 == old(self).f5 && final(self).f6 == old(self).f6,
            r matches Some(SelectResult::Fifth(_)) ==> final(self).f6 == old(self).f6,
            !old(self).resolved() && r is None ==> !final(self).resolved(),
    {
        if self.done {
            return None;
        }
        if let Some(v) = self.f1.poll(ex) {
            self.done = true;
            return Some(SelectResult::First(v));
        }
        if let Some(v) = self.f2.poll(ex) {
            self.done = true;
            return Some(SelectResult::Second(v));
        }
        if let Some(v) = self.f3.poll(ex) {
            self.done = true;
            return Some(SelectResult::Third(v));
        }
        if let Some(v) = self.f4.poll(ex) {
            self.done = true;
            return Some(SelectResult::Fourth(v));
        }
        if let Some(v) = self.f5.poll(ex) {
            self.done = true;
            return Some(SelectResult::Fifth(v));
        }
        if let Some(v) = self.f6.poll(ex) {
            self.done = true;
            return Some(SelectResult::Sixth(v));
        }
        None
    }
}

/// The tagged outcome of a race of six source operations.
pub type SourceRaceResult = SelectResult<
    Result<IoDone, Error>,
    Result<IoDone, Error>,
    Result<IoDone, Error>,
    Result<IoDone, Error>,
    Result<IoDone, Error>,
    Result<IoDone, Error>,
>;

impl Select6<SourceOp, SourceOp, SourceOp, SourceOp, SourceOp, SourceOp> {
    /// Polls the six source operations in index order and resolves with the
    /// first that has a result due, returning that child's own result under
    /// the matching tag; the children after the winner are not polled in
    /// that step, after resolution nothing is ever polled again, and with no
    /// result due anywhere the race stays pending and unresolved.
    pub fn poll_sources(&mut self, ex: &mut Executor) -> (r: Option<SourceRaceResult>)
        requires
            old(self).fits(old(ex).kind_of()),
            old(ex).wf(),
        ensures
            final(ex).wf(),
            final(ex).kind_of() == old(ex).kind_of(),
            final(self).fits(old(ex).kind_of()),
            old(self).resolved() ==> r is None && *final(self) == *old(self) && *final(ex) == *old(ex),
            r is Some ==> final(self).resolved(),
            !old(self).resolved() && r is None ==> !final(self).resolved(),
            !old(self).resolved() ==> {
                let e0 = *old(ex);
                &&& (deliverable(old(self).f1, e0) ==> (r matches Some(SelectResult::First(o))
                    && delivered(old(self).f1, e0, o)))
                &&& (!deliverable(old(self).f1, e0) && deliverable(old(self).f2, e0) ==> (r matches
                    Some(SelectResult::Second(o)) && delivered(old(self).f2, e0, o)))
                &&& (!deliverable(old(self).f1, e0) && !deliverable(old(self).f2, e0)
                    && deliverable(old(self).f3, e0) ==> (r matches Some(SelectResult::Third(o))
                    && delivered(old(self).f3, e0, o)))
                &&& (!deliverable(old(self).f1, e0) && !deliverable(old(self).f2, e0)
                    && !deliverable(old(self).f3, e0) && deliverable(old(self).f4, e0) ==> (r
                    matches Some(SelectResult::Fourth(o)) && delivered(old(self).f4, e0, o)))
                &&& (!deliverable(old(self).f1, e0) && !deliverable(old(self).f2, e0)
                    && !deliverable(old(self).f3, e0) && !deliverable(old(self).f4, e0)
                    && deliverable(old(self).f5, e0) ==> (r matches Some(SelectResult::Fifth(o))
                    && delivered(old(self).f5, e0, o)))
                &&& (!deliverable(old(self).f1, e0) && !deliverable(old(self).f2, e0)
                    && !deliverable(old(self).f3, e0) && !deliverable(old(self).f4, e0)
                    && !deliverable(old(self).f5, e0) && deliverable(old(self).f6, e0) ==> (r
                    matches Some(SelectResult::Sixth(o)) && delivered(old(self).f6, e0, o)))
            },
            r matches Some(SelectResult::First(_)) ==> final(self).f2 == old(self).f2 && final(self).f3 == old(self).f3 && final(self).f4 == old(self).f4 && final(self).f5 == old(self).f5 && final(self).f6 == old(self).f6,
            r matches Some(SelectResult::Second(_)) ==> final(self).f3 == old(self).f3 && final(self).f4 == old(self).f4 && final(self).f5 == old(self).f5 && final(self).f6 == old(self).f6,
            r matches Some(SelectResult::Third(_)) ==> final(self).f4 == old(self).f4 && final(self).f5 == old(self).f5 && final(self).f6 == old(self).f6,
            r matches Some(SelectResult::Fourth(_)) ==> final(self).f5 == old(self).f5 && final(self).f6 == old(self).f6,
            r matches Some(SelectResult::Fifth(_)) ==> final(self).f6 == old(self).f6,
    {
        if self.done {
            return None;
        }
        let ghost e0 = *old(ex);
        proof {
            lemma_ex_stable(old(self).f1, e0, *ex);
        }
        if let Some(v) = self.f1.poll(ex) {
            self.done = true;
            return Some(SelectResult::First(v));
        }
        proof {
            lemma_ex_stable(old(self).f2, e0, *ex);
        }
        if let Some(v) = self.f2.poll(ex) {
            self.done = true;
            return Some(SelectResult::Second(v));
        }
        proof {
            lemma_ex_stable(old(self).f3, e0, *ex);
        }
        if let Some(v) = self.f3.poll(ex) {
            self.done = true;
            return Some(SelectResult::Third(v));
        }
        proof {
            lemma_ex_stable(old(self).f4, e0, *ex);
        }
        if let Some(v) = self.f4.poll(ex) {
            self.done = true;
            return Some(SelectResult::Fourth(v));
        }
        proof {
            lemma_ex_stable(old(self).f5, e0, *ex);
        }
        if let Some(v) = self.f5.poll(ex) {
            self.done = true;
            return Some(SelectResult::Fifth(v));
        }
        proof {
            lemma_ex_stable(old(self).f6, e0, *ex);
        }
        if let Some(v) = self.f6.poll(ex) {
            self.done = true;
            return Some(SelectResult::Sixth(v));
        }
        None
    }
}

/// What is due from a readiness-backed operation does not depend on the
/// executor at all, and a completion-backed operation that yielded nothing
/// left the executor as it was: so delivery facts carry over between the
/// executor as a race step began and the executor a later child is polled
/// against.
proof fn lemma_ex_stable(op: SourceOp, ex_a: Executor, ex_b: Executor)
    requires
        op matches SourceOp::Poll(_) || ex_a == ex_b,
    ensures
        forall|out: Result<IoDone, Error>| delivered(op, ex_a, out) == delivered(op, ex_b, out),
        deliverable(op, ex_a) == deliverable(op, ex_b),
{
    assert forall|out: Result<IoDone, Error>|
        delivered(op, ex_a, out) == delivered(op, ex_b, out) by {}
    if deliverable(op, ex_a) {
        let out = choose|out: Result<IoDone, Error>| delivered(op, ex_a, out);
        assert(delivered(op, ex_b, out));
        assert(deliverable(op, ex_b));
    }
    if deliverable(op, ex_b) {
        let out = choose|out: Result<IoDone, Error>| delivered(op, ex_b, out);
        assert(delivered(op, ex_a, out));
        assert(deliverable(op, ex_a));
    }
}

} // verus!
