//! The completion-queue backend: a fixed-capacity table of in-flight
//! operations submitted to an asynchronous-I/O ring. Submission hands out an
//! opaque correlation token and fails fast with a saturation error when the
//! table is full. The embedding program performs each submitted operation and
//! reports its completion by token; exactly one completion resolves each
//! entry, a completion for a cancelled entry is discarded, and a completion
//! whose token matches no entry is a protocol violation.

use crate::sg::MemRegion;
use vstd::prelude::*;

verus! {

/// Submission and completion failures of the ring table.
#[derive(Clone, Copy, PartialEq, Eq, Structural, Debug)]
pub enum RingError {
    /// The in-flight table is full (or no unused token is left): deliberate
    /// backpressure, the caller must retry after a completion.
    Saturated,
    /// A completion named a token with no matching in-flight or cancelled
    /// entry: an executor-internal protocol violation, fatal.
    UnknownToken,
    /// A completion carried a payload whose shape or bounds do not fit the
    /// operation it resolves: an executor-internal protocol violation.
    Malformed,
}

/// One kernel operation, described fully at submission so the performer
/// needs nothing else: descriptor, offset, opcode and payload.
#[derive(PartialEq, Eq, Debug)]
pub enum OpDesc {
    /// Read up to `len` bytes at `offset`.
    ReadVec { fd: i32, offset: u64, len: usize },
    /// Write the bytes of `data` at `offset`.
    WriteVec { fd: i32, offset: u64, data: Vec<u8> },
    /// Read the 8-byte value of a countable notification object.
    ReadValue { fd: i32 },
    /// Wait until the descriptor is readable, completing with nothing.
    WaitReadable { fd: i32 },
    /// Flush completed writes to storage.
    Fsync { fd: i32 },
    /// Allocate or manipulate file space.
    Fallocate { fd: i32, offset: u64, space: u64, mode: u32 },
    /// Vectored read into the given backing-memory regions.
    ReadRegions { fd: i32, offset: u64, regions: Vec<MemRegion> },
    /// Vectored write from the given backing-memory regions.
    WriteRegions { fd: i32, offset: u64, regions: Vec<MemRegion> },
}

/// What a completed operation produced: bytes read, a byte count written,
/// or nothing beyond success.
#[derive(PartialEq, Eq, Debug)]
pub enum CqePayload {
    Bytes(Vec<u8>),
    Count(u64),
    Unit,
}

/// The state of one correlation token, as the contracts see it.
pub enum SlotView {
    /// No entry holds this token.
    Absent,
    /// Submitted; `started` says whether the performer has picked it up.
    InFlight { started: bool, desc: OpDesc },
    /// The waiting operation was dropped; the entry lingers until its
    /// completion arrives and is then discarded.
    Cancelled { desc: OpDesc },
    /// Completed and not yet claimed by the waiting operation.
    Complete { desc: OpDesc, res: Result<CqePayload, i32> },
}

enum SlotState {
    InFlight { started: bool },
    Cancelled,
    Complete { res: Result<CqePayload, i32> },
}

/// The fixed-capacity in-flight table of a completion-queue backend.
pub struct CompletionBackend {
    tokens: Vec<u64>,
    descs: Vec<OpDesc>,
    states: Vec<SlotState>,
    next_token: u64,
    capacity: usize,
}

impl CompletionBackend {
    /// How many operations may be in the table at once.
    pub closed spec fn capacity(self) -> nat {
        self.capacity as nat
    }

    /// How many entries the table holds (in-flight, cancelled or completed).
    pub closed spec fn occupied_count(self) -> nat {
        self.tokens@.len()
    }

    /// How many correlation tokens have ever been handed out; each
    /// submission consumes at most one, so callers can chain success
    /// guarantees.
    pub closed spec fn tokens_used(self) -> u64 {
        self.next_token
    }

    /// Unused tokens remain, so submission cannot fail for want of one.
    pub open spec fn tokens_left(self) -> bool {
        self.tokens_used() < u64::MAX
    }

    spec fn has_slot(self, t: u64) -> bool {
        exists|i: int| 0 <= i < self.tokens@.len() && self.tokens@[i] == t
    }

    spec fn idx_of(self, t: u64) -> int {
        choose|i: int| 0 <= i < self.tokens@.len() && self.tokens@[i] == t
    }

    /// The state of a token's entry, `Absent` if it has none.
    pub closed spec fn slot_view(self, t: u64) -> SlotView {
        if self.has_slot(t) {
            let i = self.idx_of(t);
            match self.states@[i] {
                SlotState::InFlight { started } => SlotView::InFlight {
                    started,
                    desc: self.descs@[i],
                },
                SlotState::Cancelled => SlotView::Cancelled { desc: self.descs@[i] },
                SlotState::Complete { res } => SlotView::Complete { desc: self.descs@[i], res },
            }
        } else {
            SlotView::Absent
        }
    }

    /// The table is consistent: the three columns are aligned, tokens are
    /// unique and below the next fresh one, and capacity is respected.
    pub closed spec fn wf(self) -> bool {
        &&& self.descs@.len() == self.tokens@.len()
        &&& self.states@.len() == self.tokens@.len()
        &&& forall|i: int, j: int|
            0 <= i < j < self.tokens@.len() ==> self.tokens@[i] != self.tokens@[j]
        &&& forall|i: int| 0 <= i < self.tokens@.len() ==> self.tokens@[i] < self.next_token
        &&& self.tokens@.len() <= self.capacity
    }

    /// An empty table that can hold up to `capacity` in-flight operations.
    pub fn new(capacity: usize) -> (r: CompletionBackend)
        ensures
            r.wf(),
            r.capacity() == capacity,
            r.occupied_count() == 0,
            r.tokens_used() == 0,
            forall|t: u64| r.slot_view(t) == SlotView::Absent,
    {
        let r = CompletionBackend {
            tokens: Vec::new(),
            descs: Vec::new(),
            states: Vec::new(),
            next_token: 0,
            capacity,
        };
        proof {
            assert forall|t: u64| r.slot_view(t) == SlotView::Absent by {
                assert(!r.has_slot(t));
            }
        }
        r
    }

    /// The entry at an index is the unique one for its token.
    proof fn lemma_tok_at(self, i: int)
        requires
            self.wf(),
            0 <= i < self.tokens@.len(),
        ensures
            self.has_slot(self.tokens@[i]),
            self.idx_of(self.tokens@[i]) == i,
    {
        assert(self.has_slot(self.tokens@[i])) by {
            assert(self.tokens@[i] == self.tokens@[i]);
        }
        let j = self.idx_of(self.tokens@[i]);
        if i != j {
            assert(self.tokens@[i] != self.tokens@[j]);
        }
    }

    /// Two tables with the same token column locate every token alike.
    proof fn lemma_same_tokens(a: CompletionBackend, b: CompletionBackend)
        requires
            a.tokens@ == b.tokens@,
            a.wf(),
            b.wf(),
        ensures
            forall|t: u64| a.has_slot(t) == b.has_slot(t),
            forall|t: u64| a.has_slot(t) ==> a.idx_of(t) == b.idx_of(t),
    {
        assert forall|t: u64| a.has_slot(t) == b.has_slot(t) by {
            if a.has_slot(t) {
                let i = a.idx_of(t);
                assert(b.tokens@[i] == t);
                assert(b.has_slot(t));
            }
            if b.has_slot(t) {
                let i = b.idx_of(t);
                assert(a.tokens@[i] == t);
                assert(a.has_slot(t));
            }
        }
        assert forall|t: u64| a.has_slot(t) implies a.idx_of(t) == b.idx_of(t) by {
            let i = a.idx_of(t);
            assert(a.tokens@[i] == t);
            assert(b.tokens@[i] == t);
            b.lemma_tok_at(i);
        }
    }

    /// Submits one operation: hands out a fresh correlation token, or fails
    /// fast with `Saturated` when the table is full, changing nothing. It
    /// never blocks: backpressure is this error, not a wait.
    pub fn submit(&mut self, desc: OpDesc) -> (r: Result<u64, RingError>)
        requires
            old(self).wf(),
        ensures
            final(self).wf(),
            final(self).capacity() == old(self).capacity(),
            r matches Err(e) ==> e == RingError::Saturated && *final(self) == *old(self) && (old(self).occupied_count() == old(self).capacity() || !old(self).tokens_left()),
            old(self).occupied_count() >= old(self).capacity() ==> r == Err::<u64, RingError>(
                RingError::Saturated,
            ),
            old(self).occupied_count() < old(self).capacity() && old(self).tokens_left() ==> r
                is Ok,
            final(self).tokens_used() <= old(self).tokens_used() + 1,
            r matches Ok(t) ==> {
                &&& old(self).slot_view(t) == SlotView::Absent
                &&& final(self).slot_view(t) == (SlotView::InFlight { started: false, desc })
                &&& final(self).occupied_count() == old(self).occupied_count() + 1
            },
            forall|t2: u64|
                (r matches Ok(t) ==> t2 != t) ==> final(self).slot_view(t2) == old(self).slot_view(
                    t2,
                ),
    {
        if self.tokens.len() >= self.capacity || self.next_token == u64::MAX {
            return Err(RingError::Saturated);
        }
        let token = self.next_token;
        self.next_token = token + 1;
        let ghost m = *self;
        self.tokens.push(token);
        self.descs.push(desc);
        self.states.push(SlotState::InFlight { started: false });
        proof {
            let s = *self;
            let o = *old(self);
            let n = o.tokens@.len() as int;
            assert(s.tokens@ == o.tokens@.push(token));
            assert forall|a: int, b: int| 0 <= a < b < n + 1 implies s.tokens@[a]
                != s.tokens@[b] by {
                if b == n {
                    assert(s.tokens@[a] == o.tokens@[a]);
                    assert(o.tokens@[a] < o.next_token);
                } else {
                    assert(o.tokens@[a] != o.tokens@[b]);
                }
            }
            assert forall|a: int| 0 <= a < n + 1 implies s.tokens@[a] < s.next_token by {
                if a < n {
                    assert(o.tokens@[a] < o.next_token);
                }
            }
            assert(s.wf());
            assert(!o.has_slot(token)) by {
                if o.has_slot(token) {
                    let j = o.idx_of(token);
                    assert(o.tokens@[j] < o.next_token);
                }
            }
            assert(o.slot_view(token) == SlotView::Absent);
            s.lemma_tok_at(n);
            assert(s.slot_view(token) == (SlotView::InFlight { started: false, desc }));
            assert forall|t2: u64| t2 != token implies s.slot_view(t2) == o.slot_view(t2) by {
                if s.has_slot(t2) {
                    let j = s.idx_of(t2);
                    assert(s.tokens@[j] == t2);
                    assert(j != n);
                    assert(o.tokens@[j] == t2);
                    assert(o.has_slot(t2));
                    o.lemma_tok_at(j);
                    s.lemma_tok_at(j);
                    assert(s.descs@[j] == o.descs@[j]);
                    assert(s.states@[j] == o.states@[j]);
                }
                if o.has_slot(t2) {
                    let j = o.idx_of(t2);
                    assert(o.tokens@[j] == t2);
                    assert(s.tokens@[j] == t2);
                    assert(s.has_slot(t2));
                }
            }
        }
        Ok(token)
    }

    /// Hands the performer one submitted operation it has not yet begun,
    /// marking it begun; `None` when no submitted work is waiting to start.
    pub fn take_work(&mut self) -> (r: Option<u64>)
        requires
            old(self).wf(),
        ensures
            final(self).wf(),
            final(self).capacity() == old(self).capacity(),
            final(self).occupied_count() == old(self).occupied_count(),
            final(self).tokens_used() == old(self).tokens_used(),
            r matches Some(t) ==> (old(self).slot_view(t) matches SlotView::InFlight {
                started: false,
                desc,
            } && final(self).slot_view(t) == (SlotView::InFlight { started: true, desc })),
            r is None ==> *final(self) == *old(self) && (forall|t: u64|
                !(#[trigger] old(self).slot_view(t) matches SlotView::InFlight {
                    started: false,
                    ..
                })),
            forall|t2: u64|
                (r matches Some(t) ==> t2 != t) ==> final(self).slot_view(t2) == old(self).slot_view(t2),
    {
        let n = self.tokens.len();
        let mut i: usize = 0;
        while i < n
            invariant
                old(self).wf(),
                n == old(self).tokens@.len(),
                i <= n,
                *self == *old(self),
                forall|j: int|
                    0 <= j < i ==> !((#[trigger] old(self).states@[j]) matches SlotState::InFlight {
                        started: false,
                    }),
            decreases n - i,
        {
            let waiting = match self.states[i] {
                SlotState::InFlight { started } => !started,
                _ => false,
            };
            if waiting {
                let token = self.tokens[i];
                self.states[i] = SlotState::InFlight { started: true };
                proof {
                    let s = *self;
                    let o = *old(self);
                    let ii = i as int;
                    assert(s.states@ == o.states@.update(ii, SlotState::InFlight {
                        started: true,
                    }));
                    assert(s.wf());
                    o.lemma_tok_at(ii);
                    Self::lemma_same_tokens(o, s);
                    s.lemma_tok_at(ii);
                    assert(o.slot_view(token) == (SlotView::InFlight {
                        started: false,
                        desc: o.descs@[ii],
                    }));
                    assert(s.slot_view(token) == (SlotView::InFlight {
                        started: true,
                        desc: o.descs@[ii],
                    }));
                    assert forall|t2: u64| t2 != token implies s.slot_view(t2) == o.slot_view(
                        t2,
                    ) by {
                        if o.has_slot(t2) {
                            let j = o.idx_of(t2);
                            assert(o.tokens@[j] == t2);
                            assert(j != ii);
                            assert(s.states@[j] == o.states@[j]);
                        }
                    }
                }
                return Some(token);
            }
            i = i + 1;
        }
        proof {
            let o = *old(self);
            assert forall|t: u64|
                !((#[trigger] o.slot_view(t)) matches SlotView::InFlight { started: false, .. }) by {
                if o.has_slot(t) {
                    let j = o.idx_of(t);
                    assert(!(o.states@[j] matches SlotState::InFlight { started: false }));
                }
            }
        }
        None
    }

    /// The operation description an entry was submitted with, for the
    /// performer.
    pub fn work_desc(&self, token: u64) -> (r: Option<&OpDesc>)
        requires
            self.wf(),
        ensures
            match r {
                Some(d) => {
                    ||| self.slot_view(token) matches SlotView::InFlight { desc, .. } && desc == *d
                    ||| self.slot_view(token) matches SlotView::Cancelled { desc } && desc == *d
                    ||| self.slot_view(token) matches SlotView::Complete { desc, .. } && desc == *d
                },
                None => self.slot_view(token) is Absent,
            },
    {
        let n = self.tokens.len();
        let mut i: usize = 0;
        while i < n
            invariant
                self.wf(),
                n == self.tokens@.len(),
                i <= n,
                forall|j: int| 0 <= j < i ==> self.tokens@[j] != token,
            decreases n - i,
        {
            if self.tokens[i] == token {
                proof {
                    self.lemma_tok_at(i as int);
                }
                return Some(&self.descs[i]);
            }
            i = i + 1;
        }
        proof {
            assert(!self.has_slot(token)) by {
                if self.has_slot(token) {
                    let j = self.idx_of(token);
                    assert(self.tokens@[j] != token);
                }
            }
        }
        None
    }

    /// Delivers one completion by token. An in-flight entry becomes complete
    /// and `Ok(true)` says the waiting operation can claim it; a completion
    /// for a cancelled entry is discarded and frees the slot, `Ok(false)`; a
    /// token with no such entry is a protocol violation, `Err(UnknownToken)`,
    /// and changes nothing.
    pub fn on_completion(&mut self, token: u64, res: Result<CqePayload, i32>) -> (r: Result<
        bool,
        RingError,
    >)
        requires
            old(self).wf(),
        ensures
            final(self).wf(),
            final(self).capacity() == old(self).capacity(),
            final(self).tokens_used() == old(self).tokens_used(),
            old(self).slot_view(token) matches SlotView::InFlight { desc, .. } ==> r == Ok::<bool, RingError>(true) && final(self).slot_view(token) == (SlotView::Complete { desc, res })
                && final(self).occupied_count() == old(self).occupied_count(),
            old(self).slot_view(token) matches SlotView::Cancelled { .. } ==> r == Ok::<bool, RingError>(false) && final(self).slot_view(token) == SlotView::Absent && final(self).occupied_count() == old(self).occupied_count() - 1,
            (old(self).slot_view(token) is Absent || old(self).slot_view(token) is Complete) ==> r
                == Err::<bool, RingError>(RingError::UnknownToken) && *final(self) == *old(self),
            forall|t2: u64|
                t2 != token ==> final(self).slot_view(t2) == old(self).slot_view(t2),
    {
        let n = self.tokens.len();
        let mut i: usize = 0;
        while i < n
            invariant
                old(self).wf(),
                n == old(self).tokens@.len(),
                i <= n,
                forall|j: int| 0 <= j < i ==> old(self).tokens@[j] != token,
                *self == *old(self),
            decreases n - i,
        {
            if self.tokens[i] == token {
                proof {
                    old(self).lemma_tok_at(i as int);
                }
                match self.states[i] {
                    SlotState::InFlight { .. } => {
                        self.states[i] = SlotState::Complete { res };
                        proof {
                            let s = *self;
                            let o = *old(self);
                            let ii = i as int;
                            assert(s.wf());
                            Self::lemma_same_tokens(o, s);
                            assert(s.slot_view(token) == (SlotView::Complete {
                                desc: o.descs@[ii],
                                res,
                            }));
                            assert forall|t2: u64| t2 != token implies s.slot_view(t2)
                                == o.slot_view(t2) by {
                                if o.has_slot(t2) {
                                    let j = o.idx_of(t2);
                                    assert(o.tokens@[j] == t2);
                                    assert(j != ii);
                                    assert(s.states@[j] == o.states@[j]);
                                }
                            }
                        }
                        return Ok(true);
                    }
                    SlotState::Cancelled => {
                        self.remove_at(i);
                        return Ok(false);
                    }
                    SlotState::Complete { .. } => {
                        return Err(RingError::UnknownToken);
                    }
                }
            }
            i = i + 1;
        }
        proof {
            let o = *old(self);
            assert(!o.has_slot(token)) by {
                if o.has_slot(token) {
                    let j = o.idx_of(token);
                    assert(o.tokens@[j] != token);
                }
            }
        }
        Err(RingError::UnknownToken)
    }

    /// Removes the entry at an index, shifting the rest left.
    fn remove_at(&mut self, i: usize)
        requires
            old(self).wf(),
            i < old(self).tokens@.len(),
        ensures
            final(self).wf(),
            final(self).capacity() == old(self).capacity(),
            final(self).tokens_used() == old(self).tokens_used(),
            final(self).occupied_count() == old(self).occupied_count() - 1,
            final(self).slot_view(old(self).tokens@[i as int]) == SlotView::Absent,
            forall|t2: u64|
                t2 != old(self).tokens@[i as int] ==> final(self).slot_view(t2) == old(self).slot_view(t2),
    {
        let ghost token = self.tokens@[i as int];
        self.tokens.remove(i);
        self.descs.remove(i);
        self.states.remove(i);
        proof {
            let s = *self;
            let o = *old(self);
            let ii = i as int;
            let m = s.tokens@.len() as int;
            o.tokens@.remove_ensures(ii);
            o.descs@.remove_ensures(ii);
            o.states@.remove_ensures(ii);
            assert forall|a: int, b: int| 0 <= a < b < m implies s.tokens@[a] != s.tokens@[b] by {
                let oa = if a < ii { a } else { a + 1 };
                let ob = if b < ii { b } else { b + 1 };
                assert(s.tokens@[a] == o.tokens@[oa]);
                assert(s.tokens@[b] == o.tokens@[ob]);
                assert(o.tokens@[oa] != o.tokens@[ob]);
            }
            assert forall|a: int| 0 <= a < m implies s.tokens@[a] < s.next_token by {
                let oa = if a < ii { a } else { a + 1 };
                assert(s.tokens@[a] == o.tokens@[oa]);
                assert(o.tokens@[oa] < o.next_token);
            }
            assert(s.wf());
            o.lemma_tok_at(ii);
            assert(!s.has_slot(token)) by {
                if s.has_slot(token) {
                    let j = s.idx_of(token);
                    let oj = if j < ii { j } else { j + 1 };
                    assert(s.tokens@[j] == o.tokens@[oj]);
                    assert(o.tokens@[oj] == o.tokens@[ii]);
                    assert(false);
                }
            }
            assert forall|t2: u64| t2 != token implies s.slot_view(t2) == o.slot_view(t2) by {
                if s.has_slot(t2) {
                    let j = s.idx_of(t2);
                    let oj = if j < ii { j } else { j + 1 };
                    assert(s.tokens@[j] == o.tokens@[oj]);
                    assert(o.has_slot(t2)) by {
                        assert(o.tokens@[oj] == t2);
                    }
                    o.lemma_tok_at(oj);
                    assert(s.descs@[j] == o.descs@[oj]);
                    assert(s.states@[j] == o.states@[oj]);
                }
                if o.has_slot(t2) {
                    let j = o.idx_of(t2);
                    assert(o.tokens@[j] == t2);
                    assert(j != ii);
                    let sj = if j < ii { j } else { j - 1 };
                    assert(s.tokens@[sj] == o.tokens@[j]);
                    assert(s.has_slot(t2)) by {
                        assert(s.tokens@[sj] == t2);
                    }
                }
            }
        }
    }

    /// Claims a completed entry: the waiting operation takes back its
    /// description (with any buffer it carried) and the kernel's verbatim
    /// result, freeing the slot. `None` while the entry is still in flight
    /// or absent, changing nothing.
    pub fn claim(&mut self, token: u64) -> (r: Option<(OpDesc, Result<CqePayload, i32>)>)
        requires
            old(self).wf(),
        ensures
            final(self).wf(),
            final(self).capacity() == old(self).capacity(),
            final(self).tokens_used() == old(self).tokens_used(),
            old(self).slot_view(token) matches SlotView::Complete { desc, res } ==> r == Some(
                (desc, res),
            ) && final(self).slot_view(token) == SlotView::Absent && final(self).occupied_count()
                == old(self).occupied_count() - 1,
            !(old(self).slot_view(token) is Complete) ==> r is None && *final(self) == *old(self),
            forall|t2: u64|
                t2 != token ==> final(self).slot_view(t2) == old(self).slot_view(t2),
    {
        let n = self.tokens.len();
        let mut i: usize = 0;
        while i < n
            invariant
                old(self).wf(),
                n == old(self).tokens@.len(),
                i <= n,
                forall|j: int| 0 <= j < i ==> old(self).tokens@[j] != token,
                *self == *old(self),
            decreases n - i,
        {
            if self.tokens[i] == token {
                proof {
                    old(self).lemma_tok_at(i as int);
                }
                let is_complete = match self.states[i] {
                    SlotState::Complete { .. } => true,
                    _ => false,
                };
                if !is_complete {
                    return None;
                }
                let ghost o = *old(self);
                self.tokens.remove(i);
                let desc = self.descs.remove(i);
                let state = self.states.remove(i);
                let res = match state {
                    SlotState::Complete { res } => res,
                    _ => {
                        return None;  // unreachable: the entry was complete
                    }
                };
                proof {
                    let s = *self;
                    let ii = i as int;
                    let m = s.tokens@.len() as int;
                    o.tokens@.remove_ensures(ii);
                    o.descs@.remove_ensures(ii);
                    o.states@.remove_ensures(ii);
                    assert forall|a: int, b: int| 0 <= a < b < m implies s.tokens@[a]
                        != s.tokens@[b] by {
                        let oa = if a < ii { a } else { a + 1 };
                        let ob = if b < ii { b } else { b + 1 };
                        assert(s.tokens@[a] == o.tokens@[oa]);
                        assert(s.tokens@[b] == o.tokens@[ob]);
                        assert(o.tokens@[oa] != o.tokens@[ob]);
                    }
                    assert forall|a: int| 0 <= a < m implies s.tokens@[a] < s.next_token by {
                        let oa = if a < ii { a } else { a + 1 };
                        assert(s.tokens@[a] == o.tokens@[oa]);
                        assert(o.tokens@[oa] < o.next_token);
                    }
                    assert(s.wf());
                    assert(o.slot_view(token) == (SlotView::Complete { desc, res }));
                    assert(!s.has_slot(token)) by {
                        if s.has_slot(token) {
                            let j = s.idx_of(token);
                            let oj = if j < ii { j } else { j + 1 };
                            assert(s.tokens@[j] == o.tokens@[oj]);
                            assert(o.tokens@[oj] == o.tokens@[ii]);
                            assert(false);
                        }
                    }
                    assert forall|t2: u64| t2 != token implies s.slot_view(t2) == o.slot_view(
                        t2,
                    ) by {
                        if s.has_slot(t2) {
                            let j = s.idx_of(t2);
                            let oj = if j < ii { j } else { j + 1 };
                            assert(s.tokens@[j] == o.tokens@[oj]);
                            assert(o.has_slot(t2)) by {
                                assert(o.tokens@[oj] == t2);
                            }
                            o.lemma_tok_at(oj);
                            assert(s.descs@[j] == o.descs@[oj]);
                            assert(s.states@[j] == o.states@[oj]);
                        }
                        if o.has_slot(t2) {
                            let j = o.idx_of(t2);
                            assert(o.tokens@[j] == t2);
                            assert(j != ii);
                            let sj = if j < ii { j } else { j - 1 };
                            assert(s.tokens@[sj] == o.tokens@[j]);
                            assert(s.has_slot(t2)) by {
                                assert(s.tokens@[sj] == t2);
                            }
                        }
                    }
                }
                return Some((desc, res));
            }
            i = i + 1;
        }
        proof {
            let o = *old(self);
            assert(!o.has_slot(token)) by {
                if o.has_slot(token) {
                    let j = o.idx_of(token);
                    assert(o.tokens@[j] != token);
                }
            }
        }
        None
    }

    /// Abandons a waiting operation. An in-flight entry is marked cancelled
    /// and lingers until its completion arrives, which is then a harmless
    /// discard; a completed entry's unclaimed result is dropped and its slot
    /// freed. The token can never again be claimed.
    pub fn cancel(&mut self, token: u64)
        requires
            old(self).wf(),
        ensures
            final(self).wf(),
            final(self).capacity() == old(self).capacity(),
            final(self).tokens_used() == old(self).tokens_used(),
            old(self).slot_view(token) matches SlotView::InFlight { desc, .. } ==> final(self).slot_view(token) == (SlotView::Cancelled { desc }),
            old(self).slot_view(token) is Complete ==> final(self).slot_view(token)
                == SlotView::Absent,
            (old(self).slot_view(token) is Absent || old(self).slot_view(token) is Cancelled)
                ==> *final(self) == *old(self),
            !(final(self).slot_view(token) is InFlight) && !(final(self).slot_view(token)
                is Complete),
            forall|t2: u64|
                t2 != token ==> final(self).slot_view(t2) == old(self).slot_view(t2),
    {
        let n = self.tokens.len();
        let mut i: usize = 0;
        while i < n
            invariant
                old(self).wf(),
                n == old(self).tokens@.len(),
                i <= n,
                forall|j: int| 0 <= j < i ==> old(self).tokens@[j] != token,
                *self == *old(self),
            decreases n - i,
        {
            if self.tokens[i] == token {
                proof {
                    old(self).lemma_tok_at(i as int);
                }
                match self.states[i] {
                    SlotState::InFlight { .. } => {
                        self.states[i] = SlotState::Cancelled;
                        proof {
                            let s = *self;
                            let o = *old(self);
                            let ii = i as int;
                            assert(s.wf());
                            Self::lemma_same_tokens(o, s);
                            assert(s.slot_view(token) == (SlotView::Cancelled {
                                desc: o.descs@[ii],
                            }));
                            assert forall|t2: u64| t2 != token implies s.slot_view(t2)
                                == o.slot_view(t2) by {
                                if o.has_slot(t2) {
                                    let j = o.idx_of(t2);
                                    assert(o.tokens@[j] == t2);
                                    assert(j != ii);
                                    assert(s.states@[j] == o.states@[j]);
                                }
                            }
                        }
                        return ;
                    }
                    SlotState::Complete { .. } => {
                        self.remove_at(i);
                        return ;
                    }
                    SlotState::Cancelled => {
                        return ;
                    }
                }
            }
            i = i + 1;
        }
        proof {
            let o = *old(self);
            assert(!o.has_slot(token)) by {
                if o.has_slot(token) {
                    let j = o.idx_of(token);
                    assert(o.tokens@[j] != token);
                }
            }
        }
    }
}

} // verus!
