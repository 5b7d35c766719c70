//! The readiness backend: a registry mapping (descriptor, direction) to a
//! wakeup token. The embedding program performs the blocking demultiplexing
//! call over the registered interests and reports each descriptor that became
//! ready; the registry then fires the matching token exactly once and drops
//! the registration, so every wait must be re-registered.

use vstd::prelude::*;

verus! {

/// The direction of readiness an operation waits for.
#[derive(Clone, Copy, PartialEq, Eq, Structural, Debug)]
pub enum Direction {
    Read,
    Write,
}

/// Why a registration was refused: the registry's resources are exhausted
/// (its table is full, or no unused token is left).
#[derive(Clone, Copy, PartialEq, Eq, Structural, Debug)]
pub enum ReadinessError {
    RegistryFull,
}

struct Registration {
    fd: i32,
    dir: Direction,
    token: u64,
}

/// A registry of readiness interests with at-most-one registration per
/// (descriptor, direction) key and at-most-once token delivery.
pub struct ReadinessBackend {
    entries: Vec<Registration>,
    fired: Vec<u64>,
    next_token: u64,
    capacity: usize,
}

impl ReadinessBackend {
    /// How many registrations the registry accepts at once.
    pub closed spec fn capacity(self) -> nat {
        self.capacity as nat
    }

    /// How many registrations are pending.
    pub closed spec fn pending_count(self) -> nat {
        self.entries@.len()
    }

    /// How many wakeup tokens have ever been handed out; each registration
    /// consumes at most one, so callers can chain success guarantees.
    pub closed spec fn tokens_used(self) -> u64 {
        self.next_token
    }

    /// Unused tokens remain, so a registration cannot fail for want of one.
    pub open spec fn tokens_left(self) -> bool {
        self.tokens_used() < u64::MAX
    }

    spec fn key_at(self, i: int) -> (int, Direction) {
        (self.entries@[i].fd as int, self.entries@[i].dir)
    }

    /// Whether a registration for this (descriptor, direction) key is pending.
    pub closed spec fn registered(self, fd: int, dir: Direction) -> bool {
        exists|i: int| 0 <= i < self.entries@.len() && self.key_at(i) == (fd, dir)
    }

    spec fn idx_of(self, fd: int, dir: Direction) -> int {
        choose|i: int| 0 <= i < self.entries@.len() && self.key_at(i) == (fd, dir)
    }

    /// The token a pending registration will fire with.
    pub closed spec fn token_of(self, fd: int, dir: Direction) -> u64 {
        self.entries@[self.idx_of(fd, dir)].token
    }

    /// Whether this token belongs to some pending registration.
    pub closed spec fn waiting_token(self, t: u64) -> bool {
        exists|i: int| 0 <= i < self.entries@.len() && self.entries@[i].token == t
    }

    /// Whether this token has fired and has not yet been consumed.
    pub closed spec fn fired_token(self, t: u64) -> bool {
        self.fired@.contains(t)
    }

    /// The registry is consistent: keys and tokens are unique, no token is
    /// both pending and fired, and the table is within capacity.
    pub closed spec fn wf(self) -> bool {
        &&& forall|i: int, j: int|
            0 <= i < j < self.entries@.len() ==> self.key_at(i) != self.key_at(j)
        &&& forall|i: int, j: int|
            0 <= i < j < self.entries@.len() ==> self.entries@[i].token != self.entries@[j].token
        &&& forall|i: int| 0 <= i < self.entries@.len() ==> self.entries@[i].token < self.next_token
        &&& forall|i: int, j: int|
            0 <= i < j < self.fired@.len() ==> self.fired@[i] != self.fired@[j]
        &&& forall|i: int| 0 <= i < self.fired@.len() ==> self.fired@[i] < self.next_token
        &&& forall|i: int, j: int|
            0 <= i < self.entries@.len() && 0 <= j < self.fired@.len() ==> self.entries@[i].token
                != self.fired@[j]
        &&& self.entries@.len() <= self.capacity
    }

    /// An empty registry that can hold up to `capacity` interests.
    pub fn new(capacity: usize) -> (r: ReadinessBackend)
        ensures
            r.wf(),
            r.capacity() == capacity,
            r.pending_count() == 0,
            r.tokens_used() == 0,
            forall|fd: int, dir: Direction| !r.registered(fd, dir),
            forall|t: u64| !r.fired_token(t) && !r.waiting_token(t),
    {
        ReadinessBackend { entries: Vec::new(), fired: Vec::new(), next_token: 0, capacity }
    }

    /// Two registries with the same entry table agree on every registration
    /// fact, whatever their other fields hold.
    proof fn lemma_same_entries(a: ReadinessBackend, b: ReadinessBackend)
        requires
            a.entries@ == b.entries@,
            a.wf(),
            b.wf(),
        ensures
            forall|fd: int, dir: Direction|
                a.registered(fd, dir) == b.registered(fd, dir),
            forall|fd: int, dir: Direction|
                a.registered(fd, dir) ==> a.token_of(fd, dir) == b.token_of(fd, dir),
            forall|t: u64| a.waiting_token(t) == b.waiting_token(t),
    {
        assert forall|fd: int, dir: Direction|
            a.registered(fd, dir) == b.registered(fd, dir) by {
            if a.registered(fd, dir) {
                let i = a.idx_of(fd, dir);
                assert(a.key_at(i) == (fd, dir));
                assert(b.key_at(i) == (fd, dir));
                assert(b.registered(fd, dir));
            }
            if b.registered(fd, dir) {
                let i = b.idx_of(fd, dir);
                assert(b.key_at(i) == (fd, dir));
                assert(a.key_at(i) == (fd, dir));
                assert(a.registered(fd, dir));
            }
        }
        assert forall|fd: int, dir: Direction| a.registered(fd, dir) implies a.token_of(fd, dir)
            == b.token_of(fd, dir) by {
            let i = a.idx_of(fd, dir);
            assert(a.key_at(i) == (fd, dir));
            a.lemma_token_at(i);
            b.lemma_token_at(i);
        }
        assert forall|t: u64| a.waiting_token(t) == b.waiting_token(t) by {
            if a.waiting_token(t) {
                let i = choose|i: int| 0 <= i < a.entries@.len() && a.entries@[i].token == t;
                assert(b.entries@[i].token == t);
                assert(b.waiting_token(t));
            }
            if b.waiting_token(t) {
                let i = choose|i: int| 0 <= i < b.entries@.len() && b.entries@[i].token == t;
                assert(a.entries@[i].token == t);
                assert(a.waiting_token(t));
            }
        }
    }

    /// Every entry that holds a key carries the key's `token_of`: there is
    /// exactly one such entry.
    proof fn lemma_token_at(self, i: int)
        requires
            self.wf(),
            0 <= i < self.entries@.len(),
        ensures
            self.registered(self.entries@[i].fd as int, self.entries@[i].dir),
            self.token_of(self.entries@[i].fd as int, self.entries@[i].dir)
                == self.entries@[i].token,
    {
        let fd = self.entries@[i].fd as int;
        let dir = self.entries@[i].dir;
        assert(self.key_at(i) == (fd, dir));
        let j = self.idx_of(fd, dir);
        if i != j {
            assert(self.key_at(i) != self.key_at(j));
        }
    }

    /// Removes the registration for a key, handing back its token.
    fn remove_entry_by_key(&mut self, fd: i32, dir: Direction) -> (r: Option<u64>)
        requires
            old(self).wf(),
        ensures
            final(self).wf(),
            final(self).capacity == old(self).capacity,
            final(self).fired@ == old(self).fired@,
            final(self).next_token == old(self).next_token,
            old(self).registered(fd as int, dir) ==> r == Some(old(self).token_of(fd as int, dir))
                && final(self).pending_count() == old(self).pending_count() - 1,
            !old(self).registered(fd as int, dir) ==> r is None && *final(self) == *old(self),
            !final(self).registered(fd as int, dir),
            r matches Some(t) ==> old(self).waiting_token(t) && !final(self).waiting_token(t),
            forall|t2: u64|
                (r matches Some(t) ==> t2 != t) ==> final(self).waiting_token(t2) == old(self).waiting_token(t2),
            forall|fd2: int, dir2: Direction|
                (fd2, dir2) != (fd as int, dir) ==> final(self).registered(fd2, dir2) == old(self).registered(fd2, dir2) && (old(self).registered(fd2, dir2) ==> final(self).token_of(fd2, dir2) == old(self).token_of(fd2, dir2)),
    {
        let n = self.entries.len();
        let mut i: usize = 0;
        while i < n
            invariant
                old(self).wf(),
                n == old(self).entries@.len(),
                i <= n,
                forall|j: int| 0 <= j < i ==> old(self).key_at(j) != (fd as int, dir),
                *self == *old(self),
            decreases n - i,
        {
            if self.entries[i].fd == fd && self.entries[i].dir == dir {
                let token = self.entries[i].token;
                self.entries.remove(i);
                proof {
                    let s = *self;
                    let o = *old(self);
                    let ii = i as int;
                    let m = s.entries@.len() as int;
                    assert(o.key_at(ii) == (fd as int, dir));
                    o.lemma_token_at(ii);
                    assert(s.entries@ == o.entries@.remove(ii));
                    o.entries@.remove_ensures(ii);
                    assert(m == o.entries@.len() - 1);
                    assert forall|a: int, b: int| 0 <= a < b < m implies s.key_at(a) != s.key_at(
                        b,
                    ) by {
                        let oa = if a < ii { a } else { a + 1 };
                        let ob = if b < ii { b } else { b + 1 };
                        assert(s.entries@[a] == o.entries@[oa]);
                        assert(s.entries@[b] == o.entries@[ob]);
                        assert(o.key_at(oa) != o.key_at(ob));
                    }
                    assert forall|a: int, b: int| 0 <= a < b < m implies s.entries@[a].token
                        != s.entries@[b].token by {
                        let oa = if a < ii { a } else { a + 1 };
                        let ob = if b < ii { b } else { b + 1 };
                        assert(s.entries@[a] == o.entries@[oa]);
                        assert(s.entries@[b] == o.entries@[ob]);
                        assert(o.entries@[oa].token != o.entries@[ob].token);
                    }
                    assert forall|a: int| 0 <= a < m implies s.entries@[a].token < s.next_token by {
                        let oa = if a < ii { a } else { a + 1 };
                        assert(s.entries@[a] == o.entries@[oa]);
                        assert(o.entries@[oa].token < o.next_token);
                    }
                    assert forall|a: int, b: int|
                        0 <= a < m && 0 <= b < s.fired@.len() implies s.entries@[a].token
                        != s.fired@[b] by {
                        let oa = if a < ii { a } else { a + 1 };
                        assert(s.entries@[a] == o.entries@[oa]);
                        assert(o.entries@[oa].token != o.fired@[b]);
                    }
                    assert(s.wf());
                    assert(!s.registered(fd as int, dir)) by {
                        if s.registered(fd as int, dir) {
                            let j = choose|j: int| 0 <= j < m && s.key_at(j) == (fd as int, dir);
                            let oj = if j < ii { j } else { j + 1 };
                            assert(s.entries@[j] == o.entries@[oj]);
                            assert(o.key_at(oj) == (fd as int, dir));
                            assert(oj != ii);
                            assert(false);
                        }
                    }
                    assert(!s.waiting_token(token)) by {
                        if s.waiting_token(token) {
                            let j = choose|j: int| 0 <= j < m && s.entries@[j].token == token;
                            let oj = if j < ii { j } else { j + 1 };
                            assert(s.entries@[j] == o.entries@[oj]);
                            assert(o.entries@[oj].token == o.entries@[ii].token);
                            assert(false);
                        }
                    }
                    assert(o.waiting_token(token)) by {
                        assert(o.entries@[ii].token == token);
                    }
                    assert forall|t2: u64| t2 != token implies s.waiting_token(t2)
                        == o.waiting_token(t2) by {
                        if s.waiting_token(t2) {
                            let j = choose|j: int| 0 <= j < m && s.entries@[j].token == t2;
                            let oj = if j < ii { j } else { j + 1 };
                            assert(s.entries@[j] == o.entries@[oj]);
                            assert(o.waiting_token(t2)) by {
                                assert(o.entries@[oj].token == t2);
                            }
                        }
                        if o.waiting_token(t2) {
                            let j = choose|j: int|
                                0 <= j < o.entries@.len() && o.entries@[j].token == t2;
                            assert(j != ii);
                            let sj = if j < ii { j } else { j - 1 };
                            assert(s.entries@[sj] == o.entries@[j]);
                            assert(s.waiting_token(t2)) by {
                                assert(s.entries@[sj].token == t2);
                            }
                        }
                    }
                    assert forall|fd2: int, dir2: Direction|
                        (fd2, dir2) != (fd as int, dir) implies s.registered(fd2, dir2)
                        == o.registered(fd2, dir2) && (o.registered(fd2, dir2) ==> s.token_of(
                        fd2,
                        dir2,
                    ) == o.token_of(fd2, dir2)) by {
                        if o.registered(fd2, dir2) {
                            let j = o.idx_of(fd2, dir2);
                            assert(o.key_at(j) == (fd2, dir2));
                            o.lemma_token_at(j);
                            assert(j != ii);
                            let sj = if j < ii { j } else { j - 1 };
                            assert(s.entries@[sj] == o.entries@[j]);
                            assert(s.key_at(sj) == (fd2, dir2));
                            assert(s.registered(fd2, dir2));
                            s.lemma_token_at(sj);
                        }
                        if s.registered(fd2, dir2) {
                            let j = choose|j: int| 0 <= j < m && s.key_at(j) == (fd2, dir2);
                            let oj = if j < ii { j } else { j + 1 };
                            assert(s.entries@[j] == o.entries@[oj]);
                            assert(o.key_at(oj) == (fd2, dir2));
                            assert(o.registered(fd2, dir2));
                        }
                    }
                }
                return Some(token);
            }
            i = i + 1;
        }
        proof {
            let o = *old(self);
            assert(!o.registered(fd as int, dir)) by {
                if o.registered(fd as int, dir) {
                    let j = choose|j: int|
                        0 <= j < o.entries@.len() && o.key_at(j) == (fd as int, dir);
                    assert(o.key_at(j) != (fd as int, dir));
                }
            }
        }
        None
    }

    /// Appends a fresh registration for a key that has none.
    fn push_entry(&mut self, fd: i32, dir: Direction, token: u64)
        requires
            old(self).wf(),
            !old(self).registered(fd as int, dir),
            !old(self).waiting_token(token),
            !old(self).fired_token(token),
            token < old(self).next_token,
            old(self).pending_count() < old(self).capacity(),
        ensures
            final(self).wf(),
            final(self).capacity == old(self).capacity,
            final(self).fired@ == old(self).fired@,
            final(self).next_token == old(self).next_token,
            final(self).registered(fd as int, dir),
            final(self).token_of(fd as int, dir) == token,
            final(self).waiting_token(token),
            final(self).pending_count() == old(self).pending_count() + 1,
            forall|t2: u64|
                t2 != token ==> final(self).waiting_token(t2) == old(self).waiting_token(t2),
            forall|fd2: int, dir2: Direction|
                (fd2, dir2) != (fd as int, dir) ==> final(self).registered(fd2, dir2) == old(self).registered(fd2, dir2) && (old(self).registered(fd2, dir2) ==> final(self).token_of(fd2, dir2) == old(self).token_of(fd2, dir2)),
    {
        self.entries.push(Registration { fd, dir, token });
        proof {
            let s = *self;
            let o = *old(self);
            let n = o.entries@.len() as int;
            assert(s.entries@ == o.entries@.push(Registration { fd, dir, token }));
            assert(s.entries@[n] == Registration { fd, dir, token });
            assert(s.key_at(n) == (fd as int, dir));
            assert forall|a: int, b: int| 0 <= a < b < n + 1 implies s.key_at(a) != s.key_at(
                b,
            ) by {
                if b == n {
                    assert(s.entries@[a] == o.entries@[a]);
                    if s.key_at(a) == (fd as int, dir) {
                        assert(o.key_at(a) == (fd as int, dir));
                        assert(o.registered(fd as int, dir));
                    }
                } else {
                    assert(s.entries@[a] == o.entries@[a]);
                    assert(s.entries@[b] == o.entries@[b]);
                    assert(o.key_at(a) != o.key_at(b));
                }
            }
            assert forall|a: int, b: int| 0 <= a < b < n + 1 implies s.entries@[a].token
                != s.entries@[b].token by {
                if b == n {
                    assert(s.entries@[a] == o.entries@[a]);
                    if s.entries@[a].token == token {
                        assert(o.waiting_token(token)) by {
                            assert(o.entries@[a].token == token);
                        }
                    }
                } else {
                    assert(o.entries@[a].token != o.entries@[b].token);
                }
            }
            assert forall|a: int| 0 <= a < n + 1 implies s.entries@[a].token < s.next_token by {
                if a < n {
                    assert(s.entries@[a] == o.entries@[a]);
                    assert(o.entries@[a].token < o.next_token);
                }
            }
            assert forall|a: int, b: int|
                0 <= a < n + 1 && 0 <= b < s.fired@.len() implies s.entries@[a].token
                != s.fired@[b] by {
                if a < n {
                    assert(s.entries@[a] == o.entries@[a]);
                    assert(o.entries@[a].token != o.fired@[b]);
                } else {
                    assert(s.entries@[a].token == token);
                    if s.fired@[b] == token {
                        assert(o.fired_token(token)) by {
                            assert(o.fired@[b] == token);
                        }
                    }
                }
            }
            assert(s.wf());
            s.lemma_token_at(n);
            assert(s.waiting_token(token)) by {
                assert(s.entries@[n].token == token);
            }
            assert forall|t2: u64| t2 != token implies s.waiting_token(t2) == o.waiting_token(
                t2,
            ) by {
                if s.waiting_token(t2) {
                    let j = choose|j: int| 0 <= j < n + 1 && s.entries@[j].token == t2;
                    assert(j != n);
                    assert(s.entries@[j] == o.entries@[j]);
                    assert(o.waiting_token(t2)) by {
                        assert(o.entries@[j].token == t2);
                    }
                }
                if o.waiting_token(t2) {
                    let j = choose|j: int| 0 <= j < n && o.entries@[j].token == t2;
                    assert(s.entries@[j] == o.entries@[j]);
                    assert(s.waiting_token(t2)) by {
                        assert(s.entries@[j].token == t2);
                    }
                }
            }
            assert forall|fd2: int, dir2: Direction|
                (fd2, dir2) != (fd as int, dir) implies s.registered(fd2, dir2) == o.registered(
                fd2,
                dir2,
            ) && (o.registered(fd2, dir2) ==> s.token_of(fd2, dir2) == o.token_of(fd2, dir2)) by {
                if o.registered(fd2, dir2) {
                    let j = o.idx_of(fd2, dir2);
                    assert(o.key_at(j) == (fd2, dir2));
                    o.lemma_token_at(j);
                    assert(s.entries@[j] == o.entries@[j]);
                    assert(s.key_at(j) == (fd2, dir2));
                    assert(s.registered(fd2, dir2));
                    s.lemma_token_at(j);
                }
                if s.registered(fd2, dir2) {
                    let j = choose|j: int| 0 <= j < n + 1 && s.key_at(j) == (fd2, dir2);
                    assert(j != n);
                    assert(s.entries@[j] == o.entries@[j]);
                    assert(o.key_at(j) == (fd2, dir2));
                    assert(o.registered(fd2, dir2));
                }
            }
        }
    }

    /// Registers interest in a (descriptor, direction) key. A registration
    /// for a key that is already registered replaces the old one: the stale
    /// token can never fire again. Fails only when the registry is exhausted,
    /// and then changes nothing.
    pub fn register(&mut self, fd: i32, dir: Direction) -> (r: Result<u64, ReadinessError>)
        requires
            old(self).wf(),
        ensures
            final(self).wf(),
            final(self).capacity() == old(self).capacity(),
            r matches Err(e) ==> e == ReadinessError::RegistryFull && *final(self) == *old(self),
            old(self).tokens_left() && (old(self).registered(fd as int, dir) || old(self).pending_count() < old(self).capacity()) ==> r is Ok,
            !old(self).registered(fd as int, dir) && old(self).pending_count() >= old(self).capacity() ==> r is Err,
            final(self).tokens_used() <= old(self).tokens_used() + 1,
            r matches Ok(t) ==> {
                &&& final(self).registered(fd as int, dir)
                &&& final(self).token_of(fd as int, dir) == t
                &&& !old(self).waiting_token(t) && !old(self).fired_token(t)
                &&& final(self).waiting_token(t) && !final(self).fired_token(t)
                &&& (old(self).registered(fd as int, dir) ==> !final(self).waiting_token(
                    old(self).token_of(fd as int, dir),
                ))
                &&& final(self).pending_count() == old(self).pending_count() + (
                if old(self).registered(fd as int, dir) {
                    0int
                } else {
                    1int
                })
            },
            forall|fd2: int, dir2: Direction|
                (fd2, dir2) != (fd as int, dir) ==> final(self).registered(fd2, dir2) == old(self).registered(fd2, dir2) && (old(self).registered(fd2, dir2) ==> final(self).token_of(fd2, dir2) == old(self).token_of(fd2, dir2)),
            forall|t2: u64| final(self).fired_token(t2) == old(self).fired_token(t2),
    {
        if self.next_token == u64::MAX {
            return Err(ReadinessError::RegistryFull);
        }
        let stale = self.remove_entry_by_key(fd, dir);
        if stale.is_none() && self.entries.len() >= self.capacity {
            return Err(ReadinessError::RegistryFull);
        }
        let ghost m1 = *self;
        let token = self.next_token;
        self.next_token = token + 1;
        proof {
            let o = *old(self);
            assert forall|a: int| 0 <= a < self.entries@.len() implies self.entries@[a].token
                < self.next_token by {
                assert(m1.entries@[a].token < m1.next_token);
            }
            assert forall|a: int| 0 <= a < self.fired@.len() implies self.fired@[a]
                < self.next_token by {
                assert(m1.fired@[a] < m1.next_token);
            }
            assert forall|a: int, b: int|
                0 <= a < b < self.entries@.len() implies self.key_at(a) != self.key_at(b) by {
                assert(m1.key_at(a) != m1.key_at(b));
                assert(self.entries@[a] == m1.entries@[a]);
                assert(self.entries@[b] == m1.entries@[b]);
            }
            assert forall|a: int, b: int|
                0 <= a < b < self.entries@.len() implies self.entries@[a].token
                != self.entries@[b].token by {
                assert(m1.entries@[a].token != m1.entries@[b].token);
            }
            assert forall|a: int, b: int|
                0 <= a < b < self.fired@.len() implies self.fired@[a] != self.fired@[b] by {
                assert(m1.fired@[a] != m1.fired@[b]);
            }
            assert forall|a: int, b: int|
                0 <= a < self.entries@.len() && 0 <= b < self.fired@.len() implies self.entries@[a].token
                != self.fired@[b] by {
                assert(m1.entries@[a].token != m1.fired@[b]);
            }
            assert(self.wf());
            Self::lemma_same_entries(m1, *self);
            assert(!self.waiting_token(token)) by {
                if self.waiting_token(token) {
                    let j = choose|j: int|
                        0 <= j < self.entries@.len() && self.entries@[j].token == token;
                    assert(self.entries@[j].token < o.next_token);
                }
            }
            assert(!self.fired_token(token)) by {
                if self.fired_token(token) {
                    let j = choose|j: int| 0 <= j < self.fired@.len() && self.fired@[j] == token;
                    assert(self.fired@[j] < o.next_token);
                }
            }
            assert(!o.waiting_token(token)) by {
                if o.waiting_token(token) {
                    let j = choose|j: int| 0 <= j < o.entries@.len() && o.entries@[j].token == token;
                    assert(o.entries@[j].token < o.next_token);
                }
            }
            assert(!o.fired_token(token)) by {
                if o.fired_token(token) {
                    let j = choose|j: int| 0 <= j < o.fired@.len() && o.fired@[j] == token;
                    assert(o.fired@[j] < o.next_token);
                }
            }
        }
        let ghost m2 = *self;
        self.push_entry(fd, dir, token);
        proof {
            let s = *self;
            let o = *old(self);
            assert forall|fd2: int, dir2: Direction|
                (fd2, dir2) != (fd as int, dir) implies s.registered(fd2, dir2) == o.registered(
                fd2,
                dir2,
            ) && (o.registered(fd2, dir2) ==> s.token_of(fd2, dir2) == o.token_of(fd2, dir2)) by {
                assert(s.registered(fd2, dir2) == m2.registered(fd2, dir2));
                assert(m2.registered(fd2, dir2) == m1.registered(fd2, dir2));
                assert(m1.registered(fd2, dir2) == o.registered(fd2, dir2));
                if o.registered(fd2, dir2) {
                    assert(m1.token_of(fd2, dir2) == o.token_of(fd2, dir2));
                    assert(m2.token_of(fd2, dir2) == m1.token_of(fd2, dir2));
                    assert(s.token_of(fd2, dir2) == m2.token_of(fd2, dir2));
                }
            }
            assert(!s.fired_token(token)) by {
                assert(s.fired@ == o.fired@);
            }
            if o.registered(fd as int, dir) {
                let t0 = o.token_of(fd as int, dir);
                assert(!m1.waiting_token(t0));
                assert(!m2.waiting_token(t0));
                assert(t0 < o.next_token);
                assert(!s.waiting_token(t0));
            }
        }
        Ok(token)
    }

    /// Delivers a readiness event for a key: fires the pending token exactly
    /// once and drops the registration, so the next wait on this key must
    /// register again. An event for an unregistered key changes nothing.
    pub fn on_ready(&mut self, fd: i32, dir: Direction) -> (r: Option<u64>)
        requires
            old(self).wf(),
        ensures
            final(self).wf(),
            final(self).capacity() == old(self).capacity(),
            final(self).tokens_used() == old(self).tokens_used(),
            old(self).registered(fd as int, dir) ==> r == Some(old(self).token_of(fd as int, dir)),
            !old(self).registered(fd as int, dir) ==> r is None && *final(self) == *old(self),
            r matches Some(t) ==> {
                &&& !final(self).registered(fd as int, dir)
                &&& !final(self).waiting_token(t)
                &&& final(self).fired_token(t)
                &&& final(self).pending_count() == old(self).pending_count() - 1
            },
            forall|fd2: int, dir2: Direction|
                (fd2, dir2) != (fd as int, dir) ==> final(self).registered(fd2, dir2) == old(self).registered(fd2, dir2) && (old(self).registered(fd2, dir2) ==> final(self).token_of(fd2, dir2) == old(self).token_of(fd2, dir2)),
            forall|t2: u64|
                (r matches Some(t) ==> t2 != t) ==> final(self).fired_token(t2) == old(self).fired_token(t2),
            forall|t2: u64|
                (r matches Some(t) ==> t2 != t) ==> final(self).waiting_token(t2) == old(self).waiting_token(t2),
    {
        match self.remove_entry_by_key(fd, dir) {
            None => None,
            Some(token) => {
                let ghost m = *self;
                self.fired.push(token);
                proof {
                    let s = *self;
                    let o = *old(self);
                    let fl = m.fired@.len() as int;
                    assert(s.fired@ == m.fired@.push(token));
                    assert(s.fired@[fl] == token);
                    assert(o.waiting_token(token));
                    assert(!o.fired_token(token)) by {
                        if o.fired_token(token) {
                            let j = choose|j: int|
                                0 <= j < o.fired@.len() && o.fired@[j] == token;
                            let k = choose|k: int|
                                0 <= k < o.entries@.len() && o.entries@[k].token == token;
                            assert(o.entries@[k].token != o.fired@[j]);
                        }
                    }
                    assert(!m.fired_token(token)) by {
                        assert(m.fired@ == o.fired@);
                    }
                    assert forall|a: int, b: int| 0 <= a < b < fl + 1 implies s.fired@[a]
                        != s.fired@[b] by {
                        if b == fl {
                            assert(s.fired@[a] == m.fired@[a]);
                            if m.fired@[a] == token {
                                assert(m.fired_token(token)) by {
                                    assert(m.fired@[a] == token);
                                }
                            }
                        } else {
                            assert(m.fired@[a] != m.fired@[b]);
                        }
                    }
                    assert forall|a: int| 0 <= a < fl + 1 implies s.fired@[a] < s.next_token by {
                        if a < fl {
                            assert(s.fired@[a] == m.fired@[a]);
                            assert(m.fired@[a] < m.next_token);
                        } else {
                            let k = choose|k: int|
                                0 <= k < o.entries@.len() && o.entries@[k].token == token;
                            assert(o.entries@[k].token < o.next_token);
                        }
                    }
                    assert forall|a: int, b: int|
                        0 <= a < s.entries@.len() && 0 <= b < fl + 1 implies s.entries@[a].token
                        != s.fired@[b] by {
                        if b < fl {
                            assert(s.fired@[b] == m.fired@[b]);
                            assert(m.entries@[a].token != m.fired@[b]);
                        } else {
                            assert(s.fired@[b] == token);
                            if s.entries@[a].token == token {
                                assert(m.waiting_token(token)) by {
                                    assert(m.entries@[a].token == token);
                                }
                            }
                        }
                    }
                    assert forall|a: int, b: int|
                        0 <= a < b < s.entries@.len() implies s.key_at(a) != s.key_at(b) by {
                        assert(m.key_at(a) != m.key_at(b));
                        assert(s.entries@[a] == m.entries@[a]);
                        assert(s.entries@[b] == m.entries@[b]);
                    }
                    assert forall|a: int, b: int|
                        0 <= a < b < s.entries@.len() implies s.entries@[a].token
                        != s.entries@[b].token by {
                        assert(m.entries@[a].token != m.entries@[b].token);
                    }
                    assert forall|a: int|
                        0 <= a < s.entries@.len() implies s.entries@[a].token < s.next_token by {
                        assert(m.entries@[a].token < m.next_token);
                    }
                    assert(s.wf());
                    Self::lemma_same_entries(m, s);
                    assert forall|fd2: int, dir2: Direction|
                        (fd2, dir2) != (fd as int, dir) implies s.registered(fd2, dir2)
                        == o.registered(fd2, dir2) && (o.registered(fd2, dir2) ==> s.token_of(
                        fd2,
                        dir2,
                    ) == o.token_of(fd2, dir2)) by {
                        assert(s.registered(fd2, dir2) == m.registered(fd2, dir2));
                        assert(m.registered(fd2, dir2) == o.registered(fd2, dir2));
                        if o.registered(fd2, dir2) {
                            assert(m.token_of(fd2, dir2) == o.token_of(fd2, dir2));
                            assert(s.token_of(fd2, dir2) == m.token_of(fd2, dir2));
                        }
                    }
                    assert(!s.registered(fd as int, dir));
                    assert(!s.waiting_token(token));
                    assert(s.pending_count() == m.pending_count());
                    assert(s.fired_token(token)) by {
                        assert(s.fired@[fl] == token);
                    }
                    assert forall|t2: u64| t2 != token implies s.fired_token(t2) == m.fired_token(
                        t2,
                    ) by {
                        if s.fired_token(t2) {
                            let j = choose|j: int| 0 <= j < fl + 1 && s.fired@[j] == t2;
                            assert(j != fl);
                            assert(s.fired@[j] == m.fired@[j]);
                            assert(m.fired_token(t2)) by {
                                assert(m.fired@[j] == t2);
                            }
                        }
                        if m.fired_token(t2) {
                            let j = choose|j: int| 0 <= j < fl && m.fired@[j] == t2;
                            assert(s.fired@[j] == m.fired@[j]);
                            assert(s.fired_token(t2)) by {
                                assert(s.fired@[j] == t2);
                            }
                        }
                    }
                }
                Some(token)
            }
        }
    }

    /// Consumes a fired token: reports whether it had fired, and forgets it.
    /// A waiting operation calls this when re-polled; `true` means its event
    /// arrived and the operation should retry its syscall.
    pub fn take_fired(&mut self, token: u64) -> (r: bool)
        requires
            old(self).wf(),
        ensures
            final(self).wf(),
            final(self).capacity() == old(self).capacity(),
            final(self).tokens_used() == old(self).tokens_used(),
            r == old(self).fired_token(token),
            !final(self).fired_token(token),
            final(self).pending_count() == old(self).pending_count(),
            forall|t2: u64| t2 != token ==> final(self).fired_token(t2) == old(self).fired_token(t2),
            forall|t2: u64| final(self).waiting_token(t2) == old(self).waiting_token(t2),
            forall|fd2: int, dir2: Direction|
                final(self).registered(fd2, dir2) == old(self).registered(fd2, dir2) && (old(self).registered(fd2, dir2) ==> final(self).token_of(fd2, dir2) == old(self).token_of(
                    fd2,
                    dir2,
                )),
    {
        let n = self.fired.len();
        let mut i: usize = 0;
        while i < n
            invariant
                old(self).wf(),
                n == old(self).fired@.len(),
                i <= n,
                forall|j: int| 0 <= j < i ==> old(self).fired@[j] != token,
                *self == *old(self),
            decreases n - i,
        {
            if self.fired[i] == token {
                self.fired.remove(i);
                proof {
                    let s = *self;
                    let o = *old(self);
                    let ii = i as int;
                    let m = s.fired@.len() as int;
                    assert(s.fired@ == o.fired@.remove(ii));
                    o.fired@.remove_ensures(ii);
                    assert forall|a: int, b: int| 0 <= a < b < m implies s.fired@[a]
                        != s.fired@[b] by {
                        let oa = if a < ii { a } else { a + 1 };
                        let ob = if b < ii { b } else { b + 1 };
                        assert(s.fired@[a] == o.fired@[oa]);
                        assert(s.fired@[b] == o.fired@[ob]);
                        assert(o.fired@[oa] != o.fired@[ob]);
                    }
                    assert forall|a: int| 0 <= a < m implies s.fired@[a] < s.next_token by {
                        let oa = if a < ii { a } else { a + 1 };
                        assert(s.fired@[a] == o.fired@[oa]);
                        assert(o.fired@[oa] < o.next_token);
                    }
                    assert forall|a: int, b: int|
                        0 <= a < s.entries@.len() && 0 <= b < m implies s.entries@[a].token
                        != s.fired@[b] by {
                        let ob = if b < ii { b } else { b + 1 };
                        assert(s.fired@[b] == o.fired@[ob]);
                        assert(o.entries@[a].token != o.fired@[ob]);
                    }
                    assert forall|a: int, b: int|
                        0 <= a < b < s.entries@.len() implies s.key_at(a) != s.key_at(b) by {
                        assert(o.key_at(a) != o.key_at(b));
                        assert(s.entries@[a] == o.entries@[a]);
                        assert(s.entries@[b] == o.entries@[b]);
                    }
                    assert forall|a: int, b: int|
                        0 <= a < b < s.entries@.len() implies s.entries@[a].token
                        != s.entries@[b].token by {
                        assert(o.entries@[a].token != o.entries@[b].token);
                    }
                    assert forall|a: int|
                        0 <= a < s.entries@.len() implies s.entries@[a].token < s.next_token by {
                        assert(o.entries@[a].token < o.next_token);
                    }
                    assert(s.wf());
                    Self::lemma_same_entries(o, s);
                    assert(o.fired_token(token)) by {
                        assert(o.fired@[ii] == token);
                    }
                    assert(!s.fired_token(token)) by {
                        if s.fired_token(token) {
                            let j = choose|j: int| 0 <= j < m && s.fired@[j] == token;
                            let oj = if j < ii { j } else { j + 1 };
                            assert(s.fired@[j] == o.fired@[oj]);
                            assert(o.fired@[oj] == o.fired@[ii]);
                            assert(false);
                        }
                    }
                    assert forall|t2: u64| t2 != token implies s.fired_token(t2) == o.fired_token(
                        t2,
                    ) by {
                        if s.fired_token(t2) {
                            let j = choose|j: int| 0 <= j < m && s.fired@[j] == t2;
                            let oj = if j < ii { j } else { j + 1 };
                            assert(s.fired@[j] == o.fired@[oj]);
                            assert(o.fired_token(t2)) by {
                                assert(o.fired@[oj] == t2);
                            }
                        }
                        if o.fired_token(t2) {
                            let j = choose|j: int| 0 <= j < o.fired@.len() && o.fired@[j] == t2;
                            assert(j != ii);
                            let sj = if j < ii { j } else { j - 1 };
                            assert(s.fired@[sj] == o.fired@[j]);
                            assert(s.fired_token(t2)) by {
                                assert(s.fired@[sj] == t2);
                            }
                        }
                    }
                }
                return true;
            }
            i = i + 1;
        }
        proof {
            let o = *old(self);
            assert(!o.fired_token(token)) by {
                if o.fired_token(token) {
                    let j = choose|j: int| 0 <= j < o.fired@.len() && o.fired@[j] == token;
                    assert(o.fired@[j] != token);
                }
            }
        }
        false
    }

    /// Abandons an operation's registration and any undelivered wakeup for
    /// its token: after this, the token can never fire again, and every other
    /// key and token is untouched.
    pub fn cancel(&mut self, token: u64)
        requires
            old(self).wf(),
        ensures
            final(self).wf(),
            final(self).capacity() == old(self).capacity(),
            final(self).tokens_used() == old(self).tokens_used(),
            !final(self).waiting_token(token),
            !final(self).fired_token(token),
            forall|t2: u64| t2 != token ==> final(self).fired_token(t2) == old(self).fired_token(t2),
            forall|t2: u64|
                t2 != token ==> final(self).waiting_token(t2) == old(self).waiting_token(t2),
            forall|fd2: int, dir2: Direction|
                old(self).registered(fd2, dir2) && old(self).token_of(fd2, dir2) != token ==> final(self).registered(fd2, dir2) && final(self).token_of(fd2, dir2) == old(self).token_of(
                    fd2,
                    dir2,
                ),
            forall|fd2: int, dir2: Direction|
                final(self).registered(fd2, dir2) ==> old(self).registered(fd2, dir2) && old(self).token_of(fd2, dir2) == final(self).token_of(fd2, dir2),
    {
        let _ = self.take_fired(token);
        let ghost m = *self;
        let n = self.entries.len();
        let mut i: usize = 0;
        while i < n
            invariant
                n == m.entries@.len(),
                i <= n,
                forall|j: int| 0 <= j < i ==> m.entries@[j].token != token,
                *self == m,
                m.wf(),
                m.capacity == old(self).capacity,
                m.tokens_used() == old(self).tokens_used(),
                !m.fired_token(token),
                forall|t2: u64| m.waiting_token(t2) == old(self).waiting_token(t2),
                forall|t2: u64|
                    t2 != token ==> m.fired_token(t2) == old(self).fired_token(t2),
                forall|fd2: int, dir2: Direction|
                    m.registered(fd2, dir2) == old(self).registered(fd2, dir2) && (old(self).registered(fd2, dir2) ==> m.token_of(fd2, dir2) == old(self).token_of(
                        fd2,
                        dir2,
                    )),
            decreases n - i,
        {
            if self.entries[i].token == token {
                let efd = self.entries[i].fd;
                let edir = self.entries[i].dir;
                proof {
                    m.lemma_token_at(i as int);
                    assert(m.registered(efd as int, edir));
                    assert(m.token_of(efd as int, edir) == token);
                }
                let removed = self.remove_entry_by_key(efd, edir);
                proof {
                    let s = *self;
                    let o = *old(self);
                    assert(removed == Some(token));
                    assert forall|fd2: int, dir2: Direction|
                        o.registered(fd2, dir2) && o.token_of(fd2, dir2) != token implies
                        s.registered(fd2, dir2) && s.token_of(fd2, dir2) == o.token_of(
                        fd2,
                        dir2,
                    ) by {
                        assert(m.registered(fd2, dir2) && m.token_of(fd2, dir2) == o.token_of(
                            fd2,
                            dir2,
                        ));
                        assert((fd2, dir2) != (efd as int, edir));
                    }
                    assert forall|fd2: int, dir2: Direction| s.registered(fd2, dir2) implies
                        o.registered(fd2, dir2) && o.token_of(fd2, dir2) == s.token_of(
                        fd2,
                        dir2,
                    ) by {
                        assert((fd2, dir2) != (efd as int, edir));
                        assert(m.registered(fd2, dir2) && m.token_of(fd2, dir2) == s.token_of(
                            fd2,
                            dir2,
                        ));
                    }
                    assert forall|t2: u64| t2 != token implies s.waiting_token(t2)
                        == o.waiting_token(t2) by {
                        assert(m.waiting_token(t2) == o.waiting_token(t2));
                        assert(s.waiting_token(t2) == m.waiting_token(t2));
                    }
                    assert(s.fired@ == m.fired@);
                    assert forall|t2: u64| t2 != token implies s.fired_token(t2) == o.fired_token(
                        t2,
                    ) by {
                        assert(m.fired_token(t2) == o.fired_token(t2));
                    }
                    assert(!s.fired_token(token)) by {
                        assert(!m.fired_token(token));
                    }
                }
                return ;
            }
            i = i + 1;
        }
        proof {
            assert(!m.waiting_token(token)) by {
                if m.waiting_token(token) {
                    let j = choose|j: int| 0 <= j < m.entries@.len() && m.entries@[j].token == token;
                    assert(m.entries@[j].token != token);
                }
            }
            assert forall|fd2: int, dir2: Direction| m.registered(fd2, dir2) implies m.token_of(
                fd2,
                dir2,
            ) != token by {
                let j = m.idx_of(fd2, dir2);
                assert(m.key_at(j) == (fd2, dir2));
                m.lemma_token_at(j);
            }
        }
    }

    /// A cancelled operation's wakeup can never be delivered: once its token
    /// is neither waiting nor fired — what `cancel` leaves behind — no key's
    /// pending registration carries it, so no later readiness event can fire
    /// it against the dropped operation's state.
    pub proof fn lemma_dead_token_never_fires(self, t: u64)
        requires
            self.wf(),
            !self.waiting_token(t),
            !self.fired_token(t),
        ensures
            forall|fd: int, dir: Direction|
                self.registered(fd, dir) ==> self.token_of(fd, dir) != t,
    {
        assert forall|fd: int, dir: Direction| self.registered(fd, dir) implies self.token_of(
            fd,
            dir,
        ) != t by {
            let j = self.idx_of(fd, dir);
            assert(self.key_at(j) == (fd, dir));
            self.lemma_token_at(j);
            if self.entries@[j].token == t {
                assert(self.waiting_token(t));
            }
        }
    }

    /// The registered interests, for the demultiplexing call: one
    /// (descriptor, direction) pair per pending registration.
    pub fn poll_list(&self) -> (r: Vec<(i32, Direction)>)
        requires
            self.wf(),
        ensures
            r@.len() == self.pending_count(),
            forall|j: int| 0 <= j < r@.len() ==> self.registered(r@[j].0 as int, r@[j].1),
            forall|fd2: int, dir2: Direction|
                self.registered(fd2, dir2) ==> exists|j: int|
                    0 <= j < r@.len() && r@[j].0 == fd2 && r@[j].1 == dir2,
    {
        let n = self.entries.len();
        let mut out: Vec<(i32, Direction)> = Vec::new();
        let mut i: usize = 0;
        while i < n
            invariant
                n == self.entries@.len(),
                i <= n,
                self.wf(),
                out@.len() == i,
                forall|j: int|
                    0 <= j < i ==> out@[j].0 == self.entries@[j].fd && out@[j].1
                        == self.entries@[j].dir,
            decreases n - i,
        {
            out.push((self.entries[i].fd, self.entries[i].dir));
            i = i + 1;
        }
        proof {
            assert forall|j: int|
                0 <= j < out@.len() implies self.registered(out@[j].0 as int, out@[j].1) by {
                self.lemma_token_at(j);
            }
            assert forall|fd2: int, dir2: Direction| self.registered(fd2, dir2) implies exists|
                j: int,
            | 0 <= j < out@.len() && out@[j].0 == fd2 && out@[j].1 == dir2 by {
                let j = self.idx_of(fd2, dir2);
                assert(self.key_at(j) == (fd2, dir2));
                assert(out@[j].0 == fd2 && out@[j].1 == dir2);
            }
        }
        out
    }
}

} // verus!
