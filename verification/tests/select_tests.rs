use aio_exec::completion::CqePayload;
use aio_exec::executor::{select6, Executor, ExecutorKind, Pollable, SelectResult, SourceOp};
use aio_exec::source::{Attempted, IoDone, PollSource};

// A future that resolves after a fixed number of polls, counting every poll
// it receives; `u64::MAX` as the target means it never resolves.
struct Counter {
    target: u64,
    polls: u64,
    done: bool,
}

impl Counter {
    fn new(target: u64) -> Counter {
        Counter { target, polls: 0, done: false }
    }
}

impl Pollable for Counter {
    type Output = u64;

    fn resolved(&self) -> bool {
        self.done
    }

    fn fits(&self, _kind: ExecutorKind) -> bool {
        true
    }

    fn poll(&mut self, _ex: &mut Executor) -> Option<u64> {
        if self.done {
            return None;
        }
        self.polls += 1;
        if self.polls >= self.target {
            self.done = true;
            Some(self.polls)
        } else {
            None
        }
    }
}

#[test]
fn race_resolves_with_the_single_winner() {
    let mut ex = Executor::new_poll(8);
    // six futures; exactly the third resolves, after three poll cycles
    let mut race = select6(
        Counter::new(u64::MAX),
        Counter::new(u64::MAX),
        Counter::new(3),
        Counter::new(u64::MAX),
        Counter::new(u64::MAX),
        Counter::new(u64::MAX),
    );
    assert!(race.poll(&mut ex).is_none());
    assert!(race.poll(&mut ex).is_none());
    let won = match race.poll(&mut ex) {
        Some(SelectResult::Third(v)) => v,
        _ => panic!("a future other than the third won the race"),
    };
    assert_eq!(won, 3);
    // in the winning cycle the losers after the winner were not polled
    assert_eq!(race.f1.polls, 3);
    assert_eq!(race.f2.polls, 3);
    assert_eq!(race.f4.polls, 2);
    assert_eq!(race.f5.polls, 2);
    assert_eq!(race.f6.polls, 2);
    // and after completion nothing is ever polled again
    assert!(race.poll(&mut ex).is_none());
    assert!(race.poll(&mut ex).is_none());
    assert_eq!(race.f1.polls, 3);
    assert_eq!(race.f2.polls, 3);
    assert_eq!(race.f3.polls, 3);
    assert_eq!(race.f4.polls, 2);
    assert_eq!(race.f5.polls, 2);
    assert_eq!(race.f6.polls, 2);
}

#[test]
fn race_prefers_the_lowest_ready_index_deterministically() {
    let mut ex = Executor::new_poll(8);
    // two futures become ready in the same cycle: index order decides
    let mut race = select6(
        Counter::new(u64::MAX),
        Counter::new(1),
        Counter::new(1),
        Counter::new(u64::MAX),
        Counter::new(u64::MAX),
        Counter::new(u64::MAX),
    );
    match race.poll(&mut ex) {
        Some(SelectResult::Second(_)) => {}
        _ => panic!("resolution order between same-cycle winners must be the index order"),
    }
}

#[test]
fn race_of_source_ops_returns_the_winners_result() {
    let mut ex = Executor::new_poll(16);
    // six notification reads race; only the sixth descriptor has a value
    let mut ops: Vec<SourceOp> = (0..6)
        .map(|i| SourceOp::Poll(PollSource::new(10 + i).read_u64()))
        .collect();
    for (i, op) in ops.iter_mut().enumerate() {
        let p = match op {
            SourceOp::Poll(p) => p,
            _ => unreachable!(),
        };
        let reg = match &mut ex {
            Executor::Poll(reg) => reg,
            _ => unreachable!(),
        };
        if i == 5 {
            p.on_attempt(
                Attempted::Did(CqePayload::Bytes(0xaau64.to_le_bytes().to_vec())),
                reg,
            );
        } else {
            p.on_attempt(Attempted::WouldBlock, reg);
        }
    }
    let f6 = ops.pop().unwrap();
    let f5 = ops.pop().unwrap();
    let f4 = ops.pop().unwrap();
    let f3 = ops.pop().unwrap();
    let f2 = ops.pop().unwrap();
    let f1 = ops.pop().unwrap();
    let mut race = select6(f1, f2, f3, f4, f5, f6);
    match race.poll_sources(&mut ex) {
        Some(SelectResult::Sixth(Ok(IoDone::Value(v)))) => assert_eq!(v, 0xaa),
        other => panic!("a future other than the sixth won: {other:?}"),
    }
    // after resolution nothing is ever polled again
    assert!(race.poll_sources(&mut ex).is_none());
    assert!(race.poll_sources(&mut ex).is_none());
}
