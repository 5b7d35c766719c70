use aio_exec::completion::CqePayload;
use aio_exec::event::EventAsync;
use aio_exec::executor::{Executor, Pollable, SourceOp};
use aio_exec::readiness::Direction;
use aio_exec::source::{Attempted, IoDone};

// Feeds a pending poll-backed notification read the 8 little-endian bytes of
// `val`, as the kernel would deliver them for a written count.
fn deliver_poll_value(fut: &mut SourceOp, ex: &mut Executor, val: u64) {
    match (fut, ex) {
        (SourceOp::Poll(op), Executor::Poll(reg)) => {
            op.on_attempt(
                Attempted::Did(CqePayload::Bytes(val.to_le_bytes().to_vec())),
                reg,
            );
        }
        _ => panic!("not a poll-backed operation"),
    }
}

fn deliver_ring_value(ex: &mut Executor, val: u64) {
    match ex {
        Executor::Ring(ring) => {
            let tok = ring.take_work().expect("one submitted operation");
            ring.on_completion(tok, Ok(CqePayload::Bytes(val.to_le_bytes().to_vec())))
                .unwrap();
        }
        _ => panic!("not a ring executor"),
    }
}

fn expect_value(r: Option<Result<IoDone, aio_exec::source::Error>>) -> u64 {
    match r {
        Some(Ok(IoDone::Value(v))) => v,
        other => panic!("unexpected notification result: {:?}", other),
    }
}

#[test]
fn next_val_reads_value() {
    let mut ex = Executor::new_poll(8);
    // the notification object has had 0xaa written before wrapping
    let event_async = EventAsync::new(7, &ex);
    let mut fut = event_async.next_val(&mut ex);
    deliver_poll_value(&mut fut, &mut ex, 0xaa);
    let val = expect_value(fut.poll(&mut ex));
    assert_eq!(val, 0xaa);
}

#[test]
fn next_val_reads_value_poll_and_ring() {
    let mut ex = Executor::new_ring(8);
    let event_async = EventAsync::new(7, &ex);
    let mut fut = event_async.next_val(&mut ex);
    deliver_ring_value(&mut ex, 0xaa);
    let val = expect_value(fut.poll(&mut ex));
    assert_eq!(val, 0xaa);

    let mut ex = Executor::new_poll(8);
    let event_async = EventAsync::new(7, &ex);
    let mut fut = event_async.next_val(&mut ex);
    deliver_poll_value(&mut fut, &mut ex, 0xaa);
    let val = expect_value(fut.poll(&mut ex));
    assert_eq!(val, 0xaa);
}

#[test]
fn next_val_suspends_until_next_write() {
    let mut ex = Executor::new_poll(8);
    let event_async = EventAsync::new(7, &ex);

    // a value written before wrapping is returned exactly once
    let mut first = event_async.next_val(&mut ex);
    deliver_poll_value(&mut first, &mut ex, 0xaa);
    assert_eq!(expect_value(first.poll(&mut ex)), 0xaa);

    // with no intervening write the next read blocks and must suspend
    let mut second = event_async.next_val(&mut ex);
    match (&mut second, &mut ex) {
        (SourceOp::Poll(op), Executor::Poll(reg)) => {
            op.on_attempt(Attempted::WouldBlock, reg)
        }
        _ => unreachable!(),
    }
    assert!(second.poll(&mut ex).is_none());
    assert!(second.poll(&mut ex).is_none());

    // another write arrives: the suspended read wakes, retries and resolves
    match &mut ex {
        Executor::Poll(reg) => {
            assert!(reg.on_ready(7, Direction::Read).is_some());
        }
        _ => unreachable!(),
    }
    assert!(second.poll(&mut ex).is_none());
    deliver_poll_value(&mut second, &mut ex, 0x31);
    assert_eq!(expect_value(second.poll(&mut ex)), 0x31);
}
