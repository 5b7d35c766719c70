use aio_exec::completion::{CompletionBackend, CqePayload, OpDesc, RingError};
use aio_exec::ring::RingSource;
use aio_exec::source::{Error, IoDone};

#[test]
fn excess_submission_fails_fast() {
    // a backend with room for two in-flight operations
    let mut ring = CompletionBackend::new(2);
    let t1 = ring.submit(OpDesc::Fsync { fd: 1 }).unwrap();
    let t2 = ring.submit(OpDesc::Fsync { fd: 2 }).unwrap();
    assert_ne!(t1, t2);
    // the third concurrent submission fails deterministically, it never hangs
    assert_eq!(
        ring.submit(OpDesc::Fsync { fd: 3 }),
        Err(RingError::Saturated)
    );
    // a completion frees the slot and submission works again
    ring.on_completion(t1, Ok(CqePayload::Unit)).unwrap();
    assert!(ring.claim(t1).is_some());
    assert!(ring.submit(OpDesc::Fsync { fd: 3 }).is_ok());
}

#[test]
fn saturated_source_op_reports_the_error() {
    let mut ring = CompletionBackend::new(1);
    let src = RingSource::new(4);
    let mut a = src.fsync(&mut ring);
    // the table is full: the next operation is born failed, not blocked
    let mut b = src.fsync(&mut ring);
    assert_eq!(
        b.poll(&mut ring),
        Some(Err(Error::Executor(RingError::Saturated)))
    );
    // the first operation still completes normally
    let tok = ring.take_work().unwrap();
    ring.on_completion(tok, Ok(CqePayload::Unit)).unwrap();
    assert_eq!(a.poll(&mut ring), Some(Ok(IoDone::Done)));
}

#[test]
fn unknown_completion_token_is_fatal() {
    let mut ring = CompletionBackend::new(4);
    let t = ring.submit(OpDesc::Fsync { fd: 1 }).unwrap();
    // a token that was never handed out has no entry
    assert_eq!(
        ring.on_completion(t + 1, Ok(CqePayload::Unit)),
        Err(RingError::UnknownToken)
    );
    // a double completion for one entry is the same protocol violation
    ring.on_completion(t, Ok(CqePayload::Unit)).unwrap();
    assert_eq!(
        ring.on_completion(t, Ok(CqePayload::Unit)),
        Err(RingError::UnknownToken)
    );
}

#[test]
fn late_completion_for_cancelled_op_is_discarded() {
    let mut ring = CompletionBackend::new(4);
    let src = RingSource::new(4);
    let mut a = src.read_u64(&mut ring);
    let a_tok = ring.take_work().unwrap();
    // the waiting operation is dropped while the kernel still owns the entry
    a.cancel(&mut ring);
    // an unrelated operation proceeds
    let mut b = src.read_u64(&mut ring);
    let b_tok = ring.take_work().unwrap();
    assert_ne!(a_tok, b_tok);
    // the late completion is a harmless discard, not an error
    assert_eq!(
        ring.on_completion(a_tok, Ok(CqePayload::Bytes(1u64.to_le_bytes().to_vec()))),
        Ok(false)
    );
    // and the cancelled token can never be claimed
    assert!(ring.claim(a_tok).is_none());
    // the unrelated operation's result is not corrupted
    ring.on_completion(b_tok, Ok(CqePayload::Bytes(2u64.to_le_bytes().to_vec())))
        .unwrap();
    assert_eq!(b.poll(&mut ring), Some(Ok(IoDone::Value(2))));
}

#[test]
fn write_data_rides_in_the_entry_and_returns() {
    let mut ring = CompletionBackend::new(4);
    let src = RingSource::new(4);
    let mut op = src.write_from_vec(16, vec![1, 2, 3], &mut ring);
    let tok = ring.take_work().unwrap();
    // the performer sees the full description, data included
    match ring.work_desc(tok) {
        Some(OpDesc::WriteVec { fd, offset, data }) => {
            assert_eq!(*fd, 4);
            assert_eq!(*offset, 16);
            assert_eq!(data, &vec![1, 2, 3]);
        }
        other => panic!("unexpected description: {:?}", other),
    }
    ring.on_completion(tok, Ok(CqePayload::Count(3))).unwrap();
    match op.poll(&mut ring) {
        Some(Ok(IoDone::Written { count, data })) => {
            assert_eq!(count, 3);
            assert_eq!(data, vec![1, 2, 3]);
        }
        other => panic!("unexpected result: {:?}", other),
    }
}
