use aio_exec::completion::{CompletionBackend, CqePayload};
use aio_exec::readiness::{Direction, ReadinessBackend};
use aio_exec::ring::RingSource;
use aio_exec::source::{Attempted, Error, IoDone, PollAction, PollSource};

#[test]
fn readvec() {
    let mut reg = ReadinessBackend::new(8);
    // a descriptor that, like a zero device, always delivers zero bytes
    let async_source = PollSource::new(3);
    let v = vec![0x55u8; 32];
    let v_ptr = v.as_ptr();
    let mut op = async_source.read_to_vec(0, v);
    assert_eq!(op.action(), PollAction::Attempt);
    op.on_attempt(Attempted::Did(CqePayload::Bytes(vec![0u8; 32])), &mut reg);
    let ret = match op.poll(&mut reg) {
        Some(Ok(IoDone::BytesRead { count, buf })) => (count, buf),
        other => panic!("unexpected read result: {:?}", other),
    };
    assert_eq!(ret.0, 32);
    let ret_v = ret.1;
    assert_eq!(v_ptr, ret_v.as_ptr());
    assert!(ret_v.iter().all(|&b| b == 0));
}

#[test]
fn writevec() {
    let mut reg = ReadinessBackend::new(8);
    let async_source = PollSource::new(4);
    let v = vec![0x55u8; 32];
    let v_ptr = v.as_ptr();
    let mut op = async_source.write_from_vec(0, v);
    op.on_attempt(Attempted::Did(CqePayload::Count(32)), &mut reg);
    let ret = match op.poll(&mut reg) {
        Some(Ok(IoDone::Written { count, data })) => (count, data),
        other => panic!("unexpected write result: {:?}", other),
    };
    assert_eq!(ret.0, 32);
    let ret_v = ret.1;
    assert_eq!(v_ptr, ret_v.as_ptr());
}

#[test]
fn fallocate() {
    let mut reg = ReadinessBackend::new(8);
    let source = PollSource::new(5);
    let mut op = source.fallocate(0, 4096, 0);
    op.on_attempt(Attempted::Did(CqePayload::Unit), &mut reg);
    match op.poll(&mut reg) {
        Some(Ok(IoDone::Done)) => {}
        other => panic!("unexpected fallocate result: {:?}", other),
    }
}

#[test]
fn read_retries_after_would_block() {
    let mut reg = ReadinessBackend::new(8);
    let src = PollSource::new(6);
    let mut op = src.read_to_vec(0, vec![0u8; 4]);
    op.on_attempt(Attempted::WouldBlock, &mut reg);
    assert_eq!(op.action(), PollAction::Wait);
    // still suspended: polling does not resolve it
    assert!(op.poll(&mut reg).is_none());
    // the demultiplexer reports the descriptor readable
    assert!(reg.on_ready(6, Direction::Read).is_some());
    assert!(op.poll(&mut reg).is_none());
    // back to attempting: retry the syscall from the top
    assert_eq!(op.action(), PollAction::Attempt);
    op.on_attempt(
        Attempted::Did(CqePayload::Bytes(vec![9, 9, 9, 9])),
        &mut reg,
    );
    match op.poll(&mut reg) {
        Some(Ok(IoDone::BytesRead { count, buf })) => {
            assert_eq!(count, 4);
            assert_eq!(buf, vec![9, 9, 9, 9]);
        }
        other => panic!("unexpected result: {:?}", other),
    }
}

#[test]
fn read_error_is_surfaced_verbatim() {
    let mut reg = ReadinessBackend::new(8);
    let src = PollSource::new(6);
    let mut op = src.read_to_vec(0, vec![0u8; 4]);
    op.on_attempt(Attempted::Failed(5), &mut reg);
    match op.poll(&mut reg) {
        Some(Err(Error::Read(errno))) => assert_eq!(errno, 5),
        other => panic!("unexpected result: {:?}", other),
    }
}

#[test]
fn partial_read_fills_prefix_only() {
    let mut reg = ReadinessBackend::new(8);
    let src = PollSource::new(6);
    let mut op = src.read_to_vec(0, vec![7u8; 4]);
    op.on_attempt(Attempted::Did(CqePayload::Bytes(vec![1, 2])), &mut reg);
    match op.poll(&mut reg) {
        Some(Ok(IoDone::BytesRead { count, buf })) => {
            assert_eq!(count, 2);
            assert_eq!(buf, vec![1, 2, 7, 7]);
        }
        other => panic!("unexpected result: {:?}", other),
    }
}

#[test]
fn cancelled_op_never_wakes_stale_state() {
    let mut reg = ReadinessBackend::new(8);
    let src = PollSource::new(9);
    let mut a = src.read_to_vec(0, vec![0u8; 4]);
    a.on_attempt(Attempted::WouldBlock, &mut reg);
    // the pending operation is dropped before its event arrives
    a.cancel(&mut reg);
    // a later readiness event finds no stale waker to invoke
    assert_eq!(reg.on_ready(9, Direction::Read), None);
    // an unrelated subsequent operation is not corrupted
    let mut b = src.read_to_vec(0, vec![0u8; 4]);
    b.on_attempt(Attempted::WouldBlock, &mut reg);
    assert!(reg.on_ready(9, Direction::Read).is_some());
    assert!(b.poll(&mut reg).is_none());
    b.on_attempt(
        Attempted::Did(CqePayload::Bytes(vec![8, 8, 8, 8])),
        &mut reg,
    );
    match b.poll(&mut reg) {
        Some(Ok(IoDone::BytesRead { count, buf })) => {
            assert_eq!(count, 4);
            assert_eq!(buf, vec![8, 8, 8, 8]);
        }
        other => panic!("unexpected result: {:?}", other),
    }
}

#[test]
fn registration_replaces_instead_of_duplicating() {
    let mut reg = ReadinessBackend::new(8);
    let t1 = reg.register(11, Direction::Read).unwrap();
    let t2 = reg.register(11, Direction::Read).unwrap();
    assert_ne!(t1, t2);
    // one event fires the current token only, exactly once
    assert_eq!(reg.on_ready(11, Direction::Read), Some(t2));
    assert_eq!(reg.on_ready(11, Direction::Read), None);
    assert!(!reg.take_fired(t1));
    assert!(reg.take_fired(t2));
    assert!(!reg.take_fired(t2));
}

#[test]
fn registry_exhaustion_is_reported_synchronously() {
    let mut reg = ReadinessBackend::new(2);
    reg.register(1, Direction::Read).unwrap();
    reg.register(2, Direction::Read).unwrap();
    assert!(reg.register(3, Direction::Read).is_err());
    // a new key is refused at capacity, but replacing an existing one is not
    assert!(reg.register(1, Direction::Write).is_err());
    assert!(reg.register(2, Direction::Read).is_ok());
}

#[test]
fn prefilled_read_identical_on_both_backends() {
    // a descriptor pre-filled with 32 bytes of 0x55, read of 32 bytes
    let mut reg = ReadinessBackend::new(8);
    let psrc = PollSource::new(3);
    let mut pop = psrc.read_to_vec(0, vec![0u8; 32]);
    pop.on_attempt(Attempted::Did(CqePayload::Bytes(vec![0x55u8; 32])), &mut reg);
    let (pcount, pbuf) = match pop.poll(&mut reg) {
        Some(Ok(IoDone::BytesRead { count, buf })) => (count, buf),
        other => panic!("unexpected result: {:?}", other),
    };
    assert_eq!(pcount, 32);
    assert!(pbuf.iter().all(|&b| b == 0x55));

    let mut ring = CompletionBackend::new(8);
    let rsrc = RingSource::new(3);
    let mut rop = rsrc.read_to_vec(0, vec![0u8; 32], &mut ring);
    let tok = ring.take_work().expect("one submitted operation");
    ring.on_completion(tok, Ok(CqePayload::Bytes(vec![0x55u8; 32])))
        .unwrap();
    let (rcount, rbuf) = match rop.poll(&mut ring) {
        Some(Ok(IoDone::BytesRead { count, buf })) => (count, buf),
        other => panic!("unexpected result: {:?}", other),
    };
    assert_eq!(rcount, pcount);
    assert_eq!(rbuf, pbuf);
}
