use aio_exec::completion::{CompletionBackend, CqePayload, OpDesc, RingError};
use aio_exec::readiness::{Direction, ReadinessBackend};
use aio_exec::ring::RingSource;
use aio_exec::sg::{keep_resolved, MemRegion};
use aio_exec::source::{Attempted, Error, IoDone, PollSource};

#[test]
fn vectored_write_skips_unresolved_regions() {
    let mut reg = ReadinessBackend::new(8);
    let src = PollSource::new(12);
    let regions = vec![
        MemRegion { offset: 0, len: 8 },
        MemRegion { offset: 4096, len: 8 },
    ];
    let mut op = src.write_from_mem(0, regions);
    // the performer resolves the regions; the second is out of range and
    // skipped, so only 8 bytes go to the kernel
    let resolved = keep_resolved(op.regions(), &vec![true, false]);
    assert_eq!(resolved.len(), 1);
    op.on_attempt(
        Attempted::Did(CqePayload::Count(resolved[0].len)),
        &mut reg,
    );
    assert_eq!(op.poll(&mut reg), Some(Ok(IoDone::MemCount(8))));
}

#[test]
fn vectored_read_completes_on_the_ring() {
    let mut ring = CompletionBackend::new(8);
    let src = RingSource::new(12);
    let regions = vec![MemRegion { offset: 0, len: 16 }];
    let mut op = src.read_to_mem(0, regions, &mut ring);
    let tok = ring.take_work().unwrap();
    match ring.work_desc(tok) {
        Some(OpDesc::ReadRegions { fd, offset, regions }) => {
            assert_eq!(*fd, 12);
            assert_eq!(*offset, 0);
            assert_eq!(regions.len(), 1);
        }
        other => panic!("unexpected description: {:?}", other),
    }
    ring.on_completion(tok, Ok(CqePayload::Count(16))).unwrap();
    assert_eq!(op.poll(&mut ring), Some(Ok(IoDone::MemCount(16))));
}

#[test]
fn fsync_failure_is_tagged_fsync() {
    let mut reg = ReadinessBackend::new(8);
    let src = PollSource::new(13);
    let mut op = src.fsync();
    op.on_attempt(Attempted::Failed(22), &mut reg);
    assert_eq!(op.poll(&mut reg), Some(Err(Error::Fsync(22))));
    let mut op = src.fallocate(0, 64, 0);
    op.on_attempt(Attempted::Failed(28), &mut reg);
    assert_eq!(op.poll(&mut reg), Some(Err(Error::Fallocate(28))));
}

#[test]
fn registration_failure_surfaces_as_adding_waker() {
    // a registry with no room: the suspension itself fails synchronously
    let mut reg = ReadinessBackend::new(0);
    let src = PollSource::new(14);
    let mut op = src.read_to_vec(0, vec![0u8; 4]);
    op.on_attempt(Attempted::WouldBlock, &mut reg);
    match op.poll(&mut reg) {
        Some(Err(Error::AddingWaker(_))) => {}
        other => panic!("unexpected result: {:?}", other),
    }
}

#[test]
fn malformed_completion_payload_is_a_protocol_error() {
    let mut ring = CompletionBackend::new(8);
    let src = RingSource::new(15);
    // a notification read must complete with exactly 8 bytes
    let mut op = src.read_u64(&mut ring);
    let tok = ring.take_work().unwrap();
    ring.on_completion(tok, Ok(CqePayload::Bytes(vec![1, 2, 3]))).unwrap();
    assert_eq!(
        op.poll(&mut ring),
        Some(Err(Error::Executor(RingError::Malformed)))
    );
}

#[test]
fn wait_readable_resolves_once_the_registry_fires() {
    let mut reg = ReadinessBackend::new(8);
    let src = PollSource::new(16);
    let mut op = src.wait_readable(&mut reg);
    assert!(op.poll(&mut reg).is_none());
    assert!(reg.on_ready(16, Direction::Read).is_some());
    assert!(op.poll(&mut reg).is_none());
    assert_eq!(op.poll(&mut reg), Some(Ok(IoDone::Done)));
}
