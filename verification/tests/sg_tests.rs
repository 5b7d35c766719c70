use aio_exec::sg::{keep_resolved, MemRegion};

#[test]
fn unresolved_regions_are_skipped_not_fatal() {
    let regions = vec![
        MemRegion { offset: 0, len: 16 },
        MemRegion { offset: 64, len: 8 },
        MemRegion { offset: 4096, len: 32 },
    ];
    // the middle region fails to resolve; the rest survive in order
    let kept = keep_resolved(&regions, &vec![true, false, true]);
    assert_eq!(
        kept,
        vec![
            MemRegion { offset: 0, len: 16 },
            MemRegion { offset: 4096, len: 32 },
        ]
    );
    // the resolved-view count equals the number that resolved
    assert_eq!(keep_resolved(&regions, &vec![false, false, false]), vec![]);
    assert_eq!(keep_resolved(&regions, &vec![true, true, true]).len(), 3);
}
