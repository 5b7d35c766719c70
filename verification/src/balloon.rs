//! The decision and byte-layout logic of a memory-balloon device worker: its
//! feature bits, its two-word configuration space, the page-frame chains of
//! the inflate and deflate queues, the packed statistics records of the stats
//! queue, and the control-command dispatch. The worker's queues, sockets and
//! threads live in the embedding program; everything it decides or decodes is
//! here, with proved contracts.

use vstd::bytes::{
    spec_u16_from_le_bytes, spec_u32_from_le_bytes, spec_u64_from_le_bytes, u16_from_le_bytes,
    u32_from_le_bytes, u32_to_le_bytes, u64_from_le_bytes,
};
use vstd::prelude::*;

verus! {

/// Failures of the balloon worker's control plumbing, with the error number
/// the embedding program observed.
#[derive(Clone, Copy, PartialEq, Eq, Structural, Debug)]
pub enum BalloonError {
    /// Failed to create the async message receiver.
    CreatingMessageReceiver(i32),
    /// Failed to receive a command message.
    ReceivingCommand(i32),
    /// Failed to write the config event.
    WritingConfigEvent(i32),
}

/// The virtio device type of a memory balloon.
pub const TYPE_BALLOON: u32 = 5;

/// Pages are communicated as page-frame numbers: frame to byte address is a
/// shift by this many bits.
pub const PFN_SHIFT: u32 = 12;

/// Guest statistics, one optional value per known tag.
#[derive(Clone, Copy, PartialEq, Eq, Structural, Debug)]
pub struct BalloonStats {
    pub swap_in: Option<u64>,
    pub swap_out: Option<u64>,
    pub major_faults: Option<u64>,
    pub minor_faults: Option<u64>,
    pub free_memory: Option<u64>,
    pub total_memory: Option<u64>,
    pub available_memory: Option<u64>,
    pub disk_caches: Option<u64>,
    pub hugetlb_allocations: Option<u64>,
    pub hugetlb_failures: Option<u64>,
}

impl BalloonStats {
    /// All fields unset.
    pub fn new() -> (r: BalloonStats)
        ensures
            r == (BalloonStats {
                swap_in: None,
                swap_out: None,
                major_faults: None,
                minor_faults: None,
                free_memory: None,
                total_memory: None,
                available_memory: None,
                disk_caches: None,
                hugetlb_allocations: None,
                hugetlb_failures: None,
            }),
    {
        BalloonStats {
            swap_in: None,
            swap_out: None,
            major_faults: None,
            minor_faults: None,
            free_memory: None,
            total_memory: None,
            available_memory: None,
            disk_caches: None,
            hugetlb_allocations: None,
            hugetlb_failures: None,
        }
    }
}

/// One packed statistics record from the stats queue: a 2-byte tag and an
/// 8-byte value, both little-endian.
#[derive(Clone, Copy, PartialEq, Eq, Structural, Debug)]
pub struct BalloonStat {
    pub tag: u16,
    pub val: u64,
}

/// The statistics record with this tag updated to `Some(val)`, every other
/// field kept; an unknown tag changes nothing.
pub open spec fn spec_update_stats(stat: BalloonStat, stats: BalloonStats) -> BalloonStats {
    let v = Some(stat.val);
    if stat.tag == 0 {
        BalloonStats { swap_in: v, ..stats }
    } else if stat.tag == 1 {
        BalloonStats { swap_out: v, ..stats }
    } else if stat.tag == 2 {
        BalloonStats { major_faults: v, ..stats }
    } else if stat.tag == 3 {
        BalloonStats { minor_faults: v, ..stats }
    } else if stat.tag == 4 {
        BalloonStats { free_memory: v, ..stats }
    } else if stat.tag == 5 {
        BalloonStats { total_memory: v, ..stats }
    } else if stat.tag == 6 {
        BalloonStats { available_memory: v, ..stats }
    } else if stat.tag == 7 {
        BalloonStats { disk_caches: v, ..stats }
    } else if stat.tag == 8 {
        BalloonStats { hugetlb_allocations: v, ..stats }
    } else if stat.tag == 9 {
        BalloonStats { hugetlb_failures: v, ..stats }
    } else {
        stats
    }
}

impl BalloonStat {
    /// Folds this record into the collected statistics: the field its tag
    /// names becomes `Some(val)`, the rest are untouched; unknown tags are
    /// ignored.
    pub fn update_stats(&self, stats: &mut BalloonStats)
        ensures
            *final(stats) == spec_update_stats(*self, *old(stats)),
    {
        let val = Some(self.val);
        match self.tag {
            0u16 => stats.swap_in = val,
            1u16 => stats.swap_out = val,
            2u16 => stats.major_faults = val,
            3u16 => stats.minor_faults = val,
            4u16 => stats.free_memory = val,
            5u16 => stats.total_memory = val,
            6u16 => stats.available_memory = val,
            7u16 => stats.disk_caches = val,
            8u16 => stats.hugetlb_allocations = val,
            9u16 => stats.hugetlb_failures = val,
            _ => (),
        }
    }
}

/// The record at index `k` of a packed statistics buffer.
pub open spec fn spec_stat_at(bytes: Seq<u8>, k: int) -> BalloonStat {
    BalloonStat {
        tag: spec_u16_from_le_bytes(bytes.subrange(10 * k, 10 * k + 2)),
        val: spec_u64_from_le_bytes(bytes.subrange(10 * k + 2, 10 * k + 10)),
    }
}

/// Decodes the packed statistics records of a stats-queue buffer: 10-byte
/// records, a 2-byte little-endian tag then an 8-byte little-endian value;
/// a trailing partial record is ignored, as a reader that stops at the first
/// short record would.
pub fn parse_stats(bytes: &Vec<u8>) -> (r: Vec<BalloonStat>)
    ensures
        r@.len() == bytes@.len() / 10,
        forall|k: int| 0 <= k < r@.len() ==> r@[k] == spec_stat_at(bytes@, k),
{
    let mut out: Vec<BalloonStat> = Vec::new();
    let mut i: usize = 0;
    while bytes.len() >= 10 && i <= bytes.len() - 10
        invariant
            i == 10 * out@.len(),
            out@.len() <= bytes@.len() / 10,
            forall|k: int| 0 <= k < out@.len() ==> out@[k] == spec_stat_at(bytes@, k),
        decreases bytes@.len() - i,
    {
        let tag = u16_from_le_bytes(slice_range(bytes, i, i + 2).as_slice());
        let val = u64_from_le_bytes(slice_range(bytes, i + 2, i + 10).as_slice());
        out.push(BalloonStat { tag, val });
        proof {
            let k = out@.len() - 1;
            assert(out@[k] == spec_stat_at(bytes@, k));
        }
        i = i + 10;
    }
    proof {
        assert(out@.len() == bytes@.len() / 10);
    }
    out
}

/// Copies the bytes of `v` from `lo` (inclusive) to `hi` (exclusive).
fn slice_range(v: &Vec<u8>, lo: usize, hi: usize) -> (r: Vec<u8>)
    requires
        lo <= hi <= v@.len(),
    ensures
        r@ == v@.subrange(lo as int, hi as int),
{
    let mut out: Vec<u8> = Vec::new();
    let mut i: usize = lo;
    while i < hi
        invariant
            lo <= i <= hi <= v@.len(),
            out@ == v@.subrange(lo as int, i as int),
        decreases hi - i,
    {
        out.push(v[i]);
        proof {
            assert(out@ =~= v@.subrange(lo as int, i + 1 as int));
        }
        i = i + 1;
    }
    out
}

/// The guest address encoded at index `k` of a page-frame chain: the 4-byte
/// little-endian frame number, shifted into a byte address.
pub open spec fn spec_pfn_address_at(bytes: Seq<u8>, k: int) -> u64 {
    (spec_u32_from_le_bytes(bytes.subrange(4 * k, 4 * k + 4)) as u64) << PFN_SHIFT
}

/// Decodes an inflate or deflate chain: each 4-byte little-endian value is a
/// page-frame number, turned into a guest byte address by the page shift. A
/// trailing partial value is ignored, as a reader that stops at the first
/// short value would.
pub fn parse_pfn_chain(bytes: &Vec<u8>) -> (r: Vec<u64>)
    ensures
        r@.len() == bytes@.len() / 4,
        forall|k: int| 0 <= k < r@.len() ==> r@[k] == spec_pfn_address_at(bytes@, k),
{
    let mut out: Vec<u64> = Vec::new();
    let mut i: usize = 0;
    while bytes.len() >= 4 && i <= bytes.len() - 4
        invariant
            i == 4 * out@.len(),
            out@.len() <= bytes@.len() / 4,
            forall|k: int| 0 <= k < out@.len() ==> out@[k] == spec_pfn_address_at(bytes@, k),
        decreases bytes@.len() - i,
    {
        let pfn = u32_from_le_bytes(slice_range(bytes, i, i + 4).as_slice());
        out.push((pfn as u64) << PFN_SHIFT);
        proof {
            let k = out@.len() - 1;
            assert(out@[k] == spec_pfn_address_at(bytes@, k));
        }
        i = i + 4;
    }
    proof {
        assert(out@.len() == bytes@.len() / 4);
    }
    out
}

/// A host command to the balloon worker.
#[derive(Clone, Copy, PartialEq, Eq, Structural, Debug)]
pub enum BalloonControlCommand {
    /// Resize the balloon to consume this many bytes.
    Adjust { num_bytes: u64 },
    /// Collect and report guest statistics.
    Stats,
}

/// What the worker must do after dispatching one command.
#[derive(Clone, Copy, PartialEq, Eq, Structural, Debug)]
pub enum CommandAction {
    /// The target size changed: signal a configuration-changed interrupt.
    SignalConfigChanged,
    /// Ask the stats task to collect statistics again.
    RequestStats,
}

/// The virtio memory-balloon device: its target and actual page counts and
/// its negotiated feature bits. Queue processing, sockets and the worker
/// thread belong to the embedding program.
pub struct Balloon {
    num_pages: u32,
    actual_pages: u32,
    features: u64,
}

impl Balloon {
    /// The target size, in pages.
    pub closed spec fn num_pages_view(self) -> u32 {
        self.num_pages
    }

    /// The guest-acknowledged size, in pages.
    pub closed spec fn actual_pages_view(self) -> u32 {
        self.actual_pages
    }

    /// The feature bits offered or negotiated.
    pub closed spec fn features_view(self) -> u64 {
        self.features
    }

    /// A new balloon: empty, offering must-tell-host, a stats queue, and
    /// deflate-on-out-of-memory on top of the base features.
    pub fn new(base_features: u64) -> (r: Balloon)
        ensures
            r.num_pages_view() == 0,
            r.actual_pages_view() == 0,
            r.features_view() == base_features | 0x7u64,
    {
        Balloon { num_pages: 0, actual_pages: 0, features: base_features | 0x7 }
    }

    /// The device type in the virtio registry.
    pub fn device_type(&self) -> (r: u32)
        ensures
            r == TYPE_BALLOON,
    {
        TYPE_BALLOON
    }

    /// The maximum sizes of the three queues: inflate, deflate, stats.
    pub fn queue_max_sizes(&self) -> (r: Vec<u16>)
        ensures
            r@ == seq![128u16, 128u16, 128u16],
    {
        let mut v: Vec<u16> = Vec::new();
        v.push(128);
        v.push(128);
        v.push(128);
        proof {
            assert(v@ =~= seq![128u16, 128u16, 128u16]);
        }
        v
    }

    /// The offered or negotiated feature bits.
    pub fn features(&self) -> (r: u64)
        ensures
            r == self.features_view(),
    {
        self.features
    }

    /// The driver acknowledges features: only bits offered and acknowledged
    /// remain.
    pub fn ack_features(&mut self, value: u64)
        ensures
            final(self).features_view() == (old(self).features_view() & value),
            final(self).num_pages_view() == old(self).num_pages_view(),
            final(self).actual_pages_view() == old(self).actual_pages_view(),
    {
        self.features = self.features & value;
    }

    /// The 8-byte configuration space: the target page count then the
    /// guest-acknowledged page count, both little-endian.
    pub open spec fn spec_config_bytes(self) -> Seq<u8> {
        vstd::bytes::spec_u32_to_le_bytes(self.num_pages_view()) + vstd::bytes::spec_u32_to_le_bytes(
            self.actual_pages_view(),
        )
    }

    /// Serialises the configuration space.
    pub fn config_bytes(&self) -> (r: Vec<u8>)
        ensures
            r@ == self.spec_config_bytes(),
            r@.len() == 8,
    {
        let mut out = u32_to_le_bytes(self.num_pages);
        let mut actual = u32_to_le_bytes(self.actual_pages);
        out.append(&mut actual);
        proof {
            vstd::bytes::lemma_auto_spec_u32_to_from_le_bytes();
        }
        out
    }

    /// Reads a window of the configuration space: byte `i` of `data` becomes
    /// configuration byte `offset + i` where that exists, and keeps its old
    /// value beyond the end — offsets past the space leave `data` untouched.
    pub fn read_config(&self, offset: u64, data: &mut Vec<u8>)
        ensures
            final(data)@.len() == old(data)@.len(),
            forall|i: int|
                0 <= i < final(data)@.len() ==> final(data)@[i] == (if offset + i
                    < self.spec_config_bytes().len() {
                    self.spec_config_bytes()[offset + i]
                } else {
                    old(data)@[i]
                }),
    {
        let cfg = self.config_bytes();
        copy_window(data, offset, &cfg);
    }

    /// Writes a window of the configuration space: only the
    /// guest-acknowledged page count (configuration bytes 4 to 7) is
    /// writable, taken as the little-endian value of the updated window.
    pub fn write_config(&mut self, offset: u64, data: &Vec<u8>)
        ensures
            final(self).features_view() == old(self).features_view(),
            final(self).num_pages_view() == old(self).num_pages_view(),
            final(self).actual_pages_view() == spec_u32_from_le_bytes(
                written_window(old(self).spec_config_bytes(), offset, data@).subrange(4, 8),
            ),
    {
        let mut cfg = self.config_bytes();
        copy_into_window(&mut cfg, offset, data);
        let actual = u32_from_le_bytes(slice_range(&cfg, 4, 8).as_slice());
        self.actual_pages = actual;
    }

    /// The guest-acknowledged size in bytes, as reported with statistics.
    pub fn actual_bytes(&self) -> (r: u64)
        ensures
            r == (self.actual_pages_view() as u64) << PFN_SHIFT,
    {
        (self.actual_pages as u64) << PFN_SHIFT
    }

    /// Dispatches one host command: an adjustment converts the byte target
    /// into pages (dropping sub-page remainder and pages beyond the 32-bit
    /// frame space) and asks for a configuration-changed interrupt; a
    /// statistics request asks the stats task to run.
    pub fn apply_command(&mut self, cmd: BalloonControlCommand) -> (r: CommandAction)
        ensures
            final(self).features_view() == old(self).features_view(),
            final(self).actual_pages_view() == old(self).actual_pages_view(),
            cmd matches BalloonControlCommand::Adjust { num_bytes } ==> r
                == CommandAction::SignalConfigChanged && final(self).num_pages_view() == (
            (num_bytes >> PFN_SHIFT) as u32),
            cmd == BalloonControlCommand::Stats ==> r == CommandAction::RequestStats && final(self).num_pages_view() == old(self).num_pages_view(),
    {
        match cmd {
            BalloonControlCommand::Adjust { num_bytes } => {
                self.num_pages = (num_bytes >> PFN_SHIFT) as u32;
                CommandAction::SignalConfigChanged
            }
            BalloonControlCommand::Stats => CommandAction::RequestStats,
        }
    }
}

/// A byte sequence with `data` overlaid starting at `offset`, clipped to the
/// sequence's length.
pub open spec fn written_window(cfg: Seq<u8>, offset: u64, data: Seq<u8>) -> Seq<u8> {
    Seq::new(
        cfg.len(),
        |i: int|
            if offset <= i < offset + data.len() {
                data[i - offset]
            } else {
                cfg[i]
            },
    )
}

/// Copies into `data` the window of `src` starting at `offset`: bytes past
/// the end of `src` are left as they are.
fn copy_window(data: &mut Vec<u8>, offset: u64, src: &Vec<u8>)
    ensures
        final(data)@.len() == old(data)@.len(),
        forall|i: int|
            0 <= i < final(data)@.len() ==> final(data)@[i] == (if offset + i < src@.len() {
                src@[offset + i]
            } else {
                old(data)@[i]
            }),
{
    let n = data.len();
    let mut i: usize = 0;
    while i < n
        invariant
            n == data@.len(),
            data@.len() == old(data)@.len(),
            i <= n,
            forall|j: int|
                0 <= j < i ==> data@[j] == (if offset + j < src@.len() {
                    src@[offset + j]
                } else {
                    old(data)@[j]
                }),
            forall|j: int| i <= j < n ==> data@[j] == old(data)@[j],
        decreases n - i,
    {
        if offset < src.len() as u64 && (i as u64) < src.len() as u64 - offset {
            let si = (offset as usize) + i;
            data[i] = src[si];
        }
        i = i + 1;
    }
}

/// Overlays `data` onto `cfg` starting at `offset`, clipped to `cfg`'s
/// length.
fn copy_into_window(cfg: &mut Vec<u8>, offset: u64, data: &Vec<u8>)
    ensures
        final(cfg)@ == written_window(old(cfg)@, offset, data@),
{
    let n = cfg.len();
    let mut i: usize = 0;
    while i < n
        invariant
            n == cfg@.len(),
            cfg@.len() == old(cfg)@.len(),
            i <= n,
            forall|j: int|
                0 <= j < i ==> cfg@[j] == (if offset <= j < offset + data@.len() {
                    data@[j - offset]
                } else {
                    old(cfg)@[j]
                }),
            forall|j: int| i <= j < n ==> cfg@[j] == old(cfg)@[j],
        decreases n - i,
    {
        if (i as u64) >= offset && ((i as u64) - offset) < data.len() as u64 {
            let di = i - (offset as usize);
            cfg[i] = data[di];
        }
        i = i + 1;
    }
    proof {
        assert(cfg@ =~= written_window(old(cfg)@, offset, data@));
    }
}

} // verus!
