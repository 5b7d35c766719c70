//! Debug-stub wire replies: a reply is `$`, the payload bytes, `#`, and two
//! uppercase hex digits of the payload's modulo-256 checksum, produced one
//! byte at a time by a small state machine.

use vstd::prelude::*;

verus! {

/// The ASCII digit for one hex nibble: `0`-`9` then `A`-`F`; out-of-range
/// values map to `0`.
pub open spec fn nibble_char(d: u8) -> u8 {
    if d < 10 {
        (d + 0x30) as u8
    } else if d <= 0xf {
        (d + 0x37) as u8
    } else {
        0x30
    }
}

/// Modulo-256 sum of a byte sequence, the reply checksum.
pub open spec fn sum_mod(data: Seq<u8>) -> u8
    decreases data.len(),
{
    if data.len() == 0 {
        0
    } else {
        (((sum_mod(data.drop_last()) + data.last()) % 256) as u8)
    }
}

/// The complete framed reply for a payload: `$`, the payload, `#`, and the
/// two checksum digits (most significant nibble first).
pub open spec fn reply_seq(data: Seq<u8>) -> Seq<u8> {
    seq![36u8] + data + seq![
        35u8,
        nibble_char((sum_mod(data) >> 4) & 0xf),
        nibble_char(sum_mod(data) & 0xf),
    ]
}

/// The three payload bytes of an error reply: `E` then the two hex digits of
/// the error number.
pub open spec fn error_data(errno: u8) -> Seq<u8> {
    seq![69u8, nibble_char((errno >> 4) & 0xf), nibble_char(errno & 0xf)]
}

pub fn ascii_byte(digit: u8) -> (r: u8)
    ensures
        r == nibble_char(digit),
{
    match digit {
        d if d < 0xa => d + 0x30,
        d if d <= 0xf => d + 0x37,
        _ => 0x30,
    }
}

pub fn hex_lsn(num: u8) -> (r: u8)
    ensures
        r == nibble_char(num & 0xf),
{
    ascii_byte(num & 0x0f)
}

pub fn hex_msn(num: u8) -> (r: u8)
    ensures
        r == nibble_char((num >> 4) & 0xf),
{
    ascii_byte((num >> 4) & 0x0f)
}

enum IterState {
    Start,
    Data,
    Checksum1,
    Checksum2,
    Done,
}

/// Emits one framed reply byte by byte: `$`, the payload, `#`, checksum.
pub struct GdbReply {
    data: Vec<u8>,
    pos: usize,
    checksum: u8,
    state: IterState,
}

impl GdbReply {
    /// The state machine is consistent: the position is in range and the
    /// running checksum matches the bytes already emitted.
    pub closed spec fn wf(self) -> bool {
        match self.state {
            IterState::Start => self.pos == 0 && self.checksum == 0,
            IterState::Data => self.pos <= self.data@.len() && self.checksum == sum_mod(
                self.data@.take(self.pos as int),
            ),
            IterState::Checksum1 => self.checksum == sum_mod(self.data@),
            IterState::Checksum2 => self.checksum == sum_mod(self.data@),
            IterState::Done => true,
        }
    }

    /// The bytes this reply has yet to emit.
    pub closed spec fn remaining(self) -> Seq<u8> {
        match self.state {
            IterState::Start => reply_seq(self.data@),
            IterState::Data => self.data@.skip(self.pos as int) + seq![
                35u8,
                nibble_char((sum_mod(self.data@) >> 4) & 0xf),
                nibble_char(sum_mod(self.data@) & 0xf),
            ],
            IterState::Checksum1 => seq![
                nibble_char((sum_mod(self.data@) >> 4) & 0xf),
                nibble_char(sum_mod(self.data@) & 0xf),
            ],
            IterState::Checksum2 => seq![nibble_char(sum_mod(self.data@) & 0xf)],
            IterState::Done => Seq::empty(),
        }
    }

    pub fn new(data: Vec<u8>) -> (r: GdbReply)
        ensures
            r.wf(),
            r.remaining() == reply_seq(data@),
    {
        GdbReply { data, pos: 0, checksum: 0, state: IterState::Start }
    }

    /// Emits the next reply byte, or `None` once the trailing checksum digit
    /// has been produced.
    pub fn next(&mut self) -> (r: Option<u8>)
        requires
            old(self).wf(),
        ensures
            final(self).wf(),
            old(self).remaining().len() > 0 ==> r == Some(old(self).remaining()[0])
                && final(self).remaining() == old(self).remaining().skip(1),
            old(self).remaining().len() == 0 ==> r is None && final(self).remaining()
                == Seq::<u8>::empty(),
    {
        match self.state {
            IterState::Start => {
                self.state = IterState::Data;
                proof {
                    assert(old(self).remaining().skip(1) =~= self.remaining());
                }
                Some(36)
            }
            IterState::Data => {
                if self.pos < self.data.len() {
                    let x = self.data[self.pos];
                    self.checksum = self.checksum.wrapping_add(x);
                    self.pos = self.pos + 1;
                    proof {
                        assert(self.data@.take(self.pos as int).drop_last() =~= old(
                            self,
                        ).data@.take(old(self).pos as int));
                        assert(self.data@.take(self.pos as int).last() == x);
                        assert(old(self).remaining().skip(1) =~= self.remaining());
                    }
                    Some(x)
                } else {
                    self.state = IterState::Checksum1;
                    proof {
                        assert(old(self).data@.take(old(self).pos as int) =~= old(self).data@);
                        assert(old(self).remaining().skip(1) =~= self.remaining());
                    }
                    Some(35)
                }
            }
            IterState::Checksum1 => {
                self.state = IterState::Checksum2;
                proof {
                    assert(old(self).remaining().skip(1) =~= self.remaining());
                }
                Some(hex_msn(self.checksum))
            }
            IterState::Checksum2 => {
                self.state = IterState::Done;
                proof {
                    assert(old(self).remaining().skip(1) =~= self.remaining());
                }
                Some(hex_lsn(self.checksum))
            }
            IterState::Done => None,
        }
    }

    /// Drains the reply into a vector: everything still pending, in order.
    pub fn collect_remaining(&mut self) -> (r: Vec<u8>)
        requires
            old(self).wf(),
        ensures
            final(self).wf(),
            r@ == old(self).remaining(),
            final(self).remaining() == Seq::<u8>::empty(),
    {
        let mut out: Vec<u8> = Vec::new();
        loop
            invariant
                self.wf(),
                out@ + self.remaining() == old(self).remaining(),
            decreases self.remaining().len(),
        {
            match self.next() {
                Some(b) => {
                    out.push(b);
                    proof {
                        assert(out@ + self.remaining() =~= old(self).remaining());
                    }
                }
                None => {
                    proof {
                        assert(out@ =~= old(self).remaining());
                    }
                    return out;
                }
            }
        }
    }
}

/// Produces an empty reply: no payload, so the frame is `$#00`.
pub fn empty() -> (r: GdbReply)
    ensures
        r.wf(),
        r.remaining() == reply_seq(Seq::<u8>::empty()),
{
    GdbReply::new(Vec::new())
}

/// The payload of an error reply, emitted byte by byte: `E` and two hex
/// digits of the error number.
pub struct GdbErrorData {
    errno: u8,
    idx: usize,
}

impl GdbErrorData {
    /// The error-payload bytes this source has yet to emit.
    pub closed spec fn remaining(self) -> Seq<u8> {
        error_data(self.errno).skip(if self.idx <= 3 {
            self.idx as int
        } else {
            3
        })
    }

    pub fn new(errno: u8) -> (r: GdbErrorData)
        ensures
            r.remaining() == error_data(errno),
    {
        GdbErrorData { errno, idx: 0 }
    }

    /// Emits the next error-payload byte, or `None` after the third.
    pub fn next(&mut self) -> (r: Option<u8>)
        ensures
            old(self).remaining().len() > 0 ==> r == Some(old(self).remaining()[0])
                && final(self).remaining() == old(self).remaining().skip(1),
            old(self).remaining().len() == 0 ==> r is None && final(self).remaining()
                == Seq::<u8>::empty(),
    {
        let ret = match self.idx {
            0 => Some(69),
            1 => Some(hex_msn(self.errno)),
            2 => Some(hex_lsn(self.errno)),
            _ => None,
        };
        self.idx = self.idx.saturating_add(1);
        proof {
            if old(self).remaining().len() > 0 {
                assert(self.remaining() =~= old(self).remaining().skip(1));
            } else {
                assert(self.remaining() =~= Seq::<u8>::empty());
            }
        }
        ret
    }
}

/// An error reply: payload `E` plus two hex digits of `errno`, framed.
pub fn error(errno: u8) -> (r: GdbReply)
    ensures
        r.wf(),
        r.remaining() == reply_seq(error_data(errno)),
{
    let mut source = GdbErrorData::new(errno);
    let mut v: Vec<u8> = Vec::new();
    loop
        invariant
            v@ + source.remaining() == error_data(errno),
        decreases source.remaining().len(),
    {
        match source.next() {
            Some(b) => {
                v.push(b);
                proof {
                    assert(v@ + source.remaining() =~= error_data(errno));
                }
            }
            None => {
                proof {
                    assert(v@ =~= error_data(errno));
                }
                return GdbReply::new(v);
            }
        }
    }
}

} // verus!
