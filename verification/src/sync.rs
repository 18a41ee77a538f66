//! Reading of whole packets from a stream of bytes.
//!
//! The [`Reader`] buffers the bytes read from the connection and decides how many bytes must
//! still be read to get the next whole packet; the caller does the reading.
use vstd::prelude::*;
use vstd::pervasive::VecAdditionalExecFns;

use crate::bytes::{Error, ErrorKind};
use crate::encoding::varint::{has_continue, leading_continues, rl_encode, rl_size, REMAINING_LENGTH_MAX};
use crate::v3::packets::common::fixed::{
    spec_fixed_bytes, spec_flags_allowed, spec_next_frame, ControlPacketType, FixedHeaderSlice,
};

verus! {

/// What the reader needs to get the next packet.
#[derive(Debug, Clone, Copy, PartialEq, Eq, Structural)]
pub enum ReadAction {
    /// Read at most this many bytes, at least one, to complete the fixed header.
    FillHead(usize),
    /// Read exactly this many bytes to complete the packet.
    FillExact(usize),
    /// A whole packet of this many bytes is buffered.
    Frame(usize),
}

/// What filling the fixed header did with the bytes read.
#[derive(Debug, Clone, Copy, PartialEq, Eq, Structural)]
pub enum HeadFill {
    /// The bytes were appended to the pending ones.
    Filled,
    /// No byte was read: the stream ended before the next packet.
    EndOfStream,
}

/// Bytes of the longest fixed header: the packet type and four bytes of remaining length.
pub const MIN_CAPACITY: usize = 5;

/// What reading decides with the buffered bytes.
pub open spec fn spec_read_action(pending: Seq<u8>, capacity: nat) -> Result<ReadAction, ErrorKind> {
    match spec_next_frame(pending) {
        Err(k) => Err(k),
        Ok(None) => Ok(ReadAction::FillHead((MIN_CAPACITY - pending.len()) as usize)),
        Ok(Some(len)) => if len > capacity {
            Err(ErrorKind::OutOfRange)
        } else if pending.len() < len {
            Ok(ReadAction::FillExact((len - pending.len()) as usize))
        } else {
            Ok(ReadAction::Frame(len as usize))
        },
    }
}

/// When the pending bytes start with a whole written packet that fits in the buffer, reading
/// hands out exactly that packet, whatever bytes follow it.
pub proof fn lemma_read_written_packet(
    t: ControlPacketType,
    flags: u8,
    rem: u32,
    body: Seq<u8>,
    rest: Seq<u8>,
    capacity: nat,
)
    requires
        flags < 16,
        spec_flags_allowed(t, flags),
        rem <= REMAINING_LENGTH_MAX,
        body.len() == rem,
        1 + rl_size(rem as int) + rem <= capacity,
    ensures
        spec_read_action(spec_fixed_bytes(t, flags, rem) + body + rest, capacity) == Ok::<
            ReadAction,
            ErrorKind,
        >(ReadAction::Frame((1 + rl_size(rem as int) + rem) as usize)),
{
    crate::v3::packets::common::fixed::lemma_fixed_roundtrip(t, flags, rem, body + rest);
    assert(spec_fixed_bytes(t, flags, rem) + body + rest =~= spec_fixed_bytes(t, flags, rem) + (
    body + rest));
}

/// A sequence whose bytes all carry the continuation flag is counted whole.
proof fn lemma_all_continue(s: Seq<u8>)
    requires
        forall|i: int| 0 <= i < s.len() ==> has_continue(#[trigger] s[i]),
    ensures
        leading_continues(s) == s.len(),
    decreases s.len(),
{
    if s.len() > 0 {
        assert forall|i: int| 0 <= i < s.drop_first().len() implies has_continue(
            #[trigger] s.drop_first()[i],
        ) by {
            assert(s.drop_first()[i] == s[i + 1]);
        }
        lemma_all_continue(s.drop_first());
    }
}

/// Reading a stream of written packets hands each one out whole and in order.
///
/// When the pending bytes are the start of a stream that begins with a written packet fitting
/// in the buffer, followed by any bytes: reading never fails; it asks to fill the header while
/// the header is incomplete, then exactly the bytes that complete the packet; once the packet is
/// pending it hands out exactly that packet, and the bytes left pending are the start of what
/// follows it in the stream. As filling appends the bytes read and taking a frame drops it, the
/// same holds again for the next packet: no byte is lost, repeated or moved.
pub proof fn lemma_read_stream_step(
    t: ControlPacketType,
    flags: u8,
    rem: u32,
    body: Seq<u8>,
    rest: Seq<u8>,
    pending: Seq<u8>,
    capacity: nat,
)
    requires
        flags < 16,
        spec_flags_allowed(t, flags),
        rem <= REMAINING_LENGTH_MAX,
        body.len() == rem,
        (spec_fixed_bytes(t, flags, rem) + body).len() <= capacity,
        pending.len() <= (spec_fixed_bytes(t, flags, rem) + body + rest).len(),
        pending == (spec_fixed_bytes(t, flags, rem) + body + rest).take(pending.len() as int),
    ensures
        ({
            let frame = spec_fixed_bytes(t, flags, rem) + body;
            match spec_read_action(pending, capacity) {
                Ok(ReadAction::Frame(n)) => n == frame.len() && pending.take(n as int) == frame
                    && pending.skip(n as int) == rest.take(pending.len() - n),
                Ok(ReadAction::FillExact(n)) => 1 <= n && pending.len() + n == frame.len(),
                Ok(ReadAction::FillHead(n)) => 1 <= n && pending.len() < 1 + rl_size(rem as int),
                Err(_) => false,
            }
        }),
{
    let fixed = spec_fixed_bytes(t, flags, rem);
    let frame = fixed + body;
    let stream = frame + rest;
    let h = 1 + rl_size(rem as int);
    crate::encoding::varint::lemma_rl_encode(rem as nat);
    assert(fixed.len() == h);
    if pending.len() >= h {
        let after = pending.skip(h as int);
        assert(pending =~= fixed + after) by {
            assert forall|i: int| 0 <= i < pending.len() implies pending[i] == (fixed + after)[i] by {
                assert(pending[i] == stream[i]);
                if i < h {
                    assert(stream[i] == fixed[i]);
                }
            }
        }
        crate::v3::packets::common::fixed::lemma_fixed_roundtrip(t, flags, rem, after);
        assert(spec_next_frame(pending) == Ok::<Option<nat>, ErrorKind>(Some(frame.len())));
        if pending.len() >= frame.len() {
            assert(pending.take(frame.len() as int) =~= frame);
            assert(pending.skip(frame.len() as int) =~= rest.take(pending.len() - frame.len()));
        }
    } else if pending.len() == 0 {
    } else {
        let e = rl_encode(rem as nat);
        let tail = pending.skip(1);
        crate::encoding::varint::lemma_leading_continues_facts(e);
        assert(leading_continues(e + Seq::<u8>::empty()) == e.len() - 1);
        assert(e + Seq::<u8>::empty() =~= e);
        assert forall|i: int| 0 <= i < tail.len() implies has_continue(#[trigger] tail[i]) by {
            assert(tail[i] == stream[i + 1]);
            assert(stream[i + 1] == fixed[i + 1]);
            assert(fixed[i + 1] == e[i]);
        }
        lemma_all_continue(tail);
        assert(spec_next_frame(pending) == Ok::<Option<nat>, ErrorKind>(None));
    }
}

/// A written packet: its type, flags, remaining length and body.
pub type PacketParts = (ControlPacketType, u8, u32, Seq<u8>);

/// The bytes of a written packet: its fixed header, then its body.
pub open spec fn spec_packet_bytes(p: PacketParts) -> Seq<u8> {
    spec_fixed_bytes(p.0, p.1, p.2) + p.3
}

/// The packet has allowed flags, a body of its remaining length, and fits in the buffer.
pub open spec fn spec_fits_written_packet(p: PacketParts, capacity: nat) -> bool {
    &&& p.1 < 16
    &&& spec_flags_allowed(p.0, p.1)
    &&& p.2 <= REMAINING_LENGTH_MAX
    &&& p.3.len() == p.2
    &&& spec_packet_bytes(p).len() <= capacity
}

/// The bytes of the packets, one after the other.
pub open spec fn spec_packets_bytes(ps: Seq<PacketParts>) -> Seq<u8>
    decreases ps.len(),
{
    if ps.len() == 0 {
        Seq::empty()
    } else {
        spec_packet_bytes(ps[0]) + spec_packets_bytes(ps.drop_first())
    }
}

/// The frames a reader hands out when it is driven over `input`: each fill of the header reads
/// as many bytes as the next entry of `sizes` says (when it is between one and the number asked
/// for, else the number asked for), and no more than the input holds; each exact fill reads the
/// bytes asked for. Reading stops at the end of the input or on an error.
pub open spec fn spec_read_stream(
    pending: Seq<u8>,
    input: Seq<u8>,
    capacity: nat,
    sizes: Seq<nat>,
) -> Seq<Seq<u8>>
    decreases input.len(), pending.len(),
{
    match spec_read_action(pending, capacity) {
        Ok(ReadAction::Frame(n)) => if n == 0 || pending.len() < n {
            Seq::empty()
        } else {
            seq![pending.take(n as int)] + spec_read_stream(
                pending.skip(n as int),
                input,
                capacity,
                sizes,
            )
        },
        Ok(ReadAction::FillHead(m)) => {
            let want: nat = if sizes.len() > 0 && 1 <= sizes[0] <= m {
                sizes[0]
            } else {
                m as nat
            };
            let k: nat = if want <= input.len() {
                want
            } else {
                input.len()
            };
            if k == 0 {
                Seq::empty()
            } else {
                spec_read_stream(
                    pending + input.take(k as int),
                    input.skip(k as int),
                    capacity,
                    sizes.drop_first(),
                )
            }
        },
        Ok(ReadAction::FillExact(m)) => if m == 0 || input.len() < m {
            Seq::empty()
        } else {
            spec_read_stream(
                pending + input.take(m as int),
                input.skip(m as int),
                capacity,
                sizes,
            )
        },
        Err(_) => Seq::empty(),
    }
}

/// Reading from any point of a stream of written packets hands out the packets that follow it.
#[verifier::rlimit(50)]
proof fn lemma_read_stream_from(
    ps: Seq<PacketParts>,
    tail: Seq<u8>,
    capacity: nat,
    sizes: Seq<nat>,
    p: nat,
)
    requires
        forall|i: int| 0 <= i < ps.len() ==> spec_fits_written_packet(#[trigger] ps[i], capacity),
        p <= (spec_packets_bytes(ps) + tail).len(),
    ensures
        ({
            let s = spec_packets_bytes(ps) + tail;
            let r = spec_read_stream(s.take(p as int), s.skip(p as int), capacity, sizes);
            &&& r.len() >= ps.len()
            &&& forall|i: int| 0 <= i < ps.len() ==> r[i] == spec_packet_bytes(#[trigger] ps[i])
        }),
    decreases ps.len(), (spec_packets_bytes(ps) + tail).len() - p,
{
    if ps.len() == 0 {
        return;
    }
    let s = spec_packets_bytes(ps) + tail;
    let p0 = ps[0];
    assert(spec_fits_written_packet(p0, capacity));
    let frame = spec_packet_bytes(p0);
    let more = ps.drop_first();
    let rest = spec_packets_bytes(more) + tail;
    assert(s =~= frame + rest);
    assert(frame =~= spec_fixed_bytes(p0.0, p0.1, p0.2) + p0.3);
    let pending = s.take(p as int);
    let input = s.skip(p as int);
    lemma_read_stream_step(p0.0, p0.1, p0.2, p0.3, rest, pending, capacity);
    crate::encoding::varint::lemma_rl_encode(p0.2 as nat);
    match spec_read_action(pending, capacity) {
        Ok(ReadAction::Frame(n)) => {
            let q = (p - n) as nat;
            assert(pending.skip(n as int) =~= rest.take(q as int));
            assert(input =~= rest.skip(q as int));
            assert forall|i: int| 0 <= i < more.len() implies spec_fits_written_packet(
                #[trigger] more[i],
                capacity,
            ) by {
                assert(more[i] == ps[i + 1]);
            }
            lemma_read_stream_from(more, tail, capacity, sizes, q);
            let r2 = spec_read_stream(rest.take(q as int), rest.skip(q as int), capacity, sizes);
            let r = spec_read_stream(pending, input, capacity, sizes);
            assert(r == seq![frame] + r2);
            assert forall|i: int| 0 <= i < ps.len() implies r[i] == spec_packet_bytes(
                #[trigger] ps[i],
            ) by {
                if i > 0 {
                    assert(ps[i] == more[i - 1]);
                }
            }
        },
        Ok(ReadAction::FillExact(m)) => {
            assert(m >= 1);
            assert(s.take(p + m as int) =~= pending + input.take(m as int));
            assert(s.skip(p + m as int) =~= input.skip(m as int));
            lemma_read_stream_from(ps, tail, capacity, sizes, (p + m) as nat);
        },
        Ok(ReadAction::FillHead(m)) => {
            let want: nat = if sizes.len() > 0 && 1 <= sizes[0] <= m {
                sizes[0]
            } else {
                m as nat
            };
            let k: nat = if want <= input.len() {
                want
            } else {
                input.len()
            };
            assert(k >= 1);
            assert(s.take((p + k) as int) =~= pending + input.take(k as int));
            assert(s.skip((p + k) as int) =~= input.skip(k as int));
            lemma_read_stream_from(ps, tail, capacity, sizes.drop_first(), p + k);
        },
        Err(_) => {},
    }
}

/// Reading a stream of written packets hands them out whole, one after the other: whatever the
/// sizes of the reads that fill the headers, the first frames handed out are exactly the packets
/// written, so no byte is lost, repeated or moved, whatever bytes follow them.
pub proof fn lemma_read_stream(ps: Seq<PacketParts>, tail: Seq<u8>, capacity: nat, sizes: Seq<nat>)
    requires
        forall|i: int| 0 <= i < ps.len() ==> spec_fits_written_packet(#[trigger] ps[i], capacity),
    ensures
        ({
            let r = spec_read_stream(Seq::empty(), spec_packets_bytes(ps) + tail, capacity, sizes);
            &&& r.len() >= ps.len()
            &&& forall|i: int| 0 <= i < ps.len() ==> r[i] == spec_packet_bytes(#[trigger] ps[i])
        }),
{
    let s = spec_packets_bytes(ps) + tail;
    lemma_read_stream_from(ps, tail, capacity, sizes, 0);
    assert(s.take(0) =~= Seq::<u8>::empty());
    assert(s.skip(0) =~= s);
}

/// Buffer for the packets read from a connection.
#[derive(Debug)]
pub struct Reader {
    buf: Vec<u8>,
    pos: usize,
    filled: usize,
}

impl Reader {
    /// The positions stay in the buffer, which holds at least the longest fixed header.
    pub closed spec fn wf(&self) -> bool {
        &&& self.pos <= self.filled <= self.buf@.len()
        &&& self.buf@.len() >= MIN_CAPACITY
    }

    /// Number of bytes the buffer holds.
    pub closed spec fn spec_capacity(&self) -> nat {
        self.buf@.len()
    }

    /// Bytes read and not yet handed out.
    pub closed spec fn spec_pending(&self) -> Seq<u8> {
        self.buf@.subrange(self.pos as int, self.filled as int)
    }

    /// A reader with a buffer of `capacity` bytes, which must hold at least a fixed header.
    pub fn with_capacity(capacity: usize) -> (r: Option<Self>)
        ensures
            match r {
                Some(reader) => capacity >= MIN_CAPACITY && reader.wf() && reader.spec_capacity() == capacity
                    && reader.spec_pending() == Seq::<u8>::empty(),
                None => capacity < MIN_CAPACITY,
            },
    {
        if capacity < MIN_CAPACITY {
            return None;
        }
        let mut buf: Vec<u8> = Vec::new();
        let mut i: usize = 0;
        while i < capacity
            invariant
                i <= capacity,
                buf@.len() == i,
            decreases capacity - i,
        {
            buf.push(0);
            i = i + 1;
        }
        let this = Reader { buf, pos: 0, filled: 0 };
        proof {
            assert(this.spec_pending() =~= Seq::<u8>::empty());
        }
        Some(this)
    }

    /// Moves the pending bytes to the front of the buffer.
    fn backshift(&mut self)
        requires
            old(self).wf(),
        ensures
            final(self).wf(),
            final(self).spec_capacity() == old(self).spec_capacity(),
            final(self).spec_pending() == old(self).spec_pending(),
            final(self).pos == 0,
    {
        let ghost pending = self.spec_pending();
        let pos = self.pos;
        let n = self.filled - pos;
        let ghost orig = self.buf@;
        let mut i: usize = 0;
        while i < n
            invariant
                i <= n,
                n == pending.len(),
                pos + n <= self.buf.len(),
                self.buf@.len() == orig.len(),
                self.buf@.len() >= MIN_CAPACITY,
                pending == orig.subrange(pos as int, pos + n),
                forall|j: int| 0 <= j < i ==> self.buf@[j] == pending[j],
                forall|j: int| i <= j < self.buf@.len() ==> self.buf@[j] == orig[j],
            decreases n - i,
        {
            let b = self.buf[pos + i];
            self.buf.set(i, b);
            i = i + 1;
        }
        self.pos = 0;
        self.filled = n;
        proof {
            assert(self.spec_pending() =~= pending);
        }
    }

    /// Decides what to do to get the next packet, after moving the pending bytes to the front.
    pub fn read(&mut self) -> (r: Result<ReadAction, Error>)
        requires
            old(self).wf(),
        ensures
            final(self).wf(),
            final(self).spec_capacity() == old(self).spec_capacity(),
            final(self).spec_pending() == old(self).spec_pending(),
            match spec_read_action(old(self).spec_pending(), old(self).spec_capacity()) {
                Ok(a) => r == Ok::<ReadAction, Error>(a),
                Err(k) => r matches Err(e) && e.kind() == k,
            },
            r matches Ok(ReadAction::FillHead(n)) ==> 1 <= n <= MIN_CAPACITY
                && old(self).spec_pending().len() + n <= old(self).spec_capacity(),
            r matches Ok(ReadAction::FillExact(n)) ==> 1 <= n && old(self).spec_pending().len() + n
                <= old(self).spec_capacity(),
            r matches Ok(ReadAction::Frame(n)) ==> n <= old(self).spec_pending().len()
                && spec_next_frame(old(self).spec_pending()) == Ok::<Option<nat>, ErrorKind>(
                Some(n as nat),
            ),
    {
        self.backshift();
        let (_, tail) = self.buf.as_slice().split_at(self.pos);
        let (pending, _) = tail.split_at(self.filled - self.pos);
        proof {
            assert(pending@ =~= self.spec_pending());
            crate::encoding::varint::lemma_leading_continues_facts(pending@.skip(1));
        }
        match FixedHeaderSlice::next_frame(pending)? {
            None => Ok(ReadAction::FillHead(MIN_CAPACITY - self.filled)),
            Some(len) => {
                if len > self.buf.len() {
                    return Err(Error::new(ErrorKind::OutOfRange, "payload is too big"));
                }
                if self.filled < len {
                    Ok(ReadAction::FillExact(len - self.filled))
                } else {
                    Ok(ReadAction::Frame(len))
                }
            },
        }
    }

    /// Appends the bytes read from the connection to the pending ones.
    pub fn fill(&mut self, data: &[u8]) -> (r: Result<(), Error>)
        requires
            old(self).wf(),
        ensures
            final(self).wf(),
            final(self).spec_capacity() == old(self).spec_capacity(),
            match r {
                Ok(()) => old(self).spec_pending().len() + data@.len() <= old(self).spec_capacity()
                    && final(self).spec_pending() == old(self).spec_pending() + data@,
                Err(e) => old(self).spec_pending().len() + data@.len() > old(self).spec_capacity()
                    && e.kind() == ErrorKind::NotEnoughSpace && final(self).spec_pending() == old(
                    self,
                ).spec_pending(),
            },
    {
        self.backshift();
        if data.len() > self.buf.len() - self.filled {
            return Err(Error::new(ErrorKind::NotEnoughSpace, "read buffer"));
        }
        let ghost pending = self.spec_pending();
        let start = self.filled;
        let ghost orig = self.buf@;
        let mut i: usize = 0;
        while i < data.len()
            invariant
                i <= data@.len(),
                start + data@.len() <= self.buf.len(),
                self.buf@.len() == orig.len(),
                self.buf@.len() >= MIN_CAPACITY,
                self.pos == 0,
                self.filled == start,
                pending == orig.subrange(0, start as int),
                forall|j: int| 0 <= j < start ==> self.buf@[j] == orig[j],
                forall|j: int| 0 <= j < i ==> self.buf@[start + j] == data@[j],
            decreases data@.len() - i,
        {
            self.buf.set(start + i, data[i]);
            i = i + 1;
        }
        self.filled = start + data.len();
        proof {
            assert(self.spec_pending() =~= pending + data@);
        }
        Ok(())
    }

    /// Appends the bytes read to complete the fixed header, which is still incomplete; reading
    /// none means the stream ended.
    pub fn fill_head(&mut self, data: &[u8]) -> (r: Result<HeadFill, Error>)
        requires
            old(self).wf(),
            old(self).spec_pending().len() < MIN_CAPACITY,
        ensures
            final(self).wf(),
            final(self).spec_capacity() == old(self).spec_capacity(),
            data@.len() == 0 ==> r == Ok::<HeadFill, Error>(HeadFill::EndOfStream)
                && final(self).spec_pending() == old(self).spec_pending(),
            data@.len() > 0 ==> match r {
                Ok(HeadFill::Filled) => old(self).spec_pending().len() + data@.len()
                    <= old(self).spec_capacity() && final(self).spec_pending() == old(
                    self,
                ).spec_pending() + data@,
                Ok(HeadFill::EndOfStream) => false,
                Err(e) => old(self).spec_pending().len() + data@.len() > old(self).spec_capacity()
                    && e.kind() == ErrorKind::NotEnoughSpace && final(self).spec_pending() == old(
                    self,
                ).spec_pending(),
            },
    {
        if data.len() == 0 {
            return Ok(HeadFill::EndOfStream);
        }
        self.fill(data)?;
        Ok(HeadFill::Filled)
    }

    /// Hands out the first `len` pending bytes: the packet that [`Reader::read`] found.
    pub fn take_frame(&mut self, len: usize) -> (r: Vec<u8>)
        requires
            old(self).wf(),
            len <= old(self).spec_pending().len(),
        ensures
            final(self).wf(),
            final(self).spec_capacity() == old(self).spec_capacity(),
            r@ == old(self).spec_pending().take(len as int),
            final(self).spec_pending() == old(self).spec_pending().skip(len as int),
    {
        let mut out: Vec<u8> = Vec::new();
        let mut i: usize = 0;
        while i < len
            invariant
                i <= len,
                self.pos + len <= self.filled <= self.buf@.len(),
                out@ == self.buf@.subrange(self.pos as int, self.pos + i),
            decreases len - i,
        {
            out.push(self.buf[self.pos + i]);
            i = i + 1;
            proof {
                assert(out@ =~= self.buf@.subrange(self.pos as int, self.pos + i));
            }
        }
        let ghost pending = self.spec_pending();
        self.pos = self.pos + len;
        proof {
            assert(out@ =~= pending.take(len as int));
            assert(self.spec_pending() =~= pending.skip(len as int));
        }
        out
    }
}

} // verus!
