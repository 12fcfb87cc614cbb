//! Framing on a byte stream: what to write for one frame, how a vectored
//! write advances through its buffers, and how a frame is read piece by piece.
//!
//! The functions here decide; the caller performs the reads and writes and
//! reports what the stream did.

use vstd::prelude::*;
use vstd::slice::slice_subrange;
use crate::error::BridgeError;
use crate::limits::BRIDGE_COALESCE_WRITE_THRESHOLD_BYTES;
use crate::limits::BRIDGE_PROTOCOL_VERSION;
use crate::limits::BRIDGE_TUNNEL_CLOSE_FRAME_TYPE;
use crate::limits::MAX_BRIDGE_FRAME_BYTES;
use crate::request::spec_bare_payload;
use crate::request::spec_chunk_payload;
use crate::wire::BridgeByteWriter;
use crate::wire::lemma_u32_be_round_trip;
use crate::wire::spec_u32_be;
use crate::wire::spec_u32_from_be;

verus! {

/// A frame as it goes over the stream: the length of the payload in 32 bits,
/// then the payload.
pub open spec fn spec_frame_wire(payload: Seq<u8>) -> Seq<u8>
    recommends
        payload.len() <= MAX_BRIDGE_FRAME_BYTES,
{
    spec_u32_be(payload.len() as u32) + payload
}

/// The length in front of a frame is the length of its payload, and the
/// payload stands behind it unchanged.
pub proof fn lemma_frame_length_exact(payload: Seq<u8>)
    requires
        payload.len() <= u32::MAX,
    ensures
        spec_frame_wire(payload).len() == 4 + payload.len(),
        spec_frame_length(spec_frame_wire(payload).subrange(0, 4)) == payload.len(),
        spec_frame_wire(payload).subrange(4, 4 + payload.len() as int) == payload,
{
    let wire = spec_frame_wire(payload);
    let head = spec_u32_be(payload.len() as u32);
    lemma_u32_be_round_trip(payload.len() as u32);
    assert(wire.subrange(0, 4) =~= head);
    assert(wire.subrange(4, 4 + payload.len() as int) =~= payload);
}

/// How one frame is handed to the stream. `head` is written first. A
/// coalesced frame is all in `head`; otherwise `head` stops where the bytes
/// begin that the caller holds and writes behind it without copying them.
#[derive(Debug)]
pub struct FramePlan {
    pub head: Vec<u8>,
    pub coalesced: bool,
}

impl FramePlan {
    /// The bytes that reach the stream when `tail` is what the caller writes
    /// behind a head that is not coalesced.
    pub open spec fn wire(&self, tail: Seq<u8>) -> Seq<u8> {
        if self.coalesced {
            self.head@
        } else {
            self.head@ + tail
        }
    }
}

/// Plans the write of one frame that carries `payload`. Short frames are
/// copied into one buffer; of longer ones only the length is, and the
/// payload follows from where it lies.
pub fn plan_bridge_frame(payload: &[u8]) -> (result: Result<FramePlan, BridgeError>)
    ensures
        payload@.len() > MAX_BRIDGE_FRAME_BYTES ==> result == Err::<FramePlan, BridgeError>(
            BridgeError::FrameTooLarge(payload@.len() as usize),
        ),
        payload@.len() <= MAX_BRIDGE_FRAME_BYTES ==> {
            &&& result is Ok
            &&& result->Ok_0.coalesced == (payload@.len() <= BRIDGE_COALESCE_WRITE_THRESHOLD_BYTES)
            &&& result->Ok_0.wire(payload@) == spec_frame_wire(payload@)
            &&& result->Ok_0.head@.subrange(0, 4) == spec_u32_be(payload@.len() as u32)
        },
{
    if payload.len() > MAX_BRIDGE_FRAME_BYTES {
        return Err(BridgeError::FrameTooLarge(payload.len()));
    }
    let mut writer = BridgeByteWriter::new();
    writer.put_u32(payload.len() as u32);
    let coalesced = payload.len() <= BRIDGE_COALESCE_WRITE_THRESHOLD_BYTES;
    if coalesced {
        writer.put_raw(payload);
    }
    let head = writer.into_inner();
    assert(head@.subrange(0, 4) =~= spec_u32_be(payload@.len() as u32));
    assert(coalesced ==> head@ =~= spec_frame_wire(payload@));
    assert(!coalesced ==> head@ =~= spec_u32_be(payload@.len() as u32));
    Ok(FramePlan { head, coalesced })
}

/// What stands in the way of a chunk frame for a chunk of `length` bytes, if
/// anything does.
pub open spec fn spec_chunk_frame_error(length: nat) -> Option<BridgeError> {
    if length > u32::MAX {
        Some(BridgeError::ChunkTooLong)
    } else if length + 6 > usize::MAX {
        Some(BridgeError::FrameLengthOverflow)
    } else if length + 6 > MAX_BRIDGE_FRAME_BYTES {
        Some(BridgeError::FrameTooLarge((length + 6) as usize))
    } else {
        None
    }
}

/// Plans the write of one chunk frame of type `frame_type` around `chunk`,
/// without building the payload first.
pub fn plan_bridge_chunk_frame(frame_type: u8, chunk: &[u8]) -> (result: Result<
    FramePlan,
    BridgeError,
>)
    ensures
        match spec_chunk_frame_error(chunk@.len()) {
            Some(error) => result == Err::<FramePlan, BridgeError>(error),
            None => {
                &&& result is Ok
                &&& result->Ok_0.coalesced == (chunk@.len() + 6
                    <= BRIDGE_COALESCE_WRITE_THRESHOLD_BYTES)
                &&& result->Ok_0.wire(chunk@) == spec_frame_wire(
                    spec_chunk_payload(frame_type, chunk@),
                )
                &&& result->Ok_0.head@.subrange(0, 4) == spec_u32_be((chunk@.len() + 6) as u32)
            },
        },
{
    if chunk.len() > 4294967295 {
        return Err(BridgeError::ChunkTooLong);
    }
    if chunk.len() > usize::MAX - 6 {
        return Err(BridgeError::FrameLengthOverflow);
    }
    let payload_len = chunk.len() + 6;
    if payload_len > MAX_BRIDGE_FRAME_BYTES {
        return Err(BridgeError::FrameTooLarge(payload_len));
    }
    let mut writer = BridgeByteWriter::new();
    writer.put_u32(payload_len as u32);
    writer.put_u8(BRIDGE_PROTOCOL_VERSION);
    writer.put_u8(frame_type);
    writer.put_u32(chunk.len() as u32);
    let coalesced = payload_len <= BRIDGE_COALESCE_WRITE_THRESHOLD_BYTES;
    if coalesced {
        writer.put_raw(chunk);
    }
    let head = writer.into_inner();
    proof {
        let payload = spec_chunk_payload(frame_type, chunk@);
        assert(payload.len() == chunk@.len() + 6);
        assert(head@.subrange(0, 4) =~= spec_u32_be(payload_len as u32));
        assert(coalesced ==> head@ =~= spec_frame_wire(payload));
        assert(!coalesced ==> head@ + chunk@ =~= spec_frame_wire(payload));
    }
    Ok(FramePlan { head, coalesced })
}

/// Plans the write of the frame that closes a tunnel.
pub fn plan_bridge_tunnel_close_frame() -> (plan: FramePlan)
    ensures
        plan.coalesced,
        plan.head@ == spec_frame_wire(spec_bare_payload(BRIDGE_TUNNEL_CLOSE_FRAME_TYPE)),
{
    let mut head: Vec<u8> = Vec::new();
    head.push(0);
    head.push(0);
    head.push(0);
    head.push(2);
    head.push(BRIDGE_PROTOCOL_VERSION);
    head.push(BRIDGE_TUNNEL_CLOSE_FRAME_TYPE);
    assert(head@ =~= spec_frame_wire(spec_bare_payload(BRIDGE_TUNNEL_CLOSE_FRAME_TYPE)));
    FramePlan { head, coalesced: true }
}

/// Number of bytes in the first `count` buffers.
pub open spec fn spec_bytes_before(buffers: Seq<Seq<u8>>, count: int) -> int
    decreases count,
{
    if count <= 0 {
        0
    } else {
        spec_bytes_before(buffers, count - 1) + buffers[count - 1].len()
    }
}

/// Number of bytes in all buffers.
pub open spec fn spec_bytes_total(buffers: Seq<Seq<u8>>) -> int {
    spec_bytes_before(buffers, buffers.len() as int)
}

/// Number of bytes that are out once the stream took `count` more after
/// `written`: never more than there are.
pub open spec fn spec_written_after(buffers: Seq<Seq<u8>>, written: int, count: usize) -> int {
    if written + count <= spec_bytes_total(buffers) {
        written + count
    } else {
        spec_bytes_total(buffers)
    }
}

/// The bytes of the first `count` buffers, one buffer behind the other.
pub open spec fn spec_bytes_joined(buffers: Seq<Seq<u8>>, count: int) -> Seq<u8>
    decreases count,
{
    if count <= 0 {
        Seq::empty()
    } else {
        spec_bytes_joined(buffers, count - 1) + buffers[count - 1]
    }
}

/// The bytes of all buffers in the order in which they go out.
pub open spec fn spec_bytes_all(buffers: Seq<Seq<u8>>) -> Seq<u8> {
    spec_bytes_joined(buffers, buffers.len() as int)
}

/// Whether buffers are written in one piece: there are at most three of
/// them, and together they hold no more than the threshold.
pub open spec fn spec_coalesces(buffers: Seq<Seq<u8>>) -> bool {
    buffers.len() <= VECTORED_WRITE_SLICES && spec_bytes_total(buffers)
        <= BRIDGE_COALESCE_WRITE_THRESHOLD_BYTES
}

/// Where a vectored write stands: the buffer being written and how much of
/// it is out.
#[derive(Clone, Copy, Debug, PartialEq, Eq, Structural)]
pub struct VectoredCursor {
    pub index: usize,
    pub offset: usize,
}

/// What the stream is offered next: at most three slices.
pub const VECTORED_WRITE_SLICES: usize = 3;

impl VectoredCursor {
    /// Whether the cursor points into `buffers` or just behind them.
    pub open spec fn fits(&self, buffers: Seq<Seq<u8>>) -> bool {
        &&& self.index <= buffers.len()
        &&& self.index < buffers.len() ==> self.offset <= buffers[self.index as int].len()
        &&& self.index == buffers.len() ==> self.offset == 0
    }

    /// Number of bytes that are out.
    pub open spec fn written(&self, buffers: Seq<Seq<u8>>) -> int {
        spec_bytes_before(buffers, self.index as int) + self.offset
    }

    /// Whether every byte is out.
    pub open spec fn drained(&self, buffers: Seq<Seq<u8>>) -> bool {
        self.written(buffers) == spec_bytes_total(buffers)
    }

    /// The buffer behind the last one that the stream is offered next.
    pub open spec fn offer_end(&self, buffers: Seq<Seq<u8>>) -> int {
        if buffers.len() - self.index < VECTORED_WRITE_SLICES {
            buffers.len() as int
        } else {
            self.index + VECTORED_WRITE_SLICES
        }
    }

    /// The bytes that the stream is offered next: those that follow the
    /// bytes that are out, up to the end of the last buffer offered.
    pub open spec fn offered(&self, buffers: Seq<Seq<u8>>) -> Seq<u8> {
        spec_bytes_all(buffers).subrange(
            self.written(buffers),
            spec_bytes_before(buffers, self.offer_end(buffers)),
        )
    }

    /// A cursor that fits has at most as many bytes out as there are.
    pub proof fn lemma_written_in_range(&self, buffers: Seq<Seq<u8>>)
        requires
            self.fits(buffers),
        ensures
            0 <= self.written(buffers) <= spec_bytes_total(buffers),
    {
        lemma_bytes_before_grows(buffers, self.index as int, buffers.len() as int);
        if self.index < buffers.len() {
            lemma_bytes_before_grows(buffers, self.index + 1, buffers.len() as int);
            assert(spec_bytes_before(buffers, self.index + 1) == spec_bytes_before(
                buffers,
                self.index as int,
            ) + buffers[self.index as int].len());
        }
    }

    /// What a stream takes of the bytes it is offered are the bytes that
    /// follow those that are out, and they are out once it has taken them.
    pub proof fn lemma_taken_follows_written(&self, buffers: Seq<Seq<u8>>, count: usize)
        requires
            self.fits(buffers),
            count <= self.offered(buffers).len(),
        ensures
            self.offered(buffers).subrange(0, count as int) == spec_bytes_all(buffers).subrange(
                self.written(buffers),
                self.written(buffers) + count,
            ),
            spec_written_after(buffers, self.written(buffers), count) == self.written(buffers)
                + count,
    {
        let end = self.offer_end(buffers);
        self.lemma_written_in_range(buffers);
        lemma_joined_len(buffers, buffers.len() as int);
        lemma_bytes_before_grows(buffers, end, buffers.len() as int);
        if self.index < buffers.len() {
            lemma_bytes_before_grows(buffers, self.index + 1, end);
            assert(spec_bytes_before(buffers, self.index + 1) == spec_bytes_before(
                buffers,
                self.index as int,
            ) + buffers[self.index as int].len());
        }
        assert(self.offered(buffers).subrange(0, count as int) =~= spec_bytes_all(buffers).subrange(
            self.written(buffers),
            self.written(buffers) + count,
        ));
    }

    /// A cursor in front of the first byte.
    pub fn new() -> (cursor: Self)
        ensures
            cursor.index == 0,
            cursor.offset == 0,
    {
        VectoredCursor { index: 0, offset: 0 }
    }

    /// Steps over buffers that are out and hands back what to offer the
    /// stream next: what is left of the current buffer, then up to two of the
    /// buffers behind it. Nothing is handed back once every byte is out.
    pub fn next_slices<'a>(&mut self, buffers: &[&'a [u8]]) -> (slices: Vec<&'a [u8]>)
        requires
            old(self).fits(buffers.deep_view()),
        ensures
            final(self).fits(buffers.deep_view()),
            final(self).written(buffers.deep_view()) == old(self).written(buffers.deep_view()),
            slices@.len() == 0 <==> final(self).drained(buffers.deep_view()),
            slices@.len() == 0 ==> final(self).index == buffers@.len(),
            slices@.len() > 0 ==> {
                &&& final(self).index < buffers@.len()
                &&& final(self).offset < buffers@[final(self).index as int]@.len()
                &&& slices@.len() == if buffers@.len() - final(self).index
                    < VECTORED_WRITE_SLICES {
                    buffers@.len() - final(self).index
                } else {
                    VECTORED_WRITE_SLICES as int
                }
                &&& slices@[0]@ == buffers@[final(self).index as int]@.subrange(
                    final(self).offset as int,
                    buffers@[final(self).index as int]@.len() as int,
                )
                &&& forall|k: int|
                    1 <= k < slices@.len() ==> (#[trigger] slices@[k])@
                        == buffers@[final(self).index + k]@
                &&& spec_bytes_all(slices.deep_view()) == final(self).offered(buffers.deep_view())
            },
    {
        let ghost all = buffers.deep_view();
        while self.index < buffers.len() && self.offset == buffers[self.index].len()
            invariant
                all == buffers.deep_view(),
                self.fits(all),
                self.written(all) == old(self).written(all),
            decreases buffers@.len() - self.index,
        {
            proof {
                assert(all[self.index as int] == buffers@[self.index as int]@);
                assert(spec_bytes_before(all, self.index + 1) == spec_bytes_before(
                    all,
                    self.index as int,
                ) + all[self.index as int].len());
            }
            self.index = self.index + 1;
            self.offset = 0;
        }
        let mut slices: Vec<&'a [u8]> = Vec::new();
        if self.index >= buffers.len() {
            return slices;
        }
        proof {
            assert(all[self.index as int] == buffers@[self.index as int]@);
            lemma_bytes_before_grows(all, self.index + 1, all.len() as int);
            assert(spec_bytes_before(all, self.index + 1) == spec_bytes_before(
                all,
                self.index as int,
            ) + all[self.index as int].len());
        }
        let current = buffers[self.index];
        slices.push(slice_subrange(current, self.offset, current.len()));
        let mut taken: usize = 1;
        while taken < VECTORED_WRITE_SLICES && taken < buffers.len() - self.index
            invariant
                self.index < buffers@.len(),
                1 <= taken <= VECTORED_WRITE_SLICES,
                taken <= buffers@.len() - self.index,
                slices@.len() == taken,
                slices@[0]@ == buffers@[self.index as int]@.subrange(
                    self.offset as int,
                    buffers@[self.index as int]@.len() as int,
                ),
                forall|k: int|
                    1 <= k < slices@.len() ==> (#[trigger] slices@[k])@ == buffers@[self.index
                        + k]@,
            decreases VECTORED_WRITE_SLICES - taken,
        {
            slices.push(buffers[self.index + taken]);
            taken = taken + 1;
        }
        proof {
            let handed = slices.deep_view();
            let end = self.index + taken;
            assert(handed.len() == taken);
            assert(end == self.offer_end(all));
            assert(handed[0] == all[self.index as int].subrange(
                self.offset as int,
                all[self.index as int].len() as int,
            )) by {
                assert(handed[0] == slices@[0]@);
                assert(all[self.index as int] == buffers@[self.index as int]@);
            }
            assert forall|k: int| 1 <= k < taken implies #[trigger] handed[k] == all[self.index
                + k] by {
                assert(handed[k] == slices@[k]@);
                assert(all[self.index + k] == buffers@[self.index + k]@);
            }
            lemma_slices_are_what_is_left(all, self.index as int, self.offset as int, handed, taken as int);
            lemma_joined_prefix(all, end, all.len() as int);
            lemma_joined_len(all, end);
            lemma_bytes_before_grows(all, self.index as int, end);
            assert(spec_bytes_before(all, self.index + 1) <= spec_bytes_before(all, end)) by {
                lemma_bytes_before_grows(all, self.index + 1, end);
            }
            assert(spec_bytes_all(all).subrange(0, spec_bytes_before(all, end)).subrange(
                self.written(all),
                spec_bytes_before(all, end),
            ) =~= spec_bytes_all(all).subrange(self.written(all), spec_bytes_before(all, end)));
        }
        slices
    }

    /// Moves the cursor by the `count` bytes that the stream took. A stream
    /// that takes nothing although bytes were offered has failed.
    pub fn advance(&mut self, buffers: &[&[u8]], count: usize) -> (result: Result<(), BridgeError>)
        requires
            old(self).fits(buffers.deep_view()),
        ensures
            final(self).fits(buffers.deep_view()),
            count == 0 ==> result == Err::<(), BridgeError>(BridgeError::WriteZero) && *final(self)
                == *old(self),
            count > 0 ==> result is Ok && final(self).written(buffers.deep_view())
                == spec_written_after(buffers.deep_view(), old(self).written(buffers.deep_view()), count),
    {
        if count == 0 {
            return Err(BridgeError::WriteZero);
        }
        let ghost all = buffers.deep_view();
        let mut remaining = count;
        proof {
            self.lemma_written_in_range(all);
        }
        while self.index < buffers.len() && remaining > 0
            invariant
                all == buffers.deep_view(),
                self.fits(all),
                remaining <= count,
                self.written(all) + remaining == old(self).written(all) + count,
                self.written(all) <= spec_bytes_total(all),
            decreases buffers@.len() - self.index, remaining,
        {
            proof {
                assert(all[self.index as int] == buffers@[self.index as int]@);
                assert(spec_bytes_before(all, self.index + 1) == spec_bytes_before(
                    all,
                    self.index as int,
                ) + all[self.index as int].len());
                lemma_bytes_before_grows(all, self.index + 1, all.len() as int);
            }
            let available = buffers[self.index].len() - self.offset;
            if remaining < available {
                self.offset = self.offset + remaining;
                remaining = 0;
            } else {
                remaining = remaining - available;
                self.index = self.index + 1;
                self.offset = 0;
            }
        }
        proof {
            lemma_bytes_before_grows(all, self.index as int, all.len() as int);
        }
        Ok(())
    }
}

/// More buffers hold at least as many bytes.
pub proof fn lemma_bytes_before_grows(buffers: Seq<Seq<u8>>, fewer: int, more: int)
    requires
        0 <= fewer <= more,
    ensures
        0 <= spec_bytes_before(buffers, fewer) <= spec_bytes_before(buffers, more),
    decreases more,
{
    if fewer < more {
        lemma_bytes_before_grows(buffers, fewer, more - 1);
    } else if more > 0 {
        lemma_bytes_before_grows(buffers, fewer - 1, more - 1);
    }
}

/// Buffers joined are as long as the bytes they hold.
pub proof fn lemma_joined_len(buffers: Seq<Seq<u8>>, count: int)
    requires
        0 <= count <= buffers.len(),
    ensures
        spec_bytes_joined(buffers, count).len() == spec_bytes_before(buffers, count),
    decreases count,
{
    if count > 0 {
        lemma_joined_len(buffers, count - 1);
    }
}

/// The first buffers joined stand at the head of more buffers joined.
pub proof fn lemma_joined_prefix(buffers: Seq<Seq<u8>>, fewer: int, more: int)
    requires
        0 <= fewer <= more <= buffers.len(),
    ensures
        spec_bytes_before(buffers, fewer) <= spec_bytes_joined(buffers, more).len(),
        spec_bytes_joined(buffers, more).subrange(0, spec_bytes_before(buffers, fewer))
            == spec_bytes_joined(buffers, fewer),
    decreases more,
{
    lemma_joined_len(buffers, fewer);
    lemma_joined_len(buffers, more);
    lemma_bytes_before_grows(buffers, fewer, more);
    if fewer < more {
        lemma_joined_prefix(buffers, fewer, more - 1);
        lemma_joined_len(buffers, more - 1);
        assert(spec_bytes_joined(buffers, more).subrange(0, spec_bytes_before(buffers, fewer))
            =~= spec_bytes_joined(buffers, more - 1).subrange(
            0,
            spec_bytes_before(buffers, fewer),
        ));
    } else {
        assert(spec_bytes_joined(buffers, more).subrange(0, spec_bytes_before(buffers, fewer))
            =~= spec_bytes_joined(buffers, fewer));
    }
}

/// What is left of one buffer, followed by the buffers behind it, is the
/// run of bytes that starts behind the bytes in front of them.
pub proof fn lemma_slices_are_what_is_left(
    buffers: Seq<Seq<u8>>,
    index: int,
    offset: int,
    slices: Seq<Seq<u8>>,
    taken: int,
)
    requires
        0 <= index < buffers.len(),
        0 <= offset <= buffers[index].len(),
        1 <= taken <= slices.len(),
        index + taken <= buffers.len(),
        slices[0] == buffers[index].subrange(offset, buffers[index].len() as int),
        forall|k: int| 1 <= k < taken ==> #[trigger] slices[k] == buffers[index + k],
    ensures
        spec_bytes_before(buffers, index) + offset <= spec_bytes_before(buffers, index + taken),
        spec_bytes_joined(slices, taken) == spec_bytes_joined(buffers, index + taken).subrange(
            spec_bytes_before(buffers, index) + offset,
            spec_bytes_before(buffers, index + taken),
        ),
    decreases taken,
{
    let start = spec_bytes_before(buffers, index) + offset;
    lemma_joined_len(buffers, index);
    lemma_joined_len(buffers, index + taken);
    lemma_joined_len(buffers, index + taken - 1);
    lemma_bytes_before_grows(buffers, index, index + taken - 1);
    if taken == 1 {
        assert(spec_bytes_joined(slices, 0) =~= Seq::<u8>::empty());
        assert(spec_bytes_joined(slices, 1) =~= slices[0]);
        assert(spec_bytes_joined(buffers, index + 1).subrange(
            start,
            spec_bytes_before(buffers, index + 1),
        ) =~= slices[0]);
    } else {
        lemma_slices_are_what_is_left(buffers, index, offset, slices, taken - 1);
        let last = index + taken - 1;
        assert(slices[taken - 1] == buffers[last]);
        assert(spec_bytes_joined(buffers, index + taken) == spec_bytes_joined(buffers, last)
            + buffers[last]);
        assert(spec_bytes_joined(buffers, index + taken).subrange(
            start,
            spec_bytes_before(buffers, index + taken),
        ) =~= spec_bytes_joined(buffers, last).subrange(start, spec_bytes_before(buffers, last))
            + buffers[last]);
    }
}

/// Copies buffers into one where they are written in one piece.
pub fn coalesce_buffers(buffers: &[&[u8]]) -> (joined: Option<Vec<u8>>)
    ensures
        match joined {
            Some(bytes) => spec_coalesces(buffers.deep_view()) && bytes@ == spec_bytes_all(
                buffers.deep_view(),
            ),
            None => !spec_coalesces(buffers.deep_view()),
        },
{
    let ghost all = buffers.deep_view();
    if buffers.len() > VECTORED_WRITE_SLICES {
        return None;
    }
    let mut joined: Vec<u8> = Vec::new();
    let mut index: usize = 0;
    while index < buffers.len()
        invariant
            all == buffers.deep_view(),
            index <= buffers@.len(),
            joined@ == spec_bytes_joined(all, index as int),
            joined@.len() == spec_bytes_before(all, index as int),
            joined@.len() <= BRIDGE_COALESCE_WRITE_THRESHOLD_BYTES,
        decreases buffers@.len() - index,
    {
        let next = buffers[index];
        proof {
            assert(all[index as int] == buffers@[index as int]@);
            lemma_bytes_before_grows(all, index + 1, all.len() as int);
        }
        if next.len() > BRIDGE_COALESCE_WRITE_THRESHOLD_BYTES - joined.len() {
            return None;
        }
        joined.extend_from_slice(next);
        index = index + 1;
    }
    Some(joined)
}

/// How far the reading of one frame has come.
#[derive(Clone, Copy, Debug, PartialEq, Eq, Structural)]
pub enum FrameReadPhase {
    /// The four bytes of the length are being read.
    Header,
    /// The payload is being read.
    Payload,
    /// The frame is in the buffer.
    Complete,
    /// The stream ended before the first byte of a frame.
    NoFrame,
    /// The read failed; the stream is of no more use.
    Failed,
}

/// The length that four header bytes announce.
pub open spec fn spec_frame_length(header: Seq<u8>) -> nat
    recommends
        header.len() == 4,
{
    spec_u32_from_be(header[0], header[1], header[2], header[3]) as nat
}

/// Reads one frame from a stream that hands out its bytes in pieces of any
/// size. The caller reads from the stream and reports each piece.
#[derive(Debug)]
pub struct FrameReader {
    pub phase: FrameReadPhase,
    pub header: Vec<u8>,
    pub payload_len: usize,
    pub payload_read: usize,
}

impl FrameReader {
    /// Whether the fields agree with the phase.
    pub open spec fn well_formed(&self) -> bool {
        match self.phase {
            FrameReadPhase::Header => self.header@.len() < 4 && self.payload_len == 0
                && self.payload_read == 0,
            FrameReadPhase::Payload => {
                &&& self.header@.len() == 4
                &&& self.payload_len == spec_frame_length(self.header@)
                &&& self.payload_len <= MAX_BRIDGE_FRAME_BYTES
                &&& self.payload_read < self.payload_len
            },
            FrameReadPhase::Complete => {
                &&& self.header@.len() == 4
                &&& self.payload_len == spec_frame_length(self.header@)
                &&& self.payload_len <= MAX_BRIDGE_FRAME_BYTES
                &&& self.payload_read == self.payload_len
            },
            FrameReadPhase::NoFrame => self.header@.len() == 0,
            FrameReadPhase::Failed => true,
        }
    }

    /// A reader in front of a frame.
    pub fn new() -> (reader: Self)
        ensures
            reader.well_formed(),
            reader.phase == FrameReadPhase::Header,
            reader.header@.len() == 0,
    {
        FrameReader {
            phase: FrameReadPhase::Header,
            header: Vec::new(),
            payload_len: 0,
            payload_read: 0,
        }
    }

    /// The largest number of bytes that the next read may bring: what is
    /// missing of the header or of the payload, and nothing once the read is over.
    pub fn wanted(&self) -> (count: usize)
        requires
            self.well_formed(),
        ensures
            count == match self.phase {
                FrameReadPhase::Header => 4 - self.header@.len(),
                FrameReadPhase::Payload => self.payload_len - self.payload_read,
                _ => 0,
            },
    {
        match self.phase {
            FrameReadPhase::Header => 4 - self.header.len(),
            FrameReadPhase::Payload => self.payload_len - self.payload_read,
            _ => 0,
        }
    }

    /// Takes the bytes that a read brought while the header was due; no
    /// bytes mean that the stream ended. With the fourth byte the length is
    /// known: a length over the frame limit fails the read, any other makes
    /// `payload` that long.
    pub fn on_header_bytes(&mut self, bytes: &[u8], payload: &mut Vec<u8>) -> (result: Result<
        FrameReadPhase,
        BridgeError,
    >)
        requires
            old(self).well_formed(),
            old(self).phase == FrameReadPhase::Header,
            old(self).header@.len() + bytes@.len() <= 4,
        ensures
            final(self).well_formed(),
            match result {
                Ok(phase) => final(self).phase == phase,
                Err(_) => final(self).phase == FrameReadPhase::Failed,
            },
            bytes@.len() == 0 && old(self).header@.len() == 0 ==> result == Ok::<
                FrameReadPhase,
                BridgeError,
            >(FrameReadPhase::NoFrame) && final(payload)@ == old(payload)@,
            bytes@.len() == 0 && old(self).header@.len() > 0 ==> result == Err::<
                FrameReadPhase,
                BridgeError,
            >(BridgeError::ClosedInFrameHeader),
            bytes@.len() > 0 ==> final(self).header@ == old(self).header@ + bytes@,
            bytes@.len() > 0 && old(self).header@.len() + bytes@.len() < 4 ==> result == Ok::<
                FrameReadPhase,
                BridgeError,
            >(FrameReadPhase::Header) && final(payload)@ == old(payload)@,
            bytes@.len() > 0 && old(self).header@.len() + bytes@.len() == 4 ==> {
                let length = spec_frame_length(old(self).header@ + bytes@);
                if length > MAX_BRIDGE_FRAME_BYTES {
                    result == Err::<FrameReadPhase, BridgeError>(
                        BridgeError::FrameTooLarge(length as usize),
                    )
                } else {
                    &&& result == Ok::<FrameReadPhase, BridgeError>(
                        if length == 0 {
                            FrameReadPhase::Complete
                        } else {
                            FrameReadPhase::Payload
                        },
                    )
                    &&& final(self).payload_len == length
                    &&& final(self).payload_read == 0
                    &&& final(payload)@.len() == length
                }
            },
    {
        if bytes.len() == 0 {
            if self.header.len() == 0 {
                self.phase = FrameReadPhase::NoFrame;
                return Ok(FrameReadPhase::NoFrame);
            }
            self.phase = FrameReadPhase::Failed;
            return Err(BridgeError::ClosedInFrameHeader);
        }
        self.header.extend_from_slice(bytes);
        assert(self.header@ =~= old(self).header@ + bytes@);
        if self.header.len() < 4 {
            return Ok(FrameReadPhase::Header);
        }
        let b0: u32 = self.header[0] as u32;
        let b1: u32 = self.header[1] as u32;
        let b2: u32 = self.header[2] as u32;
        let b3: u32 = self.header[3] as u32;
        let length = (b0 * 16777216 + b1 * 65536 + b2 * 256 + b3) as usize;
        if length > MAX_BRIDGE_FRAME_BYTES {
            self.phase = FrameReadPhase::Failed;
            return Err(BridgeError::FrameTooLarge(length));
        }
        payload.resize(length, 0);
        self.payload_len = length;
        self.payload_read = 0;
        if length == 0 {
            self.phase = FrameReadPhase::Complete;
        } else {
            self.phase = FrameReadPhase::Payload;
        }
        Ok(self.phase)
    }

    /// Takes note of `count` bytes that a read put into the payload buffer
    /// behind those already there; no bytes mean that the stream ended.
    pub fn on_payload_bytes(&mut self, count: usize) -> (result: Result<FrameReadPhase, BridgeError>)
        requires
            old(self).well_formed(),
            old(self).phase == FrameReadPhase::Payload,
            old(self).payload_read + count <= old(self).payload_len,
        ensures
            final(self).well_formed(),
            final(self).header@ == old(self).header@,
            final(self).payload_len == old(self).payload_len,
            count == 0 ==> result == Err::<FrameReadPhase, BridgeError>(
                BridgeError::ClosedInFramePayload,
            ) && final(self).phase == FrameReadPhase::Failed,
            count > 0 ==> {
                &&& final(self).payload_read == old(self).payload_read + count
                &&& final(self).phase == if final(self).payload_read == final(self).payload_len {
                    FrameReadPhase::Complete
                } else {
                    FrameReadPhase::Payload
                }
                &&& result == Ok::<FrameReadPhase, BridgeError>(final(self).phase)
            },
    {
        if count == 0 {
            self.phase = FrameReadPhase::Failed;
            return Err(BridgeError::ClosedInFramePayload);
        }
        self.payload_read = self.payload_read + count;
        if self.payload_read == self.payload_len {
            self.phase = FrameReadPhase::Complete;
        }
        Ok(self.phase)
    }
}

} // verus!
