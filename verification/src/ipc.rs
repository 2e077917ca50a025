//! Message channels over one shared memory region.
//!
//! The region holds `NUM_CHANNELS` ring buffers, one after the other. Each
//! starts with a header of `RING_BUFFER_HEADER_SIZE` bytes (write index, read
//! index, capacity and message size, each a little-endian `u32`, then
//! reserved bytes), followed by `QUEUE_CAPACITY` slots of `SLOT_SIZE` bytes.
//! A slot holds a ready flag (`u32`, 1 when its message is complete), the
//! payload length (`u32`) and the payload. A ring keeps one slot free, so it
//! holds at most `QUEUE_CAPACITY - 1` messages.

use vstd::prelude::*;
use crate::text::{concat, decimal, decimal_string};

verus! {

pub const QUEUE_CAPACITY: usize = 16;
pub const MESSAGE_SIZE: usize = 65536;
pub const RING_BUFFER_HEADER_SIZE: usize = 32;
pub const SLOT_HEADER_SIZE: usize = 8;
pub const SLOT_SIZE: usize = MESSAGE_SIZE;
pub const SLOTS_TOTAL_SIZE: usize = SLOT_SIZE * QUEUE_CAPACITY;
pub const SINGLE_CHANNEL_SIZE: usize = RING_BUFFER_HEADER_SIZE + SLOTS_TOTAL_SIZE;
pub const NUM_CHANNELS: usize = 4;
pub const TOTAL_SIZE: usize = SINGLE_CHANNEL_SIZE * NUM_CHANNELS;
/// The largest payload a slot can hold.
pub const MAX_PAYLOAD: usize = MESSAGE_SIZE - SLOT_HEADER_SIZE;

/// The four rings of the region, in the order they are laid out.
#[derive(Debug, Clone, Copy, PartialEq, Eq, Structural)]
pub enum Channel {
    RustToTsCommand,
    TsToRustStatus,
    TsToRustCheckpoint,
    RustToTsCheckpointResponse,
}

/// Why a message could not be sent.
#[derive(Debug, Clone)]
pub enum RingBufferError {
    QueueFull,
    MessageTooLarge,
    InvalidChannel,
    SerializationError(String),
    SizeMismatch(usize, usize),
}

pub open spec fn channel_number(ch: Channel) -> nat {
    match ch {
        Channel::RustToTsCommand => 0,
        Channel::TsToRustStatus => 1,
        Channel::TsToRustCheckpoint => 2,
        Channel::RustToTsCheckpointResponse => 3,
    }
}

impl Channel {
    /// The position of the channel's ring in the region.
    pub fn index(self) -> (i: usize)
        ensures
            i == channel_number(self),
    {
        match self {
            Channel::RustToTsCommand => 0,
            Channel::TsToRustStatus => 1,
            Channel::TsToRustCheckpoint => 2,
            Channel::RustToTsCheckpointResponse => 3,
        }
    }
}

// ---------------------------------------------------------------------------
// The layout of the region
// ---------------------------------------------------------------------------

/// The little-endian `u32` stored at `r[at..at + 4]`.
pub open spec fn le32(r: Seq<u8>, at: int) -> int {
    r[at] + 256 * r[at + 1] + 65536 * r[at + 2] + 16777216 * r[at + 3]
}

pub open spec fn channel_base(ch: Channel) -> int {
    channel_number(ch) * SINGLE_CHANNEL_SIZE
}

pub open spec fn slot_base(ch: Channel, slot: int) -> int {
    channel_base(ch) + RING_BUFFER_HEADER_SIZE + slot * SLOT_SIZE
}

pub open spec fn write_index(r: Seq<u8>, ch: Channel) -> int {
    le32(r, channel_base(ch))
}

pub open spec fn read_index(r: Seq<u8>, ch: Channel) -> int {
    le32(r, channel_base(ch) + 4)
}

pub open spec fn capacity_field(r: Seq<u8>, ch: Channel) -> int {
    le32(r, channel_base(ch) + 8)
}

pub open spec fn message_size_field(r: Seq<u8>, ch: Channel) -> int {
    le32(r, channel_base(ch) + 12)
}

pub open spec fn slot_ready(r: Seq<u8>, ch: Channel, slot: int) -> bool {
    le32(r, slot_base(ch, slot)) == 1
}

pub open spec fn slot_len(r: Seq<u8>, ch: Channel, slot: int) -> int {
    le32(r, slot_base(ch, slot) + 4)
}

pub open spec fn slot_payload(r: Seq<u8>, ch: Channel, slot: int) -> Seq<u8> {
    r.subrange(slot_base(ch, slot) + 8, slot_base(ch, slot) + 8 + slot_len(r, ch, slot))
}

/// Both indices of the ring name a slot.
pub open spec fn indices_valid(r: Seq<u8>, ch: Channel) -> bool {
    &&& r.len() == TOTAL_SIZE
    &&& 0 <= write_index(r, ch) < QUEUE_CAPACITY
    &&& 0 <= read_index(r, ch) < QUEUE_CAPACITY
}

/// The slot `k` places after `from`, around the ring.
pub open spec fn ring_next(from: int, k: int) -> int {
    if from + k < QUEUE_CAPACITY { from + k } else { from + k - QUEUE_CAPACITY }
}

/// How many messages the ring holds.
pub open spec fn queued_len(r: Seq<u8>, ch: Channel) -> int {
    let w = write_index(r, ch);
    let rd = read_index(r, ch);
    if w >= rd { w - rd } else { w + QUEUE_CAPACITY - rd }
}

/// The messages the ring holds, oldest first.
pub open spec fn queue(r: Seq<u8>, ch: Channel) -> Seq<Seq<u8>> {
    Seq::new(
        queued_len(r, ch) as nat,
        |k: int| slot_payload(r, ch, ring_next(read_index(r, ch), k)),
    )
}

/// Every message the ring holds is complete and fits its slot.
pub open spec fn messages_ready(r: Seq<u8>, ch: Channel) -> bool {
    forall|k: int|
        0 <= k < queued_len(r, ch) ==> {
            &&& #[trigger] slot_ready(r, ch, ring_next(read_index(r, ch), k))
            &&& slot_len(r, ch, ring_next(read_index(r, ch), k)) <= MAX_PAYLOAD
        }
}

/// A ring whose indices are valid and whose messages are all complete.
pub open spec fn ring_wf(r: Seq<u8>, ch: Channel) -> bool {
    indices_valid(r, ch) && messages_ready(r, ch)
}

pub open spec fn in_channel(ch: Channel, i: int) -> bool {
    channel_base(ch) <= i < channel_base(ch) + SINGLE_CHANNEL_SIZE
}

/// `after` equals `before` outside `[lo, hi)`.
pub open spec fn same_outside(before: Seq<u8>, after: Seq<u8>, lo: int, hi: int) -> bool {
    &&& after.len() == before.len()
    &&& forall|i: int| 0 <= i < before.len() && !(lo <= i < hi) ==> after[i] == before[i]
}

/// The state of the region after `data` was appended to the ring of `ch`:
/// the slot at the write index holds `data` (which fits a slot), complete,
/// and the write index moved on by one; no other byte changed. When every
/// message of the ring was complete before, it still is, and the ring holds
/// one more message, `data`, last.
pub open spec fn appended(before: Seq<u8>, ch: Channel, data: Seq<u8>, after: Seq<u8>) -> bool {
    let w = write_index(before, ch);
    &&& after.len() == before.len()
    &&& data.len() <= MAX_PAYLOAD
    &&& read_index(after, ch) == read_index(before, ch)
    &&& write_index(after, ch) == ring_next(w, 1)
    &&& slot_ready(after, ch, w)
    &&& slot_len(after, ch, w) == data.len()
    &&& slot_payload(after, ch, w) == data
    &&& forall|i: int|
        0 <= i < before.len() && !(channel_base(ch) <= i < channel_base(ch) + 4)
            && !(slot_base(ch, w) <= i < slot_base(ch, w) + SLOT_HEADER_SIZE + data.len())
            ==> after[i] == before[i]
    &&& ring_wf(before, ch) ==> ring_wf(after, ch) && queue(after, ch) == queue(before, ch).push(data)
}

/// The state of the region after the oldest message of the ring of `ch` was
/// taken out: the ring holds the rest, and no other byte changed but the
/// read index.
pub open spec fn taken(before: Seq<u8>, ch: Channel, after: Seq<u8>) -> bool {
    &&& ring_wf(after, ch)
    &&& queue(after, ch) == queue(before, ch).drop_first()
    &&& same_outside(before, after, channel_base(ch) + 4, channel_base(ch) + 8)
}

// ---------------------------------------------------------------------------
// Framing facts
// ---------------------------------------------------------------------------

proof fn lemma_le32_bytes(v: u32, b0: u8, b1: u8, b2: u8, b3: u8)
    requires
        b0 == v % 256,
        b1 == (v / 256) % 256,
        b2 == (v / 65536) % 256,
        b3 == v / 16777216,
    ensures
        b0 + 256 * b1 + 65536 * b2 + 16777216 * b3 == v,
{
    assert(b0 + 256 * b1 + 65536 * b2 + 16777216 * b3 == v) by (nonlinear_arith)
        requires
            b0 == v % 256,
            b1 == (v / 256) % 256,
            b2 == (v / 65536) % 256,
            b3 == v / 16777216,
            v <= 0xffff_ffff,
    ;
}

/// Reads the little-endian `u32` at `at`.
fn read_u32(r: &[u8], at: usize) -> (v: u32)
    requires
        at + 4 <= r@.len(),
    ensures
        v == le32(r@, at as int),
{
    let b0 = r[at] as u32;
    let b1 = r[at + 1] as u32;
    let b2 = r[at + 2] as u32;
    let b3 = r[at + 3] as u32;
    b0 + b1 * 256 + b2 * 65536 + b3 * 16777216
}

/// Stores `v` as a little-endian `u32` at `at`.
fn write_u32(r: &mut [u8], at: usize, v: u32)
    requires
        at + 4 <= old(r)@.len(),
    ensures
        le32(final(r)@, at as int) == v,
        same_outside(old(r)@, final(r)@, at as int, at + 4),
{
    let b0 = (v % 256) as u8;
    let b1 = ((v / 256) % 256) as u8;
    let b2 = ((v / 65536) % 256) as u8;
    let b3 = (v / 16777216) as u8;
    proof {
        lemma_le32_bytes(v, b0, b1, b2, b3);
    }
    r[at] = b0;
    r[at + 1] = b1;
    r[at + 2] = b2;
    r[at + 3] = b3;
}


/// `a` and `b` hold the same bytes in `[lo, hi)`.
pub open spec fn agree(a: Seq<u8>, b: Seq<u8>, lo: int, hi: int) -> bool {
    forall|i: int| lo <= i < hi ==> a[i] == b[i]
}

proof fn lemma_same_outside_agree(a: Seq<u8>, b: Seq<u8>, lo: int, hi: int, lo2: int, hi2: int)
    requires
        same_outside(a, b, lo, hi),
        0 <= lo2 <= hi2 <= a.len(),
        hi2 <= lo || hi <= lo2,
    ensures
        agree(a, b, lo2, hi2),
{
}

proof fn lemma_slot_frame(a: Seq<u8>, b: Seq<u8>, ch: Channel, s: int)
    requires
        a.len() == TOTAL_SIZE,
        b.len() == TOTAL_SIZE,
        0 <= s < QUEUE_CAPACITY,
        agree(a, b, slot_base(ch, s), slot_base(ch, s) + SLOT_SIZE),
        slot_len(a, ch, s) <= MAX_PAYLOAD,
    ensures
        slot_ready(a, ch, s) == slot_ready(b, ch, s),
        slot_len(a, ch, s) == slot_len(b, ch, s),
        slot_payload(a, ch, s) == slot_payload(b, ch, s),
{
    let sb = slot_base(ch, s);
    assert(a[sb] == b[sb] && a[sb + 1] == b[sb + 1] && a[sb + 2] == b[sb + 2] && a[sb + 3] == b[sb + 3]);
    assert(a[sb + 4] == b[sb + 4] && a[sb + 5] == b[sb + 5] && a[sb + 6] == b[sb + 6] && a[sb + 7] == b[sb + 7]);
    assert(slot_payload(a, ch, s) =~= slot_payload(b, ch, s));
}

proof fn lemma_header_frame(a: Seq<u8>, b: Seq<u8>, ch: Channel)
    requires
        a.len() == TOTAL_SIZE,
        b.len() == TOTAL_SIZE,
        agree(a, b, channel_base(ch), channel_base(ch) + 8),
    ensures
        write_index(a, ch) == write_index(b, ch),
        read_index(a, ch) == read_index(b, ch),
{
    let cb = channel_base(ch);
    assert(a[cb] == b[cb] && a[cb + 1] == b[cb + 1] && a[cb + 2] == b[cb + 2] && a[cb + 3] == b[cb + 3]);
    assert(a[cb + 4] == b[cb + 4] && a[cb + 5] == b[cb + 5] && a[cb + 6] == b[cb + 6] && a[cb + 7] == b[cb + 7]);
}

/// Two regions that agree on the whole ring of `ch` hold the same messages
/// there.
proof fn lemma_channel_frame(a: Seq<u8>, b: Seq<u8>, ch: Channel)
    requires
        a.len() == TOTAL_SIZE,
        b.len() == TOTAL_SIZE,
        agree(a, b, channel_base(ch), channel_base(ch) + SINGLE_CHANNEL_SIZE),
    ensures
        write_index(a, ch) == write_index(b, ch),
        read_index(a, ch) == read_index(b, ch),
        ring_wf(a, ch) ==> ring_wf(b, ch) && queue(a, ch) == queue(b, ch),
{
    lemma_header_frame(a, b, ch);
    if ring_wf(a, ch) {
        assert forall|k: int| 0 <= k < queued_len(a, ch) implies {
            &&& slot_payload(a, ch, ring_next(read_index(a, ch), k)) == slot_payload(b, ch, ring_next(read_index(a, ch), k))
            &&& #[trigger] slot_ready(b, ch, ring_next(read_index(b, ch), k))
            &&& slot_len(b, ch, ring_next(read_index(b, ch), k)) <= MAX_PAYLOAD
        } by {
            let t = ring_next(read_index(a, ch), k);
            assert(slot_ready(a, ch, t));
            lemma_slot_frame(a, b, ch, t);
        }
        assert forall|k: int| 0 <= k < queued_len(a, ch) implies queue(a, ch)[k] == queue(b, ch)[k] by {
            let t = ring_next(read_index(a, ch), k);
            assert(slot_ready(a, ch, t));
            lemma_slot_frame(a, b, ch, t);
        }
        assert(queue(a, ch) =~= queue(b, ch));
    }
}

/// Disjoint rings: a byte of one channel lies outside every other.
proof fn lemma_channels_disjoint(ch: Channel, other: Channel, i: int)
    requires
        ch != other,
        in_channel(other, i),
    ensures
        !in_channel(ch, i),
{
}

/// Where the ring of `ch` starts in the region.
fn channel_offset(ch: Channel) -> (o: usize)
    ensures
        o == channel_base(ch),
        o + SINGLE_CHANNEL_SIZE <= TOTAL_SIZE,
{
    match ch {
        Channel::RustToTsCommand => 0,
        Channel::TsToRustStatus => 1048608,
        Channel::TsToRustCheckpoint => 2097216,
        Channel::RustToTsCheckpointResponse => 3145824,
    }
}

/// Where slot `slot` of the ring of `ch` starts in the region.
fn slot_offset(ch: Channel, slot: usize) -> (o: usize)
    requires
        slot < QUEUE_CAPACITY,
    ensures
        o == slot_base(ch, slot as int),
        o + SLOT_SIZE <= TOTAL_SIZE,
{
    channel_offset(ch) + 32 + slot * 65536
}

/// Writes `data` into slot `slot` of the ring of `ch`: the ready flag is
/// cleared, the length and payload stored, then the flag set.
fn write_to_slot(region: &mut [u8], ch: Channel, slot: usize, data: &[u8]) -> (res: Result<(), RingBufferError>)
    requires
        old(region)@.len() == TOTAL_SIZE,
        slot < QUEUE_CAPACITY,
    ensures
        data@.len() > MAX_PAYLOAD ==> res == Err::<(), RingBufferError>(RingBufferError::MessageTooLarge)
            && final(region)@ == old(region)@,
        data@.len() <= MAX_PAYLOAD ==> {
            &&& res is Ok
            &&& slot_ready(final(region)@, ch, slot as int)
            &&& slot_len(final(region)@, ch, slot as int) == data@.len()
            &&& slot_payload(final(region)@, ch, slot as int) == data@
            &&& same_outside(old(region)@, final(region)@, slot_base(ch, slot as int),
                slot_base(ch, slot as int) + SLOT_HEADER_SIZE + data@.len())
        },
{
    if data.len() > MAX_PAYLOAD {
        return Err(RingBufferError::MessageTooLarge);
    }
    let ghost start = region@;
    let base = slot_offset(ch, slot);
    assert(base == slot_base(ch, slot as int));
    write_u32(region, base, 0);
    write_u32(region, base + 4, data.len() as u32);
    let ghost lengths = region@;
    let n = data.len();
    let mut j: usize = 0;
    while j < n
        invariant
            n == data@.len(),
            n <= MAX_PAYLOAD,
            j <= n,
            base == slot_base(ch, slot as int),
            base + SLOT_SIZE <= TOTAL_SIZE,
            region@.len() == TOTAL_SIZE,
            same_outside(start, region@, base as int, base + 8 + n),
            agree(region@, lengths, base as int, base + 8),
            forall|k: int| 0 <= k < j ==> region@[base + 8 + k] == data@[k],
        decreases n - j,
    {
        region[base + 8 + j] = data[j];
        j += 1;
    }
    let ghost copied = region@;
    write_u32(region, base, 1);
    proof {
        assert(slot_len(region@, ch, slot as int) == le32(lengths, base + 4)) by {
            assert(region@[base + 4] == copied[base + 4]);
            assert(region@[base + 5] == copied[base + 5]);
            assert(region@[base + 6] == copied[base + 6]);
            assert(region@[base + 7] == copied[base + 7]);
        }
        assert(slot_payload(region@, ch, slot as int) =~= data@);
    }
    Ok(())
}

/// Reads the message in slot `slot` of the ring of `ch`, if it is complete
/// and its length fits the slot.
fn read_from_slot(region: &[u8], ch: Channel, slot: usize) -> (res: Option<Vec<u8>>)
    requires
        region@.len() == TOTAL_SIZE,
        slot < QUEUE_CAPACITY,
    ensures
        res is Some <==> slot_ready(region@, ch, slot as int) && slot_len(region@, ch, slot as int) <= MAX_PAYLOAD,
        res matches Some(d) ==> d@ == slot_payload(region@, ch, slot as int),
{
    let base = slot_offset(ch, slot);
    assert(base == slot_base(ch, slot as int));
    if read_u32(region, base) != 1 {
        return None;
    }
    let len = read_u32(region, base + 4) as usize;
    if len > MAX_PAYLOAD {
        return None;
    }
    let mut out: Vec<u8> = Vec::new();
    let mut j: usize = 0;
    while j < len
        invariant
            len <= MAX_PAYLOAD,
            base == slot_base(ch, slot as int),
            region@.len() == TOTAL_SIZE,
            base + SLOT_SIZE <= TOTAL_SIZE,
            j <= len,
            out@ == region@.subrange(base + 8, base + 8 + j),
        decreases len - j,
    {
        out.push(region[base + 8 + j]);
        j += 1;
        assert(out@ =~= region@.subrange(base + 8, base + 8 + j));
    }
    Some(out)
}

proof fn lemma_ring_next_distinct(rd: int, k: int, m: int)
    requires
        0 <= rd < QUEUE_CAPACITY,
        0 <= k < m < QUEUE_CAPACITY,
    ensures
        ring_next(rd, k) != ring_next(rd, m),
        0 <= ring_next(rd, k) < QUEUE_CAPACITY,
{
}

/// Appends a message to the ring of `ch`, publishing the write index after
/// the slot is written (one producer).
pub fn enqueue_spsc(region: &mut [u8], ch: Channel, data: &[u8]) -> (res: Result<(), RingBufferError>)
    requires
        indices_valid(old(region)@, ch),
    ensures
        queued_len(old(region)@, ch) == QUEUE_CAPACITY - 1 ==> res == Err::<(), RingBufferError>(RingBufferError::QueueFull),
        queued_len(old(region)@, ch) < QUEUE_CAPACITY - 1 && data@.len() > MAX_PAYLOAD
            ==> res == Err::<(), RingBufferError>(RingBufferError::MessageTooLarge),
        res is Ok <==> queued_len(old(region)@, ch) < QUEUE_CAPACITY - 1 && data@.len() <= MAX_PAYLOAD,
        res is Ok ==> appended(old(region)@, ch, data@, final(region)@),
        res is Err ==> final(region)@ == old(region)@,
{
    let ghost r0 = region@;
    let cbase = channel_offset(ch);
    let w = read_u32(region, cbase);
    let rd = read_u32(region, cbase + 4);
    let next = if w + 1 < 16 { w + 1 } else { 0 };
    if next == rd {
        return Err(RingBufferError::QueueFull);
    }
    match write_to_slot(region, ch, w as usize, data) {
        Err(e) => { return Err(e); },
        Ok(()) => {},
    }
    let ghost r1 = region@;
    write_u32(region, cbase, next);
    proof { lemma_after_append(r0, r1, region@, ch, data@); }
    Ok(())
}

/// Appends a message to the ring of `ch` the way concurrent producers do:
/// the size is checked first, the write index is claimed, then the slot is
/// written.
pub fn enqueue_mpsc(region: &mut [u8], ch: Channel, data: &[u8]) -> (res: Result<(), RingBufferError>)
    requires
        indices_valid(old(region)@, ch),
    ensures
        data@.len() > MAX_PAYLOAD ==> res == Err::<(), RingBufferError>(RingBufferError::MessageTooLarge),
        data@.len() <= MAX_PAYLOAD && queued_len(old(region)@, ch) == QUEUE_CAPACITY - 1
            ==> res == Err::<(), RingBufferError>(RingBufferError::QueueFull),
        res is Ok <==> queued_len(old(region)@, ch) < QUEUE_CAPACITY - 1 && data@.len() <= MAX_PAYLOAD,
        res is Ok ==> appended(old(region)@, ch, data@, final(region)@),
        res is Err ==> final(region)@ == old(region)@,
{
    let ghost r0 = region@;
    if data.len() > MAX_PAYLOAD {
        return Err(RingBufferError::MessageTooLarge);
    }
    let cbase = channel_offset(ch);
    let w = read_u32(region, cbase);
    let rd = read_u32(region, cbase + 4);
    let next = if w + 1 < 16 { w + 1 } else { 0 };
    if next == rd {
        return Err(RingBufferError::QueueFull);
    }
    write_u32(region, cbase, next);
    let ghost r1 = region@;
    let written = write_to_slot(region, ch, w as usize, data);
    assert(written is Ok);
    proof { lemma_after_append_claimed(r0, r1, region@, ch, data@); }
    Ok(())
}

proof fn lemma_after_append(r0: Seq<u8>, r1: Seq<u8>, r2: Seq<u8>, ch: Channel, data: Seq<u8>)
    requires
        indices_valid(r0, ch),
        queued_len(r0, ch) < QUEUE_CAPACITY - 1,
        data.len() <= MAX_PAYLOAD,
        slot_ready(r1, ch, write_index(r0, ch)),
        slot_len(r1, ch, write_index(r0, ch)) == data.len(),
        slot_payload(r1, ch, write_index(r0, ch)) == data,
        same_outside(r0, r1, slot_base(ch, write_index(r0, ch)),
            slot_base(ch, write_index(r0, ch)) + SLOT_HEADER_SIZE + data.len()),
        le32(r2, channel_base(ch)) == ring_next(write_index(r0, ch), 1),
        same_outside(r1, r2, channel_base(ch), channel_base(ch) + 4),
    ensures
        appended(r0, ch, data, r2),
{
    let w = write_index(r0, ch);
    let cb = channel_base(ch);
    let sb = slot_base(ch, w);
    assert(same_outside(r0, r1, sb, sb + SLOT_SIZE));
    lemma_same_outside_agree(r1, r2, cb, cb + 4, sb, sb + SLOT_SIZE);
    lemma_slot_frame(r1, r2, ch, w);
    assert(r2[cb + 4] == r0[cb + 4] && r2[cb + 5] == r0[cb + 5] && r2[cb + 6] == r0[cb + 6] && r2[cb + 7] == r0[cb + 7]);
    if ring_wf(r0, ch) {
        lemma_append_core(r0, r1, r2, ch, data, w);
    }
}

proof fn lemma_after_append_claimed(r0: Seq<u8>, r1: Seq<u8>, r2: Seq<u8>, ch: Channel, data: Seq<u8>)
    requires
        indices_valid(r0, ch),
        queued_len(r0, ch) < QUEUE_CAPACITY - 1,
        data.len() <= MAX_PAYLOAD,
        le32(r1, channel_base(ch)) == ring_next(write_index(r0, ch), 1),
        same_outside(r0, r1, channel_base(ch), channel_base(ch) + 4),
        slot_ready(r2, ch, write_index(r0, ch)),
        slot_len(r2, ch, write_index(r0, ch)) == data.len(),
        slot_payload(r2, ch, write_index(r0, ch)) == data,
        same_outside(r1, r2, slot_base(ch, write_index(r0, ch)),
            slot_base(ch, write_index(r0, ch)) + SLOT_HEADER_SIZE + data.len()),
    ensures
        appended(r0, ch, data, r2),
{
    let w = write_index(r0, ch);
    let cb = channel_base(ch);
    let sb = slot_base(ch, w);
    assert(same_outside(r1, r2, sb, sb + SLOT_SIZE));
    assert(r2[cb] == r1[cb] && r2[cb + 1] == r1[cb + 1] && r2[cb + 2] == r1[cb + 2] && r2[cb + 3] == r1[cb + 3]);
    assert(r2[cb + 4] == r0[cb + 4] && r2[cb + 5] == r0[cb + 5] && r2[cb + 6] == r0[cb + 6] && r2[cb + 7] == r0[cb + 7]);
    if ring_wf(r0, ch) {
        // the same bytes as writing the slot first and the index second
        lemma_append_core_claimed(r0, r1, r2, ch, data, w);
    }
}

proof fn lemma_append_core(r0: Seq<u8>, r1: Seq<u8>, r2: Seq<u8>, ch: Channel, data: Seq<u8>, w: int)
    requires
        ring_wf(r0, ch),
        w == write_index(r0, ch),
        queued_len(r0, ch) < QUEUE_CAPACITY - 1,
        data.len() <= MAX_PAYLOAD,
        slot_ready(r1, ch, w),
        slot_len(r1, ch, w) == data.len(),
        slot_payload(r1, ch, w) == data,
        same_outside(r0, r1, slot_base(ch, w), slot_base(ch, w) + SLOT_SIZE),
        le32(r2, channel_base(ch)) == ring_next(w, 1),
        same_outside(r1, r2, channel_base(ch), channel_base(ch) + 4),
    ensures
        ring_wf(r2, ch),
        queue(r2, ch) == queue(r0, ch).push(data),
{
    let cb = channel_base(ch);
    let rd = read_index(r0, ch);
    let n = queued_len(r0, ch);
    // the read index is untouched
    lemma_header_frame(r0, r1, ch);
    assert(agree(r1, r2, cb + 4, cb + 8));
    assert(r2[cb + 4] == r1[cb + 4] && r2[cb + 5] == r1[cb + 5] && r2[cb + 6] == r1[cb + 6] && r2[cb + 7] == r1[cb + 7]);
    assert(read_index(r2, ch) == rd);
    assert(write_index(r2, ch) == ring_next(w, 1));
    assert(queued_len(r2, ch) == n + 1);
    assert(w == ring_next(rd, n));
    // the new slot
    lemma_same_outside_agree(r1, r2, cb, cb + 4, slot_base(ch, w), slot_base(ch, w) + SLOT_SIZE);
    lemma_slot_frame(r1, r2, ch, w);
    // the older slots
    assert forall|k: int| 0 <= k < n implies {
        &&& slot_payload(r2, ch, ring_next(rd, k)) == slot_payload(r0, ch, ring_next(rd, k))
        &&& slot_ready(r2, ch, ring_next(rd, k))
        &&& slot_len(r2, ch, ring_next(rd, k)) <= MAX_PAYLOAD
    } by {
        let t = ring_next(rd, k);
        lemma_ring_next_distinct(rd, k, n);
        assert(slot_ready(r0, ch, ring_next(rd, k)));
        lemma_same_outside_agree(r0, r1, slot_base(ch, w), slot_base(ch, w) + SLOT_SIZE, slot_base(ch, t), slot_base(ch, t) + SLOT_SIZE);
        lemma_slot_frame(r0, r1, ch, t);
        lemma_same_outside_agree(r1, r2, cb, cb + 4, slot_base(ch, t), slot_base(ch, t) + SLOT_SIZE);
        lemma_slot_frame(r1, r2, ch, t);
    }
    assert forall|k: int| 0 <= k < queued_len(r2, ch) implies {
        &&& #[trigger] slot_ready(r2, ch, ring_next(read_index(r2, ch), k))
        &&& slot_len(r2, ch, ring_next(read_index(r2, ch), k)) <= MAX_PAYLOAD
    } by {
        if k < n {
        } else {
            assert(k == n);
        }
    }
    assert(queue(r2, ch) =~= queue(r0, ch).push(data)) by {
        assert forall|k: int| 0 <= k < n + 1 implies queue(r2, ch)[k] == queue(r0, ch).push(data)[k] by {
            if k < n {
            } else {
                assert(ring_next(rd, k) == w);
            }
        }
    }
}

proof fn lemma_append_core_claimed(r0: Seq<u8>, r1: Seq<u8>, r2: Seq<u8>, ch: Channel, data: Seq<u8>, w: int)
    requires
        ring_wf(r0, ch),
        w == write_index(r0, ch),
        queued_len(r0, ch) < QUEUE_CAPACITY - 1,
        data.len() <= MAX_PAYLOAD,
        le32(r1, channel_base(ch)) == ring_next(w, 1),
        same_outside(r0, r1, channel_base(ch), channel_base(ch) + 4),
        slot_ready(r2, ch, w),
        slot_len(r2, ch, w) == data.len(),
        slot_payload(r2, ch, w) == data,
        same_outside(r1, r2, slot_base(ch, w), slot_base(ch, w) + SLOT_SIZE),
    ensures
        ring_wf(r2, ch),
        queue(r2, ch) == queue(r0, ch).push(data),
{
    let cb = channel_base(ch);
    // the region as if the slot had been written first
    let mid = Seq::new(r0.len(), |i: int| if slot_base(ch, w) <= i < slot_base(ch, w) + SLOT_SIZE { r2[i] } else { r0[i] });
    assert(agree(mid, r2, slot_base(ch, w), slot_base(ch, w) + SLOT_SIZE));
    lemma_slot_frame(r2, mid, ch, w);
    assert(same_outside(r0, mid, slot_base(ch, w), slot_base(ch, w) + SLOT_SIZE));
    assert(same_outside(mid, r2, cb, cb + 4)) by {
        assert forall|i: int| 0 <= i < mid.len() && !(cb <= i < cb + 4) implies r2[i] == mid[i] by {
            if !(slot_base(ch, w) <= i < slot_base(ch, w) + SLOT_SIZE) {
                assert(r2[i] == r1[i]);
                assert(r1[i] == r0[i]);
            }
        }
    }
    assert(r2[cb] == r1[cb] && r2[cb + 1] == r1[cb + 1] && r2[cb + 2] == r1[cb + 2] && r2[cb + 3] == r1[cb + 3]);
    lemma_append_core(r0, mid, r2, ch, data, w);
}

/// Takes the oldest message out of the ring of `ch`. Nothing is taken when
/// the ring is empty, or when the oldest message is not complete yet or its
/// length does not fit its slot.
pub fn dequeue(region: &mut [u8], ch: Channel) -> (res: Option<Vec<u8>>)
    requires
        indices_valid(old(region)@, ch),
    ensures
        queued_len(old(region)@, ch) == 0 ==> res is None,
        ring_wf(old(region)@, ch) && queued_len(old(region)@, ch) > 0 ==> res is Some,
        res matches Some(d) ==> {
            &&& queued_len(old(region)@, ch) > 0
            &&& d@ == queue(old(region)@, ch)[0]
            &&& (ring_wf(old(region)@, ch) ==> taken(old(region)@, ch, final(region)@))
            &&& read_index(final(region)@, ch) == ring_next(read_index(old(region)@, ch), 1)
            &&& same_outside(old(region)@, final(region)@, channel_base(ch) + 4, channel_base(ch) + 8)
        },
        res is None ==> final(region)@ == old(region)@,
{
    let ghost r0 = region@;
    let cbase = channel_offset(ch);
    let rd = read_u32(region, cbase + 4);
    let w = read_u32(region, cbase);
    if rd == w {
        return None;
    }
    proof {
        if ring_wf(r0, ch) {
            assert(slot_ready(r0, ch, ring_next(rd as int, 0)));
        }
    }
    let data = match read_from_slot(region, ch, rd as usize) {
        Some(d) => d,
        None => { return None; },
    };
    let next = if rd + 1 < 16 { rd + 1 } else { 0 };
    write_u32(region, cbase + 4, next);
    proof { lemma_after_take(r0, region@, ch); }
    Some(data)
}

proof fn lemma_after_take(r0: Seq<u8>, r1: Seq<u8>, ch: Channel)
    requires
        indices_valid(r0, ch),
        queued_len(r0, ch) > 0,
        le32(r1, channel_base(ch) + 4) == ring_next(read_index(r0, ch), 1),
        same_outside(r0, r1, channel_base(ch) + 4, channel_base(ch) + 8),
    ensures
        read_index(r1, ch) == ring_next(read_index(r0, ch), 1),
        ring_wf(r0, ch) ==> taken(r0, ch, r1),
{
    let cb = channel_base(ch);
    let rd = read_index(r0, ch);
    let n = queued_len(r0, ch);
    assert(r1[cb] == r0[cb] && r1[cb + 1] == r0[cb + 1] && r1[cb + 2] == r0[cb + 2] && r1[cb + 3] == r0[cb + 3]);
    assert(write_index(r1, ch) == write_index(r0, ch));
    assert(queued_len(r1, ch) == n - 1);
    if ring_wf(r0, ch) {
        assert forall|k: int| 0 <= k < n - 1 implies {
            &&& slot_payload(r1, ch, ring_next(rd, k + 1)) == slot_payload(r0, ch, ring_next(rd, k + 1))
            &&& slot_ready(r1, ch, ring_next(rd, k + 1))
            &&& slot_len(r1, ch, ring_next(rd, k + 1)) <= MAX_PAYLOAD
            &&& ring_next(read_index(r1, ch), k) == ring_next(rd, k + 1)
        } by {
            let t = ring_next(rd, k + 1);
            assert(slot_ready(r0, ch, ring_next(rd, k + 1)));
            lemma_same_outside_agree(r0, r1, cb + 4, cb + 8, slot_base(ch, t), slot_base(ch, t) + SLOT_SIZE);
            lemma_slot_frame(r0, r1, ch, t);
        }
        assert forall|k: int| 0 <= k < queued_len(r1, ch) implies {
            &&& #[trigger] slot_ready(r1, ch, ring_next(read_index(r1, ch), k))
            &&& slot_len(r1, ch, ring_next(read_index(r1, ch), k)) <= MAX_PAYLOAD
        } by {
            assert(ring_next(read_index(r1, ch), k) == ring_next(rd, k + 1));
        }
        assert(queue(r1, ch) =~= queue(r0, ch).drop_first()) by {
            assert forall|k: int| 0 <= k < n - 1 implies queue(r1, ch)[k] == queue(r0, ch)[k + 1] by {
                assert(ring_next(read_index(r1, ch), k) == ring_next(rd, k + 1));
            }
        }
    }
}


// ---------------------------------------------------------------------------
// Setting up a region
// ---------------------------------------------------------------------------

/// The ring of `ch` as a freshly created region holds it: both indices 0,
/// the capacity and message size recorded, and every slot marked not ready.
pub open spec fn channel_fresh(r: Seq<u8>, ch: Channel) -> bool {
    &&& r.len() == TOTAL_SIZE
    &&& write_index(r, ch) == 0
    &&& read_index(r, ch) == 0
    &&& capacity_field(r, ch) == QUEUE_CAPACITY
    &&& message_size_field(r, ch) == MESSAGE_SIZE
    &&& forall|s: int| 0 <= s < QUEUE_CAPACITY ==> le32(r, #[trigger] slot_base(ch, s)) == 0
}

/// Every ring of the region is fresh.
pub open spec fn region_fresh(r: Seq<u8>) -> bool {
    forall|ch: Channel| #[trigger] channel_fresh(r, ch)
}

proof fn lemma_le32_kept(a: Seq<u8>, b: Seq<u8>, lo: int, hi: int, at: int)
    requires
        same_outside(a, b, lo, hi),
        0 <= at,
        at + 4 <= a.len(),
        at + 4 <= lo || hi <= at,
    ensures
        le32(a, at) == le32(b, at),
{
    assert(a[at] == b[at] && a[at + 1] == b[at + 1] && a[at + 2] == b[at + 2] && a[at + 3] == b[at + 3]);
}

proof fn lemma_fresh_frame(a: Seq<u8>, b: Seq<u8>, ch: Channel)
    requires
        channel_fresh(a, ch),
        b.len() == TOTAL_SIZE,
        agree(a, b, channel_base(ch), channel_base(ch) + SINGLE_CHANNEL_SIZE),
    ensures
        channel_fresh(b, ch),
{
    let cb = channel_base(ch);
    assert(a[cb] == b[cb] && a[cb + 1] == b[cb + 1] && a[cb + 2] == b[cb + 2] && a[cb + 3] == b[cb + 3]);
    assert(a[cb + 4] == b[cb + 4] && a[cb + 5] == b[cb + 5] && a[cb + 6] == b[cb + 6] && a[cb + 7] == b[cb + 7]);
    assert(a[cb + 8] == b[cb + 8] && a[cb + 9] == b[cb + 9] && a[cb + 10] == b[cb + 10] && a[cb + 11] == b[cb + 11]);
    assert(a[cb + 12] == b[cb + 12] && a[cb + 13] == b[cb + 13] && a[cb + 14] == b[cb + 14] && a[cb + 15] == b[cb + 15]);
    assert forall|s: int| 0 <= s < QUEUE_CAPACITY implies le32(b, #[trigger] slot_base(ch, s)) == 0 by {
        let sb = slot_base(ch, s);
        assert(le32(a, slot_base(ch, s)) == 0);
        assert(a[sb] == b[sb] && a[sb + 1] == b[sb + 1] && a[sb + 2] == b[sb + 2] && a[sb + 3] == b[sb + 3]);
    }
}

fn init_channel(region: &mut [u8], ch: Channel)
    requires
        old(region)@.len() == TOTAL_SIZE,
    ensures
        channel_fresh(final(region)@, ch),
        same_outside(old(region)@, final(region)@, channel_base(ch), channel_base(ch) + SINGLE_CHANNEL_SIZE),
{
    let ghost r0 = region@;
    let cb = channel_offset(ch);
    write_u32(region, cb, 0);
    let ghost r1 = region@;
    write_u32(region, cb + 4, 0);
    let ghost r2 = region@;
    write_u32(region, cb + 8, QUEUE_CAPACITY as u32);
    let ghost r3 = region@;
    write_u32(region, cb + 12, MESSAGE_SIZE as u32);
    let ghost r4 = region@;
    proof {
        lemma_le32_kept(r1, r2, cb + 4, cb + 8, cb as int);
        lemma_le32_kept(r2, r3, cb + 8, cb + 12, cb as int);
        lemma_le32_kept(r3, r4, cb + 12, cb + 16, cb as int);
        lemma_le32_kept(r2, r3, cb + 8, cb + 12, cb + 4);
        lemma_le32_kept(r3, r4, cb + 12, cb + 16, cb + 4);
        lemma_le32_kept(r3, r4, cb + 12, cb + 16, cb + 8);
    }
    let mut slot: usize = 0;
    while slot < QUEUE_CAPACITY
        invariant
            cb == channel_base(ch),
            slot <= QUEUE_CAPACITY,
            region@.len() == TOTAL_SIZE,
            same_outside(r0, region@, cb as int, cb + SINGLE_CHANNEL_SIZE),
            write_index(region@, ch) == 0,
            read_index(region@, ch) == 0,
            capacity_field(region@, ch) == QUEUE_CAPACITY,
            message_size_field(region@, ch) == MESSAGE_SIZE,
            forall|t: int| 0 <= t < slot ==> le32(region@, #[trigger] slot_base(ch, t)) == 0,
        decreases QUEUE_CAPACITY - slot,
    {
        let ghost before = region@;
        let at = slot_offset(ch, slot);
        write_u32(region, at, 0);
        proof {
            lemma_le32_kept(before, region@, at as int, at + 4, cb as int);
            lemma_le32_kept(before, region@, at as int, at + 4, cb + 4);
            lemma_le32_kept(before, region@, at as int, at + 4, cb + 8);
            lemma_le32_kept(before, region@, at as int, at + 4, cb + 12);
            assert forall|t: int| 0 <= t < slot + 1 implies le32(region@, #[trigger] slot_base(ch, t)) == 0 by {
                if t < slot {
                    lemma_le32_kept(before, region@, at as int, at + 4, slot_base(ch, t));
                }
            }
        }
        slot += 1;
    }
}

/// Sets up every ring of a new region: indices at 0, capacity and message
/// size recorded, no slot ready.
pub fn initialize_region(region: &mut [u8])
    requires
        old(region)@.len() == TOTAL_SIZE,
    ensures
        final(region)@.len() == TOTAL_SIZE,
        region_fresh(final(region)@),
{
    let ghost r0 = region@;
    init_channel(region, Channel::RustToTsCommand);
    let ghost r1 = region@;
    init_channel(region, Channel::TsToRustStatus);
    let ghost r2 = region@;
    init_channel(region, Channel::TsToRustCheckpoint);
    let ghost r3 = region@;
    init_channel(region, Channel::RustToTsCheckpointResponse);
    let ghost r4 = region@;
    proof {
        lemma_fresh_frame(r1, r2, Channel::RustToTsCommand);
        lemma_fresh_frame(r2, r3, Channel::RustToTsCommand);
        lemma_fresh_frame(r3, r4, Channel::RustToTsCommand);
        lemma_fresh_frame(r2, r3, Channel::TsToRustStatus);
        lemma_fresh_frame(r3, r4, Channel::TsToRustStatus);
        lemma_fresh_frame(r3, r4, Channel::TsToRustCheckpoint);
        assert forall|ch: Channel| #[trigger] channel_fresh(r4, ch) by {
            match ch {
                Channel::RustToTsCommand => {},
                Channel::TsToRustStatus => {},
                Channel::TsToRustCheckpoint => {},
                Channel::RustToTsCheckpointResponse => {},
            }
        }
    }
}

/// Whether both indices of the ring of `ch` name a slot, as every ring of a
/// region this library set up and wrote keeps them.
pub fn indices_in_range(region: &[u8], ch: Channel) -> (ok: bool)
    requires
        region@.len() == TOTAL_SIZE,
    ensures
        ok == indices_valid(region@, ch),
{
    let cb = channel_offset(ch);
    let w = read_u32(region, cb);
    let rd = read_u32(region, cb + 4);
    w < 16 && rd < 16
}

/// How many messages the ring of `ch` holds, counted from its indices.
pub fn queued_count(region: &[u8], ch: Channel) -> (n: u32)
    requires
        indices_valid(region@, ch),
    ensures
        n == queued_len(region@, ch),
        n == queue(region@, ch).len(),
{
    let cb = channel_offset(ch);
    let w = read_u32(region, cb);
    let rd = read_u32(region, cb + 4);
    if w >= rd { w - rd } else { 16 - rd + w }
}


// ---------------------------------------------------------------------------
// The bridge's operations on its region
// ---------------------------------------------------------------------------

/// The name `Debug` gives a channel.
pub open spec fn channel_name(ch: Channel) -> Seq<char> {
    match ch {
        Channel::RustToTsCommand => "RustToTsCommand"@,
        Channel::TsToRustStatus => "TsToRustStatus"@,
        Channel::TsToRustCheckpoint => "TsToRustCheckpoint"@,
        Channel::RustToTsCheckpointResponse => "RustToTsCheckpointResponse"@,
    }
}

impl Channel {
    /// The channel's name, as `{:?}` prints it.
    pub fn name(self) -> (s: String)
        ensures
            s@ == channel_name(self),
    {
        match self {
            Channel::RustToTsCommand => String::from_str("RustToTsCommand"),
            Channel::TsToRustStatus => String::from_str("TsToRustStatus"),
            Channel::TsToRustCheckpoint => String::from_str("TsToRustCheckpoint"),
            Channel::RustToTsCheckpointResponse => String::from_str("RustToTsCheckpointResponse"),
        }
    }
}

/// The text `Display` shows for an error.
pub open spec fn error_text(e: RingBufferError) -> Seq<char> {
    match e {
        RingBufferError::QueueFull => "ring buffer queue is full"@,
        RingBufferError::MessageTooLarge => "message exceeds maximum size"@,
        RingBufferError::InvalidChannel => "invalid channel index"@,
        RingBufferError::SerializationError(msg) => "serialization error: "@ + msg@,
        RingBufferError::SizeMismatch(actual, expected) => "shared memory size mismatch: got "@
            + decimal(actual as nat) + ", expected "@ + decimal(expected as nat),
    }
}

impl RingBufferError {
    /// The error's message.
    pub fn describe(&self) -> (s: String)
        ensures
            s@ == error_text(*self),
    {
        match self {
            RingBufferError::QueueFull => String::from_str("ring buffer queue is full"),
            RingBufferError::MessageTooLarge => String::from_str("message exceeds maximum size"),
            RingBufferError::InvalidChannel => String::from_str("invalid channel index"),
            RingBufferError::SerializationError(msg) => concat("serialization error: ", msg.as_str()),
            RingBufferError::SizeMismatch(actual, expected) => {
                let mut s = String::from_str("shared memory size mismatch: got ");
                let a = decimal_string(*actual as u64);
                s.append(a.as_str());
                s.append(", expected ");
                let e = decimal_string(*expected as u64);
                s.append(e.as_str());
                s
            },
        }
    }
}

/// A request id handed out by a counter at `before`, which then stands at
/// `after`: the id is the counter, and the counter moves on by one, wrapping
/// around at `u64::MAX` as an atomic add does.
pub open spec fn hands_out(before: u64, id: u64, after: u64) -> bool {
    id == before && after == (if id == u64::MAX { 0 } else { (id + 1) as u64 })
}

/// The Rust side of the region: it hands out request ids and moves
/// messages through the four rings of a region it is given.
pub struct SharedMemoryBridge {
    request_id_counter: u64,
}

impl SharedMemoryBridge {
    /// The id the next request will get.
    pub closed spec fn next_id(&self) -> u64 {
        self.request_id_counter
    }

    /// A bridge whose first request id is 1.
    pub fn new() -> (b: Self)
        ensures
            b.next_id() == 1,
    {
        SharedMemoryBridge { request_id_counter: 1 }
    }

    /// Hands out the next request id; ids count up from 1, wrapping around
    /// at `u64::MAX` as an atomic add does.
    pub fn next_request_id(&mut self) -> (id: u64)
        ensures
            hands_out(old(self).next_id(), id, final(self).next_id()),
    {
        let id = self.request_id_counter;
        self.request_id_counter = if id == u64::MAX { 0 } else { id + 1 };
        id
    }

    /// Sends a command to the runtime.
    pub fn send_command(&self, region: &mut [u8], data: &[u8]) -> (res: Result<(), RingBufferError>)
        requires
            indices_valid(old(region)@, Channel::RustToTsCommand),
        ensures
            res is Ok <==> queued_len(old(region)@, Channel::RustToTsCommand) < QUEUE_CAPACITY - 1
                && data@.len() <= MAX_PAYLOAD,
            queued_len(old(region)@, Channel::RustToTsCommand) == QUEUE_CAPACITY - 1
                ==> res == Err::<(), RingBufferError>(RingBufferError::QueueFull),
            res is Ok ==> appended(old(region)@, Channel::RustToTsCommand, data@, final(region)@),
            res is Err ==> final(region)@ == old(region)@,
            res is Err && !(res == Err::<(), RingBufferError>(RingBufferError::QueueFull))
                ==> res == Err::<(), RingBufferError>(RingBufferError::MessageTooLarge),
    {
        enqueue_spsc(region, Channel::RustToTsCommand, data)
    }

    /// Answers a checkpoint of the runtime.
    pub fn send_checkpoint_response(&self, region: &mut [u8], data: &[u8]) -> (res: Result<(), RingBufferError>)
        requires
            indices_valid(old(region)@, Channel::RustToTsCheckpointResponse),
        ensures
            res is Ok <==> queued_len(old(region)@, Channel::RustToTsCheckpointResponse) < QUEUE_CAPACITY - 1
                && data@.len() <= MAX_PAYLOAD,
            queued_len(old(region)@, Channel::RustToTsCheckpointResponse) == QUEUE_CAPACITY - 1
                ==> res == Err::<(), RingBufferError>(RingBufferError::QueueFull),
            res is Ok ==> appended(old(region)@, Channel::RustToTsCheckpointResponse, data@, final(region)@),
            res is Err ==> final(region)@ == old(region)@,
            res is Err && !(res == Err::<(), RingBufferError>(RingBufferError::QueueFull))
                ==> res == Err::<(), RingBufferError>(RingBufferError::MessageTooLarge),
    {
        enqueue_spsc(region, Channel::RustToTsCheckpointResponse, data)
    }

    /// Reports a checkpoint, as one of possibly many producers.
    pub fn send_checkpoint(&self, region: &mut [u8], data: &[u8]) -> (res: Result<(), RingBufferError>)
        requires
            indices_valid(old(region)@, Channel::TsToRustCheckpoint),
        ensures
            res is Ok <==> queued_len(old(region)@, Channel::TsToRustCheckpoint) < QUEUE_CAPACITY - 1
                && data@.len() <= MAX_PAYLOAD,
            data@.len() > MAX_PAYLOAD ==> res == Err::<(), RingBufferError>(RingBufferError::MessageTooLarge),
            res is Ok ==> appended(old(region)@, Channel::TsToRustCheckpoint, data@, final(region)@),
            res is Err ==> final(region)@ == old(region)@,
            res is Err && !(res == Err::<(), RingBufferError>(RingBufferError::MessageTooLarge))
                ==> res == Err::<(), RingBufferError>(RingBufferError::QueueFull),
    {
        enqueue_mpsc(region, Channel::TsToRustCheckpoint, data)
    }

    /// Takes the oldest status message of the runtime, if one is there.
    pub fn receive_status(&self, region: &mut [u8]) -> (res: Option<Vec<u8>>)
        requires
            indices_valid(old(region)@, Channel::TsToRustStatus),
        ensures
            received(old(region)@, Channel::TsToRustStatus, res, final(region)@),
    {
        dequeue(region, Channel::TsToRustStatus)
    }

    /// Takes the oldest checkpoint report, if one is there.
    pub fn receive_checkpoint(&self, region: &mut [u8]) -> (res: Option<Vec<u8>>)
        requires
            indices_valid(old(region)@, Channel::TsToRustCheckpoint),
        ensures
            received(old(region)@, Channel::TsToRustCheckpoint, res, final(region)@),
    {
        dequeue(region, Channel::TsToRustCheckpoint)
    }

    /// The line the bridge logs about the state of a ring.
    pub fn debug_queue_state(&self, region: &[u8], ch: Channel) -> (line: String)
        requires
            indices_valid(region@, ch),
        ensures
            line@ == "[DEBUG] Channel "@ + channel_name(ch) + ": write_idx="@
                + decimal(write_index(region@, ch) as nat) + ", read_idx="@
                + decimal(read_index(region@, ch) as nat) + ", messages_queued="@
                + decimal(queued_len(region@, ch) as nat) + "/16"@,
    {
        let cb = channel_offset(ch);
        let w = read_u32(region, cb);
        let rd = read_u32(region, cb + 4);
        let n = queued_count(region, ch);
        let mut line = String::from_str("[DEBUG] Channel ");
        let name = ch.name();
        line.append(name.as_str());
        line.append(": write_idx=");
        let t = decimal_string(w as u64);
        line.append(t.as_str());
        line.append(", read_idx=");
        let t = decimal_string(rd as u64);
        line.append(t.as_str());
        line.append(", messages_queued=");
        let t = decimal_string(n as u64);
        line.append(t.as_str());
        line.append("/16");
        line
    }
}

/// What a receive on the ring of `ch` did: nothing when the ring was empty
/// or its oldest message was not complete; else it handed out the oldest
/// message and advanced the read index.
pub open spec fn received(before: Seq<u8>, ch: Channel, res: Option<Vec<u8>>, after: Seq<u8>) -> bool {
    &&& queued_len(before, ch) == 0 ==> res is None
    &&& ring_wf(before, ch) && queued_len(before, ch) > 0 ==> res is Some
    &&& res is None ==> after == before
    &&& res matches Some(d) ==> {
        &&& queued_len(before, ch) > 0
        &&& d@ == queue(before, ch)[0]
        &&& (ring_wf(before, ch) ==> taken(before, ch, after))
        &&& read_index(after, ch) == ring_next(read_index(before, ch), 1)
        &&& same_outside(before, after, channel_base(ch) + 4, channel_base(ch) + 8)
    }
}

// ---------------------------------------------------------------------------
// Laws of the rings
// ---------------------------------------------------------------------------

/// A freshly set up region holds no message, and each of its rings is well
/// formed.
pub proof fn law_fresh_region_is_empty(r: Seq<u8>, ch: Channel)
    requires
        region_fresh(r),
    ensures
        ring_wf(r, ch),
        queue(r, ch).len() == 0,
{
    assert(channel_fresh(r, ch));
}

/// A ring never holds more than `QUEUE_CAPACITY - 1` messages.
pub proof fn law_ring_capacity(r: Seq<u8>, ch: Channel)
    requires
        indices_valid(r, ch),
    ensures
        queue(r, ch).len() <= QUEUE_CAPACITY - 1,
{
}

/// Sending on one ring leaves the messages of every other ring as they
/// were; so does receiving.
pub proof fn law_rings_independent(before: Seq<u8>, after: Seq<u8>, ch: Channel, other: Channel, data: Seq<u8>)
    requires
        ch != other,
        indices_valid(before, ch),
        ring_wf(before, other),
        appended(before, ch, data, after) || taken(before, ch, after),
    ensures
        ring_wf(after, other),
        queue(after, other) == queue(before, other),
{
    assert(agree(before, after, channel_base(other), channel_base(other) + SINGLE_CHANNEL_SIZE)) by {
        assert forall|i: int| channel_base(other) <= i < channel_base(other) + SINGLE_CHANNEL_SIZE
            implies before[i] == after[i] by {
            lemma_channels_disjoint(ch, other, i);
            if appended(before, ch, data, after) {
                let sb = slot_base(ch, write_index(before, ch));
                assert(sb + SLOT_SIZE <= channel_base(ch) + SINGLE_CHANNEL_SIZE);
                assert(!(channel_base(ch) <= i < channel_base(ch) + 4));
                assert(!(sb <= i < sb + SLOT_HEADER_SIZE + data.len()));
            } else {
                assert(!(channel_base(ch) + 4 <= i < channel_base(ch) + 8));
            }
        }
    }
    lemma_channel_frame(before, after, other);
}

/// Messages come out of a ring in the order they went in: after `first`
/// and then `second` are sent on an empty ring, a receive hands out
/// `first` and leaves exactly `second`.
pub proof fn law_first_in_first_out(
    r0: Seq<u8>,
    r1: Seq<u8>,
    r2: Seq<u8>,
    r3: Seq<u8>,
    ch: Channel,
    first: Seq<u8>,
    second: Seq<u8>,
    got: Option<Vec<u8>>,
)
    requires
        ring_wf(r0, ch),
        queue(r0, ch).len() == 0,
        appended(r0, ch, first, r1),
        appended(r1, ch, second, r2),
        received(r2, ch, got, r3),
    ensures
        got matches Some(d) && d@ == first,
        queue(r3, ch) == seq![second],
{
    assert(queue(r2, ch) =~= seq![first, second]);
    assert(queue(r3, ch) =~= seq![second]);
}

/// A message sent on a ring is the next one received once the messages
/// before it are taken: the queue after a send is the queue before, with
/// the message last.
pub proof fn law_send_then_receive(r0: Seq<u8>, r1: Seq<u8>, r2: Seq<u8>, ch: Channel, data: Seq<u8>, got: Option<Vec<u8>>)
    requires
        ring_wf(r0, ch),
        queue(r0, ch).len() == 0,
        appended(r0, ch, data, r1),
        received(r1, ch, got, r2),
    ensures
        got matches Some(d) && d@ == data,
        queue(r2, ch).len() == 0,
{
    assert(queue(r1, ch) =~= seq![data]);
}

/// What one operation on the ring of `ch` did: `op` is `Some(data)` for a
/// send of `data`, `None` for a receive that gave `got`.
pub open spec fn ring_step(before: Seq<u8>, ch: Channel, op: Option<Seq<u8>>, got: Option<Vec<u8>>, after: Seq<u8>) -> bool {
    match op {
        Some(data) => appended(before, ch, data, after),
        None => received(before, ch, got, after),
    }
}

/// The messages sent by the first `n` operations, in order.
pub open spec fn sent_messages(ops: Seq<Option<Seq<u8>>>, n: nat) -> Seq<Seq<u8>>
    decreases n,
{
    if n == 0 {
        seq![]
    } else {
        let rest = sent_messages(ops, (n - 1) as nat);
        match ops[n - 1] {
            Some(data) => rest.push(data),
            None => rest,
        }
    }
}

/// The messages received by the first `n` operations, in order.
pub open spec fn received_messages(ops: Seq<Option<Seq<u8>>>, got: Seq<Option<Vec<u8>>>, n: nat) -> Seq<Seq<u8>>
    decreases n,
{
    if n == 0 {
        seq![]
    } else {
        let rest = received_messages(ops, got, (n - 1) as nat);
        if ops[n - 1] is None && got[n - 1] is Some {
            rest.push(got[n - 1]->0@)
        } else {
            rest
        }
    }
}

proof fn lemma_ring_order(states: Seq<Seq<u8>>, ch: Channel, ops: Seq<Option<Seq<u8>>>, got: Seq<Option<Vec<u8>>>, k: nat)
    requires
        ops.len() == got.len(),
        states.len() == ops.len() + 1,
        k <= ops.len(),
        ring_wf(states[0], ch),
        forall|i: int| 0 <= i < ops.len() ==> #[trigger] ring_step(states[i], ch, ops[i], got[i], states[i + 1]),
    ensures
        ring_wf(states[k as int], ch),
        received_messages(ops, got, k) + queue(states[k as int], ch) == queue(states[0], ch) + sent_messages(ops, k),
    decreases k,
{
    if k > 0 {
        let j = k - 1;
        lemma_ring_order(states, ch, ops, got, j as nat);
        assert(ring_step(states[j], ch, ops[j], got[j], states[j + 1]));
        let r = received_messages(ops, got, j as nat);
        let q = queue(states[j], ch);
        match ops[j] {
            Some(data) => {
                assert(r + q.push(data) =~= (r + q).push(data));
                assert(queue(states[0], ch) + sent_messages(ops, j as nat).push(data)
                    =~= (queue(states[0], ch) + sent_messages(ops, j as nat)).push(data));
            },
            None => {
                if q.len() > 0 {
                    let v = got[j]->0@;
                    assert(r.push(v) + q.drop_first() =~= r + q);
                }
            },
        }
    }
}

/// Messages leave a ring in the order they entered it, none lost and none
/// twice: over any run of sends and receives on a well-formed ring, the
/// messages received, followed by those still queued, are the messages
/// queued at the start followed by those sent. The ring stays well formed,
/// so a receive on a ring that holds a message always gets one.
pub proof fn law_ring_order(states: Seq<Seq<u8>>, ch: Channel, ops: Seq<Option<Seq<u8>>>, got: Seq<Option<Vec<u8>>>)
    requires
        ops.len() == got.len(),
        states.len() == ops.len() + 1,
        ring_wf(states[0], ch),
        forall|i: int| 0 <= i < ops.len() ==> #[trigger] ring_step(states[i], ch, ops[i], got[i], states[i + 1]),
    ensures
        forall|i: int| 0 <= i <= ops.len() ==> #[trigger] ring_wf(states[i], ch),
        received_messages(ops, got, ops.len()) + queue(states[ops.len() as int], ch)
            == queue(states[0], ch) + sent_messages(ops, ops.len()),
{
    assert forall|i: int| 0 <= i <= ops.len() implies #[trigger] ring_wf(states[i], ch) by {
        lemma_ring_order(states, ch, ops, got, i as nat);
    }
    lemma_ring_order(states, ch, ops, got, ops.len());
}

proof fn lemma_burst_sends(states: Seq<Seq<u8>>, ch: Channel, sent: Seq<Seq<u8>>, j: nat)
    requires
        states.len() >= sent.len() + 1,
        j <= sent.len(),
        ring_wf(states[0], ch),
        queue(states[0], ch).len() == 0,
        forall|i: int| 0 <= i < sent.len() ==> #[trigger] appended(states[i], ch, sent[i], states[i + 1]),
    ensures
        ring_wf(states[j as int], ch),
        queue(states[j as int], ch) == sent.take(j as int),
    decreases j,
{
    if j > 0 {
        let i = j - 1;
        lemma_burst_sends(states, ch, sent, i as nat);
        assert(appended(states[i], ch, sent[i], states[i + 1]));
        assert(sent.take(i).push(sent[i]) =~= sent.take(j as int));
    }
}

proof fn lemma_burst_receives(states: Seq<Seq<u8>>, ch: Channel, sent: Seq<Seq<u8>>, got: Seq<Option<Vec<u8>>>, j: nat)
    requires
        states.len() == 2 * sent.len() + 2,
        got.len() == sent.len() + 1,
        j <= sent.len(),
        ring_wf(states[sent.len() as int], ch),
        queue(states[sent.len() as int], ch) == sent,
        forall|i: int| 0 <= i <= sent.len() ==> #[trigger] received(states[sent.len() + i], ch, got[i], states[sent.len() + i + 1]),
    ensures
        ring_wf(states[sent.len() + j as int], ch),
        queue(states[sent.len() + j as int], ch) == sent.skip(j as int),
        forall|i: int| 0 <= i < j ==> (#[trigger] got[i] matches Some(v) && v@ == sent[i]),
    decreases j,
{
    let k = sent.len() as int;
    if j > 0 {
        let i = j - 1;
        lemma_burst_receives(states, ch, sent, got, i as nat);
        assert(received(states[k + i], ch, got[i], states[k + i + 1]));
        assert(sent.skip(i).drop_first() =~= sent.skip(j as int));
    } else {
        assert(sent.skip(0) =~= sent);
    }
}

/// A burst of messages sent on an empty ring comes back whole and in order:
/// after the messages of `sent` are sent one after the other, as many
/// receives hand them out in the order they were sent, and one receive more
/// finds the ring empty and changes nothing.
pub proof fn law_burst_round_trip(states: Seq<Seq<u8>>, ch: Channel, sent: Seq<Seq<u8>>, got: Seq<Option<Vec<u8>>>)
    requires
        states.len() == 2 * sent.len() + 2,
        got.len() == sent.len() + 1,
        ring_wf(states[0], ch),
        queue(states[0], ch).len() == 0,
        forall|i: int| 0 <= i < sent.len() ==> #[trigger] appended(states[i], ch, sent[i], states[i + 1]),
        forall|i: int| 0 <= i <= sent.len() ==> #[trigger] received(states[sent.len() + i], ch, got[i], states[sent.len() + i + 1]),
    ensures
        forall|i: int| 0 <= i < sent.len() ==> (#[trigger] got[i] matches Some(v) && v@ == sent[i]),
        got[sent.len() as int] is None,
        states[2 * sent.len() + 1int] == states[2 * sent.len() as int],
{
    let k = sent.len();
    lemma_burst_sends(states, ch, sent, k);
    assert(sent.take(k as int) =~= sent);
    lemma_burst_receives(states, ch, sent, got, k);
    assert(received(states[k + k as int], ch, got[k as int], states[k + k + 1int]));
}

/// Request ids count up from 1: the `k`-th id a fresh bridge hands out is
/// `k`, so ids are distinct and increasing, for fewer than `u64::MAX` calls
/// (after which the counter wraps around).
pub proof fn law_request_ids_count_up(counters: Seq<u64>, ids: Seq<u64>)
    requires
        counters.len() == ids.len() + 1,
        ids.len() < u64::MAX,
        counters[0] == 1,
        forall|i: int| 0 <= i < ids.len() ==> #[trigger] hands_out(counters[i], ids[i], counters[i + 1]),
    ensures
        forall|i: int| 0 <= i < ids.len() ==> ids[i] == i + 1,
        forall|i: int, j: int| 0 <= i < j < ids.len() ==> ids[i] < ids[j],
{
    assert forall|i: int| 0 <= i < ids.len() implies ids[i] == i + 1 && counters[i] == i + 1 by {
        lemma_counter_at(counters, ids, i as nat);
    }
}

proof fn lemma_counter_at(counters: Seq<u64>, ids: Seq<u64>, k: nat)
    requires
        counters.len() == ids.len() + 1,
        ids.len() < u64::MAX,
        counters[0] == 1,
        forall|i: int| 0 <= i < ids.len() ==> #[trigger] hands_out(counters[i], ids[i], counters[i + 1]),
        k <= ids.len(),
    ensures
        counters[k as int] == k + 1,
        k < ids.len() ==> ids[k as int] == k + 1,
    decreases k,
{
    if k > 0 {
        lemma_counter_at(counters, ids, (k - 1) as nat);
        assert(hands_out(counters[k - 1], ids[k - 1], counters[k as int]));
    }
    if k < ids.len() {
        assert(hands_out(counters[k as int], ids[k as int], counters[k + 1 as int]));
    }
}

/// Whether a mapped region of `len` bytes can hold the channels: it must be
/// exactly `TOTAL_SIZE` bytes long, else the size mismatch is reported.
pub fn check_region_size(len: usize) -> (r: Result<(), RingBufferError>)
    ensures
        len == TOTAL_SIZE ==> r is Ok,
        len != TOTAL_SIZE ==> r == Err::<(), RingBufferError>(RingBufferError::SizeMismatch(len, TOTAL_SIZE)),
{
    if len != TOTAL_SIZE {
        Err(RingBufferError::SizeMismatch(len, TOTAL_SIZE))
    } else {
        Ok(())
    }
}

/// Whether the ring of `ch` is consistent: its indices name slots and each
/// message it holds is complete and fits its slot.
pub fn ring_consistent(region: &[u8], ch: Channel) -> (ok: bool)
    requires
        region@.len() == TOTAL_SIZE,
    ensures
        ok == ring_wf(region@, ch),
{
    if !indices_in_range(region, ch) {
        return false;
    }
    let cb = channel_offset(ch);
    let rd = read_u32(region, cb + 4);
    let n = queued_count(region, ch);
    let mut k: u32 = 0;
    while k < n
        invariant
            indices_valid(region@, ch),
            rd == read_index(region@, ch),
            n == queued_len(region@, ch),
            k <= n,
            forall|j: int| 0 <= j < k ==> {
                &&& #[trigger] slot_ready(region@, ch, ring_next(read_index(region@, ch), j))
                &&& slot_len(region@, ch, ring_next(read_index(region@, ch), j)) <= MAX_PAYLOAD
            },
        decreases n - k,
    {
        let slot: usize = if rd + k < 16 { (rd + k) as usize } else { (rd + k - 16) as usize };
        let so = slot_offset(ch, slot);
        let ready = read_u32(region, so);
        let len = read_u32(region, so + 4);
        if ready != 1 || len as usize > MAX_PAYLOAD {
            assert(!messages_ready(region@, ch)) by {
                assert(slot == ring_next(read_index(region@, ch), k as int));
                if messages_ready(region@, ch) {
                    assert(slot_ready(region@, ch, ring_next(read_index(region@, ch), k as int)));
                }
            }
            return false;
        }
        assert(slot == ring_next(read_index(region@, ch), k as int));
        assert(slot_ready(region@, ch, slot as int));
        assert(slot_len(region@, ch, slot as int) <= MAX_PAYLOAD);
        assert forall|j: int| 0 <= j < k + 1 implies {
            &&& #[trigger] slot_ready(region@, ch, ring_next(read_index(region@, ch), j))
            &&& slot_len(region@, ch, ring_next(read_index(region@, ch), j)) <= MAX_PAYLOAD
        } by {
            if j == k as int {
                assert(ring_next(read_index(region@, ch), j) == slot as int);
            }
        }
        k += 1;
    }
    assert(messages_ready(region@, ch));
    true
}

} // verus!
