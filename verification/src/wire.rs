//! The wire format shared by the car and the chase vehicle.

use vstd::prelude::*;

use crate::outside::{
    frames_as_slice, frames_new, frames_of, frames_push, payload_as_slice, payload_from_slice,
    payload_of, postcard_batch, postcard_from_bytes, postcard_to_slice,
};

verus! {

/// Set on [`CanFrameMsg::id`] when the frame uses a 29-bit extended CAN id.
/// Standard ids have 11 bits and extended ids 29, so bit 31 is always free.
pub const EXTENDED_ID_FLAG: u32 = 0x8000_0000;

/// The most frames that one batch carries.
pub const MAX_FRAMES_PER_BATCH: usize = 11;

/// The most bytes that one encoded batch takes. A radio packet carries 256
/// bytes; the rest is room for sealing and framing.
pub const MAX_BATCH_BYTES: usize = 198;

/// A frame as a value: id on the wire, payload, time offset.
pub type FrameView = (u32, Seq<u8>, u16);

/// A batch as a value: base time and frames.
pub type BatchView = (u64, Seq<FrameView>);

/// One CAN frame on the wire.
#[derive(Debug, PartialEq, Eq)]
pub struct CanFrameMsg {
    /// Raw CAN id, with [`EXTENDED_ID_FLAG`] set for extended frames.
    pub id: u32,
    /// Frame payload; CAN 2.0 carries at most 8 bytes.
    pub data: heapless::Vec<u8, 8>,
    /// Milliseconds since [`CanBatch::base_ts_ms`], saturating.
    pub ts_offset_ms: u16,
}

/// A group of CAN frames sent as a single radio packet.
#[derive(Debug, PartialEq, Eq)]
pub struct CanBatch {
    /// Unix time in milliseconds when the first frame was captured.
    pub base_ts_ms: u64,
    pub frames: heapless::Vec<CanFrameMsg, 11>,
}

impl View for CanFrameMsg {
    type V = FrameView;

    open spec fn view(&self) -> FrameView {
        (self.id, payload_of(self.data), self.ts_offset_ms)
    }
}

impl View for CanBatch {
    type V = BatchView;

    open spec fn view(&self) -> BatchView {
        (self.base_ts_ms, frames_of(self.frames))
    }
}

/// Whether a batch stays within what CAN and the wire format carry.
pub open spec fn fits(batch: BatchView) -> bool {
    &&& batch.1.len() <= MAX_FRAMES_PER_BATCH
    &&& forall|i: int| 0 <= i < batch.1.len() ==> (#[trigger] batch.1[i]).1.len() <= 8
}

/// An unsigned integer in base 128, low digits first, each byte but the last
/// with its top bit set.
pub open spec fn varint(n: nat) -> Seq<u8>
    decreases n,
{
    if n < 128 {
        seq![n as u8]
    } else {
        seq![(128 + n % 128) as u8] + varint(n / 128)
    }
}

/// A frame on the wire: id, payload length, payload, time offset.
pub open spec fn frame_bytes(frame: FrameView) -> Seq<u8> {
    varint(frame.0 as nat) + (varint(frame.1.len()) + (frame.1 + varint(frame.2 as nat)))
}

/// Frames on the wire, one after the other.
pub open spec fn frames_bytes(frames: Seq<FrameView>) -> Seq<u8>
    decreases frames.len(),
{
    if frames.len() == 0 {
        Seq::empty()
    } else {
        frame_bytes(frames[0]) + frames_bytes(frames.drop_first())
    }
}

/// A batch on the wire: base time, number of frames, frames.
pub open spec fn batch_bytes(batch: BatchView) -> Seq<u8> {
    varint(batch.0 as nat) + (varint(batch.1.len()) + frames_bytes(batch.1))
}

impl CanFrameMsg {
    /// The CAN id without the extended-frame flag.
    pub fn can_id(&self) -> (r: u32)
        ensures
            r == can_id_of(self@),
            r == self.id % 0x8000_0000,
    {
        let id: u32 = self.id;
        assert(id & !0x8000_0000u32 == id % 0x8000_0000) by (bit_vector);
        id & !EXTENDED_ID_FLAG
    }

    /// Whether the frame uses an extended id.
    pub fn is_extended(&self) -> (r: bool)
        ensures
            r == is_extended_of(self@),
            r <==> self.id >= 0x8000_0000,
    {
        let id: u32 = self.id;
        assert((id & 0x8000_0000u32 != 0) == (id >= 0x8000_0000)) by (bit_vector);
        id & EXTENDED_ID_FLAG != 0
    }
}

/// The CAN id that a frame carries: the low 31 bits of its wire id.
pub open spec fn can_id_of(frame: FrameView) -> u32 {
    frame.0 % EXTENDED_ID_FLAG
}

/// Whether a frame's wire id has its top bit set.
pub open spec fn is_extended_of(frame: FrameView) -> bool {
    frame.0 >= EXTENDED_ID_FLAG
}

/// The wire id of a frame with a given raw CAN id.
pub open spec fn wire_id_spec(raw_id: u32, extended: bool) -> u32 {
    if extended {
        raw_id | EXTENDED_ID_FLAG
    } else {
        raw_id
    }
}

/// The wire id of a frame: the raw CAN id, flagged when it is extended.
pub fn wire_id(raw_id: u32, extended: bool) -> (r: u32)
    ensures
        r == wire_id_spec(raw_id, extended),
        !extended ==> r == raw_id,
        extended ==> r == raw_id % 0x8000_0000 + 0x8000_0000,
{
    let flag: u32 = if extended {
        EXTENDED_ID_FLAG
    } else {
        0
    };
    proof {
        assert(raw_id | 0 == raw_id) by (bit_vector);
        law_wire_id_adds_the_kind(raw_id, extended);
    }
    raw_id | flag
}

/// The flag never disturbs an id: from the wire id of a frame whose raw id
/// leaves bit 31 clear, as every 11-bit and 29-bit id does, both the raw id
/// and its kind come back.
pub proof fn law_wire_id_keeps_id_and_kind(raw_id: u32, extended: bool, data: Seq<u8>, offset: u16)
    requires
        raw_id < EXTENDED_ID_FLAG,
    ensures
        can_id_of((wire_id_spec(raw_id, extended), data, offset)) == raw_id,
        is_extended_of((wire_id_spec(raw_id, extended), data, offset)) == extended,
{
    assert(raw_id < 0x8000_0000u32 ==> (raw_id | 0x8000_0000u32) % 0x8000_0000 == raw_id && (raw_id
        | 0x8000_0000u32) >= 0x8000_0000) by (bit_vector);
}

impl Clone for CanFrameMsg {
    fn clone(&self) -> (r: Self)
        ensures
            r@ == self@,
            r.id == self.id,
            payload_of(r.data) == payload_of(self.data),
            r.ts_offset_ms == self.ts_offset_ms,
    {
        let data = payload_from_slice(payload_as_slice(&self.data)).unwrap();
        CanFrameMsg { id: self.id, data, ts_offset_ms: self.ts_offset_ms }
    }
}

impl Clone for CanBatch {
    fn clone(&self) -> (r: Self)
        ensures
            r@ == self@,
            r.base_ts_ms == self.base_ts_ms,
            frames_of(r.frames) == frames_of(self.frames),
    {
        let mut frames = frames_new();
        let all = frames_as_slice(&self.frames);
        let mut i: usize = 0;
        while i < all.len()
            invariant
                i <= all@.len() <= 11,
                all@.len() == frames_of(self.frames).len(),
                forall|j: int|
                    0 <= j < all@.len() ==> (#[trigger] all@[j])@ == frames_of(self.frames)[j],
                frames_of(frames) == frames_of(self.frames).take(i as int),
            decreases all@.len() - i,
        {
            let pushed = frames_push(&mut frames, all[i].clone());
            assert(frames_of(self.frames).take(i + 1) == frames_of(self.frames).take(i as int).push(
                frames_of(self.frames)[i as int],
            ));
            i += 1;
        }
        assert(frames_of(self.frames).take(i as int) == frames_of(self.frames));
        CanBatch { base_ts_ms: self.base_ts_ms, frames }
    }
}

impl Default for CanBatch {
    fn default() -> (r: Self)
        ensures
            r@ == (0u64, Seq::<FrameView>::empty()),
    {
        CanBatch { base_ts_ms: 0, frames: frames_new() }
    }
}

/// Encodes a batch. Every batch has an encoding, of at most
/// [`MAX_BATCH_BYTES`] bytes.
pub fn encode_batch(batch: &CanBatch) -> (r: Vec<u8>)
    ensures
        r@ == batch_bytes(batch@),
        r@.len() <= MAX_BATCH_BYTES,
        fits(batch@),
{
    let all = frames_as_slice(&batch.frames);
    let mut plain: Vec<(u32, Vec<u8>, u16)> = Vec::new();
    let mut i: usize = 0;
    while i < all.len()
        invariant
            i <= all@.len() <= 11,
            all@.len() == frames_of(batch.frames).len(),
            forall|j: int|
                0 <= j < all@.len() ==> (#[trigger] all@[j])@ == frames_of(batch.frames)[j],
            forall|j: int| 0 <= j < i ==> (#[trigger] frames_of(batch.frames)[j]).1.len() <= 8,
            plain.deep_view() == frames_of(batch.frames).take(i as int),
        decreases all@.len() - i,
    {
        let frame = &all[i];
        let payload = payload_as_slice(&frame.data);
        let data = vstd::slice::slice_to_vec(payload);
        let ghost before = plain.deep_view();
        plain.push((frame.id, data, frame.ts_offset_ms));
        proof {
            assert(data.deep_view() =~= payload@);
            assert(plain.deep_view() =~= before.push(frame@));
            assert(frames_of(batch.frames).take(i + 1) =~= before.push(frame@));
        }
        i += 1;
    }
    proof {
        assert(frames_of(batch.frames).take(i as int) =~= frames_of(batch.frames));
        law_batch_bytes_within_budget(batch@);
    }
    let mut buf: Vec<u8> = vec![0u8; 512];
    let used: usize = postcard_to_slice(batch.base_ts_ms, &plain, buf.as_mut_slice()).unwrap();
    buf.truncate(used);
    buf
}

/// Why bytes were refused as a batch: they do not start with one.
#[derive(Debug, Clone, Copy, PartialEq, Eq)]
pub struct MalformedBatch;

/// Decodes a batch. Bytes that start with the encoding of a batch decode to
/// that batch, whatever follows it. An encoding that is cut short, or of more
/// frames or longer payloads than a batch holds, is refused.
pub fn decode_batch(bytes: &[u8]) -> (r: Result<CanBatch, MalformedBatch>)
    ensures
        r is Ok <==> postcard_batch(bytes@, usize::BITS) is Some,
        r matches Ok(batch) ==> postcard_batch(bytes@, usize::BITS) == Some(batch@),
        r matches Ok(batch) ==> fits(batch@),
        forall|batch: BatchView|
            fits(batch) && bytes@ == #[trigger] batch_bytes(batch) ==> r is Ok && r->Ok_0@ == batch,
        forall|batch: BatchView, rest: Seq<u8>|
            fits(batch) && bytes@ == #[trigger] (batch_bytes(batch) + rest) ==> r is Ok && r->Ok_0@
                == batch,
        forall|batch: BatchView, rest: Seq<u8>|
            !fits(batch) && bytes@ == #[trigger] (batch_bytes(batch) + rest) ==> r is Err,
        forall|batch: BatchView, n: int|
            0 <= n < batch_bytes(batch).len() && bytes@ == #[trigger] batch_bytes(batch).take(n)
                ==> r is Err,
{
    proof {
        assert forall|batch: BatchView| bytes@ == #[trigger] batch_bytes(batch) implies bytes@
            == batch_bytes(batch) + Seq::<u8>::empty() by {
            assert(batch_bytes(batch) + Seq::<u8>::empty() =~= batch_bytes(batch));
        }
    }
    match postcard_from_bytes(bytes) {
        Ok(plain) => Ok(build_batch(plain.0, &plain.1)),
        Err(_) => Err(MalformedBatch),
    }
}

/// The batch with a given base time and given frames.
pub fn build_batch(base_ts_ms: u64, plain: &Vec<(u32, Vec<u8>, u16)>) -> (r: CanBatch)
    requires
        fits((base_ts_ms, plain.deep_view())),
    ensures
        r@ == (base_ts_ms, plain.deep_view()),
        r.base_ts_ms == base_ts_ms,
        frames_of(r.frames) == plain.deep_view(),
{
    let mut frames = frames_new();
    let mut i: usize = 0;
    while i < plain.len()
        invariant
            i <= plain@.len(),
            fits((base_ts_ms, plain.deep_view())),
            frames_of(frames) == plain.deep_view().take(i as int),
        decreases plain@.len() - i,
    {
        let (id, bytes, ts_offset_ms) = &plain[i];
        assert(plain.deep_view()[i as int] == (*id, bytes.deep_view(), *ts_offset_ms));
        assert(bytes.deep_view() =~= bytes@);
        let data = payload_from_slice(bytes.as_slice()).unwrap();
        let frame = CanFrameMsg { id: *id, data, ts_offset_ms: *ts_offset_ms };
        let pushed = frames_push(&mut frames, frame);
        assert(plain.deep_view().take(i + 1) == plain.deep_view().take(i as int).push(
            plain.deep_view()[i as int],
        ));
        i += 1;
    }
    assert(plain.deep_view().take(i as int) == plain.deep_view());
    CanBatch { base_ts_ms, frames }
}

/// 128 to the power `k`.
spec fn pow128(k: nat) -> nat
    decreases k,
{
    if k == 0 {
        1
    } else {
        128 * pow128((k - 1) as nat)
    }
}

proof fn lemma_varint_len(n: nat, k: nat)
    requires
        1 <= k,
        n < pow128(k),
    ensures
        1 <= varint(n).len() <= k,
    decreases k,
{
    if n >= 128 {
        reveal_with_fuel(pow128, 2);
        lemma_varint_len(n / 128, (k - 1) as nat);
    }
}

proof fn lemma_frame_bytes_len(frame: FrameView)
    requires
        frame.1.len() <= 8,
    ensures
        frame_bytes(frame).len() <= 17,
{
    reveal_with_fuel(pow128, 6);
    lemma_varint_len(frame.0 as nat, 5);
    lemma_varint_len(frame.1.len(), 1);
    lemma_varint_len(frame.2 as nat, 3);
}

proof fn lemma_frames_bytes_len(frames: Seq<FrameView>)
    requires
        forall|i: int| 0 <= i < frames.len() ==> (#[trigger] frames[i]).1.len() <= 8,
    ensures
        frames_bytes(frames).len() <= 17 * frames.len(),
    decreases frames.len(),
{
    if frames.len() > 0 {
        lemma_frame_bytes_len(frames[0]);
        lemma_frames_bytes_len(frames.drop_first());
    }
}

/// One packet carries any batch: no encoding is longer than
/// [`MAX_BATCH_BYTES`], which leaves 58 of the 256 bytes of a radio packet
/// for sealing and framing.
pub proof fn law_batch_bytes_within_budget(batch: BatchView)
    requires
        fits(batch),
    ensures
        batch_bytes(batch).len() <= MAX_BATCH_BYTES,
{
    reveal_with_fuel(pow128, 11);
    lemma_varint_len(batch.0 as nat, 10);
    lemma_varint_len(batch.1.len(), 1);
    lemma_frames_bytes_len(batch.1);
}

proof fn lemma_varint_prefix_free(a: nat, b: nat, s: Seq<u8>, t: Seq<u8>)
    requires
        varint(a) + s == varint(b) + t,
    ensures
        a == b,
        s == t,
    decreases a,
{
    let left = varint(a) + s;
    let right = varint(b) + t;
    assert(left[0] == varint(a)[0]);
    assert(right[0] == varint(b)[0]);
    if a < 128 {
        assert(left.drop_first() =~= s);
        assert(right.drop_first() =~= t);
    } else {
        assert(left.drop_first() =~= varint(a / 128) + s);
        assert(right.drop_first() =~= varint(b / 128) + t);
        lemma_varint_prefix_free(a / 128, b / 128, s, t);
    }
}

proof fn lemma_frame_prefix_free(a: FrameView, b: FrameView, s: Seq<u8>, t: Seq<u8>)
    requires
        frame_bytes(a) + s == frame_bytes(b) + t,
    ensures
        a == b,
        s == t,
{
    let sa = a.1 + varint(a.2 as nat) + s;
    let sb = b.1 + varint(b.2 as nat) + t;
    let la = varint(a.1.len()) + sa;
    let lb = varint(b.1.len()) + sb;
    assert(frame_bytes(a) + s =~= varint(a.0 as nat) + la);
    assert(frame_bytes(b) + t =~= varint(b.0 as nat) + lb);
    lemma_varint_prefix_free(a.0 as nat, b.0 as nat, la, lb);
    lemma_varint_prefix_free(a.1.len(), b.1.len(), sa, sb);
    assert(a.1 =~= sa.take(a.1.len() as int));
    assert(b.1 =~= sb.take(b.1.len() as int));
    assert(sa.skip(a.1.len() as int) =~= varint(a.2 as nat) + s);
    assert(sb.skip(b.1.len() as int) =~= varint(b.2 as nat) + t);
    lemma_varint_prefix_free(a.2 as nat, b.2 as nat, s, t);
}

proof fn lemma_frames_prefix_free(
    a: Seq<FrameView>,
    b: Seq<FrameView>,
    s: Seq<u8>,
    t: Seq<u8>,
)
    requires
        a.len() == b.len(),
        frames_bytes(a) + s == frames_bytes(b) + t,
    ensures
        a == b,
        s == t,
    decreases a.len(),
{
    if a.len() == 0 {
        assert(a =~= b);
        assert(frames_bytes(a) + s =~= s);
        assert(frames_bytes(b) + t =~= t);
    } else {
        let ra = frames_bytes(a.drop_first()) + s;
        let rb = frames_bytes(b.drop_first()) + t;
        assert(frames_bytes(a) + s =~= frame_bytes(a[0]) + ra);
        assert(frames_bytes(b) + t =~= frame_bytes(b[0]) + rb);
        lemma_frame_prefix_free(a[0], b[0], ra, rb);
        lemma_frames_prefix_free(a.drop_first(), b.drop_first(), s, t);
        assert(a =~= seq![a[0]] + a.drop_first());
        assert(b =~= seq![b[0]] + b.drop_first());
    }
}

/// An encoding belongs to one batch only, and tells where it ends: if two
/// byte strings that start with encoded batches are equal, so are the batches
/// and what follows them.
pub proof fn law_batch_bytes_determine_batch(a: BatchView, b: BatchView, s: Seq<u8>, t: Seq<u8>)
    requires
        batch_bytes(a) + s == batch_bytes(b) + t,
    ensures
        a == b,
        s == t,
{
    let fa = frames_bytes(a.1) + s;
    let fb = frames_bytes(b.1) + t;
    let la = varint(a.1.len()) + fa;
    let lb = varint(b.1.len()) + fb;
    assert(batch_bytes(a) + s =~= varint(a.0 as nat) + la);
    assert(batch_bytes(b) + t =~= varint(b.0 as nat) + lb);
    lemma_varint_prefix_free(a.0 as nat, b.0 as nat, la, lb);
    lemma_varint_prefix_free(a.1.len(), b.1.len(), fa, fb);
    lemma_frames_prefix_free(a.1, b.1, s, t);
}

/// Frames of different kinds or with different ids never share a wire id, so
/// buses whose ids differ can share a batch.
pub proof fn law_wire_ids_never_collide(raw_a: u32, extended_a: bool, raw_b: u32, extended_b: bool)
    requires
        raw_a < EXTENDED_ID_FLAG,
        raw_b < EXTENDED_ID_FLAG,
        wire_id_spec(raw_a, extended_a) == wire_id_spec(raw_b, extended_b),
    ensures
        raw_a == raw_b,
        extended_a == extended_b,
{
    law_wire_id_keeps_id_and_kind(raw_a, extended_a, Seq::empty(), 0);
    law_wire_id_keeps_id_and_kind(raw_b, extended_b, Seq::empty(), 0);
}

/// A frame is known by all of its fields.
pub proof fn law_frame_view_is_complete(frame: CanFrameMsg)
    ensures
        frame@.0 == frame.id,
        frame@.1 == payload_of(frame.data),
        frame@.2 == frame.ts_offset_ms,
{
}

/// A batch is known by all of its fields.
pub proof fn law_batch_view_is_complete(batch: CanBatch)
    ensures
        batch@.0 == batch.base_ts_ms,
        batch@.1 == frames_of(batch.frames),
{
}

/// Id and kind make up the wire id: bit 31 is the kind, the bits below it are
/// the id.
pub proof fn law_id_and_kind_make_up_the_wire_id(frame: FrameView)
    ensures
        can_id_of(frame) < 0x8000_0000,
        is_extended_of(frame) ==> can_id_of(frame) + 0x8000_0000 == frame.0,
        !is_extended_of(frame) ==> can_id_of(frame) == frame.0,
{
}

/// The wire id of a standard frame is its raw id; that of an extended frame
/// has bit 31 set and the raw id's bits below it.
pub proof fn law_wire_id_adds_the_kind(raw_id: u32, extended: bool)
    ensures
        !extended ==> wire_id_spec(raw_id, extended) == raw_id,
        extended ==> wire_id_spec(raw_id, extended) == raw_id % 0x8000_0000 + 0x8000_0000,
{
    assert(raw_id | 0x8000_0000u32 == raw_id % 0x8000_0000 + 0x8000_0000) by (bit_vector);
}

/// A batch fits exactly when it has at most 11 frames of at most 8 bytes.
pub proof fn law_capacity(batch: BatchView)
    ensures
        fits(batch) ==> batch.1.len() <= 11 && forall|i: int|
            0 <= i < batch.1.len() ==> (#[trigger] batch.1[i]).1.len() <= 8,
        !fits(batch) ==> batch.1.len() > 11 || exists|i: int|
            0 <= i < batch.1.len() && (#[trigger] batch.1[i]).1.len() > 8,
{
}

/// The number that base-128 digits stand for, low digits first.
pub open spec fn varint_value(bytes: Seq<u8>) -> nat
    decreases bytes.len(),
{
    if bytes.len() == 0 {
        0
    } else {
        (bytes[0] % 128) as nat + 128 * varint_value(bytes.drop_first())
    }
}

/// The bytes of a number give the number back, and every byte but the last,
/// and only those, says that more follow.
pub proof fn law_varint_reads_back(n: nat)
    ensures
        varint_value(varint(n)) == n,
        varint(n).len() >= 1,
        varint(n).last() < 128,
        forall|i: int| 0 <= i < varint(n).len() - 1 ==> #[trigger] varint(n)[i] >= 128,
    decreases n,
{
    reveal_with_fuel(varint_value, 2);
    if n >= 128 {
        law_varint_reads_back(n / 128);
        let rest = varint(n / 128);
        assert(varint(n).drop_first() =~= rest);
        assert forall|i: int| 0 <= i < varint(n).len() - 1 implies #[trigger] varint(n)[i]
            >= 128 by {
            if i > 0 {
                assert(varint(n)[i] == rest[i - 1]);
            }
        }
    } else {
        assert(varint(n).drop_first() =~= Seq::<u8>::empty());
    }
}

/// A batch on the wire starts with its base time and the number of its
/// frames; each frame is its id, the length of its payload, its payload and
/// its time offset.
pub proof fn law_wire_layout(base_ts_ms: u64, frames: Seq<FrameView>, frame: FrameView)
    ensures
        batch_bytes((base_ts_ms, Seq::empty())) == varint(base_ts_ms as nat) + varint(0),
        batch_bytes((base_ts_ms, seq![frame])) == varint(base_ts_ms as nat) + varint(1) + varint(
            frame.0 as nat,
        ) + varint(frame.1.len()) + frame.1 + varint(frame.2 as nat),
        frames_bytes(seq![frame] + frames) == frames_bytes(seq![frame]) + frames_bytes(frames),
        batch_bytes((base_ts_ms, frames)) == varint(base_ts_ms as nat) + varint(frames.len())
            + frames_bytes(frames),
{
    reveal_with_fuel(frames_bytes, 2);
    assert(seq![frame].drop_first() =~= Seq::<FrameView>::empty());
    assert((seq![frame] + frames).drop_first() =~= frames);
    assert(frames_bytes(seq![frame]) =~= frame_bytes(frame));
    assert(batch_bytes((base_ts_ms, Seq::empty())) =~= varint(base_ts_ms as nat) + varint(0));
    assert(batch_bytes((base_ts_ms, seq![frame])) =~= varint(base_ts_ms as nat) + varint(1)
        + varint(frame.0 as nat) + varint(frame.1.len()) + frame.1 + varint(frame.2 as nat));
    assert(batch_bytes((base_ts_ms, frames)) =~= varint(base_ts_ms as nat) + varint(frames.len())
        + frames_bytes(frames));
}

} // verus!
