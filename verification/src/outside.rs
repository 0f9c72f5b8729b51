//! Calls into other crates. Verus does not read the bodies here: each item's
//! contract is what the rest of the crate takes on trust.

use vstd::prelude::*;

use crate::wire::{batch_bytes, fits, BatchView, CanFrameMsg, FrameView};

verus! {

/// `heapless::Vec`, a vector of fixed capacity.
#[verifier::external_type_specification]
#[verifier::external_body]
#[verifier::reject_recursive_types(T)]
pub struct ExHeaplessVec<T, const N: usize>(heapless::Vec<T, N>);

/// `postcard::Error`, the reason why postcard refused to write or to read.
#[verifier::external_type_specification]
#[verifier::external_body]
pub struct ExPostcardError(postcard::Error);

/// The bytes that a frame payload holds, in order.
pub uninterp spec fn payload_of(v: heapless::Vec<u8, 8>) -> Seq<u8>;

/// The frames that a batch holds, in order.
pub uninterp spec fn frames_of(v: heapless::Vec<CanFrameMsg, 11>) -> Seq<(u32, Seq<u8>, u16)>;

/// `heapless::Vec::from_slice`: a copy of the slice, or `Err` when the slice
/// is longer than the capacity.
#[verifier::external_body]
pub(crate) fn payload_from_slice(bytes: &[u8]) -> (r: Result<heapless::Vec<u8, 8>, ()>)
    ensures
        r is Ok <==> bytes@.len() <= 8,
        r matches Ok(v) ==> payload_of(v) == bytes@,
{
    heapless::Vec::from_slice(bytes)
}

/// `heapless::Vec::as_slice` on a payload: its bytes, never more than the
/// capacity.
#[verifier::external_body]
pub(crate) fn payload_as_slice(v: &heapless::Vec<u8, 8>) -> (r: &[u8])
    ensures
        r@ == payload_of(*v),
        r@.len() <= 8,
{
    v.as_slice()
}

/// `heapless::Vec::new`: holds nothing.
#[verifier::external_body]
pub(crate) fn frames_new() -> (r: heapless::Vec<CanFrameMsg, 11>)
    ensures
        frames_of(r) == Seq::<FrameView>::empty(),
{
    heapless::Vec::new()
}

/// `heapless::Vec::push`: appends the frame, or hands it back and changes
/// nothing when the vector is at its capacity.
#[verifier::external_body]
pub(crate) fn frames_push(
    v: &mut heapless::Vec<CanFrameMsg, 11>,
    frame: CanFrameMsg,
) -> (r: Result<(), CanFrameMsg>)
    ensures
        r is Ok <==> frames_of(*old(v)).len() < 11,
        r is Ok ==> frames_of(*final(v)) == frames_of(*old(v)).push(frame@),
        r matches Err(back) ==> back == frame && frames_of(*final(v)) == frames_of(*old(v)),
{
    v.push(frame)
}

/// `heapless::Vec::clear`: holds nothing afterwards.
#[verifier::external_body]
pub(crate) fn frames_clear(v: &mut heapless::Vec<CanFrameMsg, 11>)
    ensures
        frames_of(*final(v)) == Seq::<FrameView>::empty(),
{
    v.clear()
}

/// `heapless::Vec::as_slice` on the frames of a batch: the same frames in the
/// same order, never more than the capacity.
#[verifier::external_body]
pub(crate) fn frames_as_slice(v: &heapless::Vec<CanFrameMsg, 11>) -> (r: &[CanFrameMsg])
    ensures
        r@.len() == frames_of(*v).len(),
        r@.len() <= 11,
        forall|i: int| 0 <= i < r@.len() ==> (#[trigger] r@[i])@ == frames_of(*v)[i],
{
    v.as_slice()
}

/// `heapless::Vec::is_full`: whether the vector is at its capacity, which it
/// never exceeds.
#[verifier::external_body]
pub(crate) fn frames_is_full(v: &heapless::Vec<CanFrameMsg, 11>) -> (r: bool)
    ensures
        r <==> frames_of(*v).len() == 11,
        !r ==> frames_of(*v).len() < 11,
{
    v.is_full()
}

/// `postcard::to_slice` on a base time and a list of frames, each frame a
/// tuple of id, payload and time offset. postcard writes a tuple as its
/// fields one after the other, a list as its length followed by its elements,
/// a byte as itself and any other unsigned integer as a varint; the call
/// succeeds exactly when the buffer has room for all of it.
#[verifier::external_body]
pub(crate) fn postcard_to_slice(
    base_ts_ms: u64,
    frames: &Vec<(u32, Vec<u8>, u16)>,
    buf: &mut [u8],
) -> (r: Result<usize, postcard::Error>)
    ensures
        final(buf)@.len() == old(buf)@.len(),
        r is Ok <==> batch_bytes((base_ts_ms, frames.deep_view())).len() <= old(buf)@.len(),
        r matches Ok(n) ==> n == batch_bytes((base_ts_ms, frames.deep_view())).len(),
        r matches Ok(n) ==> final(buf)@.take(n as int) == batch_bytes(
            (base_ts_ms, frames.deep_view()),
        ),
{
    match postcard::to_slice(&(base_ts_ms, frames), buf) {
        Ok(used) => Ok(used.len()),
        Err(e) => Err(e),
    }
}

/// What `postcard::from_bytes` makes of a byte string that should start with
/// a batch: the base time and the frames, or `None` for an error. The width
/// of `usize` bounds how many bytes a length may take on the wire.
pub uninterp spec fn postcard_batch(bytes: Seq<u8>, usize_bits: u32) -> Option<
    (u64, Seq<(u32, Seq<u8>, u16)>),
>;

/// `postcard::from_bytes` into a base time and fixed-capacity vectors of
/// frames and payload bytes. What was read never exceeds those capacities.
/// Bytes that start with the encoding of a batch give that batch back,
/// whatever follows, unless the batch exceeds the capacities: then, as when
/// the encoding is cut short, the call fails.
#[verifier::external_body]
pub(crate) fn postcard_from_bytes(bytes: &[u8]) -> (r: Result<
    (u64, Vec<(u32, Vec<u8>, u16)>),
    postcard::Error,
>)
    ensures
        r is Ok <==> postcard_batch(bytes@, usize::BITS) is Some,
        r matches Ok(b) ==> postcard_batch(bytes@, usize::BITS) == Some((b.0, b.1.deep_view())),
        r matches Ok(b) ==> fits((b.0, b.1.deep_view())),
        forall|batch: BatchView, rest: Seq<u8>|
            bytes@ == #[trigger] (batch_bytes(batch) + rest) ==> (r is Ok <==> fits(batch)),
        forall|batch: BatchView, rest: Seq<u8>|
            fits(batch) && bytes@ == #[trigger] (batch_bytes(batch) + rest) ==> r is Ok && (
            r->Ok_0.0,
            r->Ok_0.1.deep_view(),
        ) == batch,
        forall|batch: BatchView, n: int|
            0 <= n < batch_bytes(batch).len() && bytes@ == #[trigger] batch_bytes(batch).take(n)
                ==> r is Err,
{
    let r: Result<(u64, heapless::Vec<(u32, heapless::Vec<u8, 8>, u16), 11>), _> =
        postcard::from_bytes(bytes);
    match r {
        Ok((base, frames)) => Ok(
            (base, frames.iter().map(|f| (f.0, f.1.to_vec(), f.2)).collect()),
        ),
        Err(e) => Err(e),
    }
}

/// `embedded_can::StandardId::new`: an id of at most 11 bits, read back with
/// `as_raw`.
#[verifier::external_body]
pub(crate) fn standard_id(raw: u16) -> (r: Option<u16>)
    ensures
        r == (if raw <= 0x7FF {
            Some(raw)
        } else {
            None
        }),
{
    match embedded_can::StandardId::new(raw) {
        Some(id) => Some(id.as_raw()),
        None => None,
    }
}

/// `embedded_can::ExtendedId::new`: an id of at most 29 bits, read back with
/// `as_raw`.
#[verifier::external_body]
pub(crate) fn extended_id(raw: u32) -> (r: Option<u32>)
    ensures
        r == (if raw <= 0x1FFF_FFFF {
            Some(raw)
        } else {
            None
        }),
{
    match embedded_can::ExtendedId::new(raw) {
        Some(id) => Some(id.as_raw()),
        None => None,
    }
}

} // verus!
