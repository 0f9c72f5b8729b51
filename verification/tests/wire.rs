use serde::ser::SerializeStruct;
use serde::{Serialize, Serializer};

use solar_telemetry::wire::{
    decode_batch, encode_batch, wire_id, CanBatch, CanFrameMsg, MalformedBatch, EXTENDED_ID_FLAG,
    MAX_BATCH_BYTES, MAX_FRAMES_PER_BATCH,
};

fn frame(id: u32, data: &[u8], ts_offset_ms: u16) -> CanFrameMsg {
    CanFrameMsg { id, data: heapless::Vec::from_slice(data).unwrap(), ts_offset_ms }
}

fn batch(base_ts_ms: u64, frames: &[CanFrameMsg]) -> CanBatch {
    CanBatch { base_ts_ms, frames: heapless::Vec::from_slice(frames).unwrap() }
}

fn worst_case_batch() -> CanBatch {
    let frame = frame(0x1FFF_FFFF | EXTENDED_ID_FLAG, &[0xFF; 8], u16::MAX);
    let mut batch = CanBatch { base_ts_ms: u64::MAX, frames: heapless::Vec::new() };
    for _ in 0..MAX_FRAMES_PER_BATCH {
        batch.frames.push(frame.clone()).unwrap();
    }
    batch
}

/// A frame written as a struct of three fields.
struct StructFrame<'a>(&'a CanFrameMsg);

impl Serialize for StructFrame<'_> {
    fn serialize<S: Serializer>(&self, s: S) -> Result<S::Ok, S::Error> {
        let mut out = s.serialize_struct("CanFrameMsg", 3)?;
        out.serialize_field("id", &self.0.id)?;
        out.serialize_field("data", &self.0.data)?;
        out.serialize_field("ts_offset_ms", &self.0.ts_offset_ms)?;
        out.end()
    }
}

/// A batch written as a struct of two fields.
struct StructBatch<'a>(&'a CanBatch);

impl Serialize for StructBatch<'_> {
    fn serialize<S: Serializer>(&self, s: S) -> Result<S::Ok, S::Error> {
        let frames: Vec<StructFrame> = self.0.frames.iter().map(StructFrame).collect();
        let mut out = s.serialize_struct("CanBatch", 2)?;
        out.serialize_field("base_ts_ms", &self.0.base_ts_ms)?;
        out.serialize_field("frames", &frames)?;
        out.end()
    }
}

#[test]
fn postcard_roundtrip() {
    let batch = worst_case_batch();
    let bytes = encode_batch(&batch);
    assert!(bytes.len() <= 512);
    let decoded: CanBatch = decode_batch(&bytes).unwrap();
    assert_eq!(decoded, batch);
}

#[test]
fn worst_case_takes_the_whole_budget() {
    assert_eq!(MAX_BATCH_BYTES, 198);
    assert_eq!(encode_batch(&worst_case_batch()).len(), 198);
}

#[test]
fn empty_batch_is_two_bytes() {
    assert_eq!(encode_batch(&CanBatch::default()), vec![0, 0]);
    assert_eq!(decode_batch(&[0, 0]).unwrap(), CanBatch::default());
}

#[test]
fn encoding_is_varints_and_raw_bytes() {
    let b = batch(300, &[frame(0x600, &[1, 2, 0xFF], 200), frame(EXTENDED_ID_FLAG | 5, &[], 0)]);
    let expected: Vec<u8> = vec![
        0xAC, 0x02, // 300
        2, // frames
        0x80, 0x0C, // 0x600
        3, 1, 2, 0xFF, // payload
        0xC8, 0x01, // 200
        0x85, 0x80, 0x80, 0x80, 0x08, // 0x8000_0005
        0, // no payload
        0, // offset
    ];
    assert_eq!(encode_batch(&b), expected);
    assert_eq!(decode_batch(&expected).unwrap(), b);
}

#[test]
fn encoding_is_that_of_the_structs() {
    for b in [
        CanBatch::default(),
        worst_case_batch(),
        batch(1_718_031_234_567, &[frame(0x123, &[0xDE, 0xAD], 0), frame(0x124, &[0; 8], 24)]),
    ] {
        let mut buf = [0u8; 512];
        let bytes = postcard::to_slice(&StructBatch(&b), &mut buf).unwrap();
        assert_eq!(encode_batch(&b), bytes.to_vec());
    }
}

#[test]
fn what_follows_a_batch_is_ignored() {
    let b = batch(7, &[frame(0x101, &[9], 3)]);
    let mut bytes = encode_batch(&b);
    bytes.extend_from_slice(&[0xFF, 0x00, 0x55]);
    assert_eq!(decode_batch(&bytes).unwrap(), b);
}

#[test]
fn truncated_batches_are_refused() {
    let bytes = encode_batch(&worst_case_batch());
    for n in 0..bytes.len() {
        assert_eq!(decode_batch(&bytes[..n]), Err(MalformedBatch));
    }
}

#[test]
fn oversized_batches_are_refused() {
    // Twelve empty frames.
    let mut bytes: Vec<u8> = vec![0, 12];
    bytes.extend_from_slice(&[0; 36]);
    assert_eq!(decode_batch(&bytes), Err(MalformedBatch));
    // One frame of nine bytes.
    let mut bytes: Vec<u8> = vec![0, 1, 0, 9];
    bytes.extend_from_slice(&[0; 10]);
    assert_eq!(decode_batch(&bytes), Err(MalformedBatch));
    // Eleven frames, and eight bytes, still fit.
    let mut bytes: Vec<u8> = vec![0, 11];
    bytes.extend_from_slice(&[0; 33]);
    assert_eq!(decode_batch(&bytes).unwrap().frames.len(), 11);
    let mut bytes: Vec<u8> = vec![0, 1, 0, 8];
    bytes.extend_from_slice(&[0; 9]);
    assert_eq!(decode_batch(&bytes).unwrap().frames[0].data.len(), 8);
}

#[test]
fn overlong_varints_are_refused() {
    // A time offset of 65536.
    let bytes: Vec<u8> = vec![0, 1, 0, 0, 0x80, 0x80, 0x04];
    assert_eq!(decode_batch(&bytes), Err(MalformedBatch));
}

#[test]
fn different_batches_have_different_encodings() {
    let a = batch(1, &[frame(1, &[2], 3)]);
    let b = batch(1, &[frame(1, &[3], 3)]);
    assert_ne!(encode_batch(&a), encode_batch(&b));
    assert_ne!(a, b);
}

#[test]
fn wire_ids_keep_id_and_kind() {
    assert_eq!(EXTENDED_ID_FLAG, 1 << 31);
    for (raw, extended) in [
        (0u32, false),
        (0x7FF, false),
        (0, true),
        (0x0CF1_1E05, true),
        (0x1FFF_FFFF, true),
    ] {
        let f = frame(wire_id(raw, extended), &[], 0);
        assert_eq!(f.can_id(), raw);
        assert_eq!(f.is_extended(), extended);
    }
    assert_eq!(wire_id(0x600, false), 0x600);
    assert_eq!(wire_id(0x0CF1_1E05, true), 0x8CF1_1E05);
}

#[test]
fn clones_are_equal() {
    let b = worst_case_batch();
    assert_eq!(b.clone(), b);
    let f = frame(3, &[1, 2, 3], 4);
    assert_eq!(f.clone(), f);
}

#[test]
fn wire_ids_do_not_collide() {
    let ids = [(0x600u32, false), (0x600, true), (0x601, false), (0x0CF1_1E05, true), (0, true)];
    for (i, a) in ids.iter().enumerate() {
        for b in &ids[i + 1..] {
            assert_ne!(wire_id(a.0, a.1), wire_id(b.0, b.1));
        }
    }
}
