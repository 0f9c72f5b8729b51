use solar_telemetry::radio::RxStats;
use solar_telemetry::receiver::{print_batch, Receiver};
use solar_telemetry::wire::{encode_batch, CanBatch, CanFrameMsg, EXTENDED_ID_FLAG};

fn sample(base_ts_ms: u64, frames: &[(u32, &[u8], u16)]) -> CanBatch {
    let mut batch = CanBatch { base_ts_ms, ..CanBatch::default() };
    for (id, data, ts_offset_ms) in frames {
        let data = heapless::Vec::from_slice(data).unwrap();
        batch.frames.push(CanFrameMsg { id: *id, data, ts_offset_ms: *ts_offset_ms }).unwrap();
    }
    batch
}

#[test]
fn lines_are_candump_style() {
    let batch = sample(
        1_718_031_234_567,
        &[
            (0x0CF1_1E05 | EXTENDED_ID_FLAG, &[0xDE, 0xAD, 0xBE, 0xEF, 1, 2, 3, 4], 0),
            (0x600, &[1, 2, 3, 4, 5, 6, 7, 8], 24),
        ],
    );
    assert_eq!(
        print_batch(&batch),
        "(1718031234.567) 0CF11E05#DEADBEEF01020304\n(1718031234.591) 600#0102030405060708\n"
    );
}

#[test]
fn lines_agree_with_the_formatter() {
    let ids = [0u32, 1, 0x7FF, 0xFFFF, 0x7FFF_FFFF, 0x8000_0000, 0x9FFF_FFFF, 0xFFFF_FFFF];
    for base in [0u64, 7, 999, 1000, 60_061, u64::MAX - 65_535] {
        for id in ids {
            for offset in [0u16, 1, 500, 65_535] {
                let data = [0u8, 9, 10, 0xA0, 0xFF];
                let batch = sample(base, &[(id, &data, offset)]);
                let ts = base + offset as u64;
                let can_id = id & 0x7FFF_FFFF;
                let text: String = data.iter().map(|b| format!("{b:02X}")).collect();
                let expected = if id >= EXTENDED_ID_FLAG {
                    format!("({}.{:03}) {:08X}#{}\n", ts / 1000, ts % 1000, can_id, text)
                } else {
                    format!("({}.{:03}) {:03X}#{}\n", ts / 1000, ts % 1000, can_id, text)
                };
                assert_eq!(print_batch(&batch), expected);
            }
        }
    }
}

#[test]
fn empty_batch_prints_nothing() {
    assert_eq!(print_batch(&CanBatch::default()), "");
}

#[test]
fn payloads_are_counted() {
    let mut receiver = Receiver::new();
    let batch = sample(5, &[(0x101, &[7], 0)]);
    assert_eq!(receiver.on_payload(&encode_batch(&batch)), Some(batch));
    assert_eq!(receiver.on_payload(&[]), None);
    assert_eq!(receiver.on_payload(&[1, 1, 1]), None);
    assert_eq!(receiver, Receiver { batches: 1, bad_batches: 2 });
}

#[test]
fn receiver_status_line() {
    let receiver = Receiver { batches: 10, bad_batches: 2 };
    let stats = RxStats {
        ok: 12,
        auth_fail: 1,
        dup_or_old_drop: 3,
        skipped_packets: 4,
        decode_fail: 5,
        rehandshakes: 6,
    };
    assert_eq!(
        receiver.line(&stats),
        "\rRX batches=10 ok=12 auth_fail=1 dup/old=3 skipped=4 decode_fail=5 bad_batch=2 rehandshakes=6     "
    );
}
