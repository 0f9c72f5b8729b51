use solar_telemetry::bridge::{
    next_action, Bridge, BridgeAction, BridgeEvent, CanRead, Stats,
};
use solar_telemetry::clock::{elapsed, status_due, unix_ms, FLUSH_INTERVAL_NS, STATUS_INTERVAL_NS};
use solar_telemetry::receiver::{print_batch, Receiver};
use solar_telemetry::wire::{decode_batch, EXTENDED_ID_FLAG};

const MS: u64 = 1_000_000;

fn data(raw_id: u32, extended: bool, data: &[u8]) -> CanRead {
    CanRead::Data { raw_id, extended, data: data.to_vec() }
}

fn fill(bridge: &mut Bridge, frames: u32, unix: u64, now: u64) {
    for id in 0..frames {
        bridge.on_read(&data(id, false, &[1]), unix, now);
    }
}

#[test]
fn new_bridge_has_nothing_to_send() {
    let bridge = Bridge::new();
    assert_eq!(bridge.batch_to_send(u64::MAX), None);
    assert_eq!(bridge.stats, Stats::default());
}

#[test]
fn frames_become_a_batch() {
    let mut bridge = Bridge::new();
    bridge.on_read(&data(0x0CF1_1E05, true, &[0xDE, 0xAD]), 5000, 0);
    bridge.on_read(&data(0x600, false, &[]), 5024, 24 * MS);
    let bytes = bridge.batch_to_send(100 * MS).unwrap();
    let batch = decode_batch(&bytes).unwrap();
    assert_eq!(batch.base_ts_ms, 5000);
    assert_eq!(batch.frames.len(), 2);
    assert_eq!(batch.frames[0].id, 0x0CF1_1E05 | EXTENDED_ID_FLAG);
    assert_eq!(batch.frames[0].data.as_slice(), &[0xDE, 0xAD]);
    assert_eq!(batch.frames[0].ts_offset_ms, 0);
    assert_eq!(batch.frames[1].id, 0x600);
    assert_eq!(batch.frames[1].data.len(), 0);
    assert_eq!(batch.frames[1].ts_offset_ms, 24);
}

#[test]
fn partial_batch_goes_out_after_100_ms() {
    assert_eq!(FLUSH_INTERVAL_NS, 100 * MS);
    let mut bridge = Bridge::new();
    fill(&mut bridge, 1, 0, 7);
    fill(&mut bridge, 3, 0, 50 * MS);
    assert_eq!(bridge.batch_to_send(7 + 100 * MS - 1), None);
    assert!(bridge.batch_to_send(7 + 100 * MS).is_some());
}

#[test]
fn full_batch_goes_out_at_once() {
    let mut bridge = Bridge::new();
    fill(&mut bridge, 10, 0, 0);
    assert_eq!(bridge.batch_to_send(0), None);
    fill(&mut bridge, 1, 0, 0);
    let bytes = bridge.batch_to_send(0).unwrap();
    assert_eq!(decode_batch(&bytes).unwrap(), bridge.batch);
    bridge.on_sent();
    assert_eq!(bridge.batch_to_send(u64::MAX), None);
    assert_eq!(bridge.stats.batches_sent, 1);
    assert_eq!(bridge.stats.frames_sent, 11);
    assert_eq!(bridge.batch.frames.len(), 0);
    assert_eq!(bridge.batch_started, None);
}

#[test]
fn next_batch_gets_its_own_base_time() {
    let mut bridge = Bridge::new();
    fill(&mut bridge, 2, 1000, 0);
    bridge.on_sent();
    bridge.on_read(&data(1, false, &[]), 2500, 9);
    assert_eq!(bridge.batch.base_ts_ms, 2500);
    assert_eq!(bridge.batch_started, Some(9));
    assert_eq!(bridge.batch.frames[0].ts_offset_ms, 0);
}

#[test]
fn two_buses_drop_nothing() {
    let mut bridge = Bridge::new();
    let mut sent: Vec<(u32, bool, Vec<u8>)> = Vec::new();
    let mut read: Vec<(u32, bool, Vec<u8>)> = Vec::new();
    for sweep in 0..100u32 {
        for (raw_id, extended) in [(sweep, false), (0x0CF1_1E00 + sweep, true)] {
            let payload = vec![sweep as u8; (sweep % 9) as usize];
            read.push((raw_id, extended, payload.clone()));
            if let Some(bytes) = bridge.on_read(&data(raw_id, extended, &payload), 0, 0) {
                for f in &decode_batch(&bytes).unwrap().frames {
                    sent.push((f.can_id(), f.is_extended(), f.data.to_vec()));
                }
                bridge.on_sent();
            }
        }
        assert_eq!(bridge.batch_to_send(0), None);
        assert_eq!(bridge.stats.frames_dropped, 0);
    }
    assert_eq!(bridge.stats.batches_sent, 18);
    assert_eq!(bridge.stats.frames_sent, 198);
    for f in &bridge.batch.frames {
        sent.push((f.can_id(), f.is_extended(), f.data.to_vec()));
    }
    assert_eq!(sent, read);
}

#[test]
fn eleventh_frame_hands_the_batch_back() {
    let mut bridge = Bridge::new();
    for id in 0..10 {
        assert_eq!(bridge.on_read(&data(id, false, &[]), 0, 0), None);
    }
    let bytes = bridge.on_read(&data(10, false, &[]), 0, 0).unwrap();
    assert_eq!(decode_batch(&bytes).unwrap(), bridge.batch);
    assert_eq!(bridge.batch.frames.len(), 11);
    // Until it is sent, every read hands it back.
    assert_eq!(bridge.on_read(&CanRead::TimedOut, 0, 0), Some(bytes));
}

#[test]
fn frames_are_dropped_while_a_full_batch_waits() {
    let mut bridge = Bridge::new();
    fill(&mut bridge, 11, 0, 0);
    bridge.on_read(&data(0x21, false, &[]), 0, 0);
    assert_eq!(bridge.stats.frames_dropped, 1);
    assert_eq!(bridge.batch.frames.len(), 11);
    assert_eq!(bridge.batch.frames[10].id, 10);
    bridge.on_sent();
    bridge.on_read(&data(0x22, false, &[]), 0, 0);
    assert_eq!(bridge.stats.frames_dropped, 1);
    assert_eq!(bridge.batch.frames[0].id, 0x22);
}

#[test]
fn one_bus_never_drops() {
    let mut bridge = Bridge::new();
    for round in 0..1000u64 {
        bridge.on_read(&data(round as u32, false, &[3; 8]), round, round * MS);
        if bridge.batch_to_send(round * MS).is_some() {
            bridge.on_sent();
        }
    }
    assert_eq!(bridge.stats.frames_dropped, 0);
    assert_eq!(bridge.stats.frames_sent + bridge.batch.frames.len() as u64, 1000);
    assert_eq!(bridge.stats.batches_sent, 90);
}

#[test]
fn lost_link_drops_and_counts_the_batch() {
    let mut bridge = Bridge::new();
    fill(&mut bridge, 4, 77, 0);
    bridge.on_link_lost();
    assert_eq!(bridge.stats.frames_dropped, 4);
    assert_eq!(bridge.stats.reconnects, 1);
    assert_eq!(bridge.stats.frames_sent, 0);
    assert_eq!(bridge.batch.base_ts_ms, 0);
    assert_eq!(bridge.batch.frames.len(), 0);
    assert_eq!(bridge.batch_to_send(u64::MAX), None);
}

#[test]
fn every_frame_is_accounted_for() {
    let mut bridge = Bridge::new();
    let mut read = 0u64;
    for step in 0..200u64 {
        fill(&mut bridge, (step % 5) as u32, step, step * 30 * MS);
        read += step % 5;
        if step % 17 == 16 {
            bridge.on_link_lost();
        } else if bridge.batch_to_send(step * 30 * MS).is_some() {
            bridge.on_sent();
        }
        let s = bridge.stats;
        assert_eq!(s.frames_sent + s.frames_dropped + bridge.batch.frames.len() as u64, read);
    }
}

#[test]
fn other_frames_and_timeouts_change_nothing() {
    let mut bridge = Bridge::new();
    bridge.on_read(&CanRead::Other, 5, 5);
    bridge.on_read(&CanRead::TimedOut, 5, 5);
    assert_eq!(bridge.stats, Stats::default());
    assert_eq!(bridge.batch_started, None);
    bridge.on_read(&CanRead::Failed, 5, 5);
    assert_eq!(bridge.stats.can_errors, 1);
    assert_eq!(bridge.batch_started, None);
}

#[test]
fn offsets_saturate() {
    let mut bridge = Bridge::new();
    bridge.on_read(&data(1, false, &[]), 100_000, 0);
    bridge.on_read(&data(1, false, &[]), 165_535, 0);
    bridge.on_read(&data(1, false, &[]), 165_536, 0);
    bridge.on_read(&data(1, false, &[]), u64::MAX, 0);
    let offsets: Vec<u16> = bridge.batch.frames.iter().map(|f| f.ts_offset_ms).collect();
    assert_eq!(offsets, vec![0, 65_535, 65_535, 65_535]);
}

#[test]
fn clock_set_back_saturates_the_offset() {
    let mut bridge = Bridge::new();
    bridge.on_read(&data(1, false, &[]), 100_000, 0);
    bridge.on_read(&data(1, false, &[]), 99_999, 0);
    assert_eq!(bridge.batch.frames[1].ts_offset_ms, u16::MAX);

    let mut bridge = Bridge::new();
    bridge.on_read(&data(1, false, &[]), u64::MAX, 0);
    bridge.on_read(&data(1, false, &[]), 0, 0);
    bridge.on_read(&data(1, false, &[]), u64::MAX, 0);
    let offsets: Vec<u16> = bridge.batch.frames.iter().map(|f| f.ts_offset_ms).collect();
    assert_eq!(offsets, vec![0, u16::MAX, 0]);
}

#[test]
fn bridge_retries_every_failure() {
    assert_eq!(next_action(&BridgeEvent::Ready), BridgeAction::Connect);
    assert_eq!(next_action(&BridgeEvent::ConnectFailed), BridgeAction::BackOff);
    assert_eq!(next_action(&BridgeEvent::Connected), BridgeAction::Pump);
    assert_eq!(next_action(&BridgeEvent::LinkLost), BridgeAction::BackOff);
}

#[test]
fn receiver_gets_what_the_bridge_sent() {
    let mut bridge = Bridge::new();
    bridge.on_read(&data(0x123, false, &[0xDE, 0xAD, 0xBE, 0xEF]), 42, 0);
    let bytes = bridge.batch_to_send(200 * MS).unwrap();
    let mut receiver = Receiver::new();
    assert_eq!(receiver.on_payload(&bytes).unwrap(), bridge.batch);
}

#[test]
fn bus_frames_are_printed_as_they_were() {
    let mut bridge = Bridge::new();
    let first = data(0x0CF1_1E05, true, &[0xDE, 0xAD, 0xBE, 0xEF, 1, 2, 3, 4]);
    bridge.on_read(&first, 1_718_031_234_567, 0);
    bridge.on_read(&data(0x600, false, &[1, 2, 3, 4, 5, 6, 7, 8]), 1_718_031_234_591, 0);
    bridge.on_read(&data(0x123, false, &[0xDE, 0xAD, 0xBE, 0xEF]), 1_718_031_235_000, 0);
    let bytes = bridge.batch_to_send(100 * MS).unwrap();
    let batch = Receiver::new().on_payload(&bytes).unwrap();
    assert_eq!(
        print_batch(&batch),
        "(1718031234.567) 0CF11E05#DEADBEEF01020304\n(1718031234.591) 600#0102030405060708\n(1718031235.000) 123#DEADBEEF\n"
    );
}

#[test]
fn no_batch_is_due_after_a_round() {
    let mut bridge = Bridge::new();
    for round in 0..50u64 {
        let now = round * 40 * MS;
        fill(&mut bridge, (round % 4) as u32, round, now);
        if bridge.batch_to_send(now).is_some() {
            bridge.on_sent();
        }
        assert_eq!(bridge.batch_to_send(now), None);
    }
}

#[test]
fn bridge_status_line() {
    let stats = Stats {
        batches_sent: 12,
        frames_sent: 130,
        frames_dropped: 0,
        can_errors: 3,
        reconnects: u64::MAX,
    };
    assert_eq!(
        stats.line(),
        "\rTX batches=12 frames=130 dropped=0 can_err=3 reconnects=18446744073709551615     "
    );
}

#[test]
fn clocks() {
    assert_eq!(unix_ms(0, 0), 0);
    assert_eq!(unix_ms(1_718_031_234, 567_999_999), 1_718_031_234_567);
    assert_eq!(unix_ms(u64::MAX, 999_999_999), (u64::MAX as u128 * 1000 + 999) as u64);
    assert_eq!(elapsed(5, 12), 7);
    assert_eq!(elapsed(12, 5), 0);
    assert_eq!(STATUS_INTERVAL_NS, 1000 * MS);
    assert!(!status_due(5, 5 + 1000 * MS - 1));
    assert!(status_due(5, 5 + 1000 * MS));
}
