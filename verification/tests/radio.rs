use solar_telemetry::clock::LINK_TIMEOUT_NS;
use solar_telemetry::decode::{Decoded, FrameId, MpptMessage, Reading, Telemetry};
use solar_telemetry::radio::{LinkShared, RadioAction, RadioEvent, RxStats};
use solar_telemetry::wire::{encode_batch, CanBatch, CanFrameMsg};

fn decoder(id: FrameId, data: &[u8]) -> Decoded {
    let message = MpptMessage::Temperature { mosfet_temperature: Reading { bits: data.len() as u32 } };
    match id {
        FrameId::Standard(0x600) => Decoded { kelly: None, mppt: [Some(message), None, None] },
        FrameId::Standard(0x610) => Decoded { kelly: None, mppt: [None, Some(message), None] },
        _ => Decoded { kelly: None, mppt: [None, None, None] },
    }
}

fn received(frames: &[(u32, usize)]) -> CanBatch {
    let mut batch = CanBatch::default();
    for (id, len) in frames {
        let data = heapless::Vec::from_slice(&[1u8; 8][..*len]).unwrap();
        batch.frames.push(CanFrameMsg { id: *id, data, ts_offset_ms: 0 }).unwrap();
    }
    batch
}

fn session(ok: u64) -> RxStats {
    RxStats { ok, ..RxStats::default() }
}

#[test]
fn fresh_link_is_down() {
    let link = LinkShared::default();
    assert!(!link.link_ok(0));
    assert!(!link.link_ok(u64::MAX));
    assert_eq!(link.status, "");
    assert_eq!(link.batches, 0);
    assert_eq!(link.telemetry, Telemetry::default());
}

#[test]
fn batch_updates_the_link() {
    let mut link = LinkShared::default();
    let batch = received(&[(0x600, 3), (0x610, 5), (0x999, 1), (0x601, 0), (0x600, 7)]);
    let next = link.on_payload(&encode_batch(&batch), &session(4), 1000, &decoder);
    assert_eq!(next, RadioAction::Receive);
    assert_eq!(link.batches, 1);
    assert_eq!(link.unknown_frames, 2);
    assert_eq!(link.last_batch, Some(1000));
    assert_eq!(link.stats, session(4));
    assert_eq!(link.telemetry.mppt[0].mosfet_temp.bits, 7);
    assert_eq!(link.telemetry.mppt[1].mosfet_temp.bits, 5);
    assert_eq!(link.telemetry.mppt[2].mosfet_temp.bits, 0);
}

#[test]
fn batch_cut_in_two_does_the_same() {
    let frames = [(0x600, 3), (0x610, 5), (0x600, 4)];
    let mut whole = LinkShared::default();
    whole.on_batch(&received(&frames), 5, &decoder);
    let mut parts = LinkShared::default();
    parts.on_batch(&received(&frames[..1]), 5, &decoder);
    parts.on_batch(&received(&frames[1..]), 5, &decoder);
    assert_eq!(whole.telemetry, parts.telemetry);
    assert_eq!(whole.unknown_frames, parts.unknown_frames);
}

#[test]
fn link_is_up_for_three_seconds() {
    assert_eq!(LINK_TIMEOUT_NS, 3_000_000_000);
    let mut link = LinkShared::default();
    link.on_batch(&received(&[]), 500, &decoder);
    assert!(link.link_ok(500));
    assert!(link.link_ok(500 + 2_999_999_999));
    assert!(!link.link_ok(500 + 3_000_000_000));
    assert!(link.link_ok(0));
}

#[test]
fn malformed_payload_counts_as_unknown() {
    let mut link = LinkShared::default();
    let next = link.on_payload(&[0xFF], &session(9), 77, &decoder);
    assert_eq!(next, RadioAction::Receive);
    assert_eq!(link.unknown_frames, 1);
    assert_eq!(link.batches, 0);
    assert_eq!(link.last_batch, None);
    assert_eq!(link.stats, session(9));
    assert_eq!(link.telemetry, Telemetry::default());
    assert!(!link.link_ok(77));
}

#[test]
fn events_set_words_and_next_action() {
    let port = || "/dev/ttyUSB0".to_string();
    let error = || "it broke".to_string();
    let mut link = LinkShared::default();
    for (event, status, action) in [
        (RadioEvent::Ready, "searching for XBee serial port...", RadioAction::OpenPort),
        (RadioEvent::NoPort, "searching for XBee serial port...", RadioAction::BackOff),
        (
            RadioEvent::OpenFailed { port: port(), error: error() },
            "cannot open /dev/ttyUSB0: it broke",
            RadioAction::BackOff,
        ),
        (
            RadioEvent::Opened { port: port() },
            "/dev/ttyUSB0: waiting for car handshake...",
            RadioAction::Handshake,
        ),
        (
            RadioEvent::HandshakeFailed { error: error() },
            "handshake failed: it broke",
            RadioAction::BackOff,
        ),
        (RadioEvent::Established, "receiving", RadioAction::Receive),
        (RadioEvent::TimedOut { stats: session(3) }, "receiving", RadioAction::Receive),
        (
            RadioEvent::LinkLost { error: error() },
            "radio link lost: it broke; reconnecting",
            RadioAction::BackOff,
        ),
    ] {
        assert_eq!(link.on_event(&event), action);
        assert_eq!(link.status, status);
    }
    assert_eq!(link.stats, session(3));
    assert_eq!(link.batches, 0);
    assert_eq!(link.last_batch, None);
    assert_eq!(link.telemetry, Telemetry::default());
}
