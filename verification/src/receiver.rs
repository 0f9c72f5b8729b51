//! The headless chase side: every batch received is printed candump-style,
//! one line per frame.

use vstd::prelude::*;
use vstd::string::StringExecFns;

use crate::bridge::{law_offset_recovers_capture_time, ts_offset};
use crate::decode::frame_id;
use crate::outside::{frames_as_slice, payload_as_slice, postcard_batch};
use crate::radio::RxStats;
use crate::text::{
    decimal, digit_char, hex, law_byte_is_two_digits, law_millis_are_three_digits, numeral,
    push_decimal, push_hex, push_millis, zero_padded,
};
use crate::wire::{
    batch_bytes, can_id_of, decode_batch, fits, is_extended_of, law_wire_id_keeps_id_and_kind,
    wire_id_spec, BatchView, CanBatch, CanFrameMsg, FrameView, MalformedBatch,
};

verus! {

/// Bytes in hexadecimal, two digits each.
pub open spec fn hex_bytes(bytes: Seq<u8>) -> Seq<char>
    decreases bytes.len(),
{
    if bytes.len() == 0 {
        Seq::empty()
    } else {
        hex_bytes(bytes.drop_last()) + hex(bytes.last() as nat, 2)
    }
}

/// The line for one frame: capture time in seconds with three decimals, id of
/// at least eight hexadecimal digits if extended and three if not, payload.
pub open spec fn candump_line(base_ts_ms: u64, frame: FrameView) -> Seq<char> {
    let ts_ms = (base_ts_ms + frame.2) as nat;
    let width: nat = if is_extended_of(frame) {
        8
    } else {
        3
    };
    "("@ + decimal(ts_ms / 1000) + "."@ + zero_padded(decimal(ts_ms % 1000), 3) + ") "@ + hex(
        can_id_of(frame) as nat,
        width,
    ) + "#"@ + hex_bytes(frame.1) + "\n"@
}

/// The lines for some frames of a batch.
pub open spec fn candump_lines(base_ts_ms: u64, frames: Seq<FrameView>) -> Seq<char>
    decreases frames.len(),
{
    if frames.len() == 0 {
        Seq::empty()
    } else {
        candump_lines(base_ts_ms, frames.drop_last()) + candump_line(base_ts_ms, frames.last())
    }
}

/// Whether every capture time in a batch fits 64 bits.
pub open spec fn times_fit(batch: BatchView) -> bool {
    forall|i: int|
        0 <= i < batch.1.len() ==> batch.0 + (#[trigger] batch.1[i]).2 <= u64::MAX
}

fn push_line(out: &mut String, base_ts_ms: u64, frame: &CanFrameMsg)
    requires
        base_ts_ms + frame.ts_offset_ms <= u64::MAX,
    ensures
        final(out)@ == old(out)@ + candump_line(base_ts_ms, frame@),
{
    let ts_ms: u64 = base_ts_ms + frame.ts_offset_ms as u64;
    out.append("(");
    push_decimal(out, ts_ms / 1000);
    out.append(".");
    push_millis(out, ts_ms % 1000);
    out.append(") ");
    let width: usize = if frame.is_extended() {
        8
    } else {
        3
    };
    push_hex(out, frame.can_id() as u64, width);
    out.append("#");
    let data = payload_as_slice(&frame.data);
    let ghost head = out@;
    let mut i: usize = 0;
    assert(data@.take(0) =~= Seq::<u8>::empty());
    assert(head + hex_bytes(data@.take(0)) =~= head);
    while i < data.len()
        invariant
            i <= data@.len(),
            out@ == head + hex_bytes(data@.take(i as int)),
        decreases data@.len() - i,
    {
        push_hex(out, data[i] as u64, 2);
        proof {
            assert(data@.take(i + 1).drop_last() =~= data@.take(i as int));
            assert(out@ =~= head + hex_bytes(data@.take(i + 1)));
        }
        i += 1;
    }
    assert(data@.take(i as int) =~= data@);
    out.append("\n");
    assert(out@ =~= old(out)@ + candump_line(base_ts_ms, frame@));
}

/// The candump lines of a batch, in order.
pub fn print_batch(batch: &CanBatch) -> (r: String)
    requires
        times_fit(batch@),
    ensures
        r@ == candump_lines(batch.base_ts_ms, batch@.1),
{
    let mut out: String = String::new();
    let frames = frames_as_slice(&batch.frames);
    let mut i: usize = 0;
    assert(batch@.1.take(0) =~= Seq::<FrameView>::empty());
    while i < frames.len()
        invariant
            i <= frames@.len(),
            frames@.len() == batch@.1.len(),
            times_fit(batch@),
            forall|j: int| 0 <= j < frames@.len() ==> (#[trigger] frames@[j])@ == batch@.1[j],
            out@ == candump_lines(batch.base_ts_ms, batch@.1.take(i as int)),
        decreases frames@.len() - i,
    {
        assert(frames@[i as int]@ == batch@.1[i as int]);
        push_line(&mut out, batch.base_ts_ms, &frames[i]);
        assert(batch@.1.take(i + 1).drop_last() =~= batch@.1.take(i as int));
        i += 1;
    }
    assert(batch@.1.take(i as int) =~= batch@.1);
    out
}

/// What the receiver counts.
#[derive(Debug, Clone, Copy, PartialEq, Eq, Structural)]
pub struct Receiver {
    pub batches: u64,
    pub bad_batches: u64,
}

impl Receiver {
    /// A receiver that has received nothing.
    pub fn new() -> (r: Self)
        ensures
            r == (Receiver { batches: 0, bad_batches: 0 }),
    {
        Receiver { batches: 0, bad_batches: 0 }
    }

    /// Counts a payload by what decoding made of it.
    pub fn on_decoded(&mut self, decoded: &Result<CanBatch, MalformedBatch>)
        requires
            decoded is Ok ==> old(self).batches < u64::MAX,
            decoded is Err ==> old(self).bad_batches < u64::MAX,
        ensures
            decoded is Ok ==> *final(self) == (Receiver {
                batches: (old(self).batches + 1) as u64,
                ..*old(self)
            }),
            decoded is Err ==> *final(self) == (Receiver {
                bad_batches: (old(self).bad_batches + 1) as u64,
                ..*old(self)
            }),
    {
        match decoded {
            Ok(_) => {
                self.batches += 1;
            },
            Err(_) => {
                self.bad_batches += 1;
            },
        }
    }

    /// Takes in a decrypted payload: the batch to print, if it holds one.
    pub fn on_payload(&mut self, payload: &[u8]) -> (r: Option<CanBatch>)
        requires
            old(self).batches < u64::MAX,
            old(self).bad_batches < u64::MAX,
        ensures
            r is Some <==> postcard_batch(payload@, usize::BITS) is Some,
            r matches Some(batch) ==> postcard_batch(payload@, usize::BITS) == Some(batch@),
            forall|batch: BatchView|
                fits(batch) && payload@ == #[trigger] batch_bytes(batch) ==> r is Some && r->0@
                    == batch,
            r is Some ==> *final(self) == (Receiver {
                batches: (old(self).batches + 1) as u64,
                ..*old(self)
            }),
            r is None ==> *final(self) == (Receiver {
                bad_batches: (old(self).bad_batches + 1) as u64,
                ..*old(self)
            }),
    {
        let decoded = decode_batch(payload);
        self.on_decoded(&decoded);
        match decoded {
            Ok(batch) => Some(batch),
            Err(_) => None,
        }
    }

    /// The status line of the receiver.
    pub open spec fn line_spec(self, stats: RxStats) -> Seq<char> {
        "\rRX batches="@ + decimal(self.batches as nat) + " ok="@ + decimal(stats.ok as nat)
            + " auth_fail="@ + decimal(stats.auth_fail as nat) + " dup/old="@ + decimal(
            stats.dup_or_old_drop as nat,
        ) + " skipped="@ + decimal(stats.skipped_packets as nat) + " decode_fail="@ + decimal(
            stats.decode_fail as nat,
        ) + " bad_batch="@ + decimal(self.bad_batches as nat) + " rehandshakes="@ + decimal(
            stats.rehandshakes as nat,
        ) + "     "@
    }

    /// The status line of the receiver.
    pub fn line(&self, stats: &RxStats) -> (r: String)
        ensures
            r@ == self.line_spec(*stats),
    {
        let mut out: String = String::new();
        out.append("\rRX batches=");
        push_decimal(&mut out, self.batches);
        out.append(" ok=");
        push_decimal(&mut out, stats.ok);
        out.append(" auth_fail=");
        push_decimal(&mut out, stats.auth_fail);
        out.append(" dup/old=");
        push_decimal(&mut out, stats.dup_or_old_drop);
        out.append(" skipped=");
        push_decimal(&mut out, stats.skipped_packets);
        out.append(" decode_fail=");
        push_decimal(&mut out, stats.decode_fail);
        out.append(" bad_batch=");
        push_decimal(&mut out, self.bad_batches);
        out.append(" rehandshakes=");
        push_decimal(&mut out, stats.rehandshakes);
        out.append("     ");
        assert(out@ =~= self.line_spec(*stats));
        out
    }
}

/// Every id that a bus can carry takes exactly eight digits if it is extended
/// and three if it is not, every byte two, and the fraction of a second three.
pub proof fn law_columns_have_fixed_width(frame: FrameView, byte: u8, ts_ms: nat)
    requires
        frame_id(frame) is Some,
    ensures
        is_extended_of(frame) ==> hex(can_id_of(frame) as nat, 8).len() == 8,
        !is_extended_of(frame) ==> hex(can_id_of(frame) as nat, 3).len() == 3,
        hex(byte as nat, 2).len() == 2,
        zero_padded(decimal(ts_ms % 1000), 3).len() == 3,
{
    reveal_with_fuel(numeral, 8);
}

/// What the bus of the car carried is what the chase side prints: the capture
/// time, the id, in the width of its kind, and the payload. This holds for
/// every id that a bus can carry, and as long as the frame came no more than
/// 65535 ms after the first of its batch.
pub proof fn law_line_shows_the_bus_frame(
    raw_id: u32,
    extended: bool,
    data: Seq<u8>,
    base_ts_ms: u64,
    unix_ms: u64,
)
    requires
        raw_id <= (if extended {
            0x1FFF_FFFFu32
        } else {
            0x7FF
        }),
        base_ts_ms <= unix_ms,
        unix_ms - base_ts_ms <= u16::MAX,
    ensures
        candump_line(
            base_ts_ms,
            (wire_id_spec(raw_id, extended), data, ts_offset(base_ts_ms, unix_ms)),
        ) == "("@ + decimal((unix_ms / 1000) as nat) + "."@ + zero_padded(
            decimal((unix_ms % 1000) as nat),
            3,
        ) + ") "@ + hex(
            raw_id as nat,
            if extended {
                8
            } else {
                3
            },
        ) + "#"@ + hex_bytes(data) + "\n"@,
{
    let offset = ts_offset(base_ts_ms, unix_ms);
    law_wire_id_keeps_id_and_kind(raw_id, extended, data, offset);
    law_offset_recovers_capture_time(base_ts_ms, unix_ms);
}

/// The payload is printed byte by byte, nothing added and nothing left out:
/// two digits each, the high one first.
pub proof fn law_payload_is_two_digits_per_byte(data: Seq<u8>)
    ensures
        hex_bytes(data).len() == 2 * data.len(),
        forall|i: int|
            0 <= i < data.len() ==> hex_bytes(data)[2 * i] == digit_char(
                (#[trigger] data[i] / 16) as nat,
            ) && hex_bytes(data)[2 * i + 1] == digit_char((data[i] % 16) as nat),
    decreases data.len(),
{
    if data.len() > 0 {
        let before = data.drop_last();
        law_payload_is_two_digits_per_byte(before);
        law_byte_is_two_digits(data.last());
        assert forall|i: int| 0 <= i < data.len() implies hex_bytes(data)[2 * i] == digit_char(
            (#[trigger] data[i] / 16) as nat,
        ) && hex_bytes(data)[2 * i + 1] == digit_char((data[i] % 16) as nat) by {
            if i < before.len() {
                assert(data[i] == before[i]);
            }
        }
    }
}

/// Different payloads are printed differently.
pub proof fn law_printed_payload_tells_the_payload(a: Seq<u8>, b: Seq<u8>)
    requires
        hex_bytes(a) == hex_bytes(b),
    ensures
        a == b,
{
    law_payload_is_two_digits_per_byte(a);
    law_payload_is_two_digits_per_byte(b);
    assert forall|i: int| 0 <= i < a.len() implies a[i] == b[i] by {
        assert(a[i] / 16 < 16 && b[i] / 16 < 16);
        assert(hex_bytes(a)[2 * i] == digit_char((a[i] / 16) as nat));
        assert(hex_bytes(b)[2 * i] == digit_char((b[i] / 16) as nat));
        assert(hex_bytes(a)[2 * i + 1] == digit_char((a[i] % 16) as nat));
        assert(hex_bytes(b)[2 * i + 1] == digit_char((b[i] % 16) as nat));
    }
    assert(a =~= b);
}

/// A line is, in this order: the seconds of the capture time, three digits of
/// milliseconds, the id with at least eight digits if the wire id has bit 31
/// set and three if not, and the payload. This holds for every wire id and
/// every time.
pub proof fn law_line_layout(base_ts_ms: u64, frame: FrameView)
    ensures
        ({
            let t: nat = (base_ts_ms + frame.2) as nat;
            let id: nat = (frame.0 % 0x8000_0000) as nat;
            let width: nat = if frame.0 >= 0x8000_0000 {
                8
            } else {
                3
            };
            let millis = seq![
                digit_char(t % 1000 / 100),
                digit_char(t % 1000 / 10 % 10),
                digit_char(t % 1000 % 10),
            ];
            candump_line(base_ts_ms, frame) == "("@ + decimal(t / 1000) + "."@ + millis + ") "@
                + hex(id, width) + "#"@ + hex_bytes(frame.1) + "\n"@
        }),
{
    law_millis_are_three_digits((base_ts_ms + frame.2) as nat % 1000);
}

/// A batch is printed as one line per frame, in order: no frames give no
/// lines, one frame gives its line, and a batch gives what its parts give.
pub proof fn law_one_line_per_frame(
    base_ts_ms: u64,
    first: Seq<FrameView>,
    second: Seq<FrameView>,
    frame: FrameView,
)
    ensures
        candump_lines(base_ts_ms, Seq::empty()) == Seq::<char>::empty(),
        candump_lines(base_ts_ms, seq![frame]) == candump_line(base_ts_ms, frame),
        candump_lines(base_ts_ms, first + second) == candump_lines(base_ts_ms, first)
            + candump_lines(base_ts_ms, second),
    decreases second.len(),
{
    reveal_with_fuel(candump_lines, 2);
    assert(seq![frame].drop_last() =~= Seq::<FrameView>::empty());
    assert(candump_lines(base_ts_ms, seq![frame]) =~= candump_line(base_ts_ms, frame));
    if second.len() == 0 {
        assert(first + second =~= first);
        assert(candump_lines(base_ts_ms, first) + candump_lines(base_ts_ms, second)
            =~= candump_lines(base_ts_ms, first));
    } else {
        law_one_line_per_frame(base_ts_ms, first, second.drop_last(), frame);
        assert((first + second).drop_last() =~= first + second.drop_last());
        assert(candump_lines(base_ts_ms, first + second) =~= candump_lines(base_ts_ms, first)
            + candump_lines(base_ts_ms, second));
    }
}

/// A batch can be printed exactly when no capture time overflows.
pub proof fn law_printable_batches(batch: BatchView)
    ensures
        batch.0 <= u64::MAX - u16::MAX ==> times_fit(batch),
        !times_fit(batch) ==> exists|i: int|
            0 <= i < batch.1.len() && batch.0 + (#[trigger] batch.1[i]).2 > u64::MAX,
{
}

/// Each counter stands in the status line behind its own label.
pub proof fn law_receiver_line_labels_each_counter(receiver: Receiver, stats: RxStats)
    ensures
        receiver.line_spec(stats) == "\rRX batches="@ + decimal(receiver.batches as nat) + (
        " ok="@ + decimal(stats.ok as nat)) + (" auth_fail="@ + decimal(stats.auth_fail as nat))
            + (" dup/old="@ + decimal(stats.dup_or_old_drop as nat)) + (" skipped="@ + decimal(
            stats.skipped_packets as nat,
        )) + (" decode_fail="@ + decimal(stats.decode_fail as nat)) + (" bad_batch="@ + decimal(
            receiver.bad_batches as nat,
        )) + (" rehandshakes="@ + decimal(stats.rehandshakes as nat)) + "     "@,
{
    assert(receiver.line_spec(stats) =~= "\rRX batches="@ + decimal(receiver.batches as nat) + (
    " ok="@ + decimal(stats.ok as nat)) + (" auth_fail="@ + decimal(stats.auth_fail as nat)) + (
    " dup/old="@ + decimal(stats.dup_or_old_drop as nat)) + (" skipped="@ + decimal(
        stats.skipped_packets as nat,
    )) + (" decode_fail="@ + decimal(stats.decode_fail as nat)) + (" bad_batch="@ + decimal(
        receiver.bad_batches as nat,
    )) + (" rehandshakes="@ + decimal(stats.rehandshakes as nat)) + "     "@);
}

} // verus!
