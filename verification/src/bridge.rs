//! The car side: frames read from the CAN buses are batched, and each batch
//! goes out when it is full or old enough. Telemetry is lossy by design:
//! frames that do not make it to the radio are dropped and counted.

use vstd::prelude::*;
use vstd::string::StringExecFns;

use crate::clock::{elapsed, elapsed_ns, FLUSH_INTERVAL_NS};
use crate::outside::{
    frames_as_slice, frames_clear, frames_is_full, frames_push, payload_from_slice,
};
use crate::text::{decimal, push_decimal};
use crate::wire::{
    batch_bytes, can_id_of, encode_batch, fits, is_extended_of, law_wire_id_adds_the_kind,
    law_wire_id_keeps_id_and_kind,
    wire_id, wire_id_spec, BatchView, CanBatch, CanFrameMsg, FrameView, EXTENDED_ID_FLAG,
    MAX_BATCH_BYTES, MAX_FRAMES_PER_BATCH,
};

verus! {

/// What the bridge counts.
#[derive(Debug, Clone, Copy, PartialEq, Eq)]
pub struct Stats {
    pub batches_sent: u64,
    pub frames_sent: u64,
    pub frames_dropped: u64,
    pub can_errors: u64,
    pub reconnects: u64,
}

/// What the bridge counts, as unbounded numbers.
pub struct StatsView {
    pub batches_sent: nat,
    pub frames_sent: nat,
    pub frames_dropped: nat,
    pub can_errors: nat,
    pub reconnects: nat,
}

impl View for Stats {
    type V = StatsView;

    open spec fn view(&self) -> StatsView {
        StatsView {
            batches_sent: self.batches_sent as nat,
            frames_sent: self.frames_sent as nat,
            frames_dropped: self.frames_dropped as nat,
            can_errors: self.can_errors as nat,
            reconnects: self.reconnects as nat,
        }
    }
}

/// What came of one attempt to read a bus.
#[derive(Debug, PartialEq, Eq)]
pub enum CanRead {
    /// A data frame.
    Data { raw_id: u32, extended: bool, data: Vec<u8> },
    /// A remote or error frame: not telemetry.
    Other,
    /// No frame within the read timeout.
    TimedOut,
    /// The read failed.
    Failed,
}

/// The batch being filled, when its first frame arrived, and the counters.
#[derive(Debug)]
pub struct Bridge {
    pub batch: CanBatch,
    pub batch_started: Option<u64>,
    pub stats: Stats,
}

/// The bridge as a value.
pub struct BridgeView {
    pub batch: BatchView,
    pub batch_started: Option<u64>,
    pub stats: StatsView,
}

impl View for Bridge {
    type V = BridgeView;

    open spec fn view(&self) -> BridgeView {
        BridgeView {
            batch: self.batch@,
            batch_started: self.batch_started,
            stats: self.stats@,
        }
    }
}

/// One thing that happens to the bridge.
pub enum BridgeStep {
    /// A bus was read, at the given wall-clock and monotonic times.
    Read { read: CanRead, unix_ms: u64, now: u64 },
    /// The batch was sent.
    Sent,
    /// The radio link was lost.
    LinkLost,
}

/// The time offset of a frame captured at `unix_ms` in a batch that starts at
/// `base_ts_ms`: the difference, saturating. A wall clock that was set back
/// past the start of the batch leaves no difference to give, and saturates
/// too.
pub open spec fn ts_offset(base_ts_ms: u64, unix_ms: u64) -> u16 {
    if base_ts_ms <= unix_ms && unix_ms - base_ts_ms <= u16::MAX {
        (unix_ms - base_ts_ms) as u16
    } else {
        u16::MAX
    }
}

impl BridgeView {
    /// A bridge whose batch, when it holds frames, has a start time, and only
    /// then.
    pub open spec fn wf(self) -> bool {
        self.batch_started is Some <==> self.batch.1.len() > 0
    }

    /// Every data frame read so far, as far as the bridge knows: sent, still
    /// in the batch, or dropped.
    pub open spec fn frames_accounted(self) -> nat {
        self.stats.frames_sent + self.batch.1.len() + self.stats.frames_dropped
    }

    /// The bridge after a data frame: the first frame of a batch sets its base
    /// time. A frame that finds the batch full, because the radio did not take
    /// it before this read, is dropped and counted.
    pub open spec fn after_data(
        self,
        raw_id: u32,
        extended: bool,
        data: Seq<u8>,
        unix_ms: u64,
        now: u64,
    ) -> BridgeView {
        let first = self.batch.1.len() == 0;
        let base = if first {
            unix_ms
        } else {
            self.batch.0
        };
        let frame: FrameView = (wire_id_spec(raw_id, extended), data, ts_offset(base, unix_ms));
        if self.batch.1.len() < MAX_FRAMES_PER_BATCH {
            BridgeView {
                batch: (base, self.batch.1.push(frame)),
                batch_started: if first {
                    Some(now)
                } else {
                    self.batch_started
                },
                stats: self.stats,
            }
        } else {
            BridgeView {
                stats: StatsView { frames_dropped: self.stats.frames_dropped + 1, ..self.stats },
                ..self
            }
        }
    }

    /// The bridge after an attempt to read a bus.
    pub open spec fn after_read(self, read: CanRead, unix_ms: u64, now: u64) -> BridgeView {
        match read {
            CanRead::Data { raw_id, extended, data } => self.after_data(
                raw_id,
                extended,
                data@,
                unix_ms,
                now,
            ),
            CanRead::Failed => BridgeView {
                stats: StatsView { can_errors: self.stats.can_errors + 1, ..self.stats },
                ..self
            },
            CanRead::Other => self,
            CanRead::TimedOut => self,
        }
    }

    /// Whether the batch goes out now: when it is full, or its first frame is
    /// old enough. A batch without frames never does.
    pub open spec fn flush_due(self, now: u64) -> bool {
        ||| self.batch.1.len() == MAX_FRAMES_PER_BATCH
        ||| self.batch.1.len() > 0 && (self.batch_started matches Some(started) && elapsed_ns(
            started,
            now,
        ) >= FLUSH_INTERVAL_NS)
    }

    /// The bridge after its batch was sent.
    pub open spec fn after_sent(self) -> BridgeView {
        BridgeView {
            batch: (self.batch.0, Seq::empty()),
            batch_started: None,
            stats: StatsView {
                batches_sent: self.stats.batches_sent + 1,
                frames_sent: self.stats.frames_sent + self.batch.1.len(),
                ..self.stats
            },
        }
    }

    /// The bridge after the radio link was lost: the batch is gone, its frames
    /// are dropped and counted.
    pub open spec fn after_link_lost(self) -> BridgeView {
        BridgeView {
            batch: (0, Seq::empty()),
            batch_started: None,
            stats: StatsView {
                frames_dropped: self.stats.frames_dropped + self.batch.1.len(),
                reconnects: self.stats.reconnects + 1,
                ..self.stats
            },
        }
    }

    /// The bridge after one step.
    pub open spec fn after_step(self, step: BridgeStep) -> BridgeView {
        match step {
            BridgeStep::Read { read, unix_ms, now } => self.after_read(read, unix_ms, now),
            BridgeStep::Sent => self.after_sent(),
            BridgeStep::LinkLost => self.after_link_lost(),
        }
    }

    /// The bridge after a number of steps.
    pub open spec fn after_steps(self, steps: Seq<BridgeStep>) -> BridgeView
        decreases steps.len(),
    {
        if steps.len() == 0 {
            self
        } else {
            self.after_steps(steps.drop_last()).after_step(steps.last())
        }
    }

    /// What happens in a row of reads while the radio keeps up: a batch that a
    /// read filled is sent before the next one.
    pub open spec fn reads_with_sends(self, reads: Seq<BridgeStep>) -> Seq<BridgeStep>
        decreases reads.len(),
    {
        if reads.len() == 0 {
            Seq::empty()
        } else {
            let steps = self.reads_with_sends(reads.drop_last()).push(reads.last());
            if self.after_steps(steps).batch.1.len() == MAX_FRAMES_PER_BATCH {
                steps.push(BridgeStep::Sent)
            } else {
                steps
            }
        }
    }

    /// What happens in a round while the radio keeps up: the buses are read,
    /// each full batch is sent at once, and what is due at the end is sent
    /// then.
    pub open spec fn round_steps(self, reads: Seq<BridgeStep>, now: u64) -> Seq<BridgeStep> {
        let steps = self.reads_with_sends(reads);
        if self.after_steps(steps).flush_due(now) {
            steps.push(BridgeStep::Sent)
        } else {
            steps
        }
    }

    /// The bridge after a round while the radio keeps up.
    pub open spec fn after_round(self, reads: Seq<BridgeStep>, now: u64) -> BridgeView {
        self.after_steps(self.round_steps(reads, now))
    }

    /// What happens in a number of rounds while the radio keeps up.
    pub open spec fn rounds_steps(self, rounds: Seq<(Seq<BridgeStep>, u64)>) -> Seq<BridgeStep>
        decreases rounds.len(),
    {
        if rounds.len() == 0 {
            Seq::empty()
        } else {
            let steps = self.rounds_steps(rounds.drop_last());
            steps + self.after_steps(steps).round_steps(rounds.last().0, rounds.last().1)
        }
    }

    /// The bridge after a number of rounds while the radio keeps up.
    pub open spec fn after_rounds(self, rounds: Seq<(Seq<BridgeStep>, u64)>) -> BridgeView {
        self.after_steps(self.rounds_steps(rounds))
    }

    /// The frames of all batches sent in a number of steps, joined.
    pub open spec fn sent_frames(self, steps: Seq<BridgeStep>) -> Seq<FrameView>
        decreases steps.len(),
    {
        if steps.len() == 0 {
            Seq::empty()
        } else {
            let sent = self.sent_frames(steps.drop_last());
            match steps.last() {
                BridgeStep::Sent => sent + self.after_steps(steps.drop_last()).batch.1,
                _ => sent,
            }
        }
    }
}

/// A data frame on a bus: raw id, whether it is extended, payload.
pub type BusFrame = (u32, bool, Seq<u8>);

/// The data frames read in a number of steps, in order.
pub open spec fn bus_frames(steps: Seq<BridgeStep>) -> Seq<BusFrame>
    decreases steps.len(),
{
    if steps.len() == 0 {
        Seq::empty()
    } else {
        let before = bus_frames(steps.drop_last());
        match steps.last() {
            BridgeStep::Read { read: CanRead::Data { raw_id, extended, data }, .. } => before.push(
                (raw_id, extended, data@),
            ),
            _ => before,
        }
    }
}

/// The data frames read in a number of rounds, in order.
pub open spec fn bus_frames_in_rounds(rounds: Seq<(Seq<BridgeStep>, u64)>) -> Seq<BusFrame>
    decreases rounds.len(),
{
    if rounds.len() == 0 {
        Seq::empty()
    } else {
        bus_frames_in_rounds(rounds.drop_last()) + bus_frames(rounds.last().0)
    }
}

/// Whether a frame of a batch has the id, the kind and the payload of a frame
/// on a bus.
pub open spec fn carries(frame: FrameView, bus: BusFrame) -> bool {
    &&& frame.0 == wire_id_spec(bus.0, bus.1)
    &&& frame.1 == bus.2
}

/// Whether frames of batches carry frames of buses, one for one, in order.
pub open spec fn carry_all(frames: Seq<FrameView>, bus: Seq<BusFrame>) -> bool {
    &&& frames.len() == bus.len()
    &&& forall|i: int| 0 <= i < frames.len() ==> carries(#[trigger] frames[i], bus[i])
}

/// Whether `picks` are positions in a sequence of length `len`, each greater
/// than the one before.
pub open spec fn increasing_below(picks: Seq<int>, len: nat) -> bool {
    &&& forall|i: int| 0 <= i < picks.len() ==> 0 <= #[trigger] picks[i] < len
    &&& forall|i: int, j: int|
        0 <= i < j < picks.len() ==> #[trigger] picks[i] < #[trigger] picks[j]
}

/// Whether the frames carry the bus frames at the given positions.
pub open spec fn carry_picked(
    frames: Seq<FrameView>,
    bus: Seq<BusFrame>,
    picks: Seq<int>,
) -> bool {
    &&& picks.len() == frames.len()
    &&& increasing_below(picks, bus.len())
    &&& forall|i: int| 0 <= i < frames.len() ==> carries(#[trigger] frames[i], bus[picks[i]])
}

/// Whether every step is a read.
pub open spec fn reads_only(steps: Seq<BridgeStep>) -> bool {
    forall|i: int| 0 <= i < steps.len() ==> (#[trigger] steps[i]) is Read
}

impl Default for Stats {
    fn default() -> (r: Self)
        ensures
            r.batches_sent == 0,
            r.frames_sent == 0,
            r.frames_dropped == 0,
            r.can_errors == 0,
            r.reconnects == 0,
    {
        Stats { batches_sent: 0, frames_sent: 0, frames_dropped: 0, can_errors: 0, reconnects: 0 }
    }
}

impl Bridge {
    /// A bridge that has read nothing yet.
    pub fn new() -> (r: Self)
        ensures
            r@.wf(),
            r@.batch == (0u64, Seq::<FrameView>::empty()),
            r@.batch_started is None,
            r@.stats == (StatsView {
                batches_sent: 0,
                frames_sent: 0,
                frames_dropped: 0,
                can_errors: 0,
                reconnects: 0,
            }),
    {
        Bridge { batch: CanBatch::default(), batch_started: None, stats: Stats::default() }
    }

    /// Takes in what came of an attempt to read a bus, made at the given
    /// wall-clock and monotonic times. Hands back the encoded batch once it is
    /// full: it is to be sent before the next read.
    pub fn on_read(&mut self, read: &CanRead, unix_ms: u64, now: u64) -> (r: Option<Vec<u8>>)
        requires
            read matches CanRead::Data { data, .. } ==> data@.len() <= 8,
            read is Data && old(self)@.batch.1.len() == MAX_FRAMES_PER_BATCH ==> old(
                self,
            ).stats.frames_dropped < u64::MAX,
            read is Failed ==> old(self).stats.can_errors < u64::MAX,
        ensures
            final(self)@ == old(self)@.after_read(*read, unix_ms, now),
            r is Some <==> final(self)@.batch.1.len() == MAX_FRAMES_PER_BATCH,
            r matches Some(bytes) ==> bytes@ == batch_bytes(final(self)@.batch),
            r matches Some(bytes) ==> bytes@.len() <= MAX_BATCH_BYTES,
            r is Some ==> fits(final(self)@.batch),
    {
        match read {
            CanRead::Data { raw_id, extended, data } => {
                let pending: usize = frames_as_slice(&self.batch.frames).len();
                if pending == 0 {
                    self.batch.base_ts_ms = unix_ms;
                    self.batch_started = Some(now);
                }
                let base: u64 = self.batch.base_ts_ms;
                let offset: u16 = if base <= unix_ms && unix_ms - base <= u16::MAX as u64 {
                    (unix_ms - base) as u16
                } else {
                    u16::MAX
                };
                let frame = CanFrameMsg {
                    id: wire_id(*raw_id, *extended),
                    data: payload_from_slice(data.as_slice()).unwrap(),
                    ts_offset_ms: offset,
                };
                if frames_push(&mut self.batch.frames, frame).is_err() {
                    self.stats.frames_dropped += 1;
                }
            },
            CanRead::Failed => {
                self.stats.can_errors += 1;
            },
            CanRead::Other => {},
            CanRead::TimedOut => {},
        }
        if frames_is_full(&self.batch.frames) {
            Some(encode_batch(&self.batch))
        } else {
            None
        }
    }

    /// The encoded batch, when it is time to send it.
    pub fn batch_to_send(&self, now: u64) -> (r: Option<Vec<u8>>)
        ensures
            r is Some <==> self@.flush_due(now),
            r is Some <==> self@.batch.1.len() == 11 || (self@.batch.1.len() > 0 && (
            self.batch_started matches Some(started) && now >= started + 100_000_000)),
            r matches Some(bytes) ==> bytes@ == batch_bytes(self@.batch),
            r matches Some(bytes) ==> bytes@.len() <= MAX_BATCH_BYTES,
            r is Some ==> fits(self@.batch),
    {
        let due: bool = match self.batch_started {
            Some(started) => elapsed(started, now) >= FLUSH_INTERVAL_NS,
            None => false,
        };
        let pending: usize = frames_as_slice(&self.batch.frames).len();
        if frames_is_full(&self.batch.frames) || (due && pending > 0) {
            Some(encode_batch(&self.batch))
        } else {
            None
        }
    }

    /// Notes that the batch was sent, and starts an empty one.
    pub fn on_sent(&mut self)
        requires
            old(self).stats.batches_sent < u64::MAX,
            old(self).stats.frames_sent + old(self)@.batch.1.len() <= u64::MAX,
        ensures
            final(self)@ == old(self)@.after_sent(),
    {
        let sent: usize = frames_as_slice(&self.batch.frames).len();
        self.stats.batches_sent += 1;
        self.stats.frames_sent += sent as u64;
        frames_clear(&mut self.batch.frames);
        self.batch_started = None;
    }

    /// Notes that the radio link was lost: the frames of the batch count as
    /// dropped, and filling starts over.
    pub fn on_link_lost(&mut self)
        requires
            old(self).stats.reconnects < u64::MAX,
            old(self).stats.frames_dropped + old(self)@.batch.1.len() <= u64::MAX,
        ensures
            final(self)@ == old(self)@.after_link_lost(),
    {
        let lost: usize = frames_as_slice(&self.batch.frames).len();
        self.stats.reconnects += 1;
        self.stats.frames_dropped += lost as u64;
        self.batch = CanBatch::default();
        self.batch_started = None;
    }
}

/// What happens to the bridge's radio link.
#[derive(Debug, Clone, Copy, PartialEq, Eq, Structural)]
pub enum BridgeEvent {
    /// The bridge started, or has waited after a failure.
    Ready,
    /// No session with the chase vehicle came about.
    ConnectFailed,
    /// The session with the chase vehicle stands.
    Connected,
    /// A batch could not be sent.
    LinkLost,
}

/// What the bridge does next about its radio link.
#[derive(Debug, Clone, Copy, PartialEq, Eq, Structural)]
pub enum BridgeAction {
    /// Find the radio and establish a session.
    Connect,
    /// Read the buses and send batches.
    Pump,
    /// Wait for a while, then start over.
    BackOff,
}

impl BridgeEvent {
    /// What the bridge does after the event.
    pub open spec fn action(self) -> BridgeAction {
        match self {
            BridgeEvent::Ready => BridgeAction::Connect,
            BridgeEvent::Connected => BridgeAction::Pump,
            BridgeEvent::ConnectFailed => BridgeAction::BackOff,
            BridgeEvent::LinkLost => BridgeAction::BackOff,
        }
    }
}

/// What the bridge does after an event of its radio link.
pub fn next_action(event: &BridgeEvent) -> (r: BridgeAction)
    ensures
        r == event.action(),
        r == BridgeAction::Connect <==> event is Ready,
        r == BridgeAction::Pump <==> event is Connected,
        r == BridgeAction::BackOff <==> event is ConnectFailed || event is LinkLost,
{
    match event {
        BridgeEvent::Ready => BridgeAction::Connect,
        BridgeEvent::Connected => BridgeAction::Pump,
        BridgeEvent::ConnectFailed => BridgeAction::BackOff,
        BridgeEvent::LinkLost => BridgeAction::BackOff,
    }
}

/// The status line of the bridge.
pub open spec fn stats_line(stats: StatsView) -> Seq<char> {
    "\rTX batches="@ + decimal(stats.batches_sent) + " frames="@ + decimal(stats.frames_sent)
        + " dropped="@ + decimal(stats.frames_dropped) + " can_err="@ + decimal(stats.can_errors)
        + " reconnects="@ + decimal(stats.reconnects) + "     "@
}

impl Stats {
    /// The status line of the bridge.
    pub fn line(&self) -> (r: String)
        ensures
            r@ == stats_line(self@),
    {
        let mut out: String = String::new();
        out.append("\rTX batches=");
        push_decimal(&mut out, self.batches_sent);
        out.append(" frames=");
        push_decimal(&mut out, self.frames_sent);
        out.append(" dropped=");
        push_decimal(&mut out, self.frames_dropped);
        out.append(" can_err=");
        push_decimal(&mut out, self.can_errors);
        out.append(" reconnects=");
        push_decimal(&mut out, self.reconnects);
        out.append("     ");
        assert(out@ =~= stats_line(self@));
        out
    }
}

/// Nothing is lost unseen: over any number of steps, the frames sent, waiting
/// and dropped grow by exactly the data frames read.
pub proof fn law_every_frame_is_accounted_for(bridge: BridgeView, steps: Seq<BridgeStep>)
    ensures
        bridge.after_steps(steps).frames_accounted() == bridge.frames_accounted() + bus_frames(
            steps,
        ).len(),
    decreases steps.len(),
{
    if steps.len() > 0 {
        law_every_frame_is_accounted_for(bridge, steps.drop_last());
    }
}

/// Over any number of steps, a batch has a start time exactly while it holds
/// frames, and never holds more than fit one packet.
pub proof fn law_batch_stays_well_formed(bridge: BridgeView, steps: Seq<BridgeStep>)
    requires
        bridge.wf(),
        bridge.batch.1.len() <= MAX_FRAMES_PER_BATCH,
    ensures
        bridge.after_steps(steps).wf(),
        bridge.after_steps(steps).batch.1.len() <= MAX_FRAMES_PER_BATCH,
    decreases steps.len(),
{
    if steps.len() > 0 {
        law_batch_stays_well_formed(bridge, steps.drop_last());
    }
}

/// A full batch never waits: one that is not due has room for another frame,
/// and one that was sent is empty.
pub proof fn law_full_batch_is_always_due(bridge: BridgeView, now: u64)
    requires
        bridge.batch.1.len() <= MAX_FRAMES_PER_BATCH,
    ensures
        !bridge.flush_due(now) ==> bridge.batch.1.len() < MAX_FRAMES_PER_BATCH,
        bridge.after_sent().batch.1.len() == 0,
{
}

proof fn lemma_after_steps_joined(bridge: BridgeView, first: Seq<BridgeStep>, second: Seq<BridgeStep>)
    ensures
        bridge.after_steps(first + second) == bridge.after_steps(first).after_steps(second),
        bus_frames(first + second) == bus_frames(first) + bus_frames(second),
    decreases second.len(),
{
    if second.len() == 0 {
        assert(first + second =~= first);
        assert(bus_frames(first) + bus_frames(second) =~= bus_frames(first));
    } else {
        assert((first + second).drop_last() =~= first + second.drop_last());
        lemma_after_steps_joined(bridge, first, second.drop_last());
        assert(bus_frames(first + second) =~= bus_frames(first) + bus_frames(second));
    }
}

proof fn lemma_after_pushed_step(bridge: BridgeView, steps: Seq<BridgeStep>, step: BridgeStep)
    ensures
        bridge.after_steps(steps.push(step)) == bridge.after_steps(steps).after_step(step),
{
    assert(steps.push(step).drop_last() =~= steps);
}

proof fn lemma_bus_frames_of_send(steps: Seq<BridgeStep>)
    ensures
        bus_frames(steps.push(BridgeStep::Sent)) == bus_frames(steps),
{
    assert(steps.push(BridgeStep::Sent).drop_last() =~= steps);
}

/// While each full batch is sent before the next read, reads drop nothing and
/// leave room for another frame.
proof fn lemma_reads_with_sends(bridge: BridgeView, reads: Seq<BridgeStep>)
    requires
        bridge.batch.1.len() < MAX_FRAMES_PER_BATCH,
        reads_only(reads),
    ensures
        bridge.after_steps(bridge.reads_with_sends(reads)).stats.frames_dropped
            == bridge.stats.frames_dropped,
        bridge.after_steps(bridge.reads_with_sends(reads)).batch.1.len() < MAX_FRAMES_PER_BATCH,
        bus_frames(bridge.reads_with_sends(reads)) == bus_frames(reads),
    decreases reads.len(),
{
    if reads.len() > 0 {
        let earlier = reads.drop_last();
        assert forall|i: int| 0 <= i < earlier.len() implies (#[trigger] earlier[i]) is Read by {
            assert(earlier[i] == reads[i]);
        }
        lemma_reads_with_sends(bridge, earlier);
        assert(reads[reads.len() - 1] is Read);
        let before = bridge.reads_with_sends(earlier);
        let steps = before.push(reads.last());
        lemma_after_pushed_step(bridge, before, reads.last());
        assert(steps.drop_last() =~= before);
        assert(bus_frames(steps) == bus_frames(reads));
        lemma_after_pushed_step(bridge, steps, BridgeStep::Sent);
        lemma_bus_frames_of_send(steps);
    }
}

proof fn lemma_round(bridge: BridgeView, reads: Seq<BridgeStep>, now: u64)
    requires
        bridge.batch.1.len() < MAX_FRAMES_PER_BATCH,
        reads_only(reads),
    ensures
        bridge.after_round(reads, now).stats.frames_dropped == bridge.stats.frames_dropped,
        bridge.after_round(reads, now).batch.1.len() < MAX_FRAMES_PER_BATCH,
        bus_frames(bridge.round_steps(reads, now)) == bus_frames(reads),
{
    let steps = bridge.reads_with_sends(reads);
    lemma_reads_with_sends(bridge, reads);
    lemma_after_pushed_step(bridge, steps, BridgeStep::Sent);
    lemma_bus_frames_of_send(steps);
}

proof fn lemma_rounds(bridge: BridgeView, rounds: Seq<(Seq<BridgeStep>, u64)>)
    requires
        bridge.batch.1.len() < MAX_FRAMES_PER_BATCH,
        forall|i: int| 0 <= i < rounds.len() ==> reads_only((#[trigger] rounds[i]).0),
    ensures
        bridge.after_rounds(rounds).stats.frames_dropped == bridge.stats.frames_dropped,
        bridge.after_rounds(rounds).batch.1.len() < MAX_FRAMES_PER_BATCH,
        bus_frames(bridge.rounds_steps(rounds)) == bus_frames_in_rounds(rounds),
    decreases rounds.len(),
{
    if rounds.len() > 0 {
        let earlier = rounds.drop_last();
        assert forall|i: int| 0 <= i < earlier.len() implies reads_only(
            (#[trigger] earlier[i]).0,
        ) by {
            assert(earlier[i] == rounds[i]);
        }
        lemma_rounds(bridge, earlier);
        let (reads, now) = rounds[rounds.len() - 1];
        let steps = bridge.rounds_steps(earlier);
        let before = bridge.after_steps(steps);
        lemma_round(before, reads, now);
        lemma_after_steps_joined(bridge, steps, before.round_steps(reads, now));
    }
}

/// While the radio keeps up, no frame is ever dropped, whatever the number of
/// buses: every round of reads, from a batch with room, leaves a batch with
/// room and the count of dropped frames as it was.
pub proof fn law_no_frame_is_dropped_while_sends_succeed(
    bridge: BridgeView,
    rounds: Seq<(Seq<BridgeStep>, u64)>,
)
    requires
        bridge.batch.1.len() < MAX_FRAMES_PER_BATCH,
        forall|i: int| 0 <= i < rounds.len() ==> reads_only((#[trigger] rounds[i]).0),
    ensures
        bridge.after_rounds(rounds).stats.frames_dropped == bridge.stats.frames_dropped,
        bridge.after_rounds(rounds).batch.1.len() < MAX_FRAMES_PER_BATCH,
{
    lemma_rounds(bridge, rounds);
}

/// The frames that go out are the frames that were read: those sent, followed
/// by those waiting, carry a selection of the data frames read, in the order
/// of reading and each at most once, with id, kind and payload unchanged.
/// `earlier` are the data frames that the batch holds at the start.
pub proof fn law_frames_go_out_in_order(
    bridge: BridgeView,
    earlier: Seq<BusFrame>,
    steps: Seq<BridgeStep>,
)
    requires
        carry_all(bridge.batch.1, earlier),
    ensures
        exists|picks: Seq<int>| #[trigger]
            carry_picked(
                bridge.sent_frames(steps) + bridge.after_steps(steps).batch.1,
                earlier + bus_frames(steps),
                picks,
            ),
    decreases steps.len(),
{
    let out = bridge.sent_frames(steps) + bridge.after_steps(steps).batch.1;
    let read = earlier + bus_frames(steps);
    if steps.len() == 0 {
        let picks = Seq::new(earlier.len(), |i: int| i);
        assert(out =~= bridge.batch.1);
        assert(read =~= earlier);
        assert(carry_picked(out, read, picks));
    } else {
        let before = steps.drop_last();
        law_frames_go_out_in_order(bridge, earlier, before);
        let out_before = bridge.sent_frames(before) + bridge.after_steps(before).batch.1;
        let read_before = earlier + bus_frames(before);
        let picks = choose|picks: Seq<int>| #[trigger]
            carry_picked(out_before, read_before, picks);
        match steps.last() {
            BridgeStep::Read { read: CanRead::Data { raw_id, extended, data }, .. } => {
                assert(read =~= read_before.push((raw_id, extended, data@)));
                if bridge.after_steps(before).batch.1.len() < MAX_FRAMES_PER_BATCH {
                    assert(out =~= out_before.push(out.last()));
                    assert(carry_picked(out, read, picks.push(read_before.len() as int)));
                } else {
                    assert(out =~= out_before);
                    assert(carry_picked(out, read, picks));
                }
            },
            BridgeStep::Read { .. } => {
                assert(carry_picked(out, read, picks));
            },
            BridgeStep::Sent => {
                assert(out =~= out_before);
                assert(carry_picked(out, read, picks));
            },
            BridgeStep::LinkLost => {
                let kept = bridge.sent_frames(before).len() as int;
                assert(out =~= out_before.take(kept));
                let fewer = picks.take(kept);
                assert forall|i: int| 0 <= i < out.len() implies carries(
                    #[trigger] out[i],
                    read[fewer[i]],
                ) by {
                    assert(out[i] == out_before[i]);
                }
                assert(carry_picked(out, read, fewer));
            },
        }
    }
}

proof fn lemma_sent_frames_are_counted(bridge: BridgeView, steps: Seq<BridgeStep>)
    ensures
        bridge.after_steps(steps).stats.frames_sent == bridge.stats.frames_sent
            + bridge.sent_frames(steps).len(),
    decreases steps.len(),
{
    if steps.len() > 0 {
        lemma_sent_frames_are_counted(bridge, steps.drop_last());
    }
}

proof fn lemma_increasing_below_bounds(picks: Seq<int>, len: nat, i: int)
    requires
        increasing_below(picks, len),
        0 <= i < picks.len(),
    ensures
        i <= picks[i] <= len - picks.len() + i,
{
    lemma_increasing_from_below(picks, len, i);
    lemma_increasing_from_above(picks, len, i);
}

proof fn lemma_increasing_from_below(picks: Seq<int>, len: nat, i: int)
    requires
        increasing_below(picks, len),
        0 <= i < picks.len(),
    ensures
        i <= picks[i],
    decreases i,
{
    if i > 0 {
        lemma_increasing_from_below(picks, len, i - 1);
        assert(picks[i - 1] < picks[i]);
    }
}

proof fn lemma_increasing_from_above(picks: Seq<int>, len: nat, i: int)
    requires
        increasing_below(picks, len),
        0 <= i < picks.len(),
    ensures
        picks[i] <= len - picks.len() + i,
    decreases picks.len() - i,
{
    if i + 1 < picks.len() {
        lemma_increasing_from_above(picks, len, i + 1);
        assert(picks[i] < picks[i + 1]);
    }
}

/// While the radio keeps up, every data frame read from any number of buses
/// is in a sent batch or waiting, in the order of reading, with id, kind and
/// payload unchanged. `earlier` are the data frames that the batch holds at
/// the start.
pub proof fn law_every_frame_goes_out_while_sends_succeed(
    bridge: BridgeView,
    earlier: Seq<BusFrame>,
    rounds: Seq<(Seq<BridgeStep>, u64)>,
)
    requires
        bridge.batch.1.len() < MAX_FRAMES_PER_BATCH,
        carry_all(bridge.batch.1, earlier),
        forall|i: int| 0 <= i < rounds.len() ==> reads_only((#[trigger] rounds[i]).0),
    ensures
        carry_all(
            bridge.sent_frames(bridge.rounds_steps(rounds)) + bridge.after_rounds(rounds).batch.1,
            earlier + bus_frames_in_rounds(rounds),
        ),
{
    let steps = bridge.rounds_steps(rounds);
    let out = bridge.sent_frames(steps) + bridge.after_steps(steps).batch.1;
    let read = earlier + bus_frames(steps);
    lemma_rounds(bridge, rounds);
    law_every_frame_is_accounted_for(bridge, steps);
    lemma_sent_frames_are_counted(bridge, steps);
    law_frames_go_out_in_order(bridge, earlier, steps);
    let picks = choose|picks: Seq<int>| #[trigger] carry_picked(out, read, picks);
    assert(out.len() == read.len());
    assert forall|i: int| 0 <= i < out.len() implies carries(#[trigger] out[i], read[i]) by {
        lemma_increasing_below_bounds(picks, read.len(), i);
    }
}

/// A frame that carries a bus frame gives its id and kind back, if the raw id
/// leaves bit 31 clear, as every id that a bus can carry does.
pub proof fn law_carried_frame_keeps_id_and_kind(frame: FrameView, bus: BusFrame)
    requires
        carries(frame, bus),
        bus.0 < EXTENDED_ID_FLAG,
    ensures
        can_id_of(frame) == bus.0,
        is_extended_of(frame) == bus.1,
        frame.1 == bus.2,
{
    law_wire_id_keeps_id_and_kind(bus.0, bus.1, frame.1, frame.2);
}

/// A batch goes out at the latest when its first frame is one flush interval
/// old, and an unfilled one not before.
pub proof fn law_batch_is_due_after_flush_interval(bridge: BridgeView, started: u64, now: u64)
    requires
        bridge.wf(),
        bridge.batch_started == Some(started),
        bridge.batch.1.len() < MAX_FRAMES_PER_BATCH,
    ensures
        bridge.flush_due(now) <==> now - started >= FLUSH_INTERVAL_NS,
{
}

/// The capture time of a frame can be told from the batch: base time plus
/// offset, as long as the frame came no more than 65535 ms after the first.
pub proof fn law_offset_recovers_capture_time(base_ts_ms: u64, unix_ms: u64)
    requires
        base_ts_ms <= unix_ms,
        unix_ms - base_ts_ms <= u16::MAX,
    ensures
        base_ts_ms + ts_offset(base_ts_ms, unix_ms) == unix_ms,
{
}

/// While the wall clock does not run backwards, later frames never get
/// smaller offsets.
pub proof fn law_offsets_keep_order(base_ts_ms: u64, earlier: u64, later: u64)
    requires
        base_ts_ms <= earlier <= later,
    ensures
        ts_offset(base_ts_ms, earlier) <= ts_offset(base_ts_ms, later),
{
}

/// The base time of a batch is when its first frame was captured, and that
/// frame has offset zero; later frames leave the base time and the frames
/// before them alone.
pub proof fn law_first_frame_sets_base_time(
    bridge: BridgeView,
    raw_id: u32,
    extended: bool,
    data: Seq<u8>,
    unix_ms: u64,
    now: u64,
)
    ensures
        bridge.batch.1.len() == 0 ==> {
            let after = bridge.after_data(raw_id, extended, data, unix_ms, now);
            &&& after.batch.0 == unix_ms
            &&& after.batch.1.len() == 1
            &&& after.batch.1[0].2 == 0
            &&& after.batch_started == Some(now)
        },
        bridge.batch.1.len() > 0 ==> {
            let after = bridge.after_data(raw_id, extended, data, unix_ms, now);
            &&& after.batch.0 == bridge.batch.0
            &&& after.batch_started == bridge.batch_started
            &&& bridge.batch.1.is_prefix_of(after.batch.1)
        },
{
}

/// Whatever the buses delivered, no batch is due any more at the end of a
/// round.
pub proof fn law_round_leaves_nothing_due(bridge: BridgeView, reads: Seq<BridgeStep>, now: u64)
    ensures
        !bridge.after_round(reads, now).flush_due(now),
{
    lemma_after_pushed_step(bridge, bridge.reads_with_sends(reads), BridgeStep::Sent);
}

/// The bridge never gives up: whatever fails, it waits, and then connects
/// again.
pub proof fn law_bridge_retries_every_failure(event: BridgeEvent)
    requires
        event is ConnectFailed || event is LinkLost,
    ensures
        event.action() == BridgeAction::BackOff,
        BridgeEvent::Ready.action() == BridgeAction::Connect,
{
}

/// The bridge is known by all of its fields.
pub proof fn law_bridge_view_is_complete(bridge: Bridge)
    ensures
        bridge@.batch.0 == bridge.batch.base_ts_ms,
        bridge@.batch.1 == bridge.batch@.1,
        bridge@.batch_started == bridge.batch_started,
        bridge@.stats.batches_sent == bridge.stats.batches_sent,
        bridge@.stats.frames_sent == bridge.stats.frames_sent,
        bridge@.stats.frames_dropped == bridge.stats.frames_dropped,
        bridge@.stats.can_errors == bridge.stats.can_errors,
        bridge@.stats.reconnects == bridge.stats.reconnects,
{
}

/// A data frame read into a batch with room becomes its last frame, with
/// every bit of its id, its kind and its payload, and with its capture time:
/// base time plus offset is when it was read. This holds for frames of either
/// kind. Nothing else of the batch and no counter changes.
pub proof fn law_data_frame_is_taken_in_whole(
    bridge: BridgeView,
    raw_id: u32,
    extended: bool,
    data: Seq<u8>,
    unix_ms: u64,
    now: u64,
)
    requires
        bridge.batch.1.len() < 11,
    ensures
        ({
            let after = bridge.after_data(raw_id, extended, data, unix_ms, now);
            let last = after.batch.1.last();
            let empty = bridge.batch.1.len() == 0;
            &&& after.batch.1.len() == bridge.batch.1.len() + 1
            &&& after.batch.1.drop_last() == bridge.batch.1
            &&& !extended ==> last.0 == raw_id
            &&& extended ==> last.0 == raw_id % 0x8000_0000 + 0x8000_0000
            &&& last.1 == data
            &&& empty ==> after.batch.0 == unix_ms && after.batch_started == Some(now)
            &&& !empty ==> after.batch.0 == bridge.batch.0 && after.batch_started
                == bridge.batch_started
            &&& after.batch.0 <= unix_ms <= after.batch.0 + 65535 ==> after.batch.0 + last.2
                == unix_ms
            &&& unix_ms < after.batch.0 || unix_ms > after.batch.0 + 65535 ==> last.2 == 65535
            &&& after.stats == bridge.stats
        }),
{
    law_wire_id_adds_the_kind(raw_id, extended);
    let after = bridge.after_data(raw_id, extended, data, unix_ms, now);
    assert(after.batch.1.drop_last() =~= bridge.batch.1);
}

/// A data frame that finds the batch full is lost, and counted once; the
/// batch stays as it is.
pub proof fn law_data_frame_without_room_is_counted(
    bridge: BridgeView,
    raw_id: u32,
    extended: bool,
    data: Seq<u8>,
    unix_ms: u64,
    now: u64,
)
    requires
        bridge.batch.1.len() >= 11,
    ensures
        ({
            let after = bridge.after_data(raw_id, extended, data, unix_ms, now);
            &&& after.batch == bridge.batch
            &&& after.batch_started == bridge.batch_started
            &&& after.stats.frames_dropped == bridge.stats.frames_dropped + 1
            &&& after.stats.batches_sent == bridge.stats.batches_sent
            &&& after.stats.frames_sent == bridge.stats.frames_sent
            &&& after.stats.can_errors == bridge.stats.can_errors
            &&& after.stats.reconnects == bridge.stats.reconnects
        }),
{
}

/// Every data frame read is taken in as such, whatever it holds; a failed
/// read is counted and changes nothing else; the other outcomes change
/// nothing.
pub proof fn law_read_outcomes(bridge: BridgeView, read: CanRead, unix_ms: u64, now: u64)
    ensures
        read matches CanRead::Data { raw_id, extended, data } ==> bridge.after_read(
            read,
            unix_ms,
            now,
        ) == bridge.after_data(raw_id, extended, data@, unix_ms, now),
        read is Other || read is TimedOut ==> bridge.after_read(read, unix_ms, now) == bridge,
        read is Failed ==> ({
            let after = bridge.after_read(read, unix_ms, now);
            &&& after.batch == bridge.batch
            &&& after.batch_started == bridge.batch_started
            &&& after.stats.can_errors == bridge.stats.can_errors + 1
            &&& after.stats.batches_sent == bridge.stats.batches_sent
            &&& after.stats.frames_sent == bridge.stats.frames_sent
            &&& after.stats.frames_dropped == bridge.stats.frames_dropped
            &&& after.stats.reconnects == bridge.stats.reconnects
        }),
{
}

/// A batch of 11 frames is due at any time, an empty one never, and any other
/// from 100 ms after its start on.
pub proof fn law_when_a_batch_is_due(bridge: BridgeView, now: u64)
    ensures
        bridge.batch.1.len() == 11 ==> bridge.flush_due(now),
        bridge.batch.1.len() == 0 ==> !bridge.flush_due(now),
        0 < bridge.batch.1.len() && bridge.batch.1.len() != 11 ==> (bridge.flush_due(now) <==> (
        bridge.batch_started matches Some(started) && now >= started + 100_000_000)),
{
}

/// A sent batch is counted with all of its frames, and an empty one without a
/// start time follows it.
pub proof fn law_sent_batch_is_counted(bridge: BridgeView)
    ensures
        bridge.after_sent().batch == (bridge.batch.0, Seq::<FrameView>::empty()),
        bridge.after_sent().batch_started is None,
        bridge.after_sent().stats.batches_sent == bridge.stats.batches_sent + 1,
        bridge.after_sent().stats.frames_sent == bridge.stats.frames_sent + bridge.batch.1.len(),
        bridge.after_sent().stats.frames_dropped == bridge.stats.frames_dropped,
        bridge.after_sent().stats.can_errors == bridge.stats.can_errors,
        bridge.after_sent().stats.reconnects == bridge.stats.reconnects,
{
}

/// A lost link costs the frames of the batch, all of them counted, and is
/// itself counted; an empty batch without a start time follows.
pub proof fn law_lost_link_is_counted(bridge: BridgeView)
    ensures
        bridge.after_link_lost().batch == (0u64, Seq::<FrameView>::empty()),
        bridge.after_link_lost().batch_started is None,
        bridge.after_link_lost().stats.frames_dropped == bridge.stats.frames_dropped
            + bridge.batch.1.len(),
        bridge.after_link_lost().stats.reconnects == bridge.stats.reconnects + 1,
        bridge.after_link_lost().stats.batches_sent == bridge.stats.batches_sent,
        bridge.after_link_lost().stats.frames_sent == bridge.stats.frames_sent,
        bridge.after_link_lost().stats.can_errors == bridge.stats.can_errors,
{
}

/// Each counter stands in the status line behind its own label.
pub proof fn law_bridge_line_labels_each_counter(stats: StatsView)
    ensures
        stats_line(stats) == "\rTX batches="@ + decimal(stats.batches_sent) + (" frames="@
            + decimal(stats.frames_sent)) + (" dropped="@ + decimal(stats.frames_dropped)) + (
        " can_err="@ + decimal(stats.can_errors)) + (" reconnects="@ + decimal(stats.reconnects))
            + "     "@,
{
    assert(stats_line(stats) =~= "\rTX batches="@ + decimal(stats.batches_sent) + (" frames="@
        + decimal(stats.frames_sent)) + (" dropped="@ + decimal(stats.frames_dropped)) + (
    " can_err="@ + decimal(stats.can_errors)) + (" reconnects="@ + decimal(stats.reconnects))
        + "     "@);
}

} // verus!
