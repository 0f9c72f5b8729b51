//! The chase-side radio link: what is known of the car and of the link, and
//! what happens to it with each event.

use vstd::prelude::*;
use vstd::string::StringExecFns;

use crate::clock::{elapsed, elapsed_ns, LINK_TIMEOUT_NS};
use crate::decode::{
    apply, frame_id, law_decoder_sees_the_frame, law_frame_in_range_counts, law_ids_in_range,
    read_by, silent_car, Decoded, FrameId, Telemetry, TelemetryView,
};
use crate::outside::{frames_as_slice, postcard_batch};
use crate::wire::{batch_bytes, decode_batch, fits, BatchView, CanBatch, FrameView};

verus! {

/// What the radio session counts.
#[derive(Debug, Clone, Copy, PartialEq, Eq, Structural)]
pub struct RxStats {
    pub ok: u64,
    pub auth_fail: u64,
    pub dup_or_old_drop: u64,
    pub skipped_packets: u64,
    pub decode_fail: u64,
    pub rehandshakes: u64,
}

impl Default for RxStats {
    fn default() -> (r: Self)
        ensures
            r == (RxStats {
                ok: 0,
                auth_fail: 0,
                dup_or_old_drop: 0,
                skipped_packets: 0,
                decode_fail: 0,
                rehandshakes: 0,
            }),
    {
        RxStats {
            ok: 0,
            auth_fail: 0,
            dup_or_old_drop: 0,
            skipped_packets: 0,
            decode_fail: 0,
            rehandshakes: 0,
        }
    }
}

/// What the chase vehicle knows of the car and of the link.
#[derive(Debug)]
pub struct LinkShared {
    pub telemetry: Telemetry,
    pub stats: RxStats,
    pub batches: u64,
    pub unknown_frames: u64,
    /// When the last batch arrived, on the monotonic clock.
    pub last_batch: Option<u64>,
    /// The state of the link in words.
    pub status: String,
}

/// What the chase vehicle knows, as a value.
#[verifier::ext_equal]
pub struct LinkView {
    pub telemetry: TelemetryView,
    pub stats: RxStats,
    pub batches: nat,
    pub unknown_frames: nat,
    pub last_batch: Option<u64>,
    pub status: Seq<char>,
}

impl View for LinkShared {
    type V = LinkView;

    open spec fn view(&self) -> LinkView {
        LinkView {
            telemetry: self.telemetry@,
            stats: self.stats,
            batches: self.batches as nat,
            unknown_frames: self.unknown_frames as nat,
            last_batch: self.last_batch,
            status: self.status@,
        }
    }
}

impl LinkView {
    /// Whether a batch arrived recently.
    pub open spec fn link_up(self, now: u64) -> bool {
        self.last_batch matches Some(arrived) && elapsed_ns(arrived, now) < LINK_TIMEOUT_NS
    }

    /// The link after a frame: it changes the car, or counts as unknown.
    pub open spec fn after_frame(self, frame: FrameView, decoded: Decoded) -> LinkView {
        match self.telemetry.after_frame(frame, decoded) {
            Some(telemetry) => LinkView { telemetry, ..self },
            None => LinkView { unknown_frames: self.unknown_frames + 1, ..self },
        }
    }

    /// The link after some frames, each read as the decoding at its position.
    pub open spec fn after_frames(self, frames: Seq<FrameView>, decoded: Seq<Decoded>) -> LinkView
        decreases frames.len(),
    {
        if frames.len() == 0 {
            self
        } else {
            self.after_frames(frames.drop_last(), decoded.drop_last()).after_frame(
                frames.last(),
                decoded.last(),
            )
        }
    }

    /// The link after a batch that arrived at `now`.
    pub open spec fn after_batch(
        self,
        frames: Seq<FrameView>,
        decoded: Seq<Decoded>,
        now: u64,
    ) -> LinkView {
        let applied = self.after_frames(frames, decoded);
        LinkView { batches: applied.batches + 1, last_batch: Some(now), ..applied }
    }

    /// The link after a payload that holds no batch.
    pub open spec fn after_malformed(self) -> LinkView {
        LinkView { unknown_frames: self.unknown_frames + 1, ..self }
    }

    /// The link with the session's counters.
    pub open spec fn with_stats(self, stats: RxStats) -> LinkView {
        LinkView { stats, ..self }
    }
}

/// Whether a decoder may read the frames as the decodings at their positions.
pub open spec fn all_read_by<F: Fn(FrameId, &[u8]) -> Decoded>(
    decoder: F,
    frames: Seq<FrameView>,
    decoded: Seq<Decoded>,
) -> bool {
    &&& decoded.len() == frames.len()
    &&& forall|i: int| 0 <= i < frames.len() ==> #[trigger] read_by(decoder, frames[i], decoded[i])
}

impl Default for LinkShared {
    fn default() -> (r: Self)
        ensures
            r@.telemetry == silent_car(),
            r@.stats.ok == 0,
            r@.stats.auth_fail == 0,
            r@.stats.dup_or_old_drop == 0,
            r@.stats.skipped_packets == 0,
            r@.stats.decode_fail == 0,
            r@.stats.rehandshakes == 0,
            r@.batches == 0,
            r@.unknown_frames == 0,
            r@.last_batch is None,
            r@.status == Seq::<char>::empty(),
    {
        LinkShared {
            telemetry: Telemetry::default(),
            stats: RxStats::default(),
            batches: 0,
            unknown_frames: 0,
            last_batch: None,
            status: String::new(),
        }
    }
}

impl LinkShared {
    /// Whether a batch arrived recently.
    pub fn link_ok(&self, now: u64) -> (r: bool)
        ensures
            r == self@.link_up(now),
            r <==> (self.last_batch matches Some(arrived) && now < arrived + 3_000_000_000),
    {
        match self.last_batch {
            Some(arrived) => elapsed(arrived, now) < LINK_TIMEOUT_NS,
            None => false,
        }
    }

    /// Takes in a batch that arrived at `now`.
    pub fn on_batch<F: Fn(FrameId, &[u8]) -> Decoded>(
        &mut self,
        batch: &CanBatch,
        now: u64,
        decoder: &F,
    )
        requires
            forall|id: FrameId, data: &[u8]| call_requires(*decoder, (id, data)),
            old(self).batches < u64::MAX,
            old(self).unknown_frames + batch@.1.len() <= u64::MAX,
        ensures
            exists|decoded: Seq<Decoded>| #[trigger]
                all_read_by(*decoder, batch@.1, decoded) && final(self)@ == old(self)@.after_batch(
                    batch@.1,
                    decoded,
                    now,
                ),
    {
        let frames = frames_as_slice(&batch.frames);
        let ghost mut decoded: Seq<Decoded> = Seq::empty();
        let mut i: usize = 0;
        assert(batch@.1.take(0) =~= Seq::<FrameView>::empty());
        while i < frames.len()
            invariant
                i <= frames@.len(),
                frames@.len() == batch@.1.len(),
                forall|j: int| 0 <= j < frames@.len() ==> (#[trigger] frames@[j])@ == batch@.1[j],
                forall|id: FrameId, data: &[u8]| call_requires(*decoder, (id, data)),
                self.unknown_frames <= old(self).unknown_frames + i,
                old(self).unknown_frames + batch@.1.len() <= u64::MAX,
                self.batches == old(self).batches,
                all_read_by(*decoder, batch@.1.take(i as int), decoded),
                self@ == old(self)@.after_frames(batch@.1.take(i as int), decoded),
            decreases frames@.len() - i,
        {
            let ghost before = self@;
            let ghost frame = batch@.1[i as int];
            assert(frames@[i as int]@ == frame);
            let known: bool = apply(&mut self.telemetry, &frames[i], decoder);
            if !known {
                self.unknown_frames += 1;
            }
            proof {
                let d = choose|d: Decoded|
                    {
                        &&& #[trigger] read_by(*decoder, frame, d)
                        &&& known <==> before.telemetry.after_frame(frame, d) is Some
                        &&& known ==> before.telemetry.after_frame(frame, d) == Some(
                            self.telemetry@,
                        )
                    };
                assert(self@ =~= before.after_frame(frame, d));
                let next = decoded.push(d);
                let frames_next = batch@.1.take(i + 1);
                assert(next.drop_last() =~= decoded);
                assert(frames_next.drop_last() =~= batch@.1.take(i as int));
                assert forall|j: int| 0 <= j < frames_next.len() implies #[trigger] read_by(
                    *decoder,
                    frames_next[j],
                    next[j],
                ) by {
                    if j < i {
                        assert(read_by(*decoder, batch@.1.take(i as int)[j], decoded[j]));
                    }
                }
                decoded = next;
            }
            i += 1;
        }
        proof {
            assert(batch@.1.take(i as int) =~= batch@.1);
        }
        self.batches += 1;
        self.last_batch = Some(now);
        proof {
            assert(self@ =~= old(self)@.after_batch(batch@.1, decoded, now));
        }
    }

    /// Takes in a decrypted payload that arrived at `now`, and the session's
    /// counters, and says what the thread does next. A payload that holds no
    /// batch counts as one unknown frame.
    pub fn on_payload<F: Fn(FrameId, &[u8]) -> Decoded>(
        &mut self,
        payload: &[u8],
        stats: &RxStats,
        now: u64,
        decoder: &F,
    ) -> (r: RadioAction)
        requires
            forall|id: FrameId, data: &[u8]| call_requires(*decoder, (id, data)),
            old(self).batches < u64::MAX,
            old(self).unknown_frames + 11 <= u64::MAX,
        ensures
            r == RadioAction::Receive,
            postcard_batch(payload@, usize::BITS) is None ==> final(self)@ == old(
                self,
            )@.after_malformed().with_stats(*stats),
            postcard_batch(payload@, usize::BITS) matches Some(batch) ==> exists|
                decoded: Seq<Decoded>,
            | #[trigger]
                all_read_by(*decoder, batch.1, decoded) && final(self)@ == old(self)@.after_batch(
                    batch.1,
                    decoded,
                    now,
                ).with_stats(*stats),
            forall|batch: BatchView|
                fits(batch) && payload@ == #[trigger] batch_bytes(batch) ==> postcard_batch(
                    payload@,
                    usize::BITS,
                ) == Some(batch),
    {
        match decode_batch(payload) {
            Ok(batch) => {
                self.on_batch(&batch, now, decoder);
                let ghost applied = self@;
                self.stats = *stats;
                proof {
                    let decoded = choose|decoded: Seq<Decoded>| #[trigger]
                        all_read_by(*decoder, batch@.1, decoded) && applied == old(
                            self,
                        )@.after_batch(batch@.1, decoded, now);
                    assert(self@ =~= applied.with_stats(*stats));
                    let received = postcard_batch(payload@, usize::BITS)->Some_0;
                    assert(all_read_by(*decoder, received.1, decoded));
                }
            },
            Err(_) => {
                self.unknown_frames += 1;
                self.stats = *stats;
            },
        }
        RadioAction::Receive
    }
}

/// What happens to the radio thread, but for payloads.
#[derive(Debug, PartialEq, Eq)]
pub enum RadioEvent {
    /// The thread started, or has waited after a failure.
    Ready,
    /// No radio is plugged in.
    NoPort,
    /// The radio's port could not be opened.
    OpenFailed { port: String, error: String },
    /// The radio's port is open.
    Opened { port: String },
    /// The handshake with the car failed.
    HandshakeFailed { error: String },
    /// The session with the car stands.
    Established,
    /// No payload arrived within the receive timeout.
    TimedOut { stats: RxStats },
    /// The link broke.
    LinkLost { error: String },
}

/// What the radio thread does next.
#[derive(Debug, Clone, Copy, PartialEq, Eq, Structural)]
pub enum RadioAction {
    /// Look for a radio and open its port.
    OpenPort,
    /// Wait for the car's handshake.
    Handshake,
    /// Wait for the next payload.
    Receive,
    /// Wait for a while, then start over.
    BackOff,
}

impl RadioEvent {
    /// What the radio thread does after the event.
    pub open spec fn action(self) -> RadioAction {
        match self {
            RadioEvent::Ready => RadioAction::OpenPort,
            RadioEvent::Opened { .. } => RadioAction::Handshake,
            RadioEvent::Established => RadioAction::Receive,
            RadioEvent::TimedOut { .. } => RadioAction::Receive,
            RadioEvent::NoPort => RadioAction::BackOff,
            RadioEvent::OpenFailed { .. } => RadioAction::BackOff,
            RadioEvent::HandshakeFailed { .. } => RadioAction::BackOff,
            RadioEvent::LinkLost { .. } => RadioAction::BackOff,
        }
    }

    /// The state of the link in words after the event, if it changes.
    pub open spec fn status(self) -> Option<Seq<char>> {
        match self {
            RadioEvent::Ready => Some("searching for XBee serial port..."@),
            RadioEvent::NoPort => None,
            RadioEvent::OpenFailed { port, error } => Some(
                "cannot open "@ + port@ + ": "@ + error@,
            ),
            RadioEvent::Opened { port } => Some(port@ + ": waiting for car handshake..."@),
            RadioEvent::HandshakeFailed { error } => Some("handshake failed: "@ + error@),
            RadioEvent::Established => Some("receiving"@),
            RadioEvent::TimedOut { .. } => None,
            RadioEvent::LinkLost { error } => Some(
                "radio link lost: "@ + error@ + "; reconnecting"@,
            ),
        }
    }
}

impl LinkView {
    /// The link after an event: the words for its state may change, and a
    /// timeout brings the session's counters.
    pub open spec fn after_event(self, event: RadioEvent) -> LinkView {
        let status = match event.status() {
            Some(status) => status,
            None => self.status,
        };
        let stats = match event {
            RadioEvent::TimedOut { stats } => stats,
            _ => self.stats,
        };
        LinkView { status, stats, ..self }
    }

    /// The link after a number of events.
    pub open spec fn after_events(self, events: Seq<RadioEvent>) -> LinkView
        decreases events.len(),
    {
        if events.len() == 0 {
            self
        } else {
            self.after_events(events.drop_last()).after_event(events.last())
        }
    }
}

impl LinkShared {
    /// Sets the words for the state of the link.
    pub fn set_status(&mut self, status: String)
        ensures
            final(self)@ == (LinkView { status: status@, ..old(self)@ }),
            *final(self) == (LinkShared { status, ..*old(self) }),
    {
        self.status = status;
    }

    /// Takes in an event of the radio thread, and says what the thread does
    /// next.
    pub fn on_event(&mut self, event: &RadioEvent) -> (r: RadioAction)
        ensures
            r == event.action(),
            r == RadioAction::OpenPort <==> event is Ready,
            r == RadioAction::Handshake <==> event is Opened,
            r == RadioAction::Receive <==> event is Established || event is TimedOut,
            r == RadioAction::BackOff <==> event is NoPort || event is OpenFailed || event
                is HandshakeFailed || event is LinkLost,
            final(self)@ == old(self)@.after_event(*event),
            final(self).telemetry == old(self).telemetry,
            final(self).batches == old(self).batches,
            final(self).unknown_frames == old(self).unknown_frames,
            final(self).last_batch == old(self).last_batch,
    {
        let mut status: String = String::new();
        match event {
            RadioEvent::Ready => {
                status.append("searching for XBee serial port...");
                assert(status@ =~= event.status()->Some_0);
                self.set_status(status);
                RadioAction::OpenPort
            },
            RadioEvent::NoPort => RadioAction::BackOff,
            RadioEvent::OpenFailed { port, error } => {
                status.append("cannot open ");
                status.append(port.as_str());
                status.append(": ");
                status.append(error.as_str());
                assert(status@ =~= event.status()->Some_0);
                self.set_status(status);
                RadioAction::BackOff
            },
            RadioEvent::Opened { port } => {
                status.append(port.as_str());
                status.append(": waiting for car handshake...");
                assert(status@ =~= event.status()->Some_0);
                self.set_status(status);
                RadioAction::Handshake
            },
            RadioEvent::HandshakeFailed { error } => {
                status.append("handshake failed: ");
                status.append(error.as_str());
                assert(status@ =~= event.status()->Some_0);
                self.set_status(status);
                RadioAction::BackOff
            },
            RadioEvent::Established => {
                status.append("receiving");
                assert(status@ =~= event.status()->Some_0);
                self.set_status(status);
                RadioAction::Receive
            },
            RadioEvent::TimedOut { stats } => {
                self.stats = *stats;
                RadioAction::Receive
            },
            RadioEvent::LinkLost { error } => {
                status.append("radio link lost: ");
                status.append(error.as_str());
                status.append("; reconnecting");
                assert(status@ =~= event.status()->Some_0);
                self.set_status(status);
                RadioAction::BackOff
            },
        }
    }
}

/// Whether a frame, read as `decoded`, belongs to a known message.
pub open spec fn known(frame: FrameView, decoded: Decoded) -> bool {
    frame_id(frame) is Some && (decoded.kelly is Some || exists|unit: int|
        0 <= unit < 3 && (#[trigger] decoded.mppt@[unit]) is Some)
}

/// How many of the frames belong to no known message.
pub open spec fn unknown_among(frames: Seq<FrameView>, decoded: Seq<Decoded>) -> nat
    decreases frames.len(),
{
    if frames.len() == 0 {
        0
    } else {
        let before = unknown_among(frames.drop_last(), decoded.drop_last());
        if known(frames.last(), decoded.last()) {
            before
        } else {
            before + 1
        }
    }
}

/// Every frame of a batch either belongs to a known message or is counted as
/// unknown; the batch itself is counted once.
pub proof fn law_unknown_frames_are_counted(
    link: LinkView,
    frames: Seq<FrameView>,
    decoded: Seq<Decoded>,
    now: u64,
)
    requires
        decoded.len() == frames.len(),
    ensures
        link.after_batch(frames, decoded, now).unknown_frames == link.unknown_frames
            + unknown_among(frames, decoded),
        unknown_among(frames, decoded) <= frames.len(),
        link.after_batch(frames, decoded, now).batches == link.batches + 1,
    decreases frames.len(),
{
    if frames.len() > 0 {
        law_unknown_frames_are_counted(link, frames.drop_last(), decoded.drop_last(), now);
        let d = decoded.last();
        let before = link.after_frames(frames.drop_last(), decoded.drop_last());
        assert(d.mppt@[0] is Some || d.mppt@[1] is Some || d.mppt@[2] is Some <==> exists|
            unit: int,
        |
            0 <= unit < 3 && (#[trigger] d.mppt@[unit]) is Some);
        assert(before.telemetry.after_frame(frames.last(), d) is Some <==> known(
            frames.last(),
            d,
        ));
    }
}

/// Frames of no known message leave the car as it was.
pub proof fn law_unknown_frames_change_nothing(
    link: LinkView,
    frames: Seq<FrameView>,
    decoded: Seq<Decoded>,
)
    requires
        decoded.len() == frames.len(),
        forall|i: int| 0 <= i < frames.len() ==> !known(#[trigger] frames[i], decoded[i]),
    ensures
        link.after_frames(frames, decoded).telemetry == link.telemetry,
    decreases frames.len(),
{
    if frames.len() > 0 {
        let d = decoded.last();
        assert(!known(frames[frames.len() - 1], d));
        assert forall|i: int| 0 <= i < frames.drop_last().len() implies !known(
            #[trigger] frames.drop_last()[i],
            decoded.drop_last()[i],
        ) by {
            assert(!known(frames[i], decoded[i]));
        }
        law_unknown_frames_change_nothing(link, frames.drop_last(), decoded.drop_last());
        assert(d.mppt@[0] is None && d.mppt@[1] is None && d.mppt@[2] is None || frame_id(
            frames.last(),
        ) is None);
    }
}

/// The frames of a batch take effect in their order: a batch that is cut in
/// two does to the car what it does whole.
pub proof fn law_frames_take_effect_in_order(
    link: LinkView,
    first: Seq<FrameView>,
    first_decoded: Seq<Decoded>,
    second: Seq<FrameView>,
    second_decoded: Seq<Decoded>,
)
    requires
        first.len() == first_decoded.len(),
        second.len() == second_decoded.len(),
    ensures
        link.after_frames(first + second, first_decoded + second_decoded) == link.after_frames(
            first,
            first_decoded,
        ).after_frames(second, second_decoded),
    decreases second.len(),
{
    if second.len() == 0 {
        assert(first + second =~= first);
        assert(first_decoded + second_decoded =~= first_decoded);
    } else {
        assert((first + second).drop_last() =~= first + second.drop_last());
        assert((first_decoded + second_decoded).drop_last() =~= first_decoded
            + second_decoded.drop_last());
        law_frames_take_effect_in_order(
            link,
            first,
            first_decoded,
            second.drop_last(),
            second_decoded.drop_last(),
        );
    }
}

/// After a batch the link counts as up until the timeout has passed, and as
/// down from there on.
pub proof fn law_link_is_up_until_timeout(
    link: LinkView,
    frames: Seq<FrameView>,
    decoded: Seq<Decoded>,
    arrived: u64,
    now: u64,
)
    ensures
        link.after_batch(frames, decoded, arrived).link_up(now) <==> now < arrived
            + LINK_TIMEOUT_NS,
{
}

/// A link without a batch is down, and neither a payload without a batch nor
/// anything else that happens to the thread brings it up or changes the car.
pub proof fn law_only_batches_bring_the_link_up(
    link: LinkView,
    events: Seq<RadioEvent>,
    stats: RxStats,
)
    ensures
        link.last_batch is None ==> forall|now: u64| !link.link_up(now),
        link.after_events(events).last_batch == link.last_batch,
        link.after_events(events).telemetry == link.telemetry,
        link.after_events(events).batches == link.batches,
        link.after_events(events).unknown_frames == link.unknown_frames,
        link.after_malformed().with_stats(stats).last_batch == link.last_batch,
        link.after_malformed().with_stats(stats).telemetry == link.telemetry,
        link.after_malformed().with_stats(stats).batches == link.batches,
    decreases events.len(),
{
    if events.len() > 0 {
        law_only_batches_bring_the_link_up(link, events.drop_last(), stats);
    }
}

/// The thread never gives up: whatever fails, it waits and starts over.
pub proof fn law_every_failure_is_retried(event: RadioEvent)
    requires
        event is NoPort || event is OpenFailed || event is HandshakeFailed || event is LinkLost,
    ensures
        event.action() == RadioAction::BackOff,
        RadioEvent::Ready.action() == RadioAction::OpenPort,
{
}

/// The link is known by all of its fields.
pub proof fn law_link_view_is_complete(link: LinkShared)
    ensures
        link@.telemetry == link.telemetry@,
        link@.stats == link.stats,
        link@.batches == link.batches,
        link@.unknown_frames == link.unknown_frames,
        link@.last_batch == link.last_batch,
        link@.status == link.status@,
{
}

/// The link is up exactly when a batch arrived less than three seconds ago.
pub proof fn law_link_is_up_for_three_seconds(link: LinkView, now: u64)
    ensures
        link.last_batch is None ==> !link.link_up(now),
        link.last_batch matches Some(arrived) ==> (link.link_up(now) <==> now < arrived
            + 3_000_000_000),
{
}

/// A single frame, standard or extended: if its id is in range and a decoder
/// knew it, the car is what the decoding makes of it and nothing is counted;
/// if not, it is counted as unknown and the car stays as it was.
pub proof fn law_single_frame_reaches_the_car(link: LinkView, frame: FrameView, decoded: Decoded)
    ensures
        ({
            let after = link.after_frames(seq![frame], seq![decoded]);
            let in_range = frame.0 <= 0x7FF || 0x8000_0000 <= frame.0 <= 0x9FFF_FFFF;
            let next = link.telemetry.after_decoded(decoded);
            &&& in_range && next is Some ==> next == Some(after.telemetry)
            &&& in_range && next is Some ==> after.unknown_frames == link.unknown_frames
            &&& !in_range || next is None ==> after.telemetry == link.telemetry
            &&& !in_range || next is None ==> after.unknown_frames == link.unknown_frames + 1
            &&& after.stats == link.stats
            &&& after.batches == link.batches
            &&& after.last_batch == link.last_batch
            &&& after.status == link.status
        }),
{
    reveal_with_fuel(LinkView::after_frames, 2);
    law_frame_in_range_counts(link.telemetry, frame, decoded);
    assert(seq![frame].drop_last() =~= Seq::<FrameView>::empty());
    assert(seq![decoded].drop_last() =~= Seq::<Decoded>::empty());
}

/// The decodings of the frames whose id is in range, in order.
pub open spec fn decodings_in_range(frames: Seq<FrameView>, decoded: Seq<Decoded>) -> Seq<Decoded>
    decreases frames.len(),
{
    if frames.len() == 0 {
        Seq::empty()
    } else {
        let before = decodings_in_range(frames.drop_last(), decoded.drop_last());
        let id = frames.last().0;
        if id <= 0x7FF || 0x8000_0000 <= id <= 0x9FFF_FFFF {
            before.push(decoded.last())
        } else {
            before
        }
    }
}

/// After a batch the car is what the decodings of its frames make of it, one
/// after the other; frames with an id out of range have no part in it.
pub proof fn law_batch_takes_the_car_through_its_frames(
    link: LinkView,
    frames: Seq<FrameView>,
    decoded: Seq<Decoded>,
    now: u64,
)
    requires
        decoded.len() == frames.len(),
    ensures
        link.after_batch(frames, decoded, now).telemetry == link.telemetry.after_all(
            decodings_in_range(frames, decoded),
        ),
    decreases frames.len(),
{
    if frames.len() > 0 {
        let frame = frames.last();
        let rest = frames.drop_last();
        let rest_decoded = decoded.drop_last();
        law_batch_takes_the_car_through_its_frames(link, rest, rest_decoded, now);
        let before = link.after_frames(rest, rest_decoded).telemetry;
        law_frame_in_range_counts(before, frame, decoded.last());
        let earlier = decodings_in_range(rest, rest_decoded);
        assert(earlier.push(decoded.last()).drop_last() =~= earlier);
    }
}

/// A batch is counted and its arrival noted, whatever it holds; the session's
/// counters and the words for the state of the link stay as they were.
pub proof fn law_batch_is_counted_and_dated(
    link: LinkView,
    frames: Seq<FrameView>,
    decoded: Seq<Decoded>,
    now: u64,
)
    requires
        decoded.len() == frames.len(),
    ensures
        link.after_batch(frames, decoded, now).batches == link.batches + 1,
        link.after_batch(frames, decoded, now).last_batch == Some(now),
        link.after_batch(frames, decoded, now).stats == link.stats,
        link.after_batch(frames, decoded, now).status == link.status,
        link.after_batch(frames, decoded, now).telemetry == link.after_frames(
            frames,
            decoded,
        ).telemetry,
        link.after_batch(frames, decoded, now).unknown_frames == link.after_frames(
            frames,
            decoded,
        ).unknown_frames,
    decreases frames.len(),
{
    if frames.len() > 0 {
        law_batch_is_counted_and_dated(link, frames.drop_last(), decoded.drop_last(), now);
    }
}

/// A payload without a batch counts as one unknown frame, and the session's
/// counters are taken over as they are; nothing else changes.
pub proof fn law_malformed_payload_is_counted(link: LinkView, stats: RxStats)
    ensures
        link.after_malformed().unknown_frames == link.unknown_frames + 1,
        link.after_malformed().telemetry == link.telemetry,
        link.after_malformed().stats == link.stats,
        link.after_malformed().batches == link.batches,
        link.after_malformed().last_batch == link.last_batch,
        link.after_malformed().status == link.status,
        link.with_stats(stats).stats == stats,
        link.with_stats(stats).telemetry == link.telemetry,
        link.with_stats(stats).unknown_frames == link.unknown_frames,
        link.with_stats(stats).batches == link.batches,
        link.with_stats(stats).last_batch == link.last_batch,
        link.with_stats(stats).status == link.status,
{
}

/// Every frame of a batch goes to the decoder by itself.
pub proof fn law_decoder_sees_every_frame<F: Fn(FrameId, &[u8]) -> Decoded>(
    decoder: F,
    frames: Seq<FrameView>,
    decoded: Seq<Decoded>,
    i: int,
)
    requires
        all_read_by(decoder, frames, decoded),
        0 <= i < frames.len(),
    ensures
        decoded.len() == frames.len(),
        frames[i].0 <= 0x7FF ==> exists|data: &[u8]|
            data@ == frames[i].1 && #[trigger] call_ensures(
                decoder,
                (FrameId::Standard(frames[i].0 as u16), data),
                decoded[i],
            ),
        0x8000_0000 <= frames[i].0 <= 0x9FFF_FFFF ==> exists|data: &[u8]|
            data@ == frames[i].1 && #[trigger] call_ensures(
                decoder,
                (FrameId::Extended((frames[i].0 - 0x8000_0000) as u32), data),
                decoded[i],
            ),
{
    assert(read_by(decoder, frames[i], decoded[i]));
    law_decoder_sees_the_frame(decoder, frames[i], decoded[i]);
}

/// A frame is known exactly when its id is in range and one of the four
/// decoders knew it.
pub proof fn law_known_frames(frame: FrameView, decoded: Decoded)
    ensures
        known(frame, decoded) <==> (frame.0 <= 0x7FF || 0x8000_0000 <= frame.0 <= 0x9FFF_FFFF) && (
        decoded.kelly is Some || decoded.mppt@[0] is Some || decoded.mppt@[1] is Some
            || decoded.mppt@[2] is Some),
{
    law_ids_in_range(frame);
    assert(decoded.mppt@[0] is Some || decoded.mppt@[0] is None);
    assert(decoded.mppt@[1] is Some || decoded.mppt@[1] is None);
    assert(decoded.mppt@[2] is Some || decoded.mppt@[2] is None);
}

/// An event changes the words for the state of the link as it is named, and a
/// timeout takes the session's counters over; the car, the counts and the
/// arrival of the last batch stay as they were.
pub proof fn law_events_change_words_and_counters_only(link: LinkView, event: RadioEvent)
    ensures
        link.after_event(event).telemetry == link.telemetry,
        link.after_event(event).batches == link.batches,
        link.after_event(event).unknown_frames == link.unknown_frames,
        link.after_event(event).last_batch == link.last_batch,
        event matches RadioEvent::TimedOut { stats } ==> link.after_event(event).stats == stats,
        !(event is TimedOut) ==> link.after_event(event).stats == link.stats,
        event is NoPort || event is TimedOut ==> link.after_event(event).status == link.status,
        event is Ready ==> link.after_event(event).status == "searching for XBee serial port..."@,
        event is Established ==> link.after_event(event).status == "receiving"@,
        event matches RadioEvent::OpenFailed { port, error } ==> link.after_event(event).status
            == "cannot open "@ + port@ + ": "@ + error@,
        event matches RadioEvent::Opened { port } ==> link.after_event(event).status == port@
            + ": waiting for car handshake..."@,
        event matches RadioEvent::HandshakeFailed { error } ==> link.after_event(event).status
            == "handshake failed: "@ + error@,
        event matches RadioEvent::LinkLost { error } ==> link.after_event(event).status
            == "radio link lost: "@ + error@ + "; reconnecting"@,
{
}

} // verus!
