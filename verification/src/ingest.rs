//! The ingestion loop, as a state machine.
//!
//! Reading from the device is the caller's business. The caller hands in
//! what happened, bytes that arrived or the end of the stream, and is told
//! whether to read on. In between, every frame that the bytes complete is
//! mapped to a telemetry record and published to the metrics store. A frame
//! that is no record is counted and leaves the store as it was.

use vstd::prelude::*;
use crate::counter::capped;
use crate::decoder::{
    concat, decode, lemma_decode_split, lemma_fragment_leaves_no_frame, lemma_step_advances,
    FrameDecoder,
};
use crate::mapper::{map_record, record_of, MapError};
use crate::metrics::{published, MetricsStore, StoreState};
use crate::payloads::Monitor;

verus! {

/// Where the loop stands.
#[derive(Clone, Copy, Debug, PartialEq, Eq, Structural)]
pub enum LoopState {
    /// Reading telemetry.
    Running,
    /// The source is gone; nothing more is taken in.
    Stopped,
}

/// What the caller is to do next.
#[derive(Clone, Copy, Debug, PartialEq, Eq, Structural)]
pub enum Action {
    /// Read more bytes from the source.
    ReadMore,
    /// Stop reading.
    Stop,
}

/// What happened at the source.
pub enum Event<'a> {
    /// These bytes arrived.
    Bytes(&'a [u8]),
    /// The source is closed or has failed.
    Closed,
}

/// The store state `s` after `frame` was taken in: with the record
/// published where the frame is one, unchanged where it is none.
pub open spec fn absorbed(s: StoreState, frame: serde_json::Value) -> StoreState {
    match record_of(frame) {
        Ok(record) => published(s, record),
        Err(_) => s,
    }
}

/// The store state `s` after `frames` were taken in, one after another.
pub open spec fn absorbed_all(s: StoreState, frames: Seq<serde_json::Value>) -> StoreState
    decreases frames.len(),
{
    if frames.len() == 0 {
        s
    } else {
        absorbed(absorbed_all(s, frames.drop_last()), frames.last())
    }
}

/// The number of `frames` that are telemetry records.
pub open spec fn records_among(frames: Seq<serde_json::Value>) -> nat
    decreases frames.len(),
{
    if frames.len() == 0 {
        0
    } else if record_of(frames.last()) is Ok {
        records_among(frames.drop_last()) + 1
    } else {
        records_among(frames.drop_last())
    }
}

/// The reason why the last of `frames` that was no telemetry record was
/// none; `earlier` if all of them were records.
pub open spec fn last_refusal(earlier: Option<MapError>, frames: Seq<serde_json::Value>) -> Option<
    MapError,
>
    decreases frames.len(),
{
    if frames.len() == 0 {
        earlier
    } else {
        match record_of(frames.last()) {
            Err(e) => Some(e),
            Ok(_) => last_refusal(earlier, frames.drop_last()),
        }
    }
}

/// Why each of `frames` that was no telemetry record was none, in the order
/// of the frames.
pub open spec fn refusals_among(frames: Seq<serde_json::Value>) -> Seq<MapError>
    decreases frames.len(),
{
    if frames.len() == 0 {
        Seq::empty()
    } else {
        match record_of(frames.last()) {
            Err(e) => refusals_among(frames.drop_last()).push(e),
            Ok(_) => refusals_among(frames.drop_last()),
        }
    }
}

/// Every frame is a record or is refused, and none is both.
pub proof fn lemma_records_among_bound(frames: Seq<serde_json::Value>)
    ensures
        records_among(frames) <= frames.len(),
        records_among(frames) + refusals_among(frames).len() == frames.len(),
    decreases frames.len(),
{
    if frames.len() > 0 {
        lemma_records_among_bound(frames.drop_last());
    }
}

/// Taking in two runs of frames, one after the other, is taking in the two
/// runs joined.
pub proof fn lemma_absorbed_all_joins(
    s: StoreState,
    first: Seq<serde_json::Value>,
    second: Seq<serde_json::Value>,
)
    ensures
        absorbed_all(s, first + second) == absorbed_all(absorbed_all(s, first), second),
        records_among(first + second) == records_among(first) + records_among(second),
    decreases second.len(),
{
    if second.len() == 0 {
        assert(first + second =~= first);
    } else {
        lemma_absorbed_all_joins(s, first, second.drop_last());
        assert((first + second).drop_last() =~= first + second.drop_last());
        assert((first + second).last() == second.last());
    }
}

/// What a running loop has made of a store in state `s` after `chunks` have
/// arrived one at a time: the state of the store, and the bytes that the loop
/// holds for later. The loop starts out holding `held`.
pub open spec fn ingested(s: StoreState, held: Seq<u8>, chunks: Seq<Seq<u8>>) -> (
    StoreState,
    Seq<u8>,
)
    decreases chunks.len(),
{
    if chunks.len() == 0 {
        (s, held)
    } else {
        let before = ingested(s, held, chunks.drop_last());
        let d = decode(before.1 + chunks.last());
        (absorbed_all(before.0, d.frames), d.rest)
    }
}

/// However the byte stream is cut into chunks, a loop that starts out empty
/// leaves the store as it would, had the whole stream arrived as one chunk,
/// and holds the same bytes for later.
pub proof fn lemma_ingestion_ignores_chunking(s: StoreState, chunks: Seq<Seq<u8>>)
    ensures
        ingested(s, Seq::empty(), chunks) == (
            absorbed_all(s, decode(concat(chunks)).frames),
            decode(concat(chunks)).rest,
        ),
    decreases chunks.len(),
{
    if chunks.len() == 0 {
        lemma_step_advances(Seq::<u8>::empty());
        assert(decode(concat(chunks)).frames =~= Seq::empty());
        assert(decode(concat(chunks)).rest =~= Seq::<u8>::empty());
    } else {
        let earlier = chunks.drop_last();
        lemma_ingestion_ignores_chunking(s, earlier);
        lemma_decode_split(concat(earlier), chunks.last());
        lemma_absorbed_all_joins(
            s,
            decode(concat(earlier)).frames,
            decode(decode(concat(earlier)).rest + chunks.last()).frames,
        );
    }
}

/// A malformed fragment between two stretches of good input leaves the store
/// alone.
///
/// With `first`, `fragment`, `second` and `seen` as in
/// [`lemma_fragment_leaves_no_frame`], what the three laid end to end make of
/// a store is what `first` and then `second` make of it: the frames of
/// `first`, then the frames of `second`, and nothing in between.
pub proof fn lemma_fragment_leaves_the_store_alone(
    s: StoreState,
    first: Seq<u8>,
    fragment: Seq<u8>,
    second: Seq<u8>,
    seen: int,
)
    requires
        decode(first).rest.len() == 0,
        0 <= seen <= second.len(),
        decode(fragment + second.take(seen)).frames.len() == 0,
        decode(fragment + second.take(seen)).rest == second.take(seen),
    ensures
        absorbed_all(s, decode(first + fragment + second).frames) == absorbed_all(
            absorbed_all(s, decode(first).frames),
            decode(second).frames,
        ),
        records_among(decode(first + fragment + second).frames) == records_among(
            decode(first).frames,
        ) + records_among(decode(second).frames),
{
    lemma_fragment_leaves_no_frame(first, fragment, second, seen);
    lemma_absorbed_all_joins(s, decode(first).frames, decode(second).frames);
}

/// Maps `frame` and, if it is a telemetry record, publishes the record to
/// `store`. A frame that is no record leaves the store untouched.
pub fn ingest_frame(store: &mut MetricsStore, frame: &serde_json::Value) -> (r: Result<
    Monitor,
    MapError,
>)
    ensures
        r == record_of(*frame),
        final(store).state() == absorbed(old(store).state(), *frame),
        r is Err ==> final(store).state() == old(store).state(),
{
    match map_record(frame) {
        Ok(record) => {
            store.publish(&record);
            Ok(record)
        },
        Err(e) => Err(e),
    }
}

/// The ingestion loop: a frame decoder, the state of the loop, and the tally
/// of frames taken and frames turned away.
pub struct Ingestion {
    decoder: FrameDecoder,
    state: LoopState,
    accepted: u64,
    rejected: u64,
    refusal: Option<MapError>,
    refused: Vec<MapError>,
}

impl Ingestion {
    /// The bytes taken in and not yet accounted for.
    pub closed spec fn pending(&self) -> Seq<u8> {
        self.decoder@
    }

    /// Where the loop stands.
    pub closed spec fn phase(&self) -> LoopState {
        self.state
    }

    /// The number of frames published so far, capped at `u64::MAX`.
    pub closed spec fn taken(&self) -> nat {
        self.accepted as nat
    }

    /// The number of frames turned away so far because they were no
    /// telemetry records, capped at `u64::MAX`.
    pub closed spec fn turned_away(&self) -> nat {
        self.rejected as nat
    }

    /// The number of faults in the byte stream passed over so far, capped at
    /// `u64::MAX`.
    pub closed spec fn passed_over(&self) -> nat {
        self.decoder.tally()
    }

    /// Why the frame turned away last was no telemetry record; `None` as long
    /// as no frame was turned away.
    pub closed spec fn complaint(&self) -> Option<MapError> {
        self.refusal
    }

    /// Why each frame that the latest bytes completed and that was turned
    /// away was no telemetry record, in the order of the frames.
    pub closed spec fn complaints(&self) -> Seq<MapError> {
        self.refused@
    }

    /// A loop that is running and has seen nothing yet.
    pub fn new() -> (l: Ingestion)
        ensures
            l.phase() == LoopState::Running,
            l.pending() == Seq::<u8>::empty(),
            l.taken() == 0,
            l.turned_away() == 0,
            l.passed_over() == 0,
            l.complaint().is_none(),
            l.complaints() == Seq::<MapError>::empty(),
    {
        Ingestion {
            decoder: FrameDecoder::new(),
            state: LoopState::Running,
            accepted: 0,
            rejected: 0,
            refusal: None,
            refused: Vec::new(),
        }
    }

    /// Where the loop stands.
    pub fn state(&self) -> (s: LoopState)
        ensures
            s == self.phase(),
    {
        self.state
    }

    /// The number of frames published so far.
    pub fn accepted(&self) -> (n: u64)
        ensures
            n == self.taken(),
    {
        self.accepted
    }

    /// The number of frames turned away so far.
    pub fn rejected(&self) -> (n: u64)
        ensures
            n == self.turned_away(),
    {
        self.rejected
    }

    /// The number of faults in the byte stream passed over so far.
    pub fn faults(&self) -> (n: u64)
        ensures
            n == self.passed_over(),
    {
        self.decoder.faults()
    }

    /// Why the frame turned away last was no telemetry record.
    pub fn last_rejection(&self) -> (e: Option<MapError>)
        ensures
            e == self.complaint(),
    {
        self.refusal
    }

    /// Why each frame that the latest bytes completed and that was turned
    /// away was no telemetry record, in the order of the frames. Bytes that
    /// arrive while the loop is running replace the list; nothing else
    /// changes it.
    pub fn rejections(&self) -> (causes: &[MapError])
        ensures
            causes@ == self.complaints(),
    {
        self.refused.as_slice()
    }

    /// The number of bytes held for later.
    pub fn buffered(&self) -> (n: usize)
        ensures
            n == self.pending().len(),
    {
        self.decoder.pending()
    }

    /// Takes in bytes that arrived from the source.
    ///
    /// While the loop is running, the bytes are joined to those held, every
    /// frame that they complete is taken in, in order, and the caller is told
    /// to read on. Once the loop has stopped, nothing changes any more.
    pub fn on_bytes(&mut self, chunk: &[u8], store: &mut MetricsStore) -> (action: Action)
        ensures
            final(self).phase() == old(self).phase(),
            old(self).phase() == LoopState::Stopped ==> {
                &&& action == Action::Stop
                &&& final(self).pending() == old(self).pending()
                &&& final(self).taken() == old(self).taken()
                &&& final(self).turned_away() == old(self).turned_away()
                &&& final(self).passed_over() == old(self).passed_over()
                &&& final(self).complaint() == old(self).complaint()
                &&& final(self).complaints() == old(self).complaints()
                &&& final(store).state() == old(store).state()
            },
            old(self).phase() == LoopState::Running ==> {
                let d = decode(old(self).pending() + chunk@);
                &&& action == Action::ReadMore
                &&& final(self).pending() == d.rest
                &&& final(self).passed_over() == capped(old(self).passed_over() + d.faults)
                &&& final(self).taken() == capped(old(self).taken() + records_among(d.frames))
                &&& final(self).turned_away() == capped(
                    (old(self).turned_away() + d.frames.len() - records_among(d.frames)) as nat,
                )
                &&& final(self).complaint() == last_refusal(old(self).complaint(), d.frames)
                &&& final(self).complaints() == refusals_among(d.frames)
                &&& final(store).state() == absorbed_all(old(store).state(), d.frames)
            },
    {
        match self.state {
            LoopState::Stopped => Action::Stop,
            LoopState::Running => {
                let frames = self.decoder.feed(chunk);
                self.refused = Vec::new();
                let mut i: usize = 0;
                while i < frames.len()
                    invariant
                        i <= frames.len(),
                        self.pending() == decode(old(self).pending() + chunk@).rest,
                        self.passed_over() == capped(
                            old(self).passed_over() + decode(old(self).pending() + chunk@).faults,
                        ),
                        self.phase() == old(self).phase(),
                        self.taken() == capped(
                            old(self).taken() + records_among(frames@.take(i as int)),
                        ),
                        self.turned_away() == capped(
                            (old(self).turned_away() + i - records_among(
                                frames@.take(i as int),
                            )) as nat,
                        ),
                        self.complaint() == last_refusal(
                            old(self).complaint(),
                            frames@.take(i as int),
                        ),
                        self.complaints() == refusals_among(frames@.take(i as int)),
                        store.state() == absorbed_all(old(store).state(), frames@.take(i as int)),
                    decreases frames.len() - i,
                {
                    proof {
                        assert(frames@.take(i + 1).drop_last() == frames@.take(i as int));
                        assert(frames@.take(i + 1).last() == frames@[i as int]);
                        lemma_records_among_bound(frames@.take(i as int));
                    }
                    match ingest_frame(store, &frames[i]) {
                        Ok(_) => {
                            self.accepted = self.accepted.saturating_add(1);
                        },
                        Err(e) => {
                            self.rejected = self.rejected.saturating_add(1);
                            self.refusal = Some(e);
                            self.refused.push(e);
                        },
                    }
                    i = i + 1;
                }
                assert(frames@.take(i as int) == frames@);
                Action::ReadMore
            },
        }
    }

    /// Takes note that the source is closed or has failed: the loop stops,
    /// and the caller is told to stop reading. Bytes still held stay
    /// unaccounted for.
    pub fn on_closed(&mut self) -> (action: Action)
        ensures
            action == Action::Stop,
            final(self).phase() == LoopState::Stopped,
            final(self).pending() == old(self).pending(),
            final(self).taken() == old(self).taken(),
            final(self).turned_away() == old(self).turned_away(),
            final(self).passed_over() == old(self).passed_over(),
            final(self).complaint() == old(self).complaint(),
            final(self).complaints() == old(self).complaints(),
    {
        self.state = LoopState::Stopped;
        Action::Stop
    }

    /// Takes in one event from the source and says what to do next.
    pub fn step(&mut self, event: Event<'_>, store: &mut MetricsStore) -> (action: Action)
        ensures
            action == match (old(self).phase(), event) {
                (LoopState::Running, Event::Bytes(_)) => Action::ReadMore,
                _ => Action::Stop,
            },
            final(self).phase() == match event {
                Event::Bytes(_) => old(self).phase(),
                Event::Closed => LoopState::Stopped,
            },
            (event is Closed || old(self).phase() == LoopState::Stopped) ==> {
                &&& final(self).pending() == old(self).pending()
                &&& final(self).taken() == old(self).taken()
                &&& final(self).turned_away() == old(self).turned_away()
                &&& final(self).passed_over() == old(self).passed_over()
                &&& final(self).complaint() == old(self).complaint()
                &&& final(self).complaints() == old(self).complaints()
                &&& final(store).state() == old(store).state()
            },
            event matches Event::Bytes(chunk) ==> old(self).phase() == LoopState::Running ==> {
                let d = decode(old(self).pending() + chunk@);
                &&& final(self).pending() == d.rest
                &&& final(self).passed_over() == capped(old(self).passed_over() + d.faults)
                &&& final(self).taken() == capped(old(self).taken() + records_among(d.frames))
                &&& final(self).turned_away() == capped(
                    (old(self).turned_away() + d.frames.len() - records_among(d.frames)) as nat,
                )
                &&& final(self).complaint() == last_refusal(old(self).complaint(), d.frames)
                &&& final(self).complaints() == refusals_among(d.frames)
                &&& final(store).state() == absorbed_all(old(store).state(), d.frames)
            },
    {
        match event {
            Event::Bytes(chunk) => self.on_bytes(chunk, store),
            Event::Closed => self.on_closed(),
        }
    }
}

} // verus!
