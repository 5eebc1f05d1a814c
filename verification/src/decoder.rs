//! The frame decoder: from a byte stream that arrives in chunks of any size
//! to the JSON values it holds, one after another.
//!
//! The decoder keeps the bytes it has not yet accounted for. On each pull it
//! lets the parser scan them and acts only on an outcome that later bytes
//! cannot change: a complete value is handed out and its bytes are dropped, a
//! fault is counted and the bytes that led to it are dropped. On any other
//! outcome it waits for more bytes. What comes out therefore depends on the
//! bytes alone, never on how they were cut into chunks.
//!
//! The parser names a fault one past the byte at which it gave up. That byte
//! goes with the fault, unless it is one that opens a value: a frame that was
//! cut short is found out by the opening byte of the frame behind it, and
//! that frame is not to pay for it. An opening byte is kept and scanned
//! again. What no decoder can mend is a frame cut short where a value is due,
//! as behind a colon: there the frame behind it is a value like any other.

use vstd::prelude::*;
use crate::counter::capped;
use crate::json::{conclusive, json_scan, scan_prefix, settled, Scan};
use crate::position::{lemma_offset_of_bounds, lemma_offset_of_extend, locate, offset_of};

verus! {

/// What the decoder does with the bytes it holds.
pub enum Step {
    /// Nothing yet: the bytes may be the beginning of a value.
    Wait,
    /// Count a fault and drop the first `len` bytes.
    Skip { len: usize },
    /// Hand out `value` and drop the first `len` bytes.
    Emit { value: serde_json::Value, len: usize },
}

/// Whether `byte` is one of the three bytes that open a value which marks
/// its own end: a quote, an opening bracket or an opening brace.
pub open spec fn opens_value(byte: u8) -> bool {
    byte == 0x22 || byte == 0x5b || byte == 0x7b
}

/// The number of bytes that a fault named at the offset `at` of `buf` takes
/// with it. The offset named is one past the byte at which the parser gave
/// up. The bytes before that byte go, and the byte itself goes too unless it
/// opens a value; at least one byte goes in any case.
pub open spec fn fault_len(buf: Seq<u8>, at: int) -> int {
    if at <= 1 {
        1
    } else if at <= buf.len() && opens_value(buf[at - 1]) {
        at - 1
    } else {
        at
    }
}

/// The step that the outcome `scan` of scanning `buf` calls for. Only a
/// conclusive outcome leads to action. A value takes its own bytes with it. A
/// fault takes the bytes that [`fault_len`] counts.
pub open spec fn verdict(buf: Seq<u8>, scan: Scan) -> Step {
    if !conclusive(buf, scan) {
        Step::Wait
    } else {
        match scan {
            Scan::Value { value, end } => Step::Emit { value, len: end },
            Scan::Malformed { line, column } => match offset_of(buf, line as nat, column as nat) {
                Some(at) => if at <= usize::MAX {
                    Step::Skip { len: fault_len(buf, at) as usize }
                } else {
                    Step::Wait
                },
                None => Step::Wait,
            },
            _ => Step::Wait,
        }
    }
}

/// The step that the decoder takes when it holds `buf`: the verdict on the
/// parser's outcome where that outcome is settled, and a wait otherwise.
pub open spec fn step(buf: Seq<u8>) -> Step {
    if settled(buf) {
        verdict(buf, json_scan(buf))
    } else {
        Step::Wait
    }
}

/// A step that acts drops at least one byte and no more than there are.
pub proof fn lemma_step_advances(buf: Seq<u8>)
    ensures
        step(buf) matches Step::Skip { len } ==> 0 < len <= buf.len(),
        step(buf) matches Step::Emit { len, .. } ==> 0 < len <= buf.len(),
{
    if let Scan::Malformed { line, column } = json_scan(buf) {
        lemma_offset_of_bounds(buf, line as nat, column as nat);
    }
}

/// The result of one pull: the frame handed out, if any, the number of faults
/// passed over on the way to it, and the bytes left.
pub struct Pulled {
    pub frame: Option<serde_json::Value>,
    pub faults: nat,
    pub rest: Seq<u8>,
}

/// The result of decoding as far as the bytes allow: the frames in order, the
/// number of faults passed over, and the bytes left for later.
#[verifier::ext_equal]
pub struct Decoded {
    pub frames: Seq<serde_json::Value>,
    pub faults: nat,
    pub rest: Seq<u8>,
}

/// One pull on `buf`: skip faults until a frame comes out or the decoder has
/// to wait.
pub open spec fn pull(buf: Seq<u8>) -> Pulled
    decreases buf.len(),
{
    match step(buf) {
        Step::Wait => Pulled { frame: None, faults: 0, rest: buf },
        Step::Skip { len } => {
            proof {
                lemma_step_advances(buf);
            }
            let p = pull(buf.skip(len as int));
            Pulled { frame: p.frame, faults: p.faults + 1, rest: p.rest }
        },
        Step::Emit { value, len } => Pulled {
            frame: Some(value),
            faults: 0,
            rest: buf.skip(len as int),
        },
    }
}

/// Everything that `buf` decodes to.
pub open spec fn decode(buf: Seq<u8>) -> Decoded
    decreases buf.len(),
{
    match step(buf) {
        Step::Wait => Decoded { frames: Seq::empty(), faults: 0, rest: buf },
        Step::Skip { len } => {
            proof {
                lemma_step_advances(buf);
            }
            let d = decode(buf.skip(len as int));
            Decoded { frames: d.frames, faults: d.faults + 1, rest: d.rest }
        },
        Step::Emit { value, len } => {
            let d = decode(buf.skip(len as int));
            Decoded { frames: seq![value] + d.frames, faults: d.faults, rest: d.rest }
        },
    }
}

/// One decoding followed by another.
pub open spec fn then(first: Decoded, second: Decoded) -> Decoded {
    Decoded {
        frames: first.frames + second.frames,
        faults: first.faults + second.faults,
        rest: second.rest,
    }
}

/// The chunks laid end to end.
pub open spec fn concat(chunks: Seq<Seq<u8>>) -> Seq<u8>
    decreases chunks.len(),
{
    if chunks.len() == 0 {
        Seq::empty()
    } else {
        concat(chunks.drop_last()) + chunks.last()
    }
}

/// What a decoder that starts empty has produced after it was fed `chunks`
/// one at a time and pulled dry after each.
pub open spec fn decode_chunks(chunks: Seq<Seq<u8>>) -> Decoded
    decreases chunks.len(),
{
    if chunks.len() == 0 {
        Decoded { frames: Seq::empty(), faults: 0, rest: Seq::empty() }
    } else {
        let before = decode_chunks(chunks.drop_last());
        then(before, decode(before.rest + chunks.last()))
    }
}

/// A step that acts is the step for every buffer that begins with the same
/// bytes.
pub proof fn lemma_step_extends(buf: Seq<u8>, more: Seq<u8>)
    requires
        !(step(buf) is Wait),
    ensures
        step(buf + more) == step(buf),
{
    let scan = json_scan(buf);
    let longer = buf + more;
    assert(json_scan(longer) == scan);
    assert forall|tail: Seq<u8>| #[trigger] json_scan(longer + tail) == json_scan(longer) by {
        assert(longer + tail =~= buf + (more + tail));
        assert(json_scan(buf + (more + tail)) == scan);
    }
    match scan {
        Scan::Value { value, end } => {
            assert(longer[end - 1] == buf[end - 1]);
        },
        Scan::Malformed { line, column } => {
            lemma_offset_of_extend(buf, more, line as nat, column as nat);
            lemma_offset_of_bounds(buf, line as nat, column as nat);
            let at = offset_of(buf, line as nat, column as nat)->0;
            if at > 1 {
                assert(longer[at - 1] == buf[at - 1]);
            }
        },
        _ => {},
    }
}

/// Decoding stops only where the decoder has to wait.
pub proof fn lemma_decode_rest_waits(buf: Seq<u8>)
    ensures
        step(decode(buf).rest) is Wait,
        decode(buf).rest.len() <= buf.len(),
    decreases buf.len(),
{
    lemma_step_advances(buf);
    match step(buf) {
        Step::Wait => {},
        Step::Skip { len } => {
            lemma_decode_rest_waits(buf.skip(len as int));
        },
        Step::Emit { value, len } => {
            lemma_decode_rest_waits(buf.skip(len as int));
        },
    }
}

/// Decoding is one pull and then the decoding of what the pull left.
pub proof fn lemma_decode_unfolds(buf: Seq<u8>)
    ensures
        pull(buf).rest.len() <= buf.len(),
        pull(buf).frame is Some ==> pull(buf).rest.len() < buf.len(),
        pull(buf).frame is None ==> step(pull(buf).rest) is Wait,
        decode(buf) == match pull(buf).frame {
            Some(value) => then(
                Decoded { frames: seq![value], faults: pull(buf).faults, rest: pull(buf).rest },
                decode(pull(buf).rest),
            ),
            None => Decoded {
                frames: Seq::empty(),
                faults: pull(buf).faults,
                rest: pull(buf).rest,
            },
        },
    decreases buf.len(),
{
    lemma_step_advances(buf);
    match step(buf) {
        Step::Wait => {},
        Step::Skip { len } => {
            lemma_decode_unfolds(buf.skip(len as int));
        },
        Step::Emit { value, len } => {},
    }
}

/// Cutting the input in two changes nothing: decoding `head + tail` at once
/// gives what decoding `head` gives, followed by what decoding the bytes left
/// over from `head`, joined with `tail`, gives.
pub proof fn lemma_decode_split(head: Seq<u8>, tail: Seq<u8>)
    ensures
        decode(head + tail) == then(decode(head), decode(decode(head).rest + tail)),
    decreases head.len(),
{
    lemma_step_advances(head);
    match step(head) {
        Step::Wait => {
            assert(decode(head + tail) =~= then(decode(head), decode(decode(head).rest + tail)));
        },
        Step::Skip { len } => {
            lemma_step_extends(head, tail);
            assert((head + tail).skip(len as int) =~= head.skip(len as int) + tail);
            lemma_decode_split(head.skip(len as int), tail);
            assert(decode(head + tail) =~= then(decode(head), decode(decode(head).rest + tail)));
        },
        Step::Emit { value, len } => {
            lemma_step_extends(head, tail);
            assert((head + tail).skip(len as int) =~= head.skip(len as int) + tail);
            lemma_decode_split(head.skip(len as int), tail);
            assert(decode(head + tail) =~= then(decode(head), decode(decode(head).rest + tail)));
        },
    }
}

/// However a byte stream is cut into chunks, a decoder that is fed the chunks
/// one at a time produces the frames, counts the faults and keeps the bytes
/// that it would have, had the whole stream arrived as one chunk.
pub proof fn lemma_chunking_is_invisible(chunks: Seq<Seq<u8>>)
    ensures
        decode_chunks(chunks) == decode(concat(chunks)),
    decreases chunks.len(),
{
    if chunks.len() == 0 {
        assert(step(Seq::<u8>::empty()) is Wait) by {
            lemma_step_advances(Seq::<u8>::empty());
        }
        assert(decode_chunks(chunks) =~= decode(concat(chunks)));
    } else {
        lemma_chunking_is_invisible(chunks.drop_last());
        lemma_decode_split(concat(chunks.drop_last()), chunks.last());
    }
}

/// A malformed fragment between two stretches of good input leaves no trace
/// among the frames.
///
/// `first` is input that decodes without a rest, and `second` is the input
/// that follows the fragment. The fragment is malformed in this sense: there
/// is a number `seen` of bytes of `second` in front of which the fragment,
/// decoded, yields no frame and is dropped whole, so that just those bytes
/// are left. (The decoder decides on a fault only when it holds a byte behind
/// it, and on a fault at an opening byte only when it holds two.) Then the
/// three laid end to end decode to the frames of `first` followed by the
/// frames of `second`, and the fragment shows only in the count of faults.
pub proof fn lemma_fragment_leaves_no_frame(
    first: Seq<u8>,
    fragment: Seq<u8>,
    second: Seq<u8>,
    seen: int,
)
    requires
        decode(first).rest.len() == 0,
        0 <= seen <= second.len(),
        decode(fragment + second.take(seen)).frames.len() == 0,
        decode(fragment + second.take(seen)).rest == second.take(seen),
    ensures
        decode(first + fragment + second).frames == decode(first).frames + decode(second).frames,
        decode(first + fragment + second).rest == decode(second).rest,
        decode(first + fragment + second).faults == decode(first).faults + decode(
            fragment + second.take(seen),
        ).faults + decode(second).faults,
{
    let tail = fragment + second;
    let head = fragment + second.take(seen);
    assert(first + fragment + second =~= first + tail);
    lemma_decode_split(first, tail);
    assert(decode(first).rest + tail =~= tail);
    assert(tail =~= head + second.skip(seen));
    lemma_decode_split(head, second.skip(seen));
    assert(second.take(seen) + second.skip(seen) =~= second);
    assert(decode(head).frames =~= Seq::empty());
    assert(decode(first).frames + (decode(head).frames + decode(second).frames) =~= decode(
        first,
    ).frames + decode(second).frames);
}

/// The offset at which the parser names a fault in `buf`, where its outcome
/// on `buf` is a fault and is settled.
pub open spec fn settled_fault(buf: Seq<u8>) -> Option<int> {
    if settled(buf) && conclusive(buf, json_scan(buf)) {
        match json_scan(buf) {
            Scan::Malformed { line, column } => offset_of(buf, line as nat, column as nat),
            _ => None,
        }
    } else {
        None
    }
}

/// A frame that was cut short and is found out by the opening byte of what
/// follows costs what follows nothing.
///
/// The decoder holds `cut + rest`, and the parser names a settled fault one
/// past the first byte of `rest`, which opens a value. Then `cut` is dropped
/// and counted as one fault, and decoding goes on with `rest`, untouched.
pub proof fn lemma_cut_frame_spares_the_next(cut: Seq<u8>, rest: Seq<u8>)
    requires
        cut.len() > 0,
        rest.len() > 0,
        opens_value(rest[0]),
        cut.len() < usize::MAX,
        settled_fault(cut + rest) == Some(cut.len() as int + 1),
    ensures
        decode(cut + rest).frames == decode(rest).frames,
        decode(cut + rest).rest == decode(rest).rest,
        decode(cut + rest).faults == decode(rest).faults + 1,
{
    let buf = cut + rest;
    assert(buf[cut.len() as int] == rest[0]);
    assert(step(buf) == Step::Skip { len: cut.len() as usize });
    assert(buf.skip(cut.len() as int) =~= rest);
}

/// Decides what to do with `buf`, given the outcome `scan` of scanning it.
pub fn classify(buf: &[u8], scan: Scan) -> (s: Step)
    ensures
        s == verdict(buf@, scan),
{
    match scan {
        Scan::Value { value, end } => {
            if 0 < end && end <= buf.len() {
                let last: u8 = buf[end - 1];
                if end < buf.len() || last == 0x22 || last == 0x5d || last == 0x7d {
                    Step::Emit { value, len: end }
                } else {
                    Step::Wait
                }
            } else {
                Step::Wait
            }
        },
        Scan::Malformed { line, column } => match locate(buf, line, column) {
            Some(at) => if at >= buf.len() {
                Step::Wait
            } else if at <= 1 {
                Step::Skip { len: 1 }
            } else {
                let blamed: u8 = buf[at - 1];
                if blamed == 0x22 || blamed == 0x5b || blamed == 0x7b {
                    Step::Skip { len: at - 1 }
                } else {
                    Step::Skip { len: at }
                }
            },
            None => Step::Wait,
        },
        _ => Step::Wait,
    }
}

/// Scans `buf` and decides what to do with it.
pub fn decide(buf: &[u8]) -> (s: Step)
    ensures
        s == step(buf@),
{
    let scan = scan_prefix(buf);
    classify(buf, scan)
}

/// A streaming decoder of JSON values.
///
/// Bytes go in with [`FrameDecoder::push`], in chunks of any size; values
/// come out with [`FrameDecoder::next_frame`], which answers `None` when the
/// bytes held so far do not settle what comes next.
pub struct FrameDecoder {
    buf: Vec<u8>,
    faults: u64,
}

impl View for FrameDecoder {
    type V = Seq<u8>;

    /// The bytes taken in and not yet accounted for.
    closed spec fn view(&self) -> Seq<u8> {
        self.buf@
    }
}

impl FrameDecoder {
    /// The number of faults passed over so far, capped at `u64::MAX`.
    pub closed spec fn tally(&self) -> nat {
        self.faults as nat
    }

    /// A decoder that holds no bytes and has seen no fault.
    pub fn new() -> (d: FrameDecoder)
        ensures
            d@ == Seq::<u8>::empty(),
            d.tally() == 0,
    {
        FrameDecoder { buf: Vec::new(), faults: 0 }
    }

    /// The number of bytes held.
    pub fn pending(&self) -> (n: usize)
        ensures
            n == self@.len(),
    {
        self.buf.len()
    }

    /// The number of faults passed over so far.
    pub fn faults(&self) -> (n: u64)
        ensures
            n == self.tally(),
    {
        self.faults
    }

    /// Takes in the next bytes of the stream.
    pub fn push(&mut self, chunk: &[u8])
        ensures
            final(self)@ == old(self)@ + chunk@,
            final(self).tally() == old(self).tally(),
    {
        let mut i: usize = 0;
        while i < chunk.len()
            invariant
                i <= chunk.len(),
                self.buf@ == old(self).buf@ + chunk@.take(i as int),
                self.faults == old(self).faults,
            decreases chunk.len() - i,
        {
            self.buf.push(chunk[i]);
            i = i + 1;
            assert(chunk@.take(i as int) == chunk@.take(i - 1).push(chunk@[i - 1]));
        }
        assert(chunk@.take(i as int) == chunk@);
    }

    /// Hands out the next frame, or `None` if more bytes are needed first.
    /// Faults met on the way are counted and their bytes dropped.
    pub fn next_frame(&mut self) -> (frame: Option<serde_json::Value>)
        ensures
            frame == pull(old(self)@).frame,
            final(self)@ == pull(old(self)@).rest,
            final(self).tally() == capped(old(self).tally() + pull(old(self)@).faults),
    {
        let ghost mut passed: nat = 0;
        loop
            invariant
                pull(old(self)@).frame == pull(self@).frame,
                pull(old(self)@).rest == pull(self@).rest,
                pull(old(self)@).faults == passed + pull(self@).faults,
                self.tally() == capped(old(self).tally() + passed),
            decreases self@.len(),
        {
            proof {
                lemma_step_advances(self@);
            }
            match decide(self.buf.as_slice()) {
                Step::Wait => {
                    return None;
                },
                Step::Skip { len } => {
                    let rest = self.buf.split_off(len);
                    self.buf = rest;
                    self.faults = self.faults.saturating_add(1);
                    proof {
                        passed = passed + 1;
                    }
                },
                Step::Emit { value, len } => {
                    let rest = self.buf.split_off(len);
                    self.buf = rest;
                    return Some(value);
                },
            }
        }
    }

    /// Takes in the next bytes of the stream and hands out every frame that
    /// the bytes held now settle.
    pub fn feed(&mut self, chunk: &[u8]) -> (frames: Vec<serde_json::Value>)
        ensures
            frames@ == decode(old(self)@ + chunk@).frames,
            final(self)@ == decode(old(self)@ + chunk@).rest,
            final(self).tally() == capped(
                old(self).tally() + decode(old(self)@ + chunk@).faults,
            ),
    {
        self.push(chunk);
        let ghost all = self@;
        let ghost mut passed: nat = 0;
        let mut frames: Vec<serde_json::Value> = Vec::new();
        loop
            invariant
                all == old(self)@ + chunk@,
                decode(all).frames == frames@ + decode(self@).frames,
                decode(all).rest == decode(self@).rest,
                decode(all).faults == passed + decode(self@).faults,
                self.tally() == capped(old(self).tally() + passed),
            decreases self@.len(),
        {
            let ghost held = self@;
            proof {
                lemma_decode_unfolds(held);
                passed = passed + pull(held).faults;
            }
            match self.next_frame() {
                Some(value) => {
                    assert(frames@.push(value) + decode(self@).frames == frames@ + decode(
                        held,
                    ).frames);
                    frames.push(value);
                },
                None => {
                    assert(frames@ + decode(held).frames == frames@);
                    return frames;
                },
            }
        }
    }
}

} // verus!
