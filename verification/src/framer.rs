//! The line framer: from a stream of bytes to lines of text.
//!
//! Bytes are collected until a line feed arrives. The bytes collected up to
//! it, the line feed included, are then read as UTF-8. Where they are, the
//! bytes in front of the separator (`\r\n`, or the line feed alone) are the
//! line. Where they are not, the frame is a fault: its bytes are given up, and
//! those of them that are ASCII are kept for the report. Either way the
//! framer starts afresh behind the line feed.
//!
//! `frames` and `rest` say what a framer makes of any input, cut at its line
//! feeds; `push_byte` and `feed` compute it byte by byte and slice by slice.

use vstd::prelude::*;
use vstd::utf8::{
    decode_utf8, encode_utf8, encode_utf8_decode_utf8, encode_utf8_valid_utf8, is_ascii_chars,
    is_ascii_chars_encode_utf8, is_char_boundary_iff_not_is_continuation_byte, valid_utf8,
    valid_utf8_concat, valid_utf8_split,
};

verus! {

/// The byte that ends a frame.
pub const LINE_FEED: u8 = 0x0A;

/// The byte that may stand in front of the line feed as part of the
/// separator.
pub const CARRIAGE_RETURN: u8 = 0x0D;

/// Model of a completed frame.
pub enum FrameView {
    /// The frame was text; this is the line in front of the separator.
    Line(Seq<char>),
    /// The frame was no text; these are its ASCII bytes, as characters.
    Fault(Seq<char>),
}

/// A completed frame.
#[derive(Clone, Debug, PartialEq, Eq)]
pub enum Frame {
    /// The frame was text; this is the line in front of the separator.
    Line(String),
    /// The frame was no text; these are its ASCII bytes, as characters.
    Fault(String),
}

impl View for Frame {
    type V = FrameView;

    open spec fn view(&self) -> FrameView {
        match self {
            Frame::Line(text) => FrameView::Line(text@),
            Frame::Fault(text) => FrameView::Fault(text@),
        }
    }
}

impl DeepView for Frame {
    type V = FrameView;

    open spec fn deep_view(&self) -> FrameView {
        self@
    }
}

/// Whether `bytes` holds no line feed.
pub open spec fn no_line_feed(bytes: Seq<u8>) -> bool {
    forall|i: int| 0 <= i < bytes.len() ==> #[trigger] bytes[i] != LINE_FEED
}

/// The bytes of `run` that are in front of the separator, `run` being the
/// bytes in front of the line feed: all of them, but for a carriage return at
/// their end.
pub open spec fn line_bytes(run: Seq<u8>) -> Seq<u8> {
    if run.len() > 0 && run.last() == CARRIAGE_RETURN {
        run.drop_last()
    } else {
        run
    }
}

/// The ASCII bytes among `bytes`, in order.
pub open spec fn ascii_only(bytes: Seq<u8>) -> Seq<u8> {
    bytes.filter(|b: u8| b < 0x80)
}

/// The ASCII bytes among `bytes`, in order, as characters.
pub open spec fn printable(bytes: Seq<u8>) -> Seq<char> {
    ascii_only(bytes).map_values(|b: u8| b as char)
}

/// The frame that a line feed completes, `run` being the bytes collected in
/// front of it.
pub open spec fn frame_of(run: Seq<u8>) -> FrameView {
    if valid_utf8(run.push(LINE_FEED)) {
        FrameView::Line(decode_utf8(line_bytes(run)))
    } else {
        FrameView::Fault(printable(run.push(LINE_FEED)))
    }
}

/// The index of the first line feed in `input`; the length of `input` where
/// it holds none.
pub open spec fn line_end(input: Seq<u8>) -> int
    decreases input.len(),
{
    if input.len() == 0 || input[0] == LINE_FEED {
        0
    } else {
        1 + line_end(input.skip(1))
    }
}

/// The frames that `input` completes for a framer that holds `pending`, in
/// order: `input` is cut at its line feeds, and the first cut continues
/// `pending`.
pub open spec fn frames(pending: Seq<u8>, input: Seq<u8>) -> Seq<FrameView>
    decreases input.len(),
{
    let end = line_end(input);
    if 0 <= end < input.len() {
        seq![frame_of(pending + input.take(end))] + frames(Seq::empty(), input.skip(end + 1))
    } else {
        Seq::empty()
    }
}

/// The bytes that a framer that held `pending` holds after `input`: what
/// follows the last line feed, and `pending` in front of it where `input`
/// holds no line feed.
pub open spec fn rest(pending: Seq<u8>, input: Seq<u8>) -> Seq<u8>
    decreases input.len(),
{
    let end = line_end(input);
    if 0 <= end < input.len() {
        rest(Seq::empty(), input.skip(end + 1))
    } else {
        pending + input
    }
}

/// The lines among `frames`, in order.
pub open spec fn lines_of(frames: Seq<FrameView>) -> Seq<Seq<char>>
    decreases frames.len(),
{
    if frames.len() == 0 {
        Seq::empty()
    } else {
        match frames.last() {
            FrameView::Line(text) => lines_of(frames.drop_last()).push(text),
            FrameView::Fault(_) => lines_of(frames.drop_last()),
        }
    }
}

/// `line_end` finds the first line feed: it lies within `input`, no byte in
/// front of it is a line feed, and the byte at it is one unless `input` holds
/// none.
pub proof fn lemma_line_end(input: Seq<u8>)
    ensures
        0 <= line_end(input) <= input.len(),
        no_line_feed(input.take(line_end(input))),
        line_end(input) < input.len() ==> input[line_end(input)] == LINE_FEED,
        no_line_feed(input) <==> line_end(input) == input.len(),
    decreases input.len(),
{
    if input.len() == 0 || input[0] == LINE_FEED {
    } else {
        let tail = input.skip(1);
        lemma_line_end(tail);
        let end = line_end(input);
        assert forall|i: int| 0 <= i < end implies #[trigger] input.take(end)[i] != LINE_FEED by {
            if i > 0 {
                assert(tail.take(end - 1)[i - 1] == input[i]);
            }
        }
        if no_line_feed(input) {
            assert forall|i: int| 0 <= i < tail.len() implies #[trigger] tail[i]
                != LINE_FEED by {
                assert(input[i + 1] != LINE_FEED);
            }
        }
        if line_end(input) == input.len() {
            assert forall|i: int| 0 <= i < input.len() implies #[trigger] input[i]
                != LINE_FEED by {
                if i > 0 {
                    assert(tail[i - 1] == input[i]);
                }
            }
        }
    }
}

/// The first line feed of two inputs in a row is that of the first, and that
/// of the second where the first holds none.
pub proof fn lemma_line_end_concat(first: Seq<u8>, second: Seq<u8>)
    ensures
        line_end(first + second) == if line_end(first) < first.len() {
            line_end(first)
        } else {
            first.len() + line_end(second)
        },
    decreases first.len(),
{
    if first.len() == 0 {
        assert(first + second =~= second);
    } else if first[0] == LINE_FEED {
    } else {
        lemma_line_end_concat(first.skip(1), second);
        assert((first + second).skip(1) =~= first.skip(1) + second);
    }
}

/// Cutting the input anywhere changes nothing: what a framer makes of two
/// inputs given one after the other is what it makes of both given as one.
pub proof fn lemma_chunking(pending: Seq<u8>, first: Seq<u8>, second: Seq<u8>)
    ensures
        frames(pending, first + second) == frames(pending, first) + frames(
            rest(pending, first),
            second,
        ),
        rest(pending, first + second) == rest(rest(pending, first), second),
    decreases first.len(),
{
    let whole = first + second;
    lemma_line_end(first);
    lemma_line_end(second);
    lemma_line_end_concat(first, second);
    let end = line_end(first);
    if end < first.len() {
        let tail = first.skip(end + 1);
        lemma_chunking(Seq::empty(), tail, second);
        assert(whole.take(end) =~= first.take(end));
        assert(whole.skip(end + 1) =~= tail + second);
        assert(frames(pending, whole) =~= frames(pending, first) + frames(
            rest(pending, first),
            second,
        ));
    } else {
        let cut = line_end(second);
        assert(frames(pending, first) =~= Seq::<FrameView>::empty());
        if cut < second.len() {
            assert(pending + whole.take(first.len() as int + cut) =~= (pending + first)
                + second.take(cut));
            assert(whole.skip(first.len() as int + cut + 1) =~= second.skip(cut + 1));
            assert(frames(pending, whole) =~= frames(pending + first, second));
        } else {
            assert(pending + whole =~= (pending + first) + second);
        }
    }
}

/// A framer has forgotten everything in front of a line feed: what follows
/// the line feed is framed as by a framer that holds nothing.
pub proof fn lemma_fresh_after_line_feed(pending: Seq<u8>, run: Seq<u8>, next: Seq<u8>)
    requires
        no_line_feed(run),
    ensures
        frames(pending, run.push(LINE_FEED) + next) == seq![frame_of(pending + run)] + frames(
            Seq::empty(),
            next,
        ),
        rest(pending, run.push(LINE_FEED) + next) == rest(Seq::empty(), next),
{
    let input = run.push(LINE_FEED) + next;
    lemma_line_end(run);
    lemma_line_end(seq![LINE_FEED] + next);
    lemma_line_end_concat(run, seq![LINE_FEED] + next);
    assert(input =~= run + (seq![LINE_FEED] + next));
    assert(line_end(seq![LINE_FEED] + next) == 0);
    assert(input.take(run.len() as int) =~= run);
    assert(input.skip(run.len() as int + 1) =~= next);
}

/// A run of bytes that is no text yields no line and does not disturb what
/// follows: together with the line feed behind it, it adds one fault and no
/// line to the frames, and the bytes behind it are framed as by a framer that
/// holds nothing.
pub proof fn lemma_fault_isolation(pending: Seq<u8>, run: Seq<u8>, next: Seq<u8>)
    requires
        no_line_feed(run),
        !valid_utf8((pending + run).push(LINE_FEED)),
    ensures
        frames(pending, run.push(LINE_FEED)) == seq![
            FrameView::Fault(printable((pending + run).push(LINE_FEED))),
        ],
        lines_of(frames(pending, run.push(LINE_FEED))) == Seq::<Seq<char>>::empty(),
        rest(pending, run.push(LINE_FEED)) == Seq::<u8>::empty(),
        frames(pending, run.push(LINE_FEED) + next) == seq![
            FrameView::Fault(printable((pending + run).push(LINE_FEED))),
        ] + frames(Seq::empty(), next),
        lines_of(frames(pending, run.push(LINE_FEED) + next)) == lines_of(
            frames(Seq::empty(), next),
        ),
        rest(pending, run.push(LINE_FEED) + next) == rest(Seq::empty(), next),
{
    let fault = FrameView::Fault(printable((pending + run).push(LINE_FEED)));
    lemma_fresh_after_line_feed(pending, run, next);
    lemma_fresh_after_line_feed(pending, run, Seq::empty());
    assert(run.push(LINE_FEED) + Seq::<u8>::empty() =~= run.push(LINE_FEED));
    assert(frames(pending, run.push(LINE_FEED)) =~= seq![fault]);
    lemma_lines_of_concat(seq![fault], frames(Seq::empty(), next));
    reveal_with_fuel(lines_of, 2);
    assert(seq![fault].drop_last() =~= Seq::<FrameView>::empty());
    assert(lines_of(seq![fault]) =~= Seq::<Seq<char>>::empty());
    assert(Seq::<Seq<char>>::empty() + lines_of(frames(Seq::empty(), next)) =~= lines_of(
        frames(Seq::empty(), next),
    ));
}

/// The lines among two runs of frames are those of the first run, then those
/// of the second.
pub proof fn lemma_lines_of_concat(first: Seq<FrameView>, second: Seq<FrameView>)
    ensures
        lines_of(first + second) == lines_of(first) + lines_of(second),
    decreases second.len(),
{
    if second.len() == 0 {
        assert(first + second =~= first);
        assert(lines_of(first) + lines_of(second) =~= lines_of(first));
    } else {
        lemma_lines_of_concat(first, second.drop_last());
        assert((first + second).drop_last() =~= first + second.drop_last());
        assert((first + second).last() == second.last());
        assert(lines_of(first + second) =~= lines_of(first) + lines_of(second));
    }
}

/// The lines do not depend on where the input is cut either.
pub proof fn lemma_chunking_lines(pending: Seq<u8>, first: Seq<u8>, second: Seq<u8>)
    ensures
        lines_of(frames(pending, first + second)) == lines_of(frames(pending, first)) + lines_of(
            frames(rest(pending, first), second),
        ),
{
    lemma_chunking(pending, first, second);
    lemma_lines_of_concat(frames(pending, first), frames(rest(pending, first), second));
}

/// The runs of bytes that `input` completes for a framer that holds
/// `pending`, in order: each is what stands between two line feeds, and the
/// first continues `pending`.
pub open spec fn runs(pending: Seq<u8>, input: Seq<u8>) -> Seq<Seq<u8>>
    decreases input.len(),
{
    let end = line_end(input);
    if 0 <= end < input.len() {
        seq![pending + input.take(end)] + runs(Seq::empty(), input.skip(end + 1))
    } else {
        Seq::empty()
    }
}

/// `runs`, a line feed behind each, as one sequence of bytes.
pub open spec fn with_line_feeds(runs: Seq<Seq<u8>>) -> Seq<u8>
    decreases runs.len(),
{
    if runs.len() == 0 {
        Seq::empty()
    } else {
        runs.first().push(LINE_FEED) + with_line_feeds(runs.drop_first())
    }
}

/// There is one frame for each completed run, and it is the frame of that
/// run.
pub proof fn lemma_frame_per_run(pending: Seq<u8>, input: Seq<u8>)
    ensures
        frames(pending, input).len() == runs(pending, input).len(),
        forall|k: int|
            0 <= k < runs(pending, input).len() ==> #[trigger] frames(pending, input)[k]
                == frame_of(runs(pending, input)[k]),
    decreases input.len(),
{
    lemma_line_end(input);
    let end = line_end(input);
    if end < input.len() {
        let tail = input.skip(end + 1);
        lemma_frame_per_run(Seq::empty(), tail);
        assert forall|k: int| 0 <= k < runs(pending, input).len() implies #[trigger] frames(
            pending,
            input,
        )[k] == frame_of(runs(pending, input)[k]) by {
            if k > 0 {
                assert(frames(pending, input)[k] == frames(Seq::empty(), tail)[k - 1]);
                assert(runs(pending, input)[k] == runs(Seq::empty(), tail)[k - 1]);
            }
        }
    }
}

/// No byte is lost and none is framed twice: the completed runs with their
/// line feeds, and behind them the bytes that the framer still holds, are
/// the bytes that it held and the input, byte for byte.
pub proof fn lemma_no_byte_lost(pending: Seq<u8>, input: Seq<u8>)
    ensures
        with_line_feeds(runs(pending, input)) + rest(pending, input) == pending + input,
    decreases input.len(),
{
    lemma_line_end(input);
    let end = line_end(input);
    if end < input.len() {
        let tail = input.skip(end + 1);
        let first = pending + input.take(end);
        lemma_no_byte_lost(Seq::empty(), tail);
        assert(runs(pending, input).first() == first);
        assert(runs(pending, input).drop_first() =~= runs(Seq::empty(), tail));
        assert(Seq::<u8>::empty() + tail =~= tail);
        assert(first.push(LINE_FEED) + tail =~= pending + input);
        assert(with_line_feeds(runs(pending, input)) + rest(pending, input) =~= first.push(
            LINE_FEED,
        ) + (with_line_feeds(runs(Seq::empty(), tail)) + rest(Seq::empty(), tail)));
    } else {
        assert(Seq::<u8>::empty() + (pending + input) =~= pending + input);
    }
}

/// No completed run holds a line feed, if the framer held none.
pub proof fn lemma_runs_hold_no_line_feed(pending: Seq<u8>, input: Seq<u8>)
    requires
        no_line_feed(pending),
    ensures
        forall|k: int|
            0 <= k < runs(pending, input).len() ==> no_line_feed(
                #[trigger] runs(pending, input)[k],
            ),
    decreases input.len(),
{
    lemma_line_end(input);
    let end = line_end(input);
    if end < input.len() {
        let tail = input.skip(end + 1);
        lemma_runs_hold_no_line_feed(Seq::empty(), tail);
        let first = pending + input.take(end);
        assert(no_line_feed(first)) by {
            assert forall|i: int| 0 <= i < first.len() implies #[trigger] first[i]
                != LINE_FEED by {
                if i >= pending.len() {
                    assert(input.take(end)[i - pending.len()] != LINE_FEED);
                } else {
                    assert(pending[i] != LINE_FEED);
                }
            }
        }
        assert forall|k: int| 0 <= k < runs(pending, input).len() implies no_line_feed(
            #[trigger] runs(pending, input)[k],
        ) by {
            if k > 0 {
                assert(runs(pending, input)[k] == runs(Seq::empty(), tail)[k - 1]);
            }
        }
    }
}

/// A line holds exactly the bytes in front of its separator: encoded again,
/// it gives them back.
pub proof fn lemma_line_keeps_its_bytes(run: Seq<u8>)
    requires
        valid_utf8(run.push(LINE_FEED)),
    ensures
        frame_of(run) == FrameView::Line(decode_utf8(line_bytes(run))),
        encode_utf8(decode_utf8(line_bytes(run))) == line_bytes(run),
{
    lemma_separator_is_text(run);
    vstd::utf8::decode_utf8_encode_utf8(line_bytes(run));
}

/// A framer never holds a line feed.
pub proof fn lemma_rest_no_line_feed(pending: Seq<u8>, input: Seq<u8>)
    requires
        no_line_feed(pending),
    ensures
        no_line_feed(rest(pending, input)),
    decreases input.len(),
{
    lemma_line_end(input);
    let end = line_end(input);
    if end < input.len() {
        lemma_rest_no_line_feed(Seq::empty(), input.skip(end + 1));
    } else {
    }
}

/// The separator does not decide whether a frame is text: the bytes with the
/// line feed are UTF-8 exactly if the bytes in front of the separator are.
pub proof fn lemma_separator_is_text(run: Seq<u8>)
    ensures
        valid_utf8(run.push(LINE_FEED)) <==> valid_utf8(line_bytes(run)),
        valid_utf8(run.push(LINE_FEED)) <==> valid_utf8(run),
{
    let buffer = run.push(LINE_FEED);
    lemma_ascii_tail_is_text(buffer, line_bytes(run).len() as int);
    lemma_ascii_tail_is_text(buffer, run.len() as int);
    assert(buffer.subrange(0, line_bytes(run).len() as int) =~= line_bytes(run));
    assert(buffer.subrange(0, run.len() as int) =~= run);
}

/// ASCII bytes at the end of `bytes` do not decide whether `bytes` is text:
/// if all bytes from index `cut` on are ASCII, `bytes` is UTF-8 exactly if
/// the bytes in front of `cut` are.
pub proof fn lemma_ascii_tail_is_text(bytes: Seq<u8>, cut: int)
    requires
        0 <= cut <= bytes.len(),
        forall|i: int| cut <= i < bytes.len() ==> #[trigger] bytes[i] < 0x80,
    ensures
        valid_utf8(bytes) <==> valid_utf8(bytes.subrange(0, cut)),
{
    let head = bytes.subrange(0, cut);
    let tail = bytes.subrange(cut, bytes.len() as int);
    assert(bytes =~= head + tail);
    lemma_ascii_is_text(tail);
    if valid_utf8(head) {
        valid_utf8_concat(head, tail);
    }
    if valid_utf8(bytes) {
        if cut < bytes.len() {
            assert(bytes[cut] < 0x80);
            is_char_boundary_iff_not_is_continuation_byte(bytes, cut);
            valid_utf8_split(bytes, cut);
        } else {
            assert(head =~= bytes);
        }
    }
}

/// Bytes that are all ASCII are text, each byte one character.
pub proof fn lemma_ascii_is_text(bytes: Seq<u8>)
    requires
        forall|i: int| 0 <= i < bytes.len() ==> #[trigger] bytes[i] < 0x80,
    ensures
        valid_utf8(bytes),
        decode_utf8(bytes) == bytes.map_values(|b: u8| b as char),
{
    let chars = bytes.map_values(|b: u8| b as char);
    assert(is_ascii_chars(chars)) by {
        assert forall|i: int| 0 <= i < chars.len() implies '\0' <= #[trigger] chars[i]
            <= '\u{7f}' by {
            assert(bytes[i] < 0x80);
        }
    }
    is_ascii_chars_encode_utf8(chars);
    assert(encode_utf8(chars) =~= bytes) by {
        assert forall|i: int| 0 <= i < bytes.len() implies encode_utf8(chars)[i] == bytes[i] by {
            assert(chars[i] as u8 == encode_utf8(chars)[i]);
            assert(bytes[i] < 0x80);
        }
    }
    encode_utf8_valid_utf8(chars);
    encode_utf8_decode_utf8(chars);
}

/// Reads `bytes` as UTF-8 with `std::str::from_utf8` and copies the text into
/// a `String`. Taken on trust of `from_utf8`: it accepts exactly the byte
/// sequences that are well-formed UTF-8, and the text that it gives holds the
/// bytes that it was given.
#[verifier::external_body]
fn decode_text(bytes: &[u8]) -> (text: Option<String>)
    ensures
        text is Some <==> valid_utf8(bytes@),
        text matches Some(t) ==> encode_utf8(t@) == bytes@,
{
    match std::str::from_utf8(bytes) {
        Ok(text) => Some(text.to_owned()),
        Err(_) => None,
    }
}

/// The ASCII bytes among `bytes`, in order.
fn ascii_bytes(bytes: &[u8]) -> (kept: Vec<u8>)
    ensures
        kept@ == ascii_only(bytes@),
{
    let mut kept: Vec<u8> = Vec::new();
    let mut i: usize = 0;
    proof {
        reveal(Seq::filter);
        assert(bytes@.take(0) =~= Seq::<u8>::empty());
    }
    while i < bytes.len()
        invariant
            i <= bytes.len(),
            kept@ == ascii_only(bytes@.take(i as int)),
        decreases bytes.len() - i,
    {
        proof {
            reveal(Seq::filter);
            assert(bytes@.take(i + 1).drop_last() =~= bytes@.take(i as int));
        }
        if bytes[i] < 0x80 {
            kept.push(bytes[i]);
        }
        i = i + 1;
    }
    assert(bytes@.take(bytes.len() as int) =~= bytes@);
    kept
}

/// The line framer: the bytes that arrived behind the last line feed.
#[derive(Debug)]
pub struct LineFramer {
    buffer: Vec<u8>,
}

impl View for LineFramer {
    type V = Seq<u8>;

    closed spec fn view(&self) -> Seq<u8> {
        self.buffer@
    }
}

impl LineFramer {
    #[verifier::type_invariant]
    spec fn inv(&self) -> bool {
        no_line_feed(self.buffer@)
    }

    /// A framer that holds nothing.
    pub fn new() -> (framer: LineFramer)
        ensures
            framer@ == Seq::<u8>::empty(),
    {
        LineFramer { buffer: Vec::new() }
    }

    /// The number of bytes that wait for their line feed.
    pub fn pending(&self) -> (n: usize)
        ensures
            n == self@.len(),
            no_line_feed(self@),
    {
        proof {
            use_type_invariant(self);
        }
        self.buffer.len()
    }

    /// Takes one byte. A line feed completes a frame, which is returned, and
    /// empties the framer; any other byte is kept and completes nothing.
    pub fn push_byte(&mut self, byte: u8) -> (frame: Option<Frame>)
        ensures
            byte == LINE_FEED ==> (frame matches Some(f) && f@ == frame_of(old(self)@)),
            byte == LINE_FEED ==> final(self)@ == Seq::<u8>::empty(),
            byte != LINE_FEED ==> frame is None && final(self)@ == old(self)@.push(byte),
            final(self)@ == rest(old(self)@, seq![byte]),
            match frame {
                Some(f) => frames(old(self)@, seq![byte]) == seq![f@],
                None => frames(old(self)@, seq![byte]) == Seq::<FrameView>::empty(),
            },
    {
        proof {
            use_type_invariant(&*self);
            reveal_with_fuel(line_end, 2);
            reveal_with_fuel(frames, 2);
            reveal_with_fuel(rest, 2);
            assert(seq![byte].skip(1) =~= Seq::<u8>::empty());
            assert(seq![byte].take(0) =~= Seq::<u8>::empty());
            assert(old(self)@ + Seq::<u8>::empty() =~= old(self)@);
            assert(old(self)@ + seq![byte] =~= old(self)@.push(byte));
            assert(Seq::<u8>::empty() + Seq::<u8>::empty() =~= Seq::<u8>::empty());
        }
        let mut run: Vec<u8> = Vec::new();
        std::mem::swap(&mut self.buffer, &mut run);
        if byte != LINE_FEED {
            run.push(byte);
            std::mem::swap(&mut self.buffer, &mut run);
            return None;
        }
        let n: usize = run.len();
        let cut: usize = if n > 0 && run[n - 1] == CARRIAGE_RETURN {
            n - 1
        } else {
            n
        };
        let body = vstd::slice::slice_subrange(run.as_slice(), 0, cut);
        assert(body@ =~= line_bytes(run@));
        proof {
            lemma_separator_is_text(run@);
        }
        let frame = match decode_text(body) {
            Some(text) => {
                proof {
                    encode_utf8_decode_utf8(text@);
                }
                Frame::Line(text)
            },
            None => {
                run.push(LINE_FEED);
                let kept = ascii_bytes(run.as_slice());
                proof {
                    lemma_filter_keeps(run@);
                    lemma_ascii_is_text(kept@);
                }
                let text = decode_text(kept.as_slice()).unwrap();
                proof {
                    encode_utf8_decode_utf8(text@);
                }
                Frame::Fault(text)
            },
        };
        assert(seq![frame@] + Seq::<FrameView>::empty() =~= seq![frame@]);
        Some(frame)
    }

    /// Takes a slice of bytes and returns the frames that it completes, in
    /// order.
    pub fn feed(&mut self, bytes: &[u8]) -> (completed: Vec<Frame>)
        ensures
            completed.deep_view() == frames(old(self)@, bytes@),
            final(self)@ == rest(old(self)@, bytes@),
    {
        let ghost start = self@;
        let mut completed: Vec<Frame> = Vec::new();
        let mut i: usize = 0;
        proof {
            assert(bytes@.take(0) =~= Seq::<u8>::empty());
            assert(completed.deep_view() =~= frames(start, bytes@.take(0)));
            assert(start + Seq::<u8>::empty() =~= start);
        }
        while i < bytes.len()
            invariant
                i <= bytes.len(),
                completed.deep_view() == frames(start, bytes@.take(i as int)),
                self@ == rest(start, bytes@.take(i as int)),
            decreases bytes.len() - i,
        {
            let ghost before = completed.deep_view();
            proof {
                lemma_chunking(start, bytes@.take(i as int), seq![bytes@[i as int]]);
                assert(bytes@.take(i + 1) =~= bytes@.take(i as int) + seq![bytes@[i as int]]);
            }
            match self.push_byte(bytes[i]) {
                Some(frame) => {
                    completed.push(frame);
                    assert(completed.deep_view() =~= before + seq![frame@]);
                },
                None => {
                    assert(before + Seq::<FrameView>::empty() =~= before);
                },
            }
            i = i + 1;
        }
        assert(bytes@.take(bytes.len() as int) =~= bytes@);
        completed
    }
}

/// The lines among `frames`, in order; the faults are left out.
pub fn collect_lines(frames: Vec<Frame>) -> (lines: Vec<String>)
    ensures
        lines.deep_view() == lines_of(frames.deep_view()),
{
    let ghost all = frames.deep_view();
    let mut lines: Vec<String> = Vec::new();
    let mut frames = frames;
    let mut reversed: Vec<String> = Vec::new();
    assert(reversed.deep_view() =~= Seq::<Seq<char>>::empty());
    while frames.len() > 0
        invariant
            frames.deep_view().len() <= all.len(),
            lines_of(all) == lines_of(frames.deep_view()) + reversed.deep_view().reverse(),
        decreases frames.len(),
    {
        let ghost before = frames.deep_view();
        let ghost kept = reversed.deep_view();
        let last = frames.pop();
        assert(frames.deep_view() =~= before.drop_last());
        match last {
            Some(Frame::Line(text)) => {
                reversed.push(text);
                assert(reversed.deep_view() =~= kept.push(text@));
                assert(reversed.deep_view().reverse() =~= seq![text@] + kept.reverse());
                assert(lines_of(before) + kept.reverse() =~= lines_of(before.drop_last()) + (
                seq![text@] + kept.reverse()));
            },
            _ => {},
        }
    }
    assert(lines_of(all) =~= reversed.deep_view().reverse());
    assert(lines.deep_view() =~= Seq::<Seq<char>>::empty());
    while reversed.len() > 0
        invariant
            lines_of(all) == lines.deep_view() + reversed.deep_view().reverse(),
        decreases reversed.len(),
    {
        let ghost before = reversed.deep_view();
        let ghost done = lines.deep_view();
        let last = reversed.pop();
        assert(reversed.deep_view() =~= before.drop_last());
        match last {
            Some(text) => {
                lines.push(text);
                assert(lines.deep_view() =~= done.push(text@));
                assert(before.reverse() =~= seq![text@] + before.drop_last().reverse());
                assert(done + before.reverse() =~= done.push(text@)
                    + before.drop_last().reverse());
            },
            None => {},
        }
    }
    assert(lines_of(all) =~= lines.deep_view());
    lines
}

/// What the filter for ASCII bytes keeps is ASCII.
proof fn lemma_filter_keeps(bytes: Seq<u8>)
    ensures
        forall|i: int| 0 <= i < ascii_only(bytes).len() ==> #[trigger] ascii_only(bytes)[i] < 0x80,
    decreases bytes.len(),
{
    reveal(Seq::filter);
    if bytes.len() > 0 {
        lemma_filter_keeps(bytes.drop_last());
    }
}

} // verus!
