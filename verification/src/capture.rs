//! Capture of a target's console output: the bytes that arrive are scanned
//! for one of several terminating markers, under a ceiling on the total size.

use vstd::prelude::*;
use vstd::slice::slice_subrange;

use crate::text::byte_views;

verus! {

/// A multi-pattern matcher of the `aho-corasick` crate. Its type is generic
/// over a trait of that crate, so the matcher is kept behind this struct.
#[verifier::external_body]
pub struct Matcher {
    inner: aho_corasick::AhoCorasick,
}

/// The patterns that a matcher was built from, in the order given.
pub uninterp spec fn patterns_of(matcher: Matcher) -> Seq<Seq<u8>>;

/// Whether an occurrence of one of `patterns` ends at offset `end` of `hay`.
pub open spec fn match_ends_at(patterns: Seq<Seq<u8>>, hay: Seq<u8>, end: int) -> bool {
    &&& 0 <= end <= hay.len()
    &&& exists|p: int|
        0 <= p < patterns.len() && (#[trigger] patterns[p]).len() <= end && hay.subrange(
            end - patterns[p].len(),
            end,
        ) == patterns[p]
}

/// Whether no occurrence of one of `patterns` ends before offset `end` of
/// `hay`.
pub open spec fn no_match_before(patterns: Seq<Seq<u8>>, hay: Seq<u8>, end: int) -> bool {
    forall|e: int| 0 <= e < end ==> !match_ends_at(patterns, hay, e)
}

/// Length of the longest of `patterns`; zero if there is none.
pub open spec fn longest_len(patterns: Seq<Seq<u8>>) -> nat
    decreases patterns.len(),
{
    if patterns.len() == 0 {
        0
    } else {
        let rest = longest_len(patterns.drop_last());
        if patterns.last().len() > rest {
            patterns.last().len()
        } else {
            rest
        }
    }
}

/// `AhoCorasickBuilder::new().build(..)`: a matcher with the crate's default
/// settings (standard match semantics, case-sensitive, unanchored) for the
/// given patterns.
#[verifier::external_body]
fn build_matcher(markers: &Vec<Vec<u8>>) -> (matcher: Matcher)
    ensures
        patterns_of(matcher) == byte_views(markers@),
{
    Matcher { inner: aho_corasick::AhoCorasickBuilder::new().build(markers) }
}

/// `AhoCorasick::max_pattern_len`: the length of the longest pattern.
#[verifier::external_body]
fn max_pattern_len(matcher: &Matcher) -> (n: usize)
    ensures
        n == longest_len(patterns_of(*matcher)),
{
    matcher.inner.max_pattern_len()
}

/// `AhoCorasick::find` under standard match semantics, and `Match::end` of
/// what it finds: the offset at which the first match is complete when the
/// haystack is read from its start, if any pattern occurs at all.
#[verifier::external_body]
fn find_earliest_end(matcher: &Matcher, hay: &[u8]) -> (found: Option<usize>)
    ensures
        match found {
            Some(end) => match_ends_at(patterns_of(*matcher), hay@, end as int) && no_match_before(
                patterns_of(*matcher),
                hay@,
                end as int,
            ),
            None => !has_match(patterns_of(*matcher), hay@),
        },
{
    match matcher.inner.find(hay) {
        Some(m) => Some(m.end()),
        None => None,
    }
}

/// Ceiling on the size of one capture that the harness uses.
pub const DEFAULT_MAX_BYTES: usize = 1048576;

/// Seconds of silence after which the harness judges a target hung.
pub const DEFAULT_SILENCE_TIMEOUT_SECS: u64 = 35;

/// Size of the buffer that the harness hands to a single read.
pub const READ_BUFFER_BYTES: usize = 16384;

/// Why a capture failed.
#[derive(Clone, Copy, Debug, PartialEq, Eq, Structural)]
pub enum CaptureError {
    /// The stream stayed silent for longer than the silence timeout.
    Timeout,
    /// More than the permitted number of bytes arrived without a marker.
    TooLong,
}

/// What the race between one read and the silence timer produced.
#[derive(Debug)]
pub enum ReadEvent {
    /// The read won and yielded these bytes.
    Data(Vec<u8>),
    /// The read won and yielded no bytes: the stream is closed.
    Closed,
    /// The read won and reported an error.
    Failed,
    /// The timer won; the read was abandoned.
    TimedOut,
}

/// The bytes of a capture that ended without an error.
#[derive(Debug)]
pub struct Captured {
    /// What the target wrote, up to and including the first marker if one
    /// was seen.
    pub output: Vec<u8>,
    /// Whether a marker ended the capture; if not, the stream was closed.
    pub matched: bool,
}

/// How a capture goes on after an event, as plain data.
pub enum Outcome {
    /// No marker yet: read on, having collected these bytes.
    Continue(Seq<u8>),
    /// A marker was seen; the output ends with it.
    Matched(Seq<u8>),
    /// The stream was closed before any marker was seen.
    Closed(Seq<u8>),
    Timeout,
    TooLong,
}

/// Whether an occurrence of one of `patterns` ends somewhere in `hay`.
pub open spec fn has_match(patterns: Seq<Seq<u8>>, hay: Seq<u8>) -> bool {
    exists|e: int| match_ends_at(patterns, hay, e)
}

/// The least offset of `hay` at which an occurrence of one of `patterns`
/// ends. Meaningful where `has_match` holds.
pub open spec fn first_match_end(patterns: Seq<Seq<u8>>, hay: Seq<u8>) -> int {
    choose|e: int| match_ends_at(patterns, hay, e) && no_match_before(patterns, hay, e)
}

/// Whether one of `patterns` is empty.
pub open spec fn has_empty_pattern(patterns: Seq<Seq<u8>>) -> bool {
    exists|p: int| 0 <= p < patterns.len() && (#[trigger] patterns[p]).len() == 0
}

/// Number of bytes at the end of the buffer that are scanned after a read
/// of `new_bytes` bytes has brought the buffer to `total` bytes: the new
/// bytes and as many before them as a marker that ends among the new bytes
/// can reach back, but never more than the buffer holds.
pub open spec fn window_len(new_bytes: nat, longest: nat, total: nat) -> nat {
    if new_bytes + longest - 1 < total {
        (new_bytes + longest - 1) as nat
    } else {
        total
    }
}

/// What a non-empty read does to a capture that has `collected` so far:
/// the new bytes are appended and the window at the end of the buffer is
/// scanned. A match cuts the buffer at its end; without one, the capture
/// fails once the buffer exceeds `max_bytes`.
pub open spec fn step_data(
    patterns: Seq<Seq<u8>>,
    max_bytes: nat,
    collected: Seq<u8>,
    chunk: Seq<u8>,
) -> Outcome {
    let total = collected + chunk;
    let start = total.len() - window_len(chunk.len(), longest_len(patterns), total.len());
    let window = total.subrange(start, total.len() as int);
    if has_match(patterns, window) {
        Outcome::Matched(total.take(start + first_match_end(patterns, window)))
    } else if total.len() > max_bytes {
        Outcome::TooLong
    } else {
        Outcome::Continue(total)
    }
}

/// The same, stated over the whole buffer: the output is the shortest
/// prefix of everything received that ends with a marker.
pub open spec fn step_data_whole(
    patterns: Seq<Seq<u8>>,
    max_bytes: nat,
    collected: Seq<u8>,
    chunk: Seq<u8>,
) -> Outcome {
    let total = collected + chunk;
    if has_match(patterns, total) {
        Outcome::Matched(total.take(first_match_end(patterns, total)))
    } else if total.len() > max_bytes {
        Outcome::TooLong
    } else {
        Outcome::Continue(total)
    }
}

/// What an event does to a capture that has `collected` so far.
pub open spec fn step_outcome(
    patterns: Seq<Seq<u8>>,
    max_bytes: nat,
    collected: Seq<u8>,
    event: ReadEvent,
) -> Outcome {
    match event {
        ReadEvent::TimedOut => Outcome::Timeout,
        ReadEvent::Closed => Outcome::Closed(collected),
        ReadEvent::Failed => Outcome::Closed(collected),
        ReadEvent::Data(chunk) => if chunk@.len() == 0 {
            Outcome::Closed(collected)
        } else {
            step_data(patterns, max_bytes, collected, chunk@)
        },
    }
}

/// Each pattern is at most as long as the longest.
pub proof fn lemma_longest_len_bounds(patterns: Seq<Seq<u8>>, p: int)
    requires
        0 <= p < patterns.len(),
    ensures
        patterns[p].len() <= longest_len(patterns),
    decreases patterns.len(),
{
    if p < patterns.len() - 1 {
        lemma_longest_len_bounds(patterns.drop_last(), p);
    }
}

/// An offset at which a match ends and before which none ends is the first
/// match end.
pub proof fn lemma_first_match_end_is_least(patterns: Seq<Seq<u8>>, hay: Seq<u8>, end: int)
    requires
        match_ends_at(patterns, hay, end),
        no_match_before(patterns, hay, end),
    ensures
        has_match(patterns, hay),
        first_match_end(patterns, hay) == end,
{
    let first = first_match_end(patterns, hay);
    assert(match_ends_at(patterns, hay, first) && no_match_before(patterns, hay, first));
    if first < end {
        assert(!match_ends_at(patterns, hay, first));
    }
    if end < first {
        assert(!match_ends_at(patterns, hay, end));
    }
}

/// Where a match ends at all, a first match end exists: some match ends at
/// or before `end`, and none before it.
proof fn lemma_least_match_end(patterns: Seq<Seq<u8>>, hay: Seq<u8>, end: int) -> (least: int)
    requires
        match_ends_at(patterns, hay, end),
    ensures
        0 <= least <= end,
        match_ends_at(patterns, hay, least),
        no_match_before(patterns, hay, least),
    decreases end,
{
    if no_match_before(patterns, hay, end) {
        end
    } else {
        let e = choose|e: int| 0 <= e < end && match_ends_at(patterns, hay, e);
        lemma_least_match_end(patterns, hay, e)
    }
}

/// Where a match ends at all, `first_match_end` is the least such offset.
pub proof fn lemma_first_match_end(patterns: Seq<Seq<u8>>, hay: Seq<u8>)
    requires
        has_match(patterns, hay),
    ensures
        match_ends_at(patterns, hay, first_match_end(patterns, hay)),
        no_match_before(patterns, hay, first_match_end(patterns, hay)),
{
    let e = choose|e: int| match_ends_at(patterns, hay, e);
    let least = lemma_least_match_end(patterns, hay, e);
    lemma_first_match_end_is_least(patterns, hay, least);
}

/// A match inside a part of the buffer is a match of the buffer.
proof fn lemma_match_in_part(patterns: Seq<Seq<u8>>, hay: Seq<u8>, start: int, e: int)
    requires
        0 <= start <= hay.len(),
        match_ends_at(patterns, hay.subrange(start, hay.len() as int), e),
    ensures
        match_ends_at(patterns, hay, start + e),
{
    let window = hay.subrange(start, hay.len() as int);
    let p = choose|p: int|
        0 <= p < patterns.len() && (#[trigger] patterns[p]).len() <= e && window.subrange(
            e - patterns[p].len(),
            e,
        ) == patterns[p];
    assert(hay.subrange(start + e - patterns[p].len(), start + e) =~= window.subrange(
        e - patterns[p].len(),
        e,
    ));
}

/// A match of the buffer that starts inside a part of it is a match of that
/// part.
proof fn lemma_match_of_part(patterns: Seq<Seq<u8>>, hay: Seq<u8>, start: int, end: int, p: int)
    requires
        0 <= start <= hay.len(),
        0 <= end <= hay.len(),
        0 <= p < patterns.len(),
        start <= end - patterns[p].len(),
        hay.subrange(end - patterns[p].len(), end) == patterns[p],
    ensures
        match_ends_at(patterns, hay.subrange(start, hay.len() as int), end - start),
{
    let window = hay.subrange(start, hay.len() as int);
    assert(window.subrange(end - start - patterns[p].len(), end - start) =~= hay.subrange(
        end - patterns[p].len(),
        end,
    ));
}

/// A match that ends within a prefix of the buffer is a match of the prefix.
proof fn lemma_match_in_prefix(patterns: Seq<Seq<u8>>, head: Seq<u8>, tail: Seq<u8>, end: int)
    requires
        end <= head.len(),
        match_ends_at(patterns, head + tail, end),
    ensures
        match_ends_at(patterns, head, end),
{
    let p = choose|p: int|
        0 <= p < patterns.len() && (#[trigger] patterns[p]).len() <= end && (head + tail).subrange(
            end - patterns[p].len(),
            end,
        ) == patterns[p];
    assert(head.subrange(end - patterns[p].len(), end) =~= (head + tail).subrange(
        end - patterns[p].len(),
        end,
    ));
}

/// The window covers every place where a marker can have become complete:
/// if no match ends within what was collected before, then the matches of
/// the longer buffer are exactly those of its window.
pub proof fn lemma_window_covers(patterns: Seq<Seq<u8>>, collected: Seq<u8>, chunk: Seq<u8>)
    requires
        chunk.len() > 0,
        !has_match(patterns, collected),
    ensures
        ({
            let total = collected + chunk;
            let start = total.len() - window_len(
                chunk.len(),
                longest_len(patterns),
                total.len(),
            );
            let window = total.subrange(start, total.len() as int);
            &&& has_match(patterns, window) == has_match(patterns, total)
            &&& has_match(patterns, total) ==> first_match_end(patterns, total) == start
                + first_match_end(patterns, window)
        }),
{
    let total = collected + chunk;
    let start = total.len() - window_len(chunk.len(), longest_len(patterns), total.len());
    let window = total.subrange(start, total.len() as int);
    assert forall|end: int| match_ends_at(patterns, total, end) implies match_ends_at(
        patterns,
        window,
        end - start,
    ) by {
        let p = choose|p: int|
            0 <= p < patterns.len() && (#[trigger] patterns[p]).len() <= end && total.subrange(
                end - patterns[p].len(),
                end,
            ) == patterns[p];
        lemma_longest_len_bounds(patterns, p);
        if end <= collected.len() {
            lemma_match_in_prefix(patterns, collected, chunk, end);
        }
        lemma_match_of_part(patterns, total, start, end, p);
    }
    if has_match(patterns, window) {
        lemma_first_match_end(patterns, window);
        let e = first_match_end(patterns, window);
        lemma_match_in_part(patterns, total, start, e);
        assert forall|b: int| 0 <= b < start + e implies !match_ends_at(patterns, total, b) by {
            if match_ends_at(patterns, total, b) {
                assert(match_ends_at(patterns, window, b - start));
            }
        }
        lemma_first_match_end_is_least(patterns, total, start + e);
    }
    if has_match(patterns, total) {
        let end = choose|e: int| match_ends_at(patterns, total, e);
        assert(match_ends_at(patterns, window, end - start));
    }
}

/// A match of a prefix of the buffer is a match of the buffer.
proof fn lemma_match_extends(patterns: Seq<Seq<u8>>, head: Seq<u8>, tail: Seq<u8>, end: int)
    requires
        match_ends_at(patterns, head, end),
    ensures
        match_ends_at(patterns, head + tail, end),
{
    let p = choose|p: int|
        0 <= p < patterns.len() && (#[trigger] patterns[p]).len() <= end && head.subrange(
            end - patterns[p].len(),
            end,
        ) == patterns[p];
    assert((head + tail).subrange(end - patterns[p].len(), end) =~= head.subrange(
        end - patterns[p].len(),
        end,
    ));
}

/// With no empty marker, scanning the window finds what scanning the whole
/// buffer would find, as long as no match ends within what was collected
/// before; and where the capture goes on, no match ends within the buffer.
pub proof fn lemma_step_scans_whole_buffer(
    patterns: Seq<Seq<u8>>,
    max_bytes: nat,
    collected: Seq<u8>,
    chunk: Seq<u8>,
)
    requires
        chunk.len() > 0,
        !has_match(patterns, collected),
    ensures
        step_data(patterns, max_bytes, collected, chunk) == step_data_whole(
            patterns,
            max_bytes,
            collected,
            chunk,
        ),
        step_data(patterns, max_bytes, collected, chunk) is Continue ==> !has_match(
            patterns,
            collected + chunk,
        ),
{
    lemma_window_covers(patterns, collected, chunk);
}

/// A marker that is split across two reads is found as if it had arrived in
/// one: feeding `first` and then `second` ends as feeding both at once does,
/// unless the ceiling ends the capture between the two.
pub proof fn lemma_split_read(
    patterns: Seq<Seq<u8>>,
    max_bytes: nat,
    collected: Seq<u8>,
    first: Seq<u8>,
    second: Seq<u8>,
)
    requires
        first.len() > 0,
        second.len() > 0,
        !has_match(patterns, collected),
    ensures
        ({
            let at_once = step_data(patterns, max_bytes, collected, first + second);
            let after_first = step_data(patterns, max_bytes, collected, first);
            match after_first {
                Outcome::Continue(buffer) => buffer == collected + first && step_data(
                    patterns,
                    max_bytes,
                    buffer,
                    second,
                ) == at_once,
                Outcome::Matched(output) => at_once == after_first,
                _ => after_first is TooLong && collected.len() + first.len() > max_bytes,
            }
        }),
{
    let head = collected + first;
    let total = collected + (first + second);
    assert(total =~= head + second);
    lemma_step_scans_whole_buffer(patterns, max_bytes, collected, first + second);
    lemma_step_scans_whole_buffer(patterns, max_bytes, collected, first);
    if has_match(patterns, head) {
        lemma_first_match_end(patterns, head);
        let end = first_match_end(patterns, head);
        lemma_match_extends(patterns, head, second, end);
        assert forall|b: int| 0 <= b < end implies !match_ends_at(patterns, total, b) by {
            if match_ends_at(patterns, total, b) {
                lemma_match_in_prefix(patterns, head, second, b);
            }
        }
        lemma_first_match_end_is_least(patterns, total, end);
        assert(total.take(end) =~= head.take(end));
    } else if head.len() <= max_bytes {
        lemma_step_scans_whole_buffer(patterns, max_bytes, head, second);
    }
}

/// A capture that no marker ends fails as soon as more than `max_bytes`
/// bytes have arrived, and then holds less than one read above the ceiling.
pub proof fn lemma_too_long_by_less_than_a_read(
    patterns: Seq<Seq<u8>>,
    max_bytes: nat,
    collected: Seq<u8>,
    chunk: Seq<u8>,
)
    requires
        chunk.len() > 0,
        collected.len() <= max_bytes,
        !has_match(patterns, collected),
        !has_match(patterns, collected + chunk),
    ensures
        step_data(patterns, max_bytes, collected, chunk) is TooLong <==> collected.len()
            + chunk.len() > max_bytes,
        step_data(patterns, max_bytes, collected, chunk) is TooLong ==> collected.len()
            + chunk.len() - max_bytes <= chunk.len(),
        !(step_data(patterns, max_bytes, collected, chunk) is TooLong) ==> step_data(
            patterns,
            max_bytes,
            collected,
            chunk,
        ) == Outcome::Continue(collected + chunk),
{
    lemma_step_scans_whole_buffer(patterns, max_bytes, collected, chunk);
}

/// What a sequence of non-empty reads does to a capture that has
/// `collected` so far: they are taken in one after the other until one of
/// them ends the capture.
pub open spec fn feed(
    patterns: Seq<Seq<u8>>,
    max_bytes: nat,
    collected: Seq<u8>,
    chunks: Seq<Seq<u8>>,
) -> Outcome
    decreases chunks.len(),
{
    if chunks.len() == 0 {
        Outcome::Continue(collected)
    } else {
        match step_data(patterns, max_bytes, collected, chunks[0]) {
            Outcome::Continue(buffer) => feed(patterns, max_bytes, buffer, chunks.drop_first()),
            over => over,
        }
    }
}

/// The bytes of a sequence of reads, one after the other.
pub open spec fn joined(chunks: Seq<Seq<u8>>) -> Seq<u8>
    decreases chunks.len(),
{
    if chunks.len() == 0 {
        Seq::empty()
    } else {
        chunks[0] + joined(chunks.drop_first())
    }
}

/// However a stream is cut into reads, the capture yields the same: the
/// shortest prefix of the stream that ends with a marker, if a marker occurs
/// in it, as long as the stream stays below the ceiling.
pub proof fn lemma_reads_do_not_matter(
    patterns: Seq<Seq<u8>>,
    max_bytes: nat,
    collected: Seq<u8>,
    chunks: Seq<Seq<u8>>,
)
    requires
        !has_match(patterns, collected),
        forall|i: int| 0 <= i < chunks.len() ==> (#[trigger] chunks[i]).len() > 0,
        collected.len() + joined(chunks).len() <= max_bytes,
    ensures
        feed(patterns, max_bytes, collected, chunks) == if has_match(
            patterns,
            collected + joined(chunks),
        ) {
            Outcome::Matched(
                (collected + joined(chunks)).take(
                    first_match_end(patterns, collected + joined(chunks)),
                ),
            )
        } else {
            Outcome::Continue(collected + joined(chunks))
        },
    decreases chunks.len(),
{
    let stream = collected + joined(chunks);
    if chunks.len() == 0 {
        assert(stream =~= collected);
    } else {
        let head = collected + chunks[0];
        let rest = chunks.drop_first();
        assert(stream =~= head + joined(rest));
        lemma_step_scans_whole_buffer(patterns, max_bytes, collected, chunks[0]);
        if has_match(patterns, head) {
            lemma_first_match_end(patterns, head);
            let end = first_match_end(patterns, head);
            lemma_match_extends(patterns, head, joined(rest), end);
            assert forall|b: int| 0 <= b < end implies !match_ends_at(patterns, stream, b) by {
                if match_ends_at(patterns, stream, b) {
                    lemma_match_in_prefix(patterns, head, joined(rest), b);
                }
            }
            lemma_first_match_end_is_least(patterns, stream, end);
            assert(stream.take(end) =~= head.take(end));
        } else {
            assert forall|i: int| 0 <= i < rest.len() implies (#[trigger] rest[i]).len() > 0 by {
                assert(rest[i] == chunks[i + 1]);
            }
            lemma_reads_do_not_matter(patterns, max_bytes, head, rest);
        }
    }
}

/// A capture in progress: the matcher for the markers, the ceiling, and the
/// bytes collected so far.
pub struct OutputCapture {
    matcher: Matcher,
    longest: usize,
    max_bytes: usize,
    output: Vec<u8>,
}

/// What a capture asks for after an event.
pub enum CaptureStep {
    /// Race another read against the silence timer and hand in what comes.
    Continue(OutputCapture),
    /// The capture is over.
    Finished(Result<Captured, CaptureError>),
}

impl CaptureStep {
    /// The step as plain data.
    pub open spec fn outcome(self) -> Outcome {
        match self {
            CaptureStep::Continue(capture) => Outcome::Continue(capture.collected()),
            CaptureStep::Finished(Ok(captured)) => if captured.matched {
                Outcome::Matched(captured.output@)
            } else {
                Outcome::Closed(captured.output@)
            },
            CaptureStep::Finished(Err(CaptureError::Timeout)) => Outcome::Timeout,
            CaptureStep::Finished(Err(CaptureError::TooLong)) => Outcome::TooLong,
        }
    }
}

impl OutputCapture {
    #[verifier::type_invariant]
    spec fn well_formed(self) -> bool {
        &&& self.longest == longest_len(patterns_of(self.matcher))
        &&& self.output@.len() <= self.max_bytes
        &&& !has_empty_pattern(patterns_of(self.matcher)) ==> !has_match(
            patterns_of(self.matcher),
            self.output@,
        )
    }

    /// The markers that end the capture.
    pub closed spec fn markers(self) -> Seq<Seq<u8>> {
        patterns_of(self.matcher)
    }

    /// The ceiling on the number of bytes collected.
    pub closed spec fn max_bytes(self) -> nat {
        self.max_bytes as nat
    }

    /// The bytes collected so far.
    pub closed spec fn collected(self) -> Seq<u8> {
        self.output@
    }

    /// Starts a capture: builds the matcher for `markers` once, with nothing
    /// collected yet.
    pub fn new(markers: &Vec<Vec<u8>>, max_bytes: usize) -> (capture: OutputCapture)
        ensures
            capture.markers() == byte_views(markers@),
            capture.max_bytes() == max_bytes,
            capture.collected() == Seq::<u8>::empty(),
    {
        let matcher = build_matcher(markers);
        let longest = max_pattern_len(&matcher);
        let output: Vec<u8> = Vec::new();
        proof {
            let patterns = patterns_of(matcher);
            if !has_empty_pattern(patterns) && has_match(patterns, output@) {
                let e = choose|e: int| match_ends_at(patterns, output@, e);
                let p = choose|p: int|
                    0 <= p < patterns.len() && (#[trigger] patterns[p]).len() <= e
                        && output@.subrange(e - patterns[p].len(), e) == patterns[p];
                assert(patterns[p].len() == 0);
            }
        }
        OutputCapture { matcher, longest, max_bytes, output }
    }

    /// Number of bytes collected so far.
    pub fn len(&self) -> (n: usize)
        ensures
            n == self.collected().len(),
            n <= self.max_bytes(),
    {
        proof {
            use_type_invariant(self);
        }
        self.output.len()
    }

    /// Takes in what one race between a read and the silence timer produced.
    ///
    /// A timeout ends the capture with `Timeout`, and what was collected is
    /// dropped. A closed stream, a failed read or an empty read ends it with
    /// what was collected, unmatched. Bytes are appended and the end of the
    /// buffer is scanned for a marker: a match ends the capture with the
    /// buffer cut at the end of the match; without one the capture fails with
    /// `TooLong` if the buffer has grown beyond the ceiling, and goes on
    /// otherwise.
    pub fn step(self, event: ReadEvent) -> (next: CaptureStep)
        ensures
            next.outcome() == step_outcome(self.markers(), self.max_bytes(), self.collected(), event),
            next matches CaptureStep::Continue(capture) ==> capture.markers() == self.markers()
                && capture.max_bytes() == self.max_bytes(),
            match event {
                ReadEvent::Data(chunk) => {
                    &&& !has_empty_pattern(self.markers()) && chunk@.len() > 0 ==> next.outcome()
                        == step_data_whole(
                        self.markers(),
                        self.max_bytes(),
                        self.collected(),
                        chunk@,
                    )
                    &&& next.outcome() is TooLong ==> self.collected().len() <= self.max_bytes()
                        < self.collected().len() + chunk@.len()
                },
                _ => !(next.outcome() is TooLong),
            },
    {
        proof {
            use_type_invariant(&self);
        }
        let ghost patterns = patterns_of(self.matcher);
        let ghost collected = self.output@;
        let OutputCapture { matcher, longest, max_bytes, mut output } = self;
        let mut chunk = match event {
            ReadEvent::TimedOut => {
                return CaptureStep::Finished(Err(CaptureError::Timeout));
            },
            ReadEvent::Closed | ReadEvent::Failed => {
                return CaptureStep::Finished(Ok(Captured { output, matched: false }));
            },
            ReadEvent::Data(chunk) => chunk,
        };
        let new_bytes = chunk.len();
        if new_bytes == 0 {
            return CaptureStep::Finished(Ok(Captured { output, matched: false }));
        }
        let ghost added = chunk@;
        output.append(&mut chunk);
        let total = output.len();
        let reach: usize = if longest == 0 {
            new_bytes - 1
        } else {
            match new_bytes.checked_add(longest - 1) {
                Some(n) => n,
                None => total,
            }
        };
        let window: usize = if reach < total {
            reach
        } else {
            total
        };
        assert(window == window_len(added.len(), longest as nat, total as nat));
        let start = total - window;
        let found = find_earliest_end(&matcher, slice_subrange(output.as_slice(), start, total));
        proof {
            if !has_empty_pattern(patterns) {
                lemma_window_covers(patterns, collected, added);
            }
        }
        match found {
            Some(end) => {
                proof {
                    lemma_first_match_end_is_least(
                        patterns,
                        output@.subrange(start as int, total as int),
                        end as int,
                    );
                }
                output.truncate(start + end);
                CaptureStep::Finished(Ok(Captured { output, matched: true }))
            },
            None => {
                if total > max_bytes {
                    CaptureStep::Finished(Err(CaptureError::TooLong))
                } else {
                    CaptureStep::Continue(OutputCapture { matcher, longest, max_bytes, output })
                }
            },
        }
    }
}

} // verus!
