//! Structure-aware chunking of Markdown.
//!
//! The text is read as a list of words (pieces ending after a space or a
//! newline). A chunk is cut once the list reaches the target size, at a
//! paragraph break, a code block boundary, the end of a sentence, or at the
//! target size, in that order of preference. Headings of level 1 to 3 close
//! the chunk under way and label the chunks that follow them.

use crate::md::{markdown_events, markdown_events_of, MdEvent, MdTag, MdTagEnd};
use crate::processor::config::ChunkOptions;
use crate::processor::error::ProcessError;
use crate::text::{push_char, last_char, ends_with_pair, split_words, trim_chars, views, words_of, trim_seq, chars_of};
use vstd::prelude::*;

verus! {

/// A chunk of text with its place in the document.
#[derive(Debug, Clone)]
pub struct TextChunk {
    /// The text of the chunk.
    pub text: String,
    /// The index of the chunk among the chunks of its document.
    pub position: usize,
    /// The heading the chunk falls under.
    pub heading: Option<String>,
}

/// The view of an optional string.
pub open spec fn opt_view(o: Option<String>) -> Option<Seq<char>> {
    match o {
        Some(s) => Some(s@),
        None => None,
    }
}

/// A chunk as the contracts see it.
pub struct SpecChunk {
    pub text: Seq<char>,
    pub position: int,
    pub heading: Option<Seq<char>>,
}

impl View for TextChunk {
    type V = SpecChunk;

    open spec fn view(&self) -> SpecChunk {
        SpecChunk { text: self.text@, position: self.position as int, heading: opt_view(self.heading) }
    }
}

/// The views of a sequence of chunks.
pub open spec fn chunk_views(cs: Seq<TextChunk>) -> Seq<SpecChunk> {
    cs.map_values(|c: TextChunk| c@)
}

// ---------------------------------------------------------------------
// Split points
// ---------------------------------------------------------------------

/// The first element of `s` strictly between `lo` and `hi`.
pub open spec fn first_between(s: Seq<usize>, lo: int, hi: int) -> Option<usize>
    decreases s.len(),
{
    if s.len() == 0 {
        None
    } else if lo < s[0] && s[0] < hi {
        Some(s[0])
    } else {
        first_between(s.drop_first(), lo, hi)
    }
}

/// The last element of `s` strictly between `lo` and `hi`.
pub open spec fn last_between(s: Seq<usize>, lo: int, hi: int) -> Option<usize>
    decreases s.len(),
{
    if s.len() == 0 {
        None
    } else if lo < s.last() && s.last() < hi {
        Some(s.last())
    } else {
        last_between(s.drop_last(), lo, hi)
    }
}

/// Whether a word ends a sentence: it ends with ". ", "! " or "? ".
pub open spec fn ends_sentence(w: Seq<char>) -> bool {
    w.len() >= 2 && (w[w.len() - 2] == '.' || w[w.len() - 2] == '!' || w[w.len() - 2] == '?')
        && w.last() == ' '
}

/// The index of the last word before index `n` that ends a sentence.
pub open spec fn last_sentence_end(words: Seq<Seq<char>>, n: int) -> Option<int>
    decreases n,
{
    if n <= 0 {
        None
    } else if ends_sentence(words[n - 1]) {
        Some(n - 1)
    } else {
        last_sentence_end(words, n - 1)
    }
}

/// Where a chunk of `words` is cut: inside a code block, at the first code
/// block boundary past the target; else at the last paragraph break, or
/// failing that the last code block boundary, past 30% of the target; else
/// at the index of the last word that ends a sentence among the first
/// `target + 200` words (so that word opens the next chunk); else at
/// the target (or the end of the words, if that comes first). Only positions
/// before the end of the words are considered.
pub open spec fn split_point(
    words: Seq<Seq<char>>,
    target: int,
    paragraph_breaks: Seq<usize>,
    code_block_boundaries: Seq<usize>,
    in_code_block: bool,
) -> int {
    let len = words.len() as int;
    let lo = target * 3 / 10;
    if in_code_block && first_between(code_block_boundaries, target, len) is Some {
        first_between(code_block_boundaries, target, len)->0 as int
    } else if last_between(paragraph_breaks, lo, len) is Some {
        last_between(paragraph_breaks, lo, len)->0 as int
    } else if last_between(code_block_boundaries, lo, len) is Some {
        last_between(code_block_boundaries, lo, len)->0 as int
    } else if last_sentence_end(words, if target + 200 < len { target + 200 } else { len }) is Some {
        last_sentence_end(words, if target + 200 < len { target + 200 } else { len })->0
    } else if len < target {
        len
    } else {
        target
    }
}

proof fn lemma_first_between_in(s: Seq<usize>, lo: int, hi: int)
    ensures
        first_between(s, lo, hi) matches Some(p) ==> lo < p < hi,
    decreases s.len(),
{
    if s.len() > 0 {
        lemma_first_between_in(s.drop_first(), lo, hi);
    }
}

proof fn lemma_last_between_in(s: Seq<usize>, lo: int, hi: int)
    ensures
        last_between(s, lo, hi) matches Some(p) ==> lo < p < hi,
    decreases s.len(),
{
    if s.len() > 0 {
        lemma_last_between_in(s.drop_last(), lo, hi);
    }
}

proof fn lemma_last_sentence_end_in(words: Seq<Seq<char>>, n: int)
    ensures
        last_sentence_end(words, n) matches Some(j) ==> 0 <= j < n,
    decreases n,
{
    if n > 0 {
        lemma_last_sentence_end_in(words, n - 1);
    }
}

/// A cut never falls past the end of the words.
pub proof fn lemma_split_point_bounded(
    words: Seq<Seq<char>>,
    target: int,
    paragraph_breaks: Seq<usize>,
    code_block_boundaries: Seq<usize>,
    in_code_block: bool,
)
    requires
        target >= 0,
    ensures
        0 <= split_point(words, target, paragraph_breaks, code_block_boundaries, in_code_block)
            <= words.len(),
{
    let len = words.len() as int;
    lemma_first_between_in(code_block_boundaries, target, len);
    lemma_last_between_in(paragraph_breaks, target * 3 / 10, len);
    lemma_last_between_in(code_block_boundaries, target * 3 / 10, len);
    lemma_last_sentence_end_in(words, if target + 200 < len { target + 200 } else { len });
}

proof fn lemma_three_tenths(t: int)
    requires
        t >= 0,
    ensures
        t * 3 / 10 == (t / 10) * 3 + (t % 10) * 3 / 10,
{
    let q = t / 10;
    let r = t % 10;
    assert(t == q * 10 + r);
    assert(t * 3 == q * 30 + r * 3) by (nonlinear_arith)
        requires
            t == q * 10 + r,
    ;
    assert(0 <= r * 3 < 30);
    assert((q * 30 + r * 3) / 10 == q * 3 + (r * 3) / 10) by (nonlinear_arith)
        requires
            0 <= r * 3 < 30,
            q >= 0,
    ;
}

/// Finds where to cut a chunk of `text` (see `split_point`).
#[verifier::loop_isolation(false)]
pub fn find_split_point(
    text: &[String],
    target_size: usize,
    paragraph_breaks: &[usize],
    code_block_boundaries: &[usize],
    in_code_block: bool,
) -> (pos: usize)
    ensures
        pos == split_point(
            views(text@),
            target_size as int,
            paragraph_breaks@,
            code_block_boundaries@,
            in_code_block,
        ),
        pos <= text@.len(),
{
    let ghost words = views(text@);
    let words_len = text.len();
    let ghost t = target_size as int;
    let ghost len = words_len as int;
    let ghost cb = code_block_boundaries@;
    let ghost pb = paragraph_breaks@;
    proof {
        lemma_split_point_bounded(words, t, pb, cb, in_code_block);
    }
    if in_code_block {
        let mut k: usize = 0;
        assert(cb.skip(0) =~= cb);
        while k < code_block_boundaries.len()
            invariant
                k <= cb.len(),
                cb == code_block_boundaries@,
                t == target_size,
                len == words_len,
                first_between(cb, t, len) == first_between(cb.skip(k as int), t, len),
            decreases cb.len() - k,
        {
            let pos = code_block_boundaries[k];
            assert(cb.skip(k as int)[0] == pos);
            assert(cb.skip(k as int).drop_first() =~= cb.skip(k + 1));
            if pos > target_size && pos < words_len {
                return pos;
            }
            k += 1;
        }
        assert(cb.skip(k as int).len() == 0);
    }
    assert(in_code_block ==> first_between(cb, t, len) is None);
    let lo = target_size / 10 * 3 + (target_size % 10) * 3 / 10;
    proof {
        lemma_three_tenths(t);
    }
    let ghost l = lo as int;
    assert(l == t * 3 / 10);
    let mut k: usize = paragraph_breaks.len();
    assert(pb.take(pb.len() as int) =~= pb);
    while k > 0
        invariant
            k <= pb.len(),
            pb == paragraph_breaks@,
            l == lo,
            len == words_len,
            last_between(pb, l, len) == last_between(pb.take(k as int), l, len),
        decreases k,
    {
        let pos = paragraph_breaks[k - 1];
        assert(pb.take(k as int).last() == pos);
        assert(pb.take(k as int).drop_last() =~= pb.take(k - 1));
        if pos > lo && pos < words_len {
            return pos;
        }
        k -= 1;
    }
    assert(pb.take(0).len() == 0);
    assert(last_between(pb, l, len) is None);
    let mut k: usize = code_block_boundaries.len();
    assert(cb.take(cb.len() as int) =~= cb);
    while k > 0
        invariant
            k <= cb.len(),
            cb == code_block_boundaries@,
            l == lo,
            len == words_len,
            last_between(cb, l, len) == last_between(cb.take(k as int), l, len),
        decreases k,
    {
        let pos = code_block_boundaries[k - 1];
        assert(cb.take(k as int).last() == pos);
        assert(cb.take(k as int).drop_last() =~= cb.take(k - 1));
        if pos > lo && pos < words_len {
            return pos;
        }
        k -= 1;
    }
    assert(cb.take(0).len() == 0);
    assert(last_between(cb, l, len) is None);
    let limit = if target_size > words_len || words_len - target_size <= 200 {
        words_len
    } else {
        target_size + 200
    };
    assert(limit as int == if t + 200 < len { t + 200 } else { len });
    let mut j: usize = limit;
    while j > 0
        invariant
            j <= limit <= words_len == text@.len(),
            words == views(text@),
            last_sentence_end(words, limit as int) == last_sentence_end(words, j as int),
        decreases j,
    {
        let w = &text[j - 1];
        assert(words[j - 1] == w@);
        if ends_with_pair(w, '.', ' ') || ends_with_pair(w, '!', ' ') || ends_with_pair(w, '?', ' ') {
            return j - 1;
        }
        j -= 1;
    }
    if words_len < target_size {
        words_len
    } else {
        target_size
    }
}

// ---------------------------------------------------------------------
// Boundary adjustment
// ---------------------------------------------------------------------

/// `boundaries` after the words `start..end` are cut away: positions inside
/// the cut are dropped and those at or after `end` move back by
/// `end - start`; the order is kept.
pub open spec fn adjusted(boundaries: Seq<usize>, start: int, end: int) -> Seq<usize>
    decreases boundaries.len(),
{
    if boundaries.len() == 0 {
        seq![]
    } else {
        let rest = adjusted(boundaries.drop_last(), start, end);
        let p = boundaries.last();
        if p < start || p >= end {
            rest.push(if p >= end { (p - (end - start)) as usize } else { p })
        } else {
            rest
        }
    }
}

/// Adjusts boundary positions after the words `start..end` are cut away.
pub fn adjust_boundaries(boundaries: &mut Vec<usize>, start: usize, end: usize)
    requires
        start <= end,
    ensures
        final(boundaries)@ == adjusted(old(boundaries)@, start as int, end as int),
{
    let shift = end - start;
    let mut kept: Vec<usize> = Vec::new();
    let mut i: usize = 0;
    while i < boundaries.len()
        invariant
            i <= boundaries@.len(),
            boundaries@ == old(boundaries)@,
            kept@ == adjusted(boundaries@.take(i as int), start as int, end as int),
            shift == end - start,
        decreases boundaries@.len() - i,
    {
        let pos = boundaries[i];
        assert(boundaries@.take(i + 1).drop_last() =~= boundaries@.take(i as int));
        if pos < start || pos >= end {
            if pos >= end {
                kept.push(pos - shift);
            } else {
                kept.push(pos);
            }
        }
        i += 1;
    }
    assert(boundaries@.take(boundaries@.len() as int) =~= boundaries@);
    *boundaries = kept;
}

} // verus!

verus! {

// ---------------------------------------------------------------------
// The chunker as a state machine over parser events
// ---------------------------------------------------------------------

/// What the chunker holds between two events.
pub struct ChunkerState {
    /// The heading of the current section (empty while its text is awaited).
    pub heading: Option<Seq<char>>,
    /// The words of the chunk under way.
    pub words: Seq<Seq<char>>,
    /// The chunks cut so far.
    pub chunks: Seq<SpecChunk>,
    /// Whether a code block is open.
    pub in_code_block: bool,
    /// Word positions where paragraphs end.
    pub paragraph_breaks: Seq<usize>,
    /// Word positions where code blocks start or end.
    pub code_block_boundaries: Seq<usize>,
}

/// The state before any event.
pub open spec fn initial_state() -> ChunkerState {
    ChunkerState {
        heading: None,
        words: seq![],
        chunks: seq![],
        in_code_block: false,
        paragraph_breaks: seq![],
        code_block_boundaries: seq![],
    }
}

/// Whether the last word ends with `c`.
pub open spec fn ends_with_char(words: Seq<Seq<char>>, c: char) -> bool {
    words.len() > 0 && words.last().len() > 0 && words.last().last() == c
}

/// `words` followed by a newline word, unless empty or already at a line end.
pub open spec fn with_line_break(words: Seq<Seq<char>>) -> Seq<Seq<char>> {
    if words.len() > 0 && !ends_with_char(words, '\n') {
        words.push(seq!['\n'])
    } else {
        words
    }
}

/// `words` followed by a space word, unless empty or already at a space or
/// a line end.
pub open spec fn with_space(words: Seq<Seq<char>>) -> Seq<Seq<char>> {
    if words.len() > 0 && !ends_with_char(words, '\n') && !ends_with_char(words, ' ') {
        words.push(seq![' '])
    } else {
        words
    }
}

/// A chunk with `text` cut from state `s`: it takes the next position and
/// the current heading.
pub open spec fn next_chunk(s: ChunkerState, text: Seq<char>) -> SpecChunk {
    SpecChunk { text, position: s.chunks.len() as int, heading: s.heading }
}

/// The state after the text `t`: its words join the chunk under way, and
/// once that holds `target` words it is cut at `split_point`, keeping
/// `overlap` words before the cut. Text that arrives while a heading is
/// awaited becomes that heading.
pub open spec fn text_step(s: ChunkerState, t: Seq<char>, target: usize, overlap: usize) -> ChunkerState {
    let w = s.words + words_of(t);
    let cut = if w.len() >= target {
        let sp = split_point(w, target as int, s.paragraph_breaks, s.code_block_boundaries, s.in_code_block);
        let os = if sp >= overlap { sp - overlap } else { 0 };
        ChunkerState {
            chunks: s.chunks.push(next_chunk(s, trim_seq(w.take(sp).flatten()))),
            words: w.skip(os),
            paragraph_breaks: adjusted(s.paragraph_breaks, os, sp),
            code_block_boundaries: adjusted(s.code_block_boundaries, os, sp),
            ..s
        }
    } else {
        ChunkerState { words: w, ..s }
    };
    ChunkerState {
        heading: if s.heading == Some(Seq::<char>::empty()) { Some(t) } else { s.heading },
        ..cut
    }
}

/// The state after a heading of level 1 to 3 opens: the chunk under way, if
/// any, is cut whole, and the heading's text is awaited.
pub open spec fn heading_step(s: ChunkerState) -> ChunkerState {
    let flushed = if s.words.len() > 0 {
        ChunkerState {
            chunks: s.chunks.push(next_chunk(s, s.words.flatten())),
            words: seq![],
            paragraph_breaks: seq![],
            code_block_boundaries: seq![],
            ..s
        }
    } else {
        s
    };
    ChunkerState { heading: Some(Seq::<char>::empty()), ..flushed }
}

/// The state after one parser event.
pub open spec fn chunker_step(s: ChunkerState, e: MdEvent, target: usize, overlap: usize) -> ChunkerState {
    match e {
        MdEvent::Text(t) => text_step(s, t@, target, overlap),
        MdEvent::Start(MdTag::Heading(level)) => if level <= 3 {
            heading_step(s)
        } else {
            s
        },
        MdEvent::Start(MdTag::CodeBlock(_)) => ChunkerState {
            in_code_block: true,
            code_block_boundaries: s.code_block_boundaries.push(s.words.len() as usize),
            words: with_line_break(s.words),
            ..s
        },
        MdEvent::Start(MdTag::Paragraph) => ChunkerState { words: with_line_break(s.words), ..s },
        MdEvent::Start(_) => ChunkerState { words: with_space(s.words), ..s },
        MdEvent::End(MdTagEnd::CodeBlock) => ChunkerState {
            in_code_block: false,
            code_block_boundaries: s.code_block_boundaries.push(s.words.len() as usize),
            words: with_line_break(s.words),
            ..s
        },
        MdEvent::End(MdTagEnd::Paragraph) => ChunkerState {
            paragraph_breaks: s.paragraph_breaks.push(s.words.len() as usize),
            words: if ends_with_char(s.words, '\n') {
                s.words.push(seq!['\n'])
            } else {
                s.words.push(seq!['\n']).push(seq!['\n'])
            },
            ..s
        },
        MdEvent::End(MdTagEnd::Heading(level)) => if level <= 3 && s.heading is Some {
            ChunkerState {
                words: if ends_with_char(s.words, '\n') { s.words } else { s.words.push(seq!['\n']) },
                ..s
            }
        } else {
            s
        },
        MdEvent::End(_) => s,
        MdEvent::Code(c) => ChunkerState { words: s.words.push(seq!['`']).push(c@).push(seq!['`']), ..s },
        MdEvent::SoftBreak => ChunkerState { words: s.words.push(seq![' ']), ..s },
        MdEvent::HardBreak => ChunkerState { words: s.words.push(seq!['\n']), ..s },
        MdEvent::Other => ChunkerState { words: with_space(s.words), ..s },
    }
}

/// The state after all of `events`, from the initial state.
pub open spec fn chunker_run(events: Seq<MdEvent>, target: usize, overlap: usize) -> ChunkerState
    decreases events.len(),
{
    if events.len() == 0 {
        initial_state()
    } else {
        chunker_step(chunker_run(events.drop_last(), target, overlap), events.last(), target, overlap)
    }
}

/// The chunks of a state once the input is over: the chunk under way, if
/// any, is cut whole and trimmed.
pub open spec fn final_chunks(s: ChunkerState) -> Seq<SpecChunk> {
    if s.words.len() > 0 {
        s.chunks.push(next_chunk(s, trim_seq(s.words.flatten())))
    } else {
        s.chunks
    }
}

/// Consecutive chunks overlap: when text brings the chunk under way to
/// its target size, it is cut at a point `sp` within its words; the chunk
/// cut is made of the words before `sp`, and the next chunk starts with the
/// last `overlap_size` of those words (all of them, if fewer), then goes on
/// with the words after the cut. Nothing is lost or repeated beyond that
/// overlap.
pub proof fn lemma_cut_keeps_overlap(s: ChunkerState, t: Seq<char>, target: usize, overlap: usize)
    requires
        (s.words + words_of(t)).len() >= target,
    ensures
        ({
            let w = s.words + words_of(t);
            let r = text_step(s, t, target, overlap);
            let sp = split_point(w, target as int, s.paragraph_breaks, s.code_block_boundaries, s.in_code_block);
            let kept = if sp < overlap { sp } else { overlap as int };
            &&& 0 <= sp <= w.len()
            &&& r.chunks.len() == s.chunks.len() + 1
            &&& r.chunks.take(s.chunks.len() as int) == s.chunks
            &&& r.chunks.last().text == trim_seq(w.take(sp).flatten())
            &&& r.words.len() == w.len() - sp + kept
            &&& r.words.take(kept) == w.subrange(sp - kept, sp)
            &&& r.words.skip(kept) == w.skip(sp)
        }),
{
    let w = s.words + words_of(t);
    let sp = split_point(w, target as int, s.paragraph_breaks, s.code_block_boundaries, s.in_code_block);
    lemma_split_point_bounded(w, target as int, s.paragraph_breaks, s.code_block_boundaries, s.in_code_block);
    let r = text_step(s, t, target, overlap);
    let kept = if sp < overlap { sp } else { overlap as int };
    let os = sp - kept;
    assert(r.words == w.skip(os));
    assert(r.words.take(kept) =~= w.subrange(sp - kept, sp));
    assert(r.words.skip(kept) =~= w.skip(sp));
    assert(r.chunks.take(s.chunks.len() as int) =~= s.chunks);
}

/// Chunking loses no inline code: after an inline code span `c`, the chunk
/// under way holds what it held, then a backquote, `c` and a backquote.
pub proof fn lemma_inline_code_kept(s: ChunkerState, c: String, target: usize, overlap: usize)
    ensures
        ({
            let r = chunker_step(s, MdEvent::Code(c), target, overlap);
            &&& r.words.len() == s.words.len() + 3
            &&& r.words.take(s.words.len() as int) == s.words
            &&& r.words[s.words.len() as int] == seq!['`']
            &&& r.words[s.words.len() as int + 1] == c@
            &&& r.words[s.words.len() as int + 2] == seq!['`']
            &&& r.words.skip(s.words.len() as int).flatten() == seq!['`'] + c@ + seq!['`']
            &&& r.chunks == s.chunks
        }),
{
    let r = chunker_step(s, MdEvent::Code(c), target, overlap);
    let tail = r.words.skip(s.words.len() as int);
    assert(r.words.take(s.words.len() as int) =~= s.words);
    assert(tail =~= seq![seq!['`'], c@, seq!['`']]);
    assert(tail.flatten() =~= seq!['`'] + c@ + seq!['`']) by {
        assert(tail.drop_first().drop_first().drop_first() =~= Seq::<Seq<char>>::empty());
        assert(tail.flatten() == tail[0] + tail.drop_first().flatten());
        assert(tail.drop_first().flatten() == tail[1] + tail.drop_first().drop_first().flatten());
        assert(tail.drop_first().drop_first().flatten() == tail[2] + tail.drop_first().drop_first().drop_first().flatten());
    }
}

/// The chunks of a document given by its parser events.
pub open spec fn chunks_of_events(events: Seq<MdEvent>, options: ChunkOptions) -> Seq<SpecChunk> {
    final_chunks(chunker_run(events, options.target_chunk_size, options.overlap_size))
}

/// The chunks of a Markdown document.
pub open spec fn chunks_of_markdown(markdown: Seq<char>, options: ChunkOptions) -> Seq<SpecChunk> {
    chunks_of_events(markdown_events_of(markdown, false), options)
}

} // verus!

verus! {

/// The chunker's state in executable form.
struct Chunker {
    heading: Option<String>,
    words: Vec<String>,
    chunks: Vec<TextChunk>,
    in_code_block: bool,
    paragraph_breaks: Vec<usize>,
    code_block_boundaries: Vec<usize>,
}

impl View for Chunker {
    type V = ChunkerState;

    closed spec fn view(&self) -> ChunkerState {
        ChunkerState {
            heading: opt_view(self.heading),
            words: views(self.words@),
            chunks: chunk_views(self.chunks@),
            in_code_block: self.in_code_block,
            paragraph_breaks: self.paragraph_breaks@,
            code_block_boundaries: self.code_block_boundaries@,
        }
    }
}

/// The concatenation of the first `n` words.
fn join_words(words: &Vec<String>, n: usize) -> (s: String)
    requires
        n <= words@.len(),
    ensures
        s@ == views(words@).take(n as int).flatten(),
{
    let mut s = String::new();
    let mut i: usize = 0;
    while i < n
        invariant
            i <= n <= words@.len(),
            s@ == views(words@).take(i as int).flatten(),
        decreases n - i,
    {
        s.append(words[i].as_str());
        proof {
            let vs = views(words@);
            assert(vs.take(i + 1) =~= vs.take(i as int).push(vs[i as int]));
            vs.take(i as int).lemma_flatten_push(vs[i as int]);
        }
        i += 1;
    }
    s
}

/// A string of one character.
fn char_string(c: char) -> (s: String)
    ensures
        s@ == seq![c],
{
    let mut s = String::new();
    push_char(&mut s, c);
    assert(Seq::<char>::empty().push(c) =~= seq![c]);
    s
}

/// A copy of an optional string.
fn clone_opt(o: &Option<String>) -> (r: Option<String>)
    ensures
        opt_view(r) == opt_view(*o),
{
    match o {
        Some(s) => Some(s.clone()),
        None => None,
    }
}

impl Chunker {
    fn new() -> (c: Self)
        ensures
            c@ == initial_state(),
    {
        let c = Chunker {
            heading: None,
            words: Vec::new(),
            chunks: Vec::new(),
            in_code_block: false,
            paragraph_breaks: Vec::new(),
            code_block_boundaries: Vec::new(),
        };
        assert(c@.words =~= Seq::<Seq<char>>::empty());
        assert(c@.chunks =~= Seq::<SpecChunk>::empty());
        c
    }

    fn ends_with(&self, c: char) -> (r: bool)
        ensures
            r == ends_with_char(self@.words, c),
    {
        let n = self.words.len();
        if n == 0 {
            false
        } else {
            match last_char(&self.words[n - 1]) {
                Some(l) => l == c,
                None => false,
            }
        }
    }

    fn push_word(&mut self, c: char)
        ensures
            final(self)@ == (ChunkerState { words: old(self)@.words.push(seq![c]), ..old(self)@ }),
    {
        let ghost old_words = self.words@;
        self.words.push(char_string(c));
        assert(views(self.words@) =~= views(old_words).push(seq![c]));
    }

    fn line_break(&mut self)
        ensures
            final(self)@ == (ChunkerState { words: with_line_break(old(self)@.words), ..old(self)@ }),
    {
        if self.words.len() > 0 && !self.ends_with('\n') {
            self.push_word('\n');
        }
    }

    fn space(&mut self)
        ensures
            final(self)@ == (ChunkerState { words: with_space(old(self)@.words), ..old(self)@ }),
    {
        if self.words.len() > 0 && !self.ends_with('\n') && !self.ends_with(' ') {
            self.push_word(' ');
        }
    }

    fn push_chunk(&mut self, text: String)
        ensures
            final(self)@ == (ChunkerState {
                chunks: old(self)@.chunks.push(next_chunk(old(self)@, text@)),
                ..old(self)@
            }),
    {
        let ghost old_chunks = self.chunks@;
        let chunk = TextChunk {
            text,
            position: self.chunks.len(),
            heading: clone_opt(&self.heading),
        };
        self.chunks.push(chunk);
        assert(chunk_views(self.chunks@) =~= chunk_views(old_chunks).push(
            next_chunk(old(self)@, text@),
        ));
    }

    fn text(&mut self, t: &String, options: ChunkOptions)
        ensures
            final(self)@ == text_step(old(self)@, t@, options.target_chunk_size, options.overlap_size),
    {
        let target = options.target_chunk_size;
        let overlap = options.overlap_size;
        let awaiting = match &self.heading {
            Some(h) => {
                assert(h@.len() == 0 ==> h@ =~= Seq::<char>::empty());
                h.as_str().unicode_len() == 0
            },
            None => false,
        };
        let new_words = split_words(t.as_str());
        let ghost w = old(self)@.words + words_of(t@);
        let mut i: usize = 0;
        while i < new_words.len()
            invariant
                i <= new_words@.len(),
                views(new_words@) == words_of(t@),
                views(self.words@) == old(self)@.words + views(new_words@).take(i as int),
                self.heading == old(self).heading,
                self.chunks == old(self).chunks,
                self.in_code_block == old(self).in_code_block,
                self.paragraph_breaks == old(self).paragraph_breaks,
                self.code_block_boundaries == old(self).code_block_boundaries,
            decreases new_words@.len() - i,
        {
            let ghost before = self.words@;
            self.words.push(new_words[i].clone());
            assert(views(self.words@) =~= views(before).push(new_words@[i as int]@));
            assert(views(new_words@).take(i + 1) =~= views(new_words@).take(i as int).push(
                new_words@[i as int]@,
            ));
            i += 1;
        }
        assert(views(new_words@).take(new_words@.len() as int) =~= views(new_words@));
        assert(self@.words == w);
        let ghost s0 = old(self)@;
        if self.words.len() >= target {
            let sp = find_split_point(
                self.words.as_slice(),
                target,
                self.paragraph_breaks.as_slice(),
                self.code_block_boundaries.as_slice(),
                self.in_code_block,
            );
            let joined = join_words(&self.words, sp);
            let cs = chars_of(joined.as_str());
            let text = trim_chars(&cs);
            self.push_chunk(text);
            let os = if sp >= overlap { sp - overlap } else { 0 };
            let ghost before = self.words@;
            let rest = self.words.split_off(os);
            self.words = rest;
            assert(views(self.words@) =~= views(before).skip(os as int));
            adjust_boundaries(&mut self.paragraph_breaks, os, sp);
            adjust_boundaries(&mut self.code_block_boundaries, os, sp);
        }
        if awaiting {
            self.heading = Some(t.clone());
        }
        assert(awaiting == (s0.heading == Some(Seq::<char>::empty())));
    }
}

} // verus!

verus! {

impl Chunker {
    fn heading_start(&mut self)
        ensures
            final(self)@ == heading_step(old(self)@),
    {
        if self.words.len() > 0 {
            let joined = join_words(&self.words, self.words.len());
            proof {
                assert(views(self.words@).take(self.words@.len() as int) =~= views(self.words@));
            }
            self.push_chunk(joined);
            self.words = Vec::new();
            self.paragraph_breaks = Vec::new();
            self.code_block_boundaries = Vec::new();
            assert(views(self.words@) =~= Seq::<Seq<char>>::empty());
        }
        self.heading = Some(String::new());
    }

    fn step(&mut self, event: &MdEvent, options: ChunkOptions)
        ensures
            final(self)@ == chunker_step(old(self)@, *event, options.target_chunk_size, options.overlap_size),
    {
        match event {
            MdEvent::Text(t) => self.text(t, options),
            MdEvent::Start(MdTag::Heading(level)) => {
                if *level <= 3 {
                    self.heading_start();
                }
            },
            MdEvent::Start(MdTag::CodeBlock(_)) => {
                self.in_code_block = true;
                self.code_block_boundaries.push(self.words.len());
                self.line_break();
            },
            MdEvent::Start(MdTag::Paragraph) => self.line_break(),
            MdEvent::Start(_) => self.space(),
            MdEvent::End(MdTagEnd::CodeBlock) => {
                self.in_code_block = false;
                self.code_block_boundaries.push(self.words.len());
                self.line_break();
            },
            MdEvent::End(MdTagEnd::Paragraph) => {
                self.paragraph_breaks.push(self.words.len());
                if !self.ends_with('\n') {
                    self.push_word('\n');
                }
                self.push_word('\n');
            },
            MdEvent::End(MdTagEnd::Heading(level)) => {
                if *level <= 3 && self.heading.is_some() {
                    if !self.ends_with('\n') {
                        self.push_word('\n');
                    }
                }
            },
            MdEvent::End(_) => {},
            MdEvent::Code(code) => {
                self.push_word('`');
                let ghost before = self.words@;
                self.words.push(code.clone());
                assert(views(self.words@) =~= views(before).push(code@));
                self.push_word('`');
            },
            MdEvent::SoftBreak => self.push_word(' '),
            MdEvent::HardBreak => self.push_word('\n'),
            MdEvent::Other => self.space(),
        }
    }

    fn finish(self) -> (chunks: Vec<TextChunk>)
        ensures
            chunk_views(chunks@) == final_chunks(self@),
    {
        let mut me = self;
        if me.words.len() > 0 {
            let joined = join_words(&me.words, me.words.len());
            proof {
                assert(views(me.words@).take(me.words@.len() as int) =~= views(me.words@));
            }
            let cs = chars_of(joined.as_str());
            let text = trim_chars(&cs);
            me.push_chunk(text);
        }
        me.chunks
    }
}

/// Cuts a document, given as its parser events, into chunks.
pub fn chunk_events(events: &Vec<MdEvent>, options: &ChunkOptions) -> (chunks: Vec<TextChunk>)
    ensures
        chunk_views(chunks@) == chunks_of_events(events@, *options),
{
    let mut chunker = Chunker::new();
    let mut i: usize = 0;
    while i < events.len()
        invariant
            i <= events@.len(),
            chunker@ == chunker_run(events@.take(i as int), options.target_chunk_size, options.overlap_size),
        decreases events@.len() - i,
    {
        proof {
            assert(events@.take(i + 1).drop_last() =~= events@.take(i as int));
        }
        chunker.step(&events[i], *options);
        i += 1;
    }
    assert(events@.take(events@.len() as int) =~= events@);
    chunker.finish()
}

/// Cuts a Markdown document into chunks. It always succeeds.
pub fn chunk_markdown(markdown: &str, options: &ChunkOptions) -> (r: Result<Vec<TextChunk>, ProcessError>)
    ensures
        r matches Ok(chunks) && chunk_views(chunks@) == chunks_of_markdown(markdown@, *options),
{
    let events = markdown_events(markdown, false);
    Ok(chunk_events(&events, options))
}

} // verus!

verus! {

// ---------------------------------------------------------------------
// Laws
// ---------------------------------------------------------------------

/// Every chunk sits at its own index, and once a chunk carries a heading,
/// so do all later chunks and the state itself.
pub open spec fn well_numbered(s: ChunkerState) -> bool {
    &&& forall|i: int| 0 <= i < s.chunks.len() ==> (#[trigger] s.chunks[i]).position == i
    &&& forall|i: int, j: int|
        0 <= i <= j < s.chunks.len() && (#[trigger] s.chunks[i]).heading is Some
            ==> (#[trigger] s.chunks[j]).heading is Some
    &&& forall|i: int| 0 <= i < s.chunks.len() && (#[trigger] s.chunks[i]).heading is Some ==> s.heading is Some
}

proof fn lemma_push_keeps_numbering(s: ChunkerState, text: Seq<char>)
    requires
        well_numbered(s),
    ensures
        ({
            let c = s.chunks.push(next_chunk(s, text));
            &&& forall|i: int| 0 <= i < c.len() ==> (#[trigger] c[i]).position == i
            &&& forall|i: int, j: int|
                0 <= i <= j < c.len() && (#[trigger] c[i]).heading is Some ==> (#[trigger] c[j]).heading is Some
            &&& forall|i: int| 0 <= i < c.len() && (#[trigger] c[i]).heading is Some ==> s.heading is Some
        }),
{
    let c = s.chunks.push(next_chunk(s, text));
    assert forall|i: int, j: int|
        0 <= i <= j < c.len() && (#[trigger] c[i]).heading is Some implies (#[trigger] c[j]).heading is Some by {
        if j == c.len() - 1 {
            if i < c.len() - 1 {
                assert(s.chunks[i].heading is Some);
            }
        } else {
            assert(c[i] == s.chunks[i] && c[j] == s.chunks[j]);
        }
    }
    assert forall|i: int| 0 <= i < c.len() && (#[trigger] c[i]).heading is Some implies s.heading is Some by {
        if i < c.len() - 1 {
            assert(c[i] == s.chunks[i]);
        }
    }
}

proof fn lemma_step_keeps_numbering(s: ChunkerState, e: MdEvent, target: usize, overlap: usize)
    requires
        well_numbered(s),
    ensures
        well_numbered(chunker_step(s, e, target, overlap)),
{
    match e {
        MdEvent::Text(t) => {
            let w = s.words + words_of(t@);
            if w.len() >= target {
                let sp = split_point(w, target as int, s.paragraph_breaks, s.code_block_boundaries, s.in_code_block);
                lemma_push_keeps_numbering(s, trim_seq(w.take(sp).flatten()));
            }
        },
        MdEvent::Start(MdTag::Heading(level)) => {
            if level <= 3 && s.words.len() > 0 {
                lemma_push_keeps_numbering(s, s.words.flatten());
            }
        },
        _ => {},
    }
}

proof fn lemma_run_numbered(events: Seq<MdEvent>, target: usize, overlap: usize)
    ensures
        well_numbered(chunker_run(events, target, overlap)),
    decreases events.len(),
{
    if events.len() > 0 {
        lemma_run_numbered(events.drop_last(), target, overlap);
        lemma_step_keeps_numbering(chunker_run(events.drop_last(), target, overlap), events.last(), target, overlap);
    }
}

/// The chunks of a document are numbered in order: the chunk at index `i`
/// has position `i`.
pub proof fn lemma_chunk_positions(events: Seq<MdEvent>, options: ChunkOptions)
    ensures
        forall|i: int|
            0 <= i < chunks_of_events(events, options).len()
                ==> (#[trigger] chunks_of_events(events, options)[i]).position == i,
{
    let s = chunker_run(events, options.target_chunk_size, options.overlap_size);
    lemma_run_numbered(events, options.target_chunk_size, options.overlap_size);
    if s.words.len() > 0 {
        lemma_push_keeps_numbering(s, trim_seq(s.words.flatten()));
    }
}

/// Once a chunk falls under a heading, every later chunk does too: headings
/// are never dropped, only replaced by the next one.
pub proof fn lemma_headings_persist(events: Seq<MdEvent>, options: ChunkOptions)
    ensures
        forall|i: int, j: int|
            0 <= i <= j < chunks_of_events(events, options).len()
                && (#[trigger] chunks_of_events(events, options)[i]).heading is Some
                ==> (#[trigger] chunks_of_events(events, options)[j]).heading is Some,
{
    let s = chunker_run(events, options.target_chunk_size, options.overlap_size);
    lemma_run_numbered(events, options.target_chunk_size, options.overlap_size);
    if s.words.len() > 0 {
        lemma_push_keeps_numbering(s, trim_seq(s.words.flatten()));
    }
}

} // verus!

verus! {

/// `s` is in ascending order.
pub open spec fn ascending(s: Seq<usize>) -> bool {
    forall|i: int, j: int| 0 <= i <= j < s.len() ==> s[i] <= s[j]
}

proof fn lemma_adjusted_bounded(b: Seq<usize>, start: int, end: int, x: int)
    requires
        0 <= start <= end,
        forall|i: int| 0 <= i < b.len() ==> b[i] <= x,
    ensures
        forall|i: int|
            0 <= i < adjusted(b, start, end).len() ==> (#[trigger] adjusted(b, start, end)[i]) <= (if x
                >= end { x - (end - start) } else { x }),
    decreases b.len(),
{
    if b.len() > 0 {
        let rest = b.drop_last();
        assert forall|i: int| 0 <= i < rest.len() implies rest[i] <= x by {
            assert(rest[i] == b[i]);
        }
        lemma_adjusted_bounded(rest, start, end, x);
        let r = adjusted(rest, start, end);
        let p = b.last();
        assert(p <= x);
        if p < start || p >= end {
            let q = if p >= end { (p - (end - start)) as usize } else { p };
            let bound = if x >= end { x - (end - start) } else { x };
            assert(q <= bound);
            assert forall|i: int| 0 <= i < r.push(q).len() implies r.push(q)[i] <= bound by {
                if i < r.len() {
                    assert(r.push(q)[i] == r[i]);
                }
            }
        }
    }
}

/// Cutting words away keeps boundary positions in ascending order.
pub proof fn lemma_adjusted_ascending(b: Seq<usize>, start: int, end: int)
    requires
        0 <= start <= end,
        ascending(b),
    ensures
        ascending(adjusted(b, start, end)),
    decreases b.len(),
{
    if b.len() > 0 {
        let rest = b.drop_last();
        let p = b.last();
        assert(ascending(rest));
        lemma_adjusted_ascending(rest, start, end);
        lemma_adjusted_bounded(rest, start, end, p as int);
        let r = adjusted(rest, start, end);
        if p < start || p >= end {
            let q = if p >= end { (p - (end - start)) as usize } else { p };
            assert forall|i: int, j: int| 0 <= i <= j < r.push(q).len() implies r.push(q)[i] <= r.push(q)[j] by {
                if j < r.len() {
                    assert(r.push(q)[i] == r[i] && r.push(q)[j] == r[j]);
                } else if i < r.len() {
                    assert(r.push(q)[i] == r[i]);
                }
            }
        }
    }
}

} // verus!
