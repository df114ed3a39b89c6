//! What the processor asks the language model and the embedding model,
//! and which chunks it sends them.

use crate::crawler::PageMetadata;
use crate::crawler::spider_integration::byte_len;
use crate::processor::chunking::TextChunk;
use vstd::prelude::*;

verus! {

/// The instruction that asks for a page summary.
pub open spec fn summary_preamble() -> Seq<char> {
    "Summarize the following text in a concise paragraph:\n"@
}

/// The instruction that asks for a page summary (see `summary_preamble`).
pub fn summary_instruction() -> (s: String)
    ensures
        s@ == summary_preamble(),
{
    String::from_str("Summarize the following text in a concise paragraph:\n")
}

/// `o`'s text, or `fallback`.
pub open spec fn text_or(o: Option<String>, fallback: Seq<char>) -> Seq<char> {
    match o {
        Some(s) => s@,
        None => fallback,
    }
}

/// The prompt that asks for the context string of the chunk `text` of the
/// page at `url`, given the page's summary and metadata: a description of
/// the page, then the chunk after the label `Text:`.
pub open spec fn context_prompt_of(url: Seq<char>, summary: Seq<char>, m: PageMetadata, text: Seq<char>) -> Seq<char> {
    "Generate a concise context string for the following text. The context string should help a user understand where this information comes from and its relevance.\n\nSource URL: "@
        + url + "\nTitle: "@ + text_or(m.title, "Unknown"@) + "\nDescription: "@
        + text_or(m.description, "No description available"@) + "\nPage Summary: "@ + summary
        + "\nDomain: "@ + m.domain@ + "\n\nText:\n"@ + text
}

/// The prompt for the context string of a chunk (see `context_prompt_of`).
pub fn context_prompt(url: &str, summary: &str, metadata: &PageMetadata, text: &str) -> (s: String)
    ensures
        s@ == context_prompt_of(url@, summary@, *metadata, text@),
{
    let mut s = String::from_str(
        "Generate a concise context string for the following text. The context string should help a user understand where this information comes from and its relevance.\n\nSource URL: ",
    );
    s.append(url);
    s.append("\nTitle: ");
    match &metadata.title {
        Some(t) => s.append(t.as_str()),
        None => s.append("Unknown"),
    }
    s.append("\nDescription: ");
    match &metadata.description {
        Some(d) => s.append(d.as_str()),
        None => s.append("No description available"),
    }
    s.append("\nPage Summary: ");
    s.append(summary);
    s.append("\nDomain: ");
    s.append(metadata.domain.as_str());
    s.append("\n\nText:\n");
    s.append(text);
    s
}

/// The text that is embedded for a chunk: its context string under the
/// label `Context`, then the chunk's text under the label `Text`.
pub fn embedding_input(text: &str, context: &str) -> (s: String)
    ensures
        s@ == "Context: "@ + context@ + "\nText: "@ + text@,
{
    let mut s = String::from_str("Context: ");
    s.append(context);
    s.append("\nText: ");
    s.append(text);
    s
}

/// Chunks of at most this many bytes are not processed.
pub const MAX_SKIPPED_CHUNK_BYTES: usize = 100;

/// The chunks among the first `n` of `cs` that are processed: those of
/// more than `MAX_SKIPPED_CHUNK_BYTES` bytes.
pub open spec fn processed_chunks(cs: Seq<TextChunk>, n: int) -> Seq<TextChunk>
    decreases n,
{
    if n <= 0 {
        Seq::empty()
    } else if byte_len(cs[n - 1].text@) > MAX_SKIPPED_CHUNK_BYTES {
        processed_chunks(cs, n - 1).push(cs[n - 1])
    } else {
        processed_chunks(cs, n - 1)
    }
}

/// The chunks that are worth a context string and an embedding, in order.
pub fn chunks_to_process(chunks: Vec<TextChunk>) -> (kept: Vec<TextChunk>)
    ensures
        kept@ == processed_chunks(chunks@, chunks@.len() as int),
{
    let mut kept: Vec<TextChunk> = Vec::new();
    let mut i: usize = 0;
    while i < chunks.len()
        invariant
            i <= chunks@.len(),
            kept@ == processed_chunks(chunks@, i as int),
        decreases chunks@.len() - i,
    {
        if chunks[i].text.as_str().len() > MAX_SKIPPED_CHUNK_BYTES {
            kept.push(copy_chunk(&chunks[i]));
        }
        i += 1;
    }
    kept
}

/// A copy of `c`.
fn copy_chunk(c: &TextChunk) -> (d: TextChunk)
    ensures
        d == *c,
{
    TextChunk {
        text: c.text.clone(),
        position: c.position,
        heading: match &c.heading {
            Some(h) => Some(h.clone()),
            None => None,
        },
    }
}

} // verus!
