//! Search over the index and the prompts that answer a question from what
//! it found.

use crate::gemini::types::{Content, Part};
use crate::text::{decimal, decimal_string};
use vstd::prelude::*;

verus! {

/// Options of a search.
#[derive(Debug, Clone)]
pub struct SearchOptions {
    /// Maximum number of results.
    pub limit: usize,
    /// Only results from this source, if given.
    pub source_filter: Option<String>,
    /// Only results indexed in this range of times (seconds since the Unix
    /// epoch), if given.
    pub date_range: Option<(i64, i64)>,
}

impl Default for SearchOptions {
    fn default() -> (o: Self)
        ensures
            o.limit == 10,
            o.source_filter is None,
            o.date_range is None,
    {
        SearchOptions { limit: 10, source_filter: None, date_range: None }
    }
}

/// A chunk found by a search.
#[derive(Debug, Clone)]
pub struct SearchResult {
    /// Text of the chunk.
    pub text: String,
    /// URL of the page it comes from.
    pub url: String,
    /// Context string of the chunk.
    pub context: String,
}

/// The context block for result `i` (0-based).
pub open spec fn source_block(i: int, r: SearchResult) -> Seq<char> {
    "Source "@ + decimal((i + 1) as nat) + ":\n"@ + "URL: "@ + r.url@ + "\n"@ + "Content: "@ + r.text@ + "\n\n"@
}

/// The context that the first `n` results give.
pub open spec fn rag_context(rs: Seq<SearchResult>, n: int) -> Seq<char>
    decreases n,
{
    if n <= 0 {
        Seq::empty()
    } else {
        rag_context(rs, n - 1) + source_block(n - 1, rs[n - 1])
    }
}

/// The context for an answer: each result numbered from 1 with its URL and
/// content.
pub fn prepare_rag_context(results: &Vec<SearchResult>) -> (s: String)
    ensures
        s@ == rag_context(results@, results@.len() as int),
{
    let mut s = String::new();
    let mut i: usize = 0;
    while i < results.len()
        invariant
            i <= results@.len(),
            s@ == rag_context(results@, i as int),
        decreases results@.len() - i,
    {
        let r = &results[i];
        let ghost before = s@;
        s.append("Source ");
        let n = decimal_string((i + 1) as u64);
        s.append(n.as_str());
        s.append(":\n");
        s.append("URL: ");
        s.append(r.url.as_str());
        s.append("\n");
        s.append("Content: ");
        s.append(r.text.as_str());
        s.append("\n\n");
        assert(s@ =~= before + source_block(i as int, results@[i as int]));
        i += 1;
    }
    s
}

/// The instructions of the model that answers from search results.
pub open spec fn rag_system_prompt() -> Seq<char> {
    "You are a helpful assistant that answers questions based on the provided context. Use only the information from the context to answer the question. If the context doesn't contain enough information to answer the question fully, acknowledge the limitations and provide the best answer possible with the available information. Be concise and accurate."@
}

/// The question put to the model, with its context.
pub open spec fn rag_user_prompt(context: Seq<char>, query: Seq<char>) -> Seq<char> {
    "Context:\n"@ + context + "\n\nQuestion: "@ + query + "\n\nAnswer:"@
}

/// `c` has role `role` and exactly the text `text`.
pub open spec fn is_turn(c: Content, role: Seq<char>, text: Seq<char>) -> bool {
    &&& c.role matches Some(r) && r@ == role
    &&& c.parts@.len() == 1
    &&& c.parts@[0] matches Part::Text(t) && t@ == text
}

/// The system and user contents of a request that answers `query` from
/// `context`.
pub fn rag_request(query: &str, context: &str) -> (r: (Content, Content))
    ensures
        is_turn(r.0, "system"@, rag_system_prompt()),
        is_turn(r.1, "user"@, rag_user_prompt(context@, query@)),
{
    let system = Content::new().with_role("system").with_text(
        "You are a helpful assistant that answers questions based on the provided context. Use only the information from the context to answer the question. If the context doesn't contain enough information to answer the question fully, acknowledge the limitations and provide the best answer possible with the available information. Be concise and accurate.",
    );
    let mut prompt = String::from_str("Context:\n");
    prompt.append(context);
    prompt.append("\n\nQuestion: ");
    prompt.append(query);
    prompt.append("\n\nAnswer:");
    let user = Content::new().with_role("user").with_text(prompt.as_str());
    (system, user)
}

} // verus!
