//! Request paths of the model, file and chat endpoints, and the contents
//! that a chat turn sends.

use crate::error::Error;
use crate::gemini::types::{Content, Part};
use vstd::prelude::*;

verus! {

/// `prefix + name + suffix`.
fn joined(prefix: &str, name: &str, suffix: &str) -> (s: String)
    ensures
        s@ == prefix@ + name@ + suffix@,
{
    let mut s = String::from_str(prefix);
    s.append(name);
    s.append(suffix);
    s
}

/// `first + second`.
fn paired(first: &str, second: &str) -> (s: String)
    ensures
        s@ == first@ + second@,
{
    let mut s = String::from_str(first);
    s.append(second);
    s
}

/// `models/{model}:generateContent`.
pub fn generate_content_path(model: &str) -> (p: String)
    ensures
        p@ == "models/"@ + model@ + ":generateContent"@,
{
    joined("models/", model, ":generateContent")
}

/// `models/{model}:countTokens`.
pub fn count_tokens_path(model: &str) -> (p: String)
    ensures
        p@ == "models/"@ + model@ + ":countTokens"@,
{
    joined("models/", model, ":countTokens")
}

/// `models/{model}/embedContent`.
pub fn embed_content_path(model: &str) -> (p: String)
    ensures
        p@ == "models/"@ + model@ + "/embedContent"@,
{
    joined("models/", model, "/embedContent")
}

/// `models/{model}/computeTokens`, which only Vertex AI serves: elsewhere
/// an `Error::Unsupported`.
pub fn compute_tokens_path(model: &str, is_vertex: bool) -> (r: Result<String, Error>)
    ensures
        is_vertex ==> (r matches Ok(p) && p@ == "models/"@ + model@ + "/computeTokens"@),
        !is_vertex ==> (r matches Err(Error::Unsupported(m))
            && m@ == "compute_tokens is only available in Vertex AI"@),
{
    if !is_vertex {
        return Err(Error::Unsupported(String::from_str("compute_tokens is only available in Vertex AI")));
    }
    Ok(joined("models/", model, "/computeTokens"))
}

/// `files/{name}`.
pub fn file_path(name: &str) -> (p: String)
    ensures
        p@ == "files/"@ + name@,
{
    paired("files/", name)
}

/// `chats/{id}`, the name of a chat session.
pub fn chat_id(id: &str) -> (p: String)
    ensures
        p@ == "chats/"@ + id@,
{
    paired("chats/", id)
}

/// `{chat_id}/messages`.
pub fn messages_path(chat_id: &str) -> (p: String)
    ensures
        p@ == chat_id@ + "/messages"@,
{
    paired(chat_id, "/messages")
}

/// `c` is a user turn holding exactly the text `text`.
pub open spec fn is_user_text(c: Content, text: Seq<char>) -> bool {
    &&& c.role matches Some(r) && r@ == "user"@
    &&& c.parts@.len() == 1
    &&& c.parts@[0] matches Part::Text(t) && t@ == text
}

/// The contents that a chat turn sends: the history, if any, then the
/// message as a user turn.
pub fn chat_turn_contents(history: Option<Vec<Content>>, message: &str) -> (cs: Vec<Content>)
    ensures
        cs@.len() >= 1,
        is_user_text(cs@.last(), message@),
        cs@.drop_last() == match history {
            Some(h) => h@,
            None => Seq::<Content>::empty(),
        },
{
    let content = Content::new().with_role("user").with_text(message);
    let mut contents = match history {
        Some(h) => h,
        None => Vec::new(),
    };
    let ghost before = contents@;
    contents.push(content);
    assert(contents@.drop_last() =~= before);
    contents
}

} // verus!
