//! Markdown events, as the parser reports them, in a form the library can
//! reason about.

use pulldown_cmark::{CodeBlockKind, Event, Options, Parser, Tag, TagEnd};
use vstd::prelude::*;

verus! {

#[verifier::external_type_specification]
#[verifier::external_body]
pub struct ExMarkdownEvent<'a>(Event<'a>);

#[verifier::external_type_specification]
#[verifier::external_body]
pub struct ExMarkdownTag<'a>(Tag<'a>);

#[verifier::external_type_specification]
#[verifier::external_body]
pub struct ExMarkdownTagEnd(TagEnd);

/// The opening of a Markdown element.
#[derive(Debug, Clone, PartialEq, Eq)]
pub enum MdTag {
    /// A heading of the given level (1 to 6).
    Heading(u8),
    Paragraph,
    Strong,
    Emphasis,
    BlockQuote,
    /// A code block; fenced ones carry their info string, indented ones none.
    CodeBlock(Option<String>),
    /// A list; ordered ones carry the number of their first item.
    List(Option<u64>),
    Item,
    /// A link with its destination.
    Link(String),
    /// Any other element.
    Other,
}

/// The closing of a Markdown element.
#[derive(Debug, Clone, PartialEq, Eq)]
pub enum MdTagEnd {
    Heading(u8),
    Paragraph,
    Strong,
    Emphasis,
    BlockQuote,
    CodeBlock,
    List,
    Item,
    Link,
    Other,
}

/// One event of a Markdown parse.
#[derive(Debug, Clone, PartialEq, Eq)]
pub enum MdEvent {
    Start(MdTag),
    End(MdTagEnd),
    /// Text content.
    Text(String),
    /// Inline code.
    Code(String),
    SoftBreak,
    HardBreak,
    /// Any other event (HTML, rules, footnote references, task markers, math).
    Other,
}

/// How far a list event changes the count of open lists.
pub open spec fn list_delta(e: MdEvent) -> int {
    match e {
        MdEvent::Start(MdTag::List(_)) => 1,
        MdEvent::End(MdTagEnd::List) => -1,
        _ => 0,
    }
}

/// The number of lists that `events` open and do not close.
pub open spec fn open_lists(events: Seq<MdEvent>) -> int
    decreases events.len(),
{
    if events.len() == 0 {
        0
    } else {
        open_lists(events.drop_last()) + list_delta(events.last())
    }
}

/// No prefix of `events` closes more lists than it opens.
pub open spec fn lists_nested(events: Seq<MdEvent>) -> bool {
    forall|i: int| 0 <= i <= events.len() ==> open_lists(#[trigger] events.take(i)) >= 0
}

/// The kind of an element, by which an opening and a closing pair up.
#[derive(Debug, Clone, Copy, PartialEq, Eq)]
pub enum TagKind {
    Heading,
    Paragraph,
    Strong,
    Emphasis,
    BlockQuote,
    CodeBlock,
    List,
    Item,
    Link,
    Other,
}

/// The kind of an opening.
pub open spec fn start_kind(t: MdTag) -> TagKind {
    match t {
        MdTag::Heading(_) => TagKind::Heading,
        MdTag::Paragraph => TagKind::Paragraph,
        MdTag::Strong => TagKind::Strong,
        MdTag::Emphasis => TagKind::Emphasis,
        MdTag::BlockQuote => TagKind::BlockQuote,
        MdTag::CodeBlock(_) => TagKind::CodeBlock,
        MdTag::List(_) => TagKind::List,
        MdTag::Item => TagKind::Item,
        MdTag::Link(_) => TagKind::Link,
        MdTag::Other => TagKind::Other,
    }
}

/// The kind of a closing.
pub open spec fn end_kind(t: MdTagEnd) -> TagKind {
    match t {
        MdTagEnd::Heading(_) => TagKind::Heading,
        MdTagEnd::Paragraph => TagKind::Paragraph,
        MdTagEnd::Strong => TagKind::Strong,
        MdTagEnd::Emphasis => TagKind::Emphasis,
        MdTagEnd::BlockQuote => TagKind::BlockQuote,
        MdTagEnd::CodeBlock => TagKind::CodeBlock,
        MdTagEnd::List => TagKind::List,
        MdTagEnd::Item => TagKind::Item,
        MdTagEnd::Link => TagKind::Link,
        MdTagEnd::Other => TagKind::Other,
    }
}

/// The elements that `events` leave open, innermost last; nothing when a
/// closing does not close the innermost open element.
pub open spec fn open_tags(events: Seq<MdEvent>) -> Option<Seq<TagKind>>
    decreases events.len(),
{
    if events.len() == 0 {
        Some(Seq::empty())
    } else {
        match open_tags(events.drop_last()) {
            None => None,
            Some(st) => match events.last() {
                MdEvent::Start(t) => Some(st.push(start_kind(t))),
                MdEvent::End(t) => if st.len() > 0 && st.last() == end_kind(t) {
                    Some(st.drop_last())
                } else {
                    None
                },
                _ => Some(st),
            },
        }
    }
}

/// Start and end events are balanced: each closing closes the innermost
/// open element, of its own kind, and every element is closed.
pub open spec fn tags_balanced(events: Seq<MdEvent>) -> bool {
    open_tags(events) == Some(Seq::<TagKind>::empty())
}

/// The events that `pulldown_cmark::Parser::new_ext` yields for `markdown`,
/// with every extension enabled when `extended` holds and none otherwise.
pub uninterp spec fn markdown_events_of(markdown: Seq<char>, extended: bool) -> Seq<MdEvent>;

/// Parses `markdown` with `pulldown_cmark::Parser::new_ext`, with
/// `Options::all()` when `extended` holds and `Options::empty()` (which is
/// what `Parser::new` uses) otherwise. The events are returned in the order
/// the parser yields them; the contract names that sequence and states the
/// one property that the parser documents of it: start and end events are
/// balanced (so, in particular, no prefix closes a list that it did not
/// open).
#[verifier::external_body]
pub fn markdown_events(markdown: &str, extended: bool) -> (events: Vec<MdEvent>)
    ensures
        events@ == markdown_events_of(markdown@, extended),
        tags_balanced(events@),
        lists_nested(events@),
{
    let options = if extended { Options::all() } else { Options::empty() };
    Parser::new_ext(markdown, options).map(md_event_of).collect()
}

/// Moves the fields of a parser event into an `MdEvent`.
#[verifier::external_body]
fn md_event_of(event: Event<'_>) -> MdEvent {
    match event {
        Event::Start(tag) => MdEvent::Start(md_tag_of(tag)),
        Event::End(tag) => MdEvent::End(md_tag_end_of(tag)),
        Event::Text(text) => MdEvent::Text(text.into_string()),
        Event::Code(code) => MdEvent::Code(code.into_string()),
        Event::SoftBreak => MdEvent::SoftBreak,
        Event::HardBreak => MdEvent::HardBreak,
        _ => MdEvent::Other,
    }
}

/// Moves the fields of a parser tag into an `MdTag`.
#[verifier::external_body]
fn md_tag_of(tag: Tag<'_>) -> MdTag {
    match tag {
        Tag::Heading { level, .. } => MdTag::Heading(level as u8),
        Tag::Paragraph => MdTag::Paragraph,
        Tag::Strong => MdTag::Strong,
        Tag::Emphasis => MdTag::Emphasis,
        Tag::BlockQuote(_) => MdTag::BlockQuote,
        Tag::CodeBlock(CodeBlockKind::Fenced(info)) => MdTag::CodeBlock(Some(info.into_string())),
        Tag::CodeBlock(CodeBlockKind::Indented) => MdTag::CodeBlock(None),
        Tag::List(first) => MdTag::List(first),
        Tag::Item => MdTag::Item,
        Tag::Link { dest_url, .. } => MdTag::Link(dest_url.into_string()),
        _ => MdTag::Other,
    }
}

/// Moves the fields of a parser tag end into an `MdTagEnd`.
#[verifier::external_body]
fn md_tag_end_of(tag: TagEnd) -> MdTagEnd {
    match tag {
        TagEnd::Heading(level) => MdTagEnd::Heading(level as u8),
        TagEnd::Paragraph => MdTagEnd::Paragraph,
        TagEnd::Strong => MdTagEnd::Strong,
        TagEnd::Emphasis => MdTagEnd::Emphasis,
        TagEnd::BlockQuote(_) => MdTagEnd::BlockQuote,
        TagEnd::CodeBlock => MdTagEnd::CodeBlock,
        TagEnd::List(_) => MdTagEnd::List,
        TagEnd::Item => MdTagEnd::Item,
        TagEnd::Link => MdTagEnd::Link,
        _ => MdTagEnd::Other,
    }
}

} // verus!
