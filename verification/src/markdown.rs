//! Rendering of Markdown for a color terminal: headings, emphasis, quotes,
//! code, lists and links become styled text. The renderer turns each parser
//! event into terminal operations (write text, set a style, reset); the
//! terminal carries them out.

use crate::md::{end_kind, list_delta, lists_nested, markdown_events, markdown_events_of, open_lists, open_tags, tags_balanced, MdEvent, MdTag, MdTagEnd, TagKind};
use crate::text::{decimal, push_decimal, push_repeated, repeated};
use vstd::prelude::*;

verus! {

/// A terminal color.
#[derive(Debug, Clone, Copy, PartialEq, Eq)]
pub enum TermColor {
    Rgb(u8, u8, u8),
    Cyan,
    Yellow,
    Green,
    Blue,
}

/// A text style: foreground color and attributes. The default style sets
/// nothing.
#[derive(Debug, Clone, Copy, PartialEq, Eq)]
pub struct Style {
    pub fg: Option<TermColor>,
    pub bold: bool,
    pub italic: bool,
    pub underline: bool,
}

/// The style that sets nothing.
pub open spec fn plain() -> Style {
    Style { fg: None, bold: false, italic: false, underline: false }
}

/// `plain()` with foreground `c`.
pub open spec fn colored(c: TermColor) -> Style {
    Style { fg: Some(c), ..plain() }
}

/// One terminal operation.
#[derive(Debug, Clone, PartialEq, Eq)]
pub enum Output {
    /// Write this text.
    Write(String),
    /// Switch to this style.
    SetStyle(Style),
    /// Go back to the terminal's own style.
    Reset,
}

/// A terminal operation as the contracts see it.
pub enum OutputView {
    Write(Seq<char>),
    SetStyle(Style),
    Reset,
}

impl View for Output {
    type V = OutputView;

    open spec fn view(&self) -> OutputView {
        match self {
            Output::Write(s) => OutputView::Write(s@),
            Output::SetStyle(st) => OutputView::SetStyle(*st),
            Output::Reset => OutputView::Reset,
        }
    }
}

/// The views of a sequence of operations.
pub open spec fn output_views(s: Seq<Output>) -> Seq<OutputView> {
    s.map_values(|o: Output| o@)
}

/// The renderer's state as the contracts see it.
pub struct FormatView {
    pub in_code_block: bool,
    pub list_level: nat,
    pub styles: Seq<Style>,
    pub ordered_list: Option<bool>,
}

/// The state before any event.
pub open spec fn start_view() -> FormatView {
    FormatView { in_code_block: false, list_level: 0, styles: Seq::empty(), ordered_list: None }
}

/// Style of a heading of `level`: tomato red for level 1, steel blue for
/// level 2, cyan below; always bold.
pub open spec fn heading_style(level: u8) -> Style {
    let c = if level == 1 {
        TermColor::Rgb(255, 99, 71)
    } else if level == 2 {
        TermColor::Rgb(70, 130, 180)
    } else {
        TermColor::Cyan
    };
    Style { fg: Some(c), bold: true, ..plain() }
}

/// Style of a link: blue and underlined.
pub open spec fn link_style() -> Style {
    Style { fg: Some(TermColor::Blue), underline: true, ..plain() }
}

/// Style of the language label of a code block: blue italics.
pub open spec fn label_style() -> Style {
    Style { fg: Some(TermColor::Blue), italic: true, ..plain() }
}

/// The style to go back to after the top of `styles` was removed.
pub open spec fn restore(styles: Seq<Style>) -> OutputView {
    if styles.len() > 0 {
        OutputView::SetStyle(styles.last())
    } else {
        OutputView::Reset
    }
}

/// `styles` without its top, if it has one.
pub open spec fn popped(styles: Seq<Style>) -> Seq<Style> {
    if styles.len() > 0 { styles.drop_last() } else { styles }
}

/// The indentation of list level `level` (two spaces per level beyond the
/// first).
pub open spec fn indent(level: nat) -> Seq<char> {
    repeated("  "@, (level - 1) as nat)
}

/// The number of an ordered list's first item, right-aligned in two
/// columns and followed by `. ` (as `{:2}. ` writes it).
pub open spec fn item_number(n: u64) -> Seq<char> {
    if n < 10 { " "@ + decimal(n as nat) + ". "@ } else { decimal(n as nat) + ". "@ }
}

/// What an opening tag does: the next state and the operations.
pub open spec fn start_step(s: FormatView, tag: MdTag) -> (FormatView, Seq<OutputView>) {
    match tag {
        MdTag::Heading(level) => {
            let st = heading_style(level);
            (
                FormatView { styles: s.styles.push(st), ..s },
                if level == 1 {
                    seq![OutputView::SetStyle(st), OutputView::Write("\n"@)]
                } else {
                    seq![OutputView::SetStyle(st)]
                },
            )
        },
        MdTag::Paragraph => (s, seq![OutputView::Write("\n"@)]),
        MdTag::Strong => {
            let st = Style { bold: true, ..plain() };
            (FormatView { styles: s.styles.push(st), ..s }, seq![OutputView::SetStyle(st)])
        },
        MdTag::Emphasis => {
            let st = Style { italic: true, ..plain() };
            (FormatView { styles: s.styles.push(st), ..s }, seq![OutputView::SetStyle(st)])
        },
        MdTag::BlockQuote => {
            let st = colored(TermColor::Yellow);
            (
                FormatView { styles: s.styles.push(st), ..s },
                seq![OutputView::SetStyle(st), OutputView::Write("  │ "@)],
            )
        },
        MdTag::CodeBlock(info) => {
            let st = colored(TermColor::Green);
            let t = FormatView { in_code_block: true, styles: s.styles.push(st), ..s };
            match info {
                Some(lang) => if lang@.len() > 0 {
                    (
                        t,
                        seq![
                            OutputView::SetStyle(st),
                            OutputView::Write("\n"@),
                            OutputView::SetStyle(label_style()),
                            OutputView::Write("["@ + lang@ + "]\n"@),
                            OutputView::SetStyle(st),
                        ],
                    )
                } else {
                    (t, seq![OutputView::SetStyle(st), OutputView::Write("\n"@)])
                },
                None => (t, seq![OutputView::SetStyle(st), OutputView::Write("\n"@)]),
            }
        },
        MdTag::List(first) => {
            let level = s.list_level + 1;
            let t = FormatView { list_level: level, ordered_list: Some(first is Some), ..s };
            match first {
                Some(n) => (t, seq![OutputView::Write(indent(level) + item_number(n))]),
                None => (t, Seq::empty()),
            }
        },
        MdTag::Item => {
            if s.list_level > 0 && s.ordered_list != Some(true) {
                (s, seq![OutputView::Write(indent(s.list_level) + "• "@)])
            } else {
                (s, Seq::empty())
            }
        },
        MdTag::Link(dest) => {
            let st = link_style();
            (
                FormatView { styles: s.styles.push(st), ..s },
                seq![OutputView::SetStyle(st), OutputView::Write(dest@)],
            )
        },
        MdTag::Other => (s, Seq::empty()),
    }
}

/// What a closing tag does: the next state and the operations. Closing a
/// list needs an open one.
pub open spec fn end_step(s: FormatView, tag: MdTagEnd) -> (FormatView, Seq<OutputView>) {
    match tag {
        MdTagEnd::Heading(_) => (FormatView { styles: popped(s.styles), ..s }, seq![OutputView::Write("\n"@)]),
        MdTagEnd::Paragraph => (s, seq![OutputView::Write("\n"@)]),
        MdTagEnd::Strong | MdTagEnd::Emphasis => {
            let rest = popped(s.styles);
            (FormatView { styles: rest, ..s }, seq![restore(rest)])
        },
        MdTagEnd::Link => {
            let rest = popped(s.styles);
            (FormatView { styles: rest, ..s }, seq![restore(rest), OutputView::Write(" "@)])
        },
        MdTagEnd::BlockQuote => {
            let rest = popped(s.styles);
            (FormatView { styles: rest, ..s }, seq![restore(rest), OutputView::Write("\n"@)])
        },
        MdTagEnd::CodeBlock => {
            let rest = popped(s.styles);
            (
                FormatView { in_code_block: false, styles: rest, ..s },
                seq![restore(rest), OutputView::Write("\n"@)],
            )
        },
        MdTagEnd::List => {
            let level = (s.list_level - 1) as nat;
            if level == 0 {
                (FormatView { list_level: 0, ordered_list: None, ..s }, seq![OutputView::Write("\n"@)])
            } else {
                (FormatView { list_level: level, ..s }, Seq::empty())
            }
        },
        MdTagEnd::Item => (s, seq![OutputView::Write("\n"@)]),
        MdTagEnd::Other => (s, Seq::empty()),
    }
}

/// What one event does: the next state and the operations. Inline code is
/// written in green between backquotes, after which the style on top of
/// the stack (or the default style) is set again.
pub open spec fn format_step(s: FormatView, e: MdEvent) -> (FormatView, Seq<OutputView>) {
    match e {
        MdEvent::Start(tag) => start_step(s, tag),
        MdEvent::End(tag) => end_step(s, tag),
        MdEvent::Text(t) => (s, seq![OutputView::Write(t@)]),
        MdEvent::Code(c) => (
            s,
            seq![
                OutputView::SetStyle(colored(TermColor::Green)),
                OutputView::Write("`"@ + c@ + "`"@),
                OutputView::SetStyle(if s.styles.len() > 0 { s.styles.last() } else { plain() }),
            ],
        ),
        MdEvent::SoftBreak | MdEvent::HardBreak => (s, seq![OutputView::Write("\n"@)]),
        MdEvent::Other => (s, Seq::empty()),
    }
}

/// The state after `events`, from `start_view()`.
pub open spec fn format_state(events: Seq<MdEvent>) -> FormatView
    decreases events.len(),
{
    if events.len() == 0 {
        start_view()
    } else {
        format_step(format_state(events.drop_last()), events.last()).0
    }
}

/// The operations that render `events`, from `start_view()`.
pub open spec fn format_outputs(events: Seq<MdEvent>) -> Seq<OutputView>
    decreases events.len(),
{
    if events.len() == 0 {
        Seq::empty()
    } else {
        format_outputs(events.drop_last()) + format_step(format_state(events.drop_last()), events.last()).1
    }
}

/// The operations that render `markdown`, parsed with every extension.
pub open spec fn markdown_outputs(markdown: Seq<char>) -> Seq<OutputView> {
    format_outputs(markdown_events_of(markdown, true))
}

/// The renderer's state.
pub struct FormatState {
    in_code_block: bool,
    list_level: usize,
    format_stack: Vec<Style>,
    current_list_type: Option<bool>,
}

impl View for FormatState {
    type V = FormatView;

    closed spec fn view(&self) -> FormatView {
        FormatView {
            in_code_block: self.in_code_block,
            list_level: self.list_level as nat,
            styles: self.format_stack@,
            ordered_list: self.current_list_type,
        }
    }
}

/// Appends `o` to `out`.
fn emit(out: &mut Vec<Output>, o: Output)
    ensures
        output_views(final(out)@) == output_views(old(out)@).push(o@),
{
    out.push(o);
    assert(output_views(out@) =~= output_views(old(out)@).push(o@));
}

/// Appends a `Write` of `text`.
fn emit_text(out: &mut Vec<Output>, text: &str)
    ensures
        output_views(final(out)@) == output_views(old(out)@).push(OutputView::Write(text@)),
{
    emit(out, Output::Write(String::from_str(text)));
}

impl FormatState {
    /// The state before any event.
    pub fn new() -> (s: Self)
        ensures
            s@ == start_view(),
    {
        FormatState { in_code_block: false, list_level: 0, format_stack: Vec::new(), current_list_type: None }
    }

    /// The top of the style stack, or the default style.
    fn current_style(&self) -> (st: Style)
        ensures
            st == if self@.styles.len() > 0 { self@.styles.last() } else { plain() },
    {
        let n = self.format_stack.len();
        if n > 0 {
            self.format_stack[n - 1]
        } else {
            Style { fg: None, bold: false, italic: false, underline: false }
        }
    }

    /// Pushes `st` and switches to it.
    fn push_style(&mut self, st: Style, out: &mut Vec<Output>)
        ensures
            final(self)@ == (FormatView { styles: old(self)@.styles.push(st), ..old(self)@ }),
            output_views(final(out)@) == output_views(old(out)@).push(OutputView::SetStyle(st)),
    {
        self.format_stack.push(st);
        emit(out, Output::SetStyle(st));
    }

    /// Pops the top style and switches to the one below it, or resets.
    fn pop_style(&mut self, out: &mut Vec<Output>)
        ensures
            final(self)@ == (FormatView { styles: popped(old(self)@.styles), ..old(self)@ }),
            output_views(final(out)@) == output_views(old(out)@).push(restore(popped(old(self)@.styles))),
    {
        self.format_stack.pop();
        let n = self.format_stack.len();
        if n > 0 {
            let st = self.format_stack[n - 1];
            emit(out, Output::SetStyle(st));
        } else {
            emit(out, Output::Reset);
        }
    }

    /// Renders one event, appending its operations to `out`.
    pub fn handle_event(&mut self, event: &MdEvent, out: &mut Vec<Output>)
        requires
            event is Start && event->Start_0 is List ==> old(self)@.list_level < usize::MAX,
            event is End && event->End_0 is List ==> old(self)@.list_level > 0,
        ensures
            final(self)@ == format_step(old(self)@, *event).0,
            output_views(final(out)@) == output_views(old(out)@) + format_step(old(self)@, *event).1,
    {
        let ghost out0 = output_views(out@);
        match event {
            MdEvent::Start(tag) => self.handle_start(tag, out),
            MdEvent::End(tag) => self.handle_end(tag, out),
            MdEvent::Text(t) => {
                emit_text(out, t.as_str());
                assert(output_views(out@) =~= out0 + seq![OutputView::Write(t@)]);
            },
            MdEvent::Code(c) => {
                let current = self.current_style();
                emit(out, Output::SetStyle(Style { fg: Some(TermColor::Green), bold: false, italic: false, underline: false }));
                let mut s = String::from_str("`");
                s.append(c.as_str());
                s.append("`");
                emit(out, Output::Write(s));
                emit(out, Output::SetStyle(current));
                assert(output_views(out@) =~= out0 + format_step(self@, *event).1);
            },
            MdEvent::SoftBreak | MdEvent::HardBreak => {
                emit_text(out, "\n");
                assert(output_views(out@) =~= out0 + seq![OutputView::Write("\n"@)]);
            },
            MdEvent::Other => {
                assert(output_views(out@) =~= out0 + Seq::<OutputView>::empty());
            },
        }
    }

    fn handle_start(&mut self, tag: &MdTag, out: &mut Vec<Output>)
        requires
            tag is List ==> old(self)@.list_level < usize::MAX,
        ensures
            final(self)@ == start_step(old(self)@, *tag).0,
            output_views(final(out)@) == output_views(old(out)@) + start_step(old(self)@, *tag).1,
    {
        let ghost out0 = output_views(out@);
        match tag {
            MdTag::Heading(level) => {
                let c = if *level == 1 {
                    TermColor::Rgb(255, 99, 71)
                } else if *level == 2 {
                    TermColor::Rgb(70, 130, 180)
                } else {
                    TermColor::Cyan
                };
                self.push_style(Style { fg: Some(c), bold: true, italic: false, underline: false }, out);
                if *level == 1 {
                    emit_text(out, "\n");
                }
                assert(output_views(out@) =~= out0 + start_step(old(self)@, *tag).1);
            },
            MdTag::Paragraph => {
                emit_text(out, "\n");
                assert(output_views(out@) =~= out0 + start_step(old(self)@, *tag).1);
            },
            MdTag::Strong => {
                self.push_style(Style { fg: None, bold: true, italic: false, underline: false }, out);
                assert(output_views(out@) =~= out0 + start_step(old(self)@, *tag).1);
            },
            MdTag::Emphasis => {
                self.push_style(Style { fg: None, bold: false, italic: true, underline: false }, out);
                assert(output_views(out@) =~= out0 + start_step(old(self)@, *tag).1);
            },
            MdTag::BlockQuote => {
                self.push_style(Style { fg: Some(TermColor::Yellow), bold: false, italic: false, underline: false }, out);
                emit_text(out, "  │ ");
                assert(output_views(out@) =~= out0 + start_step(old(self)@, *tag).1);
            },
            MdTag::CodeBlock(info) => {
                self.in_code_block = true;
                let st = Style { fg: Some(TermColor::Green), bold: false, italic: false, underline: false };
                self.push_style(st, out);
                emit_text(out, "\n");
                match info {
                    Some(lang) => {
                        if !lang.as_str().is_empty() {
                            emit(out, Output::SetStyle(Style { fg: Some(TermColor::Blue), bold: false, italic: true, underline: false }));
                            let mut label = String::from_str("[");
                            label.append(lang.as_str());
                            label.append("]\n");
                            emit(out, Output::Write(label));
                            emit(out, Output::SetStyle(st));
                        }
                    },
                    None => {},
                }
                assert(output_views(out@) =~= out0 + start_step(old(self)@, *tag).1);
            },
            MdTag::List(first) => {
                self.list_level = self.list_level + 1;
                self.current_list_type = Some(first.is_some());
                match first {
                    Some(n) => {
                        let mut s = String::new();
                        push_repeated(&mut s, "  ", self.list_level - 1);
                        if *n < 10 {
                            s.append(" ");
                        }
                        push_decimal(&mut s, *n);
                        s.append(". ");
                        assert(s@ =~= indent(self@.list_level) + item_number(*n));
                        emit(out, Output::Write(s));
                    },
                    None => {},
                }
                assert(output_views(out@) =~= out0 + start_step(old(self)@, *tag).1);
            },
            MdTag::Item => {
                if self.list_level > 0 {
                    match self.current_list_type {
                        Some(true) => {},
                        _ => {
                            let mut s = String::new();
                            push_repeated(&mut s, "  ", self.list_level - 1);
                            s.append("• ");
                            emit(out, Output::Write(s));
                        },
                    }
                }
                assert(output_views(out@) =~= out0 + start_step(old(self)@, *tag).1);
            },
            MdTag::Link(dest) => {
                self.push_style(Style { fg: Some(TermColor::Blue), bold: false, italic: false, underline: true }, out);
                emit_text(out, dest.as_str());
                assert(output_views(out@) =~= out0 + start_step(old(self)@, *tag).1);
            },
            MdTag::Other => {
                assert(output_views(out@) =~= out0 + start_step(old(self)@, *tag).1);
            },
        }
    }

    fn handle_end(&mut self, tag: &MdTagEnd, out: &mut Vec<Output>)
        requires
            *tag is List ==> old(self)@.list_level > 0,
        ensures
            final(self)@ == end_step(old(self)@, *tag).0,
            output_views(final(out)@) == output_views(old(out)@) + end_step(old(self)@, *tag).1,
    {
        let ghost out0 = output_views(out@);
        match tag {
            MdTagEnd::Heading(_) => {
                self.format_stack.pop();
                emit_text(out, "\n");
            },
            MdTagEnd::Paragraph => {
                emit_text(out, "\n");
            },
            MdTagEnd::Strong | MdTagEnd::Emphasis => {
                self.pop_style(out);
            },
            MdTagEnd::Link => {
                self.pop_style(out);
                emit_text(out, " ");
            },
            MdTagEnd::BlockQuote => {
                self.pop_style(out);
                emit_text(out, "\n");
            },
            MdTagEnd::CodeBlock => {
                self.in_code_block = false;
                self.pop_style(out);
                emit_text(out, "\n");
            },
            MdTagEnd::List => {
                self.list_level = self.list_level - 1;
                if self.list_level == 0 {
                    self.current_list_type = None;
                    emit_text(out, "\n");
                }
            },
            MdTagEnd::Item => {
                emit_text(out, "\n");
            },
            MdTagEnd::Other => {},
        }
        assert(self@ == end_step(old(self)@, *tag).0);
        assert(output_views(out@) =~= out0 + end_step(old(self)@, *tag).1);
    }
}

proof fn lemma_list_level(events: Seq<MdEvent>)
    requires
        lists_nested(events),
    ensures
        format_state(events).list_level == open_lists(events),
        open_lists(events) <= events.len(),
    decreases events.len(),
{
    if events.len() > 0 {
        let pre = events.drop_last();
        assert forall|i: int| 0 <= i <= pre.len() implies open_lists(#[trigger] pre.take(i)) >= 0 by {
            assert(pre.take(i) =~= events.take(i));
        }
        lemma_list_level(pre);
        assert(events.take(events.len() as int) =~= events);
    }
}

/// Kinds of element that the renderer styles: headings, strong and
/// emphasized text, block quotes, code blocks and links.
pub open spec fn is_styled(k: TagKind) -> bool {
    k == TagKind::Heading || k == TagKind::Strong || k == TagKind::Emphasis || k == TagKind::BlockQuote
        || k == TagKind::CodeBlock || k == TagKind::Link
}

/// The number of styled elements among the open elements `st`.
pub open spec fn styled_count(st: Seq<TagKind>) -> nat
    decreases st.len(),
{
    if st.len() == 0 {
        0
    } else {
        styled_count(st.drop_last()) + if is_styled(st.last()) { 1nat } else { 0nat }
    }
}

/// The number of elements of kind `k` among the open elements `st`.
pub open spec fn kind_count(st: Seq<TagKind>, k: TagKind) -> nat
    decreases st.len(),
{
    if st.len() == 0 {
        0
    } else {
        kind_count(st.drop_last(), k) + if st.last() == k { 1nat } else { 0nat }
    }
}

/// Whether the last code block event among `events` opens one.
pub open spec fn code_block_open(events: Seq<MdEvent>) -> bool
    decreases events.len(),
{
    if events.len() == 0 {
        false
    } else {
        match events.last() {
            MdEvent::Start(MdTag::CodeBlock(_)) => true,
            MdEvent::End(MdTagEnd::CodeBlock) => false,
            _ => code_block_open(events.drop_last()),
        }
    }
}

/// The renderer keeps track of the open elements: after any events from the
/// start in which every closing closes the innermost open element (as the
/// parser guarantees), its style stack holds one style per open styled
/// element, its list level is the number of open lists, and it is inside a
/// code block exactly when the last code block event opened one, which is
/// then still open.
pub proof fn lemma_format_tracks_open_tags(events: Seq<MdEvent>)
    requires
        open_tags(events) is Some,
    ensures
        format_state(events).styles.len() == styled_count(open_tags(events)->0),
        format_state(events).list_level == kind_count(open_tags(events)->0, TagKind::List),
        format_state(events).in_code_block == code_block_open(events),
        code_block_open(events) ==> kind_count(open_tags(events)->0, TagKind::CodeBlock) > 0,
    decreases events.len(),
{
    if events.len() > 0 {
        let pre = events.drop_last();
        lemma_format_tracks_open_tags(pre);
        let st0 = open_tags(pre)->0;
        let st = open_tags(events)->0;
        match events.last() {
            MdEvent::Start(t) => {
                assert(st.drop_last() =~= st0);
            },
            MdEvent::End(t) => {
                assert(st0.len() > 0 && st0.last() == end_kind(t));
                assert(st =~= st0.drop_last());
            },
            _ => {},
        }
    }
}

/// After a whole document, whose events are balanced, every element is
/// closed: the style stack is empty, no list is open and no code block.
pub proof fn lemma_format_document_closes(events: Seq<MdEvent>)
    requires
        tags_balanced(events),
    ensures
        format_state(events).styles.len() == 0,
        format_state(events).list_level == 0,
        !format_state(events).in_code_block,
{
    lemma_format_tracks_open_tags(events);
}

/// Rendering only adds: the operations for the first `j` events begin the
/// operations for all of them.
proof fn lemma_outputs_prefix(events: Seq<MdEvent>, j: int)
    requires
        0 <= j <= events.len(),
    ensures
        format_outputs(events.take(j)).len() <= format_outputs(events).len(),
        format_outputs(events).take(format_outputs(events.take(j)).len() as int) == format_outputs(events.take(j)),
    decreases events.len(),
{
    if j == events.len() {
        assert(events.take(j) =~= events);
        assert(format_outputs(events).take(format_outputs(events).len() as int) =~= format_outputs(events));
    } else {
        let pre = events.drop_last();
        lemma_outputs_prefix(pre, j);
        assert(pre.take(j) =~= events.take(j));
        let a = format_outputs(pre);
        let b = format_outputs(events);
        let n = format_outputs(events.take(j)).len() as int;
        assert(b.take(n) =~= a.take(n));
    }
}

/// Every text of a document is written: whatever elements are open around
/// it (code blocks, headings, quotes, links, lists), a `Text(t)` event
/// yields the operation `Write(t)`, right after the operations of the
/// events before it.
pub proof fn lemma_text_written(events: Seq<MdEvent>, i: int)
    requires
        0 <= i < events.len(),
        events[i] is Text,
    ensures
        format_outputs(events.take(i)).len() < format_outputs(events).len(),
        format_outputs(events)[format_outputs(events.take(i)).len() as int] == OutputView::Write(events[i]->Text_0@),
{
    let pre = events.take(i);
    let next = events.take(i + 1);
    assert(next.drop_last() =~= pre);
    assert(next.last() == events[i]);
    lemma_outputs_prefix(events, i + 1);
    let n = format_outputs(pre).len() as int;
    assert(format_outputs(next) == format_outputs(pre) + seq![OutputView::Write(events[i]->Text_0@)]);
    assert(format_outputs(next)[n] == OutputView::Write(events[i]->Text_0@));
    assert(format_outputs(events).take(format_outputs(next).len() as int)[n] == format_outputs(events)[n]);
}

/// The terminal operations that render `markdown`, parsed with every
/// extension.
pub fn format_markdown_outputs(markdown: &str) -> (out: Vec<Output>)
    ensures
        output_views(out@) == markdown_outputs(markdown@),
        format_state(markdown_events_of(markdown@, true)).styles.len() == 0,
        format_state(markdown_events_of(markdown@, true)).list_level == 0,
        !format_state(markdown_events_of(markdown@, true)).in_code_block,
{
    let events = markdown_events(markdown, true);
    let mut state = FormatState::new();
    let mut out: Vec<Output> = Vec::new();
    let mut i: usize = 0;
    assert(events@.take(0) =~= Seq::<MdEvent>::empty());
    assert(output_views(out@) =~= Seq::<OutputView>::empty());
    while i < events.len()
        invariant
            i <= events@.len(),
            events@ == markdown_events_of(markdown@, true),
            lists_nested(events@),
            state@ == format_state(events@.take(i as int)),
            output_views(out@) == format_outputs(events@.take(i as int)),
        decreases events@.len() - i,
    {
        let ghost pre = events@.take(i as int);
        let ghost next = events@.take(i + 1);
        assert(next.drop_last() =~= pre);
        assert(next.last() == events@[i as int]);
        proof {
            assert forall|j: int| 0 <= j <= pre.len() implies open_lists(#[trigger] pre.take(j)) >= 0 by {
                assert(pre.take(j) =~= events@.take(j));
            }
            lemma_list_level(pre);
            assert(open_lists(events@.take(i + 1)) >= 0);
            assert(open_lists(next) == open_lists(pre) + list_delta(events@[i as int]));
        }
        state.handle_event(&events[i], &mut out);
        i += 1;
    }
    assert(events@.take(events@.len() as int) =~= events@);
    proof {
        lemma_format_document_closes(events@);
    }
    out
}

/// Ending an inline element (strong, emphasis or a link) right after it
/// began leaves the style stack as it was and switches back to the style
/// that was in force before it: the one on top of the stack, or the
/// terminal's own when the stack is empty.
pub proof fn lemma_inline_restores(s: FormatView, tag: MdTag)
    requires
        tag is Strong || tag is Emphasis || tag is Link,
    ensures
        ({
            let end = match tag {
                MdTag::Strong => MdTagEnd::Strong,
                MdTag::Emphasis => MdTagEnd::Emphasis,
                _ => MdTagEnd::Link,
            };
            let after = end_step(start_step(s, tag).0, end);
            &&& after.0 == s
            &&& after.1[0] == restore(s.styles)
        }),
{
    let t = start_step(s, tag).0;
    assert(popped(t.styles) =~= s.styles);
}

/// A list that opens and closes at the outermost level leaves the list
/// state as it was before it, and ends with a line break.
pub proof fn lemma_outer_list_closes(s: FormatView, first: Option<u64>)
    requires
        s.list_level == 0,
        s.ordered_list is None,
    ensures
        end_step(start_step(s, MdTag::List(first)).0, MdTagEnd::List).0 == s,
        end_step(start_step(s, MdTag::List(first)).0, MdTagEnd::List).1 == seq![OutputView::Write("\n"@)],
{
}

} // verus!
