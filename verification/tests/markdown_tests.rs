use hal::markdown::{format_markdown_outputs, FormatState, Output, Style, TermColor};
use hal::md::{markdown_events, MdEvent, MdTag, MdTagEnd};

fn plain() -> Style {
    Style { fg: None, bold: false, italic: false, underline: false }
}

fn rendered_text(out: &[Output]) -> String {
    out.iter()
        .filter_map(|o| match o {
            Output::Write(s) => Some(s.as_str()),
            _ => None,
        })
        .collect()
}

#[test]
fn heading_and_paragraph() {
    let out = format_markdown_outputs("# Title\n\nSome *text*.");
    let h1 = Style { fg: Some(TermColor::Rgb(255, 99, 71)), bold: true, ..plain() };
    assert_eq!(out[0], Output::SetStyle(h1));
    assert_eq!(out[1], Output::Write("\n".to_string()));
    assert_eq!(out[2], Output::Write("Title".to_string()));
    assert_eq!(rendered_text(&out), "\nTitle\n\nSome text.\n");
    // The heading's end drops its style, so emphasis ends with a reset.
    assert!(out.contains(&Output::SetStyle(Style { italic: true, ..plain() })));
    assert!(out.contains(&Output::Reset));
}

#[test]
fn lists_are_indented_and_bulleted() {
    let out = format_markdown_outputs("- a\n- b\n");
    assert_eq!(rendered_text(&out), "• a\n• b\n\n");
    let ordered = format_markdown_outputs("1. one\n2. two\n");
    assert!(rendered_text(&ordered).starts_with(" 1. one\n"));
}

#[test]
fn code_blocks_show_language() {
    let out = format_markdown_outputs("```rust\nfn main() {}\n```\n");
    let green = Style { fg: Some(TermColor::Green), ..plain() };
    let label = Style { fg: Some(TermColor::Blue), italic: true, ..plain() };
    assert_eq!(out[0], Output::SetStyle(green));
    assert_eq!(out[1], Output::Write("\n".to_string()));
    assert_eq!(out[2], Output::SetStyle(label));
    assert_eq!(out[3], Output::Write("[rust]\n".to_string()));
    assert_eq!(out[4], Output::SetStyle(green));
    assert_eq!(*out.last().unwrap(), Output::Write("\n".to_string()));
    assert!(out.contains(&Output::Reset));
}

#[test]
fn inline_code_restores_style() {
    let mut state = FormatState::new();
    let mut out = Vec::new();
    state.handle_event(&MdEvent::Code("x".to_string()), &mut out);
    assert_eq!(
        out,
        vec![
            Output::SetStyle(Style { fg: Some(TermColor::Green), ..plain() }),
            Output::Write("`x`".to_string()),
            Output::SetStyle(plain()),
        ]
    );
}

#[test]
fn strong_then_end_resets() {
    let mut state = FormatState::new();
    let mut out = Vec::new();
    state.handle_event(&MdEvent::Start(MdTag::Strong), &mut out);
    state.handle_event(&MdEvent::End(MdTagEnd::Strong), &mut out);
    assert_eq!(out, vec![Output::SetStyle(Style { bold: true, ..plain() }), Output::Reset]);
}

#[test]
fn links_show_their_target() {
    let out = format_markdown_outputs("[site](https://example.com)");
    assert!(rendered_text(&out).contains("https://example.comsite "));
}

#[test]
fn parser_events_are_balanced() {
    let events = markdown_events("- a\n  - b\n", true);
    let mut open = 0i64;
    for e in &events {
        match e {
            MdEvent::Start(MdTag::List(_)) => open += 1,
            MdEvent::End(MdTagEnd::List) => open -= 1,
            _ => {}
        }
        assert!(open >= 0);
    }
    assert_eq!(open, 0);
}
