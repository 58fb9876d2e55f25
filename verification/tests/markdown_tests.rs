use term_ide::ui::markdown::{
    markdown_events, render_events, render_markdown, render_markdown_only, repeat_text, MdColor, MdEvent, MdSpan,
    MdStyle, MdTag, MdTagEnd,
};

fn base() -> MdStyle {
    MdStyle { fg: MdColor::Unset, bg: MdColor::Unset, bold: false, italic: false, underline: false, crossed: false }
}

fn text_of(line: &[MdSpan]) -> String {
    line.iter().map(|s| s.text.as_str()).collect()
}

fn texts(lines: &[Vec<MdSpan>]) -> Vec<String> {
    lines.iter().map(|l| text_of(l)).collect()
}

#[test]
fn test_simple_markdown() {
    let lines = render_markdown("Hello **world**", base());
    assert!(!lines.is_empty());
}

#[test]
fn test_code_block() {
    let md = "```rust\nfn main() {}\n```";
    let lines = render_markdown(md, base());
    assert!(lines.len() >= 3); // header + code + footer
}

#[test]
fn markdown_strong_text_is_bold() {
    let lines = render_markdown_only("Hello **world**", base());
    assert_eq!(texts(&lines), vec!["Hello world".to_string()]);
    let world = &lines[0][1];
    assert_eq!(world.text, "world");
    assert!(world.style.bold);
    assert!(!lines[0][0].style.bold);
}

#[test]
fn markdown_code_block_frame() {
    let lines = render_markdown_only("```rust\nfn main() {}\n```", base());
    let t = texts(&lines);
    // The block starts a new line (empty, as nothing was on the line).
    assert_eq!(t.len(), 4);
    assert_eq!(t[0], "");
    // 40 columns inside, 42 with the spaces: 3 dashes, " rust ", then the rest.
    assert_eq!(t[1], format!("┌───{}{}┐", " rust ", "─".repeat(42 - 3 - 6)));
    assert_eq!(t[2], format!("│ fn main() {{}}{} │", " ".repeat(40 - 12)));
    assert_eq!(t[3], format!("└{}┘", "─".repeat(42)));
}

#[test]
fn markdown_heading_and_list() {
    let lines = render_markdown_only("# Title\n\n1. one\n2. two\n", base());
    let t = texts(&lines);
    assert_eq!(t[0], "");
    assert_eq!(t[1], "# Title");
    assert_eq!(t[2], "");
    assert!(t.contains(&"1. one".to_string()));
    assert!(t.contains(&"2. two".to_string()));
    assert_eq!(lines[1][1].style.fg, MdColor::Cyan);
    assert!(lines[1][1].style.bold);
}

#[test]
fn markdown_events_of_inline_code() {
    let evs = markdown_events("say `hi`");
    assert!(evs.iter().any(|e| matches!(e, MdEvent::Code(c) if c == "hi")));
    let lines = render_events(&evs, base());
    assert_eq!(texts(&lines), vec!["say `hi`".to_string()]);
}

#[test]
fn render_events_exact() {
    let evs = vec![
        MdEvent::Start(MdTag::List(Some(7))),
        MdEvent::Start(MdTag::Item),
        MdEvent::Text("a".to_string()),
        MdEvent::End(MdTagEnd::Item),
        MdEvent::Start(MdTag::Item),
        MdEvent::Text("b\nc".to_string()),
        MdEvent::End(MdTagEnd::Item),
        MdEvent::End(MdTagEnd::List),
        MdEvent::Rule,
    ];
    let lines = render_events(&evs, base());
    assert_eq!(
        texts(&lines),
        vec!["", "", "7. a", "", "8. b", "c", "", "─".repeat(40).as_str()]
            .into_iter()
            .map(|s| s.to_string())
            .collect::<Vec<_>>()
    );
}

#[test]
fn question_box_is_right_aligned() {
    let lines = render_markdown(">>>user\nhi\n<<<\n", base());
    let t = texts(&lines);
    // The box is 20 wide, after 58 spaces of padding.
    let pad = " ".repeat(58);
    assert_eq!(t[0], format!("{}┌{}┐", pad, "─".repeat(18)));
    assert_eq!(t[1], format!("{}│ hi{} │", pad, " ".repeat(14)));
    assert_eq!(t[2], format!("{}└{}┘", pad, "─".repeat(18)));
    assert_eq!(t[3], "");
}

#[test]
fn answer_box_has_header_and_bars() {
    let lines = render_markdown(">>>axiom\nDone.\n<<<", base());
    let t = texts(&lines);
    assert_eq!(t[0], "◆ Axiom");
    assert_eq!(t[1], "│ Done.");
    assert_eq!(t.last().unwrap(), "");
}

#[test]
fn long_question_lines_are_cut() {
    let long = "x".repeat(60);
    let lines = render_markdown(&format!(">>>user\n{}\n<<<", long), base());
    let t = texts(&lines);
    // Box of 50: rows of 46 characters.
    assert!(t[1].ends_with(&format!("│ {} │", "x".repeat(46))));
    assert!(t[2].contains(&"x".repeat(14)));
}

#[test]
fn unclosed_question_is_markdown() {
    let lines = render_markdown("before >>>user\nno end", base());
    assert!(texts(&lines).iter().all(|l| !l.contains('┌')));
}

#[test]
fn repeat_text_counts() {
    assert_eq!(repeat_text("ab", 3), "ababab");
    assert_eq!(repeat_text("x", 0), "");
}
