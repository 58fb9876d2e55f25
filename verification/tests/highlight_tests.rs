use term_ide::panels::editor::highlight::{styled_pieces, Highlighter, RawPiece, Rgb};

#[test]
fn test_detect_syntax() {
    let highlighter = Highlighter::new();
    assert_eq!(highlighter.detect_syntax(Some("test.rs")), "Rust");
    assert_eq!(highlighter.detect_syntax(Some("test.py")), "Python");
    assert_eq!(highlighter.detect_syntax(Some("test.js")), "JavaScript");
}

#[test]
fn detect_syntax_without_extension_is_plain() {
    let highlighter = Highlighter::new();
    assert_eq!(highlighter.detect_syntax(None), "Plain Text");
    assert_eq!(highlighter.detect_syntax(Some("README")), "Plain Text");
    assert_eq!(highlighter.theme_name(), "base16-ocean.dark");
}

#[test]
fn styled_pieces_trim_and_decode() {
    let raw = vec![
        RawPiece { r: 1, g: 2, b: 3, font: 5, text: "fn".to_string() },
        RawPiece { r: 0, g: 0, b: 0, font: 2, text: "\n".to_string() },
        RawPiece { r: 9, g: 9, b: 9, font: 0, text: "x\n\n".to_string() },
    ];
    let out = styled_pieces(&raw);
    assert_eq!(out.len(), 2);
    assert_eq!(out[0].0, "fn");
    assert_eq!(out[0].1.fg, Rgb { r: 1, g: 2, b: 3 });
    assert!(out[0].1.bold && out[0].1.italic && !out[0].1.underline);
    assert_eq!(out[1].0, "x");
    assert!(!out[1].1.bold);
}

#[test]
fn highlight_all_keeps_each_line() {
    let mut highlighter = Highlighter::new();
    let lines = vec!["fn main() {".to_string(), "    let x = 1;".to_string(), "}".to_string()];
    let out = highlighter.highlight_all(&lines, Some("main.rs"));
    assert_eq!(out.len(), 3);
    for (pieces, line) in out.iter().zip(lines.iter()) {
        let joined: String = pieces.iter().map(|(t, _)| t.as_str()).collect();
        assert_eq!(&joined, line);
        assert!(pieces.iter().all(|(t, _)| !t.is_empty()));
    }
}

#[test]
fn detect_syntax_of_unknown_extension_is_plain() {
    let highlighter = Highlighter::new();
    assert_eq!(highlighter.detect_syntax(Some("notes.zzqq")), "Plain Text");
    assert_eq!(highlighter.detect_syntax(Some("dir.rs/Makefile")), "Plain Text");
    assert_eq!(highlighter.detect_syntax(Some("src/lib.rs")), "Rust");
}

#[test]
fn highlight_all_colours_rust_keywords() {
    let mut highlighter = Highlighter::new();
    let lines = vec!["fn main() { let x = 1; }".to_string()];
    let out = highlighter.highlight_all(&lines, Some("main.rs"));
    let colours: Vec<Rgb> = out[0].iter().map(|(_, s)| s.fg).collect();
    assert!(colours.iter().any(|c| *c != colours[0]));
    let plain = highlighter.highlight_all(&lines, Some("notes.zzqq"));
    assert_eq!(plain[0].len(), 1);
}

#[test]
fn detect_syntax_reads_the_last_extension() {
    let highlighter = Highlighter::new();
    assert_eq!(highlighter.detect_syntax(Some("/home/u/.bashrc")), "Plain Text");
    assert_eq!(highlighter.detect_syntax(Some("lib.test.py")), "Python");
    assert_eq!(highlighter.detect_syntax(Some("dir/")), "Plain Text");
}
