use term_ide::panels::editor::buffer::FileTab;
use term_ide::panels::editor::diff::LineChange;
use term_ide::panels::editor::highlight::{Rgb, SpanStyle};
use term_ide::panels::editor::rows::{
    click_target, editor_rows, gutter_width, split_at_selection, tab_at_column, EditorClick, RowText,
};
use term_ide::panels::editor::selection::Position;
use term_ide::panels::editor::EditorPanel;
use term_ide::ui::layout::Rect;
use term_ide::ui::scroll::ScrollBar;

fn style(r: u8) -> SpanStyle {
    SpanStyle { fg: Rgb { r, g: 0, b: 0 }, bold: false, italic: false, underline: false }
}

fn texts(pieces: &[term_ide::panels::editor::rows::RowPiece]) -> Vec<(String, bool)> {
    pieces.iter().map(|p| (p.text.clone(), p.selected)).collect()
}

#[test]
fn selection_splits_spans_at_its_ends() {
    let spans = vec![("let ".to_string(), style(1)), ("x = 1;".to_string(), style(2))];
    let pieces = split_at_selection(&spans, Some((2, 6)));
    assert_eq!(
        texts(&pieces),
        vec![
            ("le".to_string(), false),
            ("t ".to_string(), true),
            ("x ".to_string(), true),
            ("= 1;".to_string(), false),
        ]
    );
    assert_eq!(pieces[1].style, style(1));
    assert_eq!(pieces[2].style, style(2));
    let joined: String = pieces.iter().map(|p| p.text.as_str()).collect();
    assert_eq!(joined, "let x = 1;");
}

#[test]
fn no_selection_keeps_spans_whole() {
    let spans = vec![("ab".to_string(), style(1)), ("cd".to_string(), style(2))];
    let pieces = split_at_selection(&spans, None);
    assert_eq!(texts(&pieces), vec![("ab".to_string(), false), ("cd".to_string(), false)]);
    let pieces = split_at_selection(&spans, Some((5, 9)));
    assert_eq!(texts(&pieces), vec![("ab".to_string(), false), ("cd".to_string(), false)]);
}

#[test]
fn rows_number_mark_and_split_lines() {
    let mut tab = FileTab::new();
    tab.lines = (1..=12).map(|i| format!("line {}", i)).collect();
    tab.scroll = (8, 0);
    tab.cursor = (9, 2);
    tab.selection.start(Position::new(9, 0));
    let hl: Vec<Vec<(String, SpanStyle)>> = (1..=10).map(|i| vec![(format!("line {}", i), style(3))]).collect();
    let rows = editor_rows(&tab, &hl, 3);
    assert_eq!(rows.len(), 3);
    assert_eq!(rows[0].line, 8);
    assert_eq!(rows[0].number, " 9 ");
    assert_eq!(rows[1].number, "10 ");
    assert_eq!(rows[0].gutter, ' ');
    assert_eq!(rows[0].change, LineChange::Unchanged);
    match &rows[1].text {
        RowText::Highlighted(p) => assert_eq!(texts(p), vec![("li".to_string(), true), ("ne 10".to_string(), false)]),
        RowText::Plain(_) => panic!("line 10 is highlighted"),
    }
    match &rows[2].text {
        RowText::Plain(s) => assert_eq!(s, "line 11"),
        RowText::Highlighted(_) => panic!("line 11 is not highlighted"),
    }
    assert_eq!(gutter_width(12), 4);
    tab.scroll = (12, 0);
    assert!(editor_rows(&tab, &hl, 3).is_empty());
}

#[test]
fn tab_bar_columns_follow_labels() {
    let labels = vec![" a.rs ".to_string(), " b.rs* ".to_string()];
    // the first tab covers columns 10 to 16, the second 17 to 24
    assert_eq!(tab_at_column(&labels, 10, 9), None);
    assert_eq!(tab_at_column(&labels, 10, 10), Some(0));
    assert_eq!(tab_at_column(&labels, 10, 16), Some(0));
    assert_eq!(tab_at_column(&labels, 10, 17), Some(1));
    assert_eq!(tab_at_column(&labels, 10, 24), Some(1));
    assert_eq!(tab_at_column(&labels, 10, 25), None);
}

#[test]
fn clicks_hit_scroll_bar_before_tabs() {
    let bar = ScrollBar::new(0, 10, 100);
    let content = Rect::new(0, 2, 40, 10);
    let tabs = Rect::new(0, 1, 40, 1);
    let labels = vec![" a ".to_string(), " b ".to_string()];
    assert_eq!(click_target(bar, 39, 11, content, tabs, &labels, 0, 1), EditorClick::ScrollToBottom);
    assert_eq!(click_target(bar, 39, 8, content, tabs, &labels, 0, 1), EditorClick::PageDown);
    assert_eq!(click_target(bar, 39, 2, content, tabs, &labels, 0, 1), EditorClick::Nothing);
    assert_eq!(click_target(bar, 5, 1, content, tabs, &labels, 0, 1), EditorClick::Tab(1));
    assert_eq!(click_target(bar, 30, 1, content, tabs, &labels, 0, 1), EditorClick::Nothing);
}

#[test]
fn editor_click_switches_tab() {
    let mut editor = EditorPanel::new();
    editor.open("/tmp/a.rs", "a\n");
    editor.open("/tmp/b.rs", "b\n");
    let titles = editor.tab_titles();
    // the empty new tab was replaced by the first file
    assert_eq!(titles, vec![" a.rs ".to_string(), " b.rs ".to_string()]);
    assert_eq!(editor.active_tab_index(), 1);
    let content = Rect::new(0, 2, 40, 10);
    let tabs = Rect::new(0, 1, 40, 1);
    // " a.rs " takes columns 0 to 6, " b.rs " 7 to 13
    assert!(editor.handle_click(2, 1, content, tabs, 0, 1));
    assert_eq!(editor.active_tab_index(), 0);
    assert!(editor.handle_click(9, 1, content, tabs, 0, 1));
    assert_eq!(editor.active_tab_index(), 1);
    assert!(!editor.handle_click(9, 5, content, tabs, 0, 1));
    assert_eq!(editor.active_tab_index(), 1);
}
