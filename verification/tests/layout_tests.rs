use term_ide::state::focus::PanelId;
use term_ide::ui::layout::{get_layout, get_layout_with_focus, Rect};

#[test]
fn test_layout_standard_split() {
    let area = Rect::new(0, 0, 100, 50);
    let layout = get_layout(area);

    assert!(layout.file_tree.width > 0);
    assert!(layout.output.width > 0);
    assert!(layout.input.width > 0);
    assert!(layout.agents.width > 0);
    assert!(layout.status.width > 0);
}

#[test]
fn test_layout_percentage_ratios() {
    let area = Rect::new(0, 0, 100, 50);
    let layout = get_layout(area);

    let file_tree_pct = (layout.file_tree.width as f64 / area.width as f64) * 100.0;
    assert!(file_tree_pct >= 15.0 && file_tree_pct <= 25.0);

    let agents_pct = (layout.agents.width as f64 / area.width as f64) * 100.0;
    assert!(agents_pct >= 15.0 && agents_pct <= 25.0);
}

#[test]
fn test_layout_focused_input_height() {
    let area = Rect::new(0, 0, 100, 50);
    let layout_normal = get_layout_with_focus(area, None);
    let layout_focused = get_layout_with_focus(area, Some(PanelId::input()));
    assert!(layout_focused.input.height > layout_normal.input.height);
}

#[test]
fn test_layout_status_bar_at_bottom() {
    let area = Rect::new(0, 0, 100, 50);
    let layout = get_layout(area);
    assert_eq!(layout.status.y + layout.status.height, area.y + area.height);
    assert_eq!(layout.status.height, 1);
}

#[test]
fn test_layout_small_terminal() {
    let area = Rect::new(0, 0, 40, 15);
    let layout = get_layout(area);
    assert!(layout.file_tree.width > 0);
    assert!(layout.output.height > 0);
    assert!(layout.input.height > 0);
}

#[test]
fn test_layout_areas_no_overlap() {
    let area = Rect::new(0, 0, 100, 50);
    let layout = get_layout(area);
    assert!(
        layout.file_tree.x + layout.file_tree.width <= layout.output.x
            || layout.output.x + layout.output.width <= layout.file_tree.x
    );
    assert!(
        layout.output.y + layout.output.height <= layout.input.y
            || layout.input.y + layout.input.height <= layout.output.y
    );
}

#[test]
fn test_panel_at_file_tree() {
    let area = Rect::new(0, 0, 100, 50);
    let layout = get_layout(area);
    let x = layout.file_tree.x + 5;
    let y = layout.file_tree.y + 5;
    assert_eq!(layout.panel_at(x, y), Some(PanelId::file_tree()));
}

#[test]
fn test_panel_at_output() {
    let area = Rect::new(0, 0, 100, 50);
    let layout = get_layout(area);
    let x = layout.output.x + 5;
    let y = layout.output.y + 5;
    assert_eq!(layout.panel_at(x, y), Some(PanelId::output()));
}

#[test]
fn test_panel_at_input() {
    let area = Rect::new(0, 0, 100, 50);
    let layout = get_layout(area);
    let x = layout.input.x + 5;
    let y = layout.input.y + 1;
    assert_eq!(layout.panel_at(x, y), Some(PanelId::input()));
}

#[test]
fn test_panel_at_agents() {
    let area = Rect::new(0, 0, 100, 50);
    let layout = get_layout(area);
    let x = layout.agents.x + 5;
    let y = layout.agents.y + 5;
    assert_eq!(layout.panel_at(x, y), Some(PanelId::agents()));
}

#[test]
fn test_panel_at_outside() {
    let area = Rect::new(10, 10, 80, 40);
    let layout = get_layout(area);
    assert_eq!(layout.panel_at(0, 0), None);
}

#[test]
fn test_layout_minimum_sizes() {
    let area = Rect::new(0, 0, 100, 50);
    let layout = get_layout(area);
    assert!(layout.output.height >= 5);
    assert!(layout.input.height >= 3);
}

#[test]
fn rect_contains_saturates_at_the_edge() {
    let r = Rect::new(65530, 0, 20, 1);
    assert!(r.contains(65534, 0));
    assert!(!r.contains(65535, 0));
    assert!(!r.contains(65529, 0));
    assert!(!r.contains(65531, 1));
}

#[test]
fn layout_parts_tile_the_screen() {
    let area = Rect::new(0, 0, 120, 40);
    let l = get_layout(area);
    assert_eq!(l.file_tree.x, 0);
    assert_eq!(l.file_tree.x + l.file_tree.width, l.output.x);
    assert_eq!(l.output.x + l.output.width, l.agents.x);
    assert_eq!(l.agents.x + l.agents.width, 120);
    assert_eq!(l.output.y + l.output.height, l.input.y);
    assert_eq!(l.input.height, 3);
    assert_eq!(l.status.y, 39);
}

#[test]
fn layout_parts_fit_together() {
    let area = Rect::new(3, 2, 120, 40);
    let l = get_layout_with_focus(area, None);
    assert_eq!((l.status.x, l.status.width), (3, 120));
    assert_eq!((l.file_tree.y, l.file_tree.height), (l.agents.y, l.agents.height));
    assert_eq!(l.file_tree.y, 2);
    assert_eq!((l.output.x, l.output.width), (l.input.x, l.input.width));
    assert!(l.output.y >= l.file_tree.y && l.input.y + l.input.height <= l.file_tree.y + l.file_tree.height);
}
