use term_ide::ui::layout::Rect;
use term_ide::ui::scroll::{is_scrollable, scroll_indicator, scroll_percent, scrollbar_chars, ScrollBar};
use term_ide::ui::theme::{ThemeState, ThemeVariant};

#[test]
fn test_theme_toggle() {
    let mut theme = ThemeState::new();
    theme.set_theme(ThemeVariant::Dark);
    assert_eq!(theme.current_variant(), ThemeVariant::Dark);
    theme.toggle_theme();
    assert_eq!(theme.current_variant(), ThemeVariant::Light);
    theme.toggle_theme();
    assert_eq!(theme.current_variant(), ThemeVariant::Dark);
}

#[test]
fn test_theme_cycle() {
    let mut theme = ThemeState::new();
    theme.set_theme(ThemeVariant::Dark);
    theme.cycle_theme();
    assert_eq!(theme.current_variant(), ThemeVariant::Light);
    theme.cycle_theme();
    assert_eq!(theme.current_variant(), ThemeVariant::System);
    theme.cycle_theme();
    assert_eq!(theme.current_variant(), ThemeVariant::Dark);
}

#[test]
fn test_variant_from_str() {
    assert_eq!(ThemeVariant::from_str("dark"), ThemeVariant::Dark);
    assert_eq!(ThemeVariant::from_str("light"), ThemeVariant::Light);
    assert_eq!(ThemeVariant::from_str("system"), ThemeVariant::System);
    assert_eq!(ThemeVariant::from_str("LIGHT"), ThemeVariant::Light);
    assert_eq!(ThemeVariant::from_str("unknown"), ThemeVariant::Dark);
}

#[test]
fn toggle_from_system_goes_light() {
    let mut theme = ThemeState::default();
    theme.set_theme(ThemeVariant::System);
    theme.toggle_theme();
    assert_eq!(theme.current_variant(), ThemeVariant::Light);
    assert_eq!(ThemeVariant::System.as_str(), "system");
    assert_eq!(ThemeVariant::default(), ThemeVariant::Dark);
}

#[test]
fn test_is_scrollable() {
    assert!(!is_scrollable(20, 10));
    assert!(!is_scrollable(20, 20));
    assert!(is_scrollable(20, 100));
}

#[test]
fn test_scrollbar_new() {
    let sb = ScrollBar::new(0, 20, 100);
    assert_eq!(sb.current, 0);
    assert_eq!(sb.visible, 20);
    assert_eq!(sb.total, 100);
    assert!(sb.scrollable);
}

#[test]
fn test_scrollbar_not_scrollable() {
    let sb = ScrollBar::new(0, 20, 10);
    assert!(!sb.scrollable);
}

#[test]
fn test_scrollbar_at_bottom() {
    let sb = ScrollBar::new(0, 20, 10);
    assert!(sb.at_bottom());
    let sb = ScrollBar::new(0, 20, 100);
    assert!(!sb.at_bottom());
    let sb = ScrollBar::new(80, 20, 100);
    assert!(sb.at_bottom());
}

#[test]
fn test_scrollbar_is_arrow_click() {
    let sb = ScrollBar::new(0, 20, 100);
    let area = Rect::new(0, 0, 10, 25);

    // Arrow is at bottom-right
    let bar_x = area.x + area.width - 1;
    let arrow_y = area.y + area.height - 1;

    assert!(sb.is_arrow_click(bar_x, arrow_y, area));
    assert!(!sb.is_arrow_click(0, 0, area));
}

#[test]
fn test_scrollbar_is_arrow_click_not_scrollable() {
    let sb = ScrollBar::new(0, 20, 10);
    let area = Rect::new(0, 0, 10, 25);

    // Should return false when not scrollable
    assert!(!sb.is_arrow_click(9, 24, area));
}

#[test]
fn test_scrollbar_track_click_not_scrollable() {
    let sb = ScrollBar::new(0, 20, 10);
    let area = Rect::new(0, 0, 10, 25);

    assert!(sb.track_click(9, 10, area, 0, 24).is_none());
}

#[test]
fn test_scrollbar_track_click_above_thumb() {
    // Scrollbar at middle position: 24 rows of track, a thumb of 4 rows at
    // row 12.
    let sb = ScrollBar::new(50, 20, 100);
    let area = Rect::new(0, 0, 10, 25);
    let bar_x = area.x + area.width - 1;

    // Click above thumb should return Some(true) for page up
    let result = sb.track_click(bar_x, 1, area, 12, 4);
    assert!(result.is_some());
    assert_eq!(result, Some(true));
    assert_eq!(sb.track_click(bar_x, 20, area, 12, 4), Some(false));
    assert_eq!(sb.track_click(bar_x, 13, area, 12, 4), None);
}

#[test]
fn test_scrollbar_track_click_wrong_column() {
    let sb = ScrollBar::new(0, 20, 100);
    let area = Rect::new(0, 0, 10, 25);

    // Click not on scroll bar column
    assert!(sb.track_click(5, 10, area, 0, 4).is_none());
}

#[test]
fn scroll_texts() {
    assert_eq!(scroll_indicator(0, 20, 10, 0), "");
    assert_eq!(scroll_indicator(0, 20, 100, 0), " [1-20/100] 0%");
    assert_eq!(scroll_indicator(90, 20, 100, 100), " [91-100/100] 100%");
    assert_eq!(scroll_percent(20, 100, 150), " 100%");
    assert_eq!(scroll_percent(20, 20, 50), "");
}

#[test]
fn scroll_cells() {
    assert!(scrollbar_chars(20, 10, 10, 0, 1).is_empty());
    let cells = scrollbar_chars(10, 100, 5, 1, 2);
    let chars: String = cells.iter().map(|(_, c)| *c).collect();
    assert_eq!(chars, "░██░░");
    assert_eq!(cells[4].0, 4);
}

// The percentages and thumb positions below are what the floating-point
// arithmetic of the application gives for these offsets.

#[test]
fn test_scroll_indicator_no_scroll() {
    assert_eq!(scroll_indicator(0, 20, 10, 0), "");
    assert_eq!(scroll_indicator(0, 20, 20, 0), "");
}

#[test]
fn test_scroll_indicator_at_top() {
    let result = scroll_indicator(0, 20, 100, 0);
    assert!(result.contains("1-20"));
    assert!(result.contains("100"));
}

#[test]
fn test_scroll_indicator_at_bottom() {
    let result = scroll_indicator(80, 20, 100, 100);
    assert!(result.contains("81-100"));
    assert!(result.contains("100%"));
}

#[test]
fn test_scroll_indicator_middle() {
    let result = scroll_indicator(40, 20, 100, 50);
    assert!(result.contains("41-60"));
    assert!(result.contains("100"));
}

#[test]
fn test_scroll_indicator_with_zero_total() {
    let result = scroll_indicator(0, 20, 0, 0);
    assert_eq!(result, "");
}

#[test]
fn test_scroll_percent_no_scroll() {
    assert_eq!(scroll_percent(20, 10, 0), "");
    assert_eq!(scroll_percent(20, 20, 0), "");
}

#[test]
fn test_scroll_percent_at_top() {
    let result = scroll_percent(20, 100, 0);
    assert!(result.contains("0%"));
}

#[test]
fn test_scroll_percent_at_bottom() {
    let result = scroll_percent(20, 100, 100);
    assert!(result.contains("100%"));
}

#[test]
fn test_scrollbar_chars_no_scroll() {
    let chars = scrollbar_chars(20, 10, 10, 0, 10);
    assert!(chars.is_empty());
}

#[test]
fn test_scrollbar_chars_at_top() {
    // thumb size max(10 / 100 * 10, 1) = 1, position 0
    let chars = scrollbar_chars(10, 100, 10, 0, 1);
    assert!(!chars.is_empty());
    assert_eq!(chars[0].1, '█');
}

#[test]
fn test_scrollbar_chars_at_bottom() {
    // thumb size 1, position 90 / 90 * (10 - 1) = 9
    let chars = scrollbar_chars(10, 100, 10, 9, 1);
    assert!(!chars.is_empty());
    assert_eq!(chars[chars.len() - 1].1, '█');
}

#[test]
fn scroll_percent_is_capped() {
    assert_eq!(scroll_percent(20, 100, 250), " 100%");
    assert_eq!(scroll_indicator(40, 20, 100, 50), " [41-60/100] 50%");
}
