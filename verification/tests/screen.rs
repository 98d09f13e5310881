//! The screen.
use codex_ctl::session::screen::{compute_diff, filter_lines, strip_ui_chrome, take_snapshot};
use codex_ctl::terminal::Terminal;

#[test]
fn test_filter_lines_basic() {
    let lines = vec![
        "Hello world                        ".into(),
        "".into(),
        "".into(),
        "".into(),
        "".into(),
        "Next line".into(),
        "".into(),
    ];
    let result = filter_lines(&lines);
    assert_eq!(result, vec!["Hello world", "", "", "Next line"]);
}

#[test]
fn test_filter_lines_no_blanks() {
    let lines = vec!["line1".into(), "line2".into(), "line3".into()];
    let result = filter_lines(&lines);
    assert_eq!(result, vec!["line1", "line2", "line3"]);
}

#[test]
fn test_filter_lines_all_blank() {
    let lines = vec!["".into(), "".into(), "".into(), "".into()];
    let result = filter_lines(&lines);
    assert!(result.is_empty());
}

#[test]
fn test_compute_diff_new_lines() {
    let prev = vec!["line1".into(), "line2".into()];
    let next = vec!["line1".into(), "line2".into(), "line3 new".into()];
    let diff = compute_diff(&prev, &next);
    assert_eq!(diff, vec!["line3 new"]);
}

#[test]
fn test_compute_diff_changed_line() {
    let prev = vec!["line1".into(), "line2".into()];
    let next = vec!["line1".into(), "line2 changed".into()];
    let diff = compute_diff(&prev, &next);
    assert_eq!(diff, vec!["line2 changed"]);
}

#[test]
fn test_compute_diff_no_change() {
    let prev = vec!["line1".into(), "line2".into()];
    let next = vec!["line1".into(), "line2".into()];
    let diff = compute_diff(&prev, &next);
    assert!(diff.is_empty());
}

// --- strip_ui_chrome tests ---

#[test]
fn test_strip_ui_chrome_full_screen() {
    let lines: Vec<String> = vec![
        "╭──────────────────────────────────────╮".into(),
        "│ codex GPT-4.1 (full auto)            │".into(),
        "╰──────────────────────────────────────╯".into(),
        "Tip: use /help for commands".into(),
        "".into(),
        "› Build a REST API".into(),
        "".into(),
        "• Sure, I'll build the API.".into(),
        "".into(),
        "### Edited src/main.rs".into(),
        "  +fn main() {}".into(),
        "".into(),
        "• Working 5s • esc to interrupt".into(),
        "────────────────────────────────".into(),
        "".into(),
        "› Write tests for the API".into(),
        "? for shortcuts | model: o4-mini | 85% context left".into(),
    ];
    let result = strip_ui_chrome(&lines);
    assert_eq!(result, vec![
        "› Build a REST API",
        "",
        "• Sure, I'll build the API.",
        "",
        "### Edited src/main.rs",
        "  +fn main() {}",
        "",
        // "esc to interrupt" removed, horizontal rule removed,
        // suggestion prompt and help line removed
    ]);
}

#[test]
fn test_strip_ui_chrome_no_frame() {
    let lines: Vec<String> = vec![
        "› Hello".into(),
        "• Response here".into(),
        "? for shortcuts | 100% context left".into(),
    ];
    let result = strip_ui_chrome(&lines);
    assert_eq!(result, vec![
        "› Hello",
        "• Response here",
    ]);
}

#[test]
fn test_strip_ui_chrome_no_help_line() {
    let lines: Vec<String> = vec![
        "╭───╮".into(),
        "│ codex │".into(),
        "╰───╯".into(),
        "› Prompt".into(),
        "• Agent output".into(),
    ];
    let result = strip_ui_chrome(&lines);
    assert_eq!(result, vec!["› Prompt", "• Agent output"]);
}

#[test]
fn test_strip_ui_chrome_empty_input() {
    let result = strip_ui_chrome(&[]);
    assert!(result.is_empty());
}

#[test]
fn test_strip_ui_chrome_only_chrome() {
    let lines: Vec<String> = vec![
        "╭───╮".into(),
        "│ codex │".into(),
        "╰───╯".into(),
        "? for shortcuts | 100% context left".into(),
    ];
    let result = strip_ui_chrome(&lines);
    assert!(result.is_empty());
}

#[test]
fn test_strip_ui_chrome_esc_again_to_edit() {
    let lines: Vec<String> = vec![
        "› Hello".into(),
        "• Working 3s • esc again to edit".into(),
        "• Real output here".into(),
    ];
    let result = strip_ui_chrome(&lines);
    assert_eq!(result, vec!["› Hello", "• Real output here"]);
}

#[test]
fn test_strip_ui_chrome_suggestion_above_help() {
    let lines: Vec<String> = vec![
        "• Agent said something".into(),
        "› Try running cargo test".into(),
        "? for shortcuts | 50% context left".into(),
    ];
    let result = strip_ui_chrome(&lines);
    assert_eq!(result, vec!["• Agent said something"]);
}

#[test]
fn test_strip_ui_chrome_multiple_suggestions_above_help() {
    let lines: Vec<String> = vec![
        "• Output here".into(),
        "".into(),
        "› Suggestion one".into(),
        "› Suggestion two".into(),
        "? for shortcuts | 50% context left".into(),
    ];
    let result = strip_ui_chrome(&lines);
    assert_eq!(result, vec!["• Output here"]);
}

#[test]
fn test_strip_ui_chrome_horizontal_rule() {
    let lines: Vec<String> = vec![
        "› Hello".into(),
        "────────────────────────".into(),
        "• Response".into(),
    ];
    let result = strip_ui_chrome(&lines);
    assert_eq!(result, vec!["› Hello", "• Response"]);
}

#[test]
fn filtering_twice_changes_nothing() {
    let lines: Vec<String> =
        vec![" a ".into(), "".into(), " ".into(), "\t".into(), "".into(), "b".into(), "".into()];
    let once = filter_lines(&lines);
    assert_eq!(once, vec![" a", "", "", "b"]);
    assert_eq!(filter_lines(&once), once);
}

#[test]
fn a_diff_to_nothing_is_all_but_the_blanks() {
    let next: Vec<String> = vec!["a".into(), "".into(), "b".into()];
    assert_eq!(compute_diff(&[], &next), vec!["a", "b"]);
    assert!(compute_diff(&next, &[]).is_empty());
    // A line that became empty is no news.
    let prev: Vec<String> = vec!["a".into(), "x".into(), "c".into()];
    assert_eq!(compute_diff(&prev, &next), vec!["b"]);
}

#[test]
fn a_snapshot_shows_each_row() {
    let mut terminal = Terminal::new(3, 10, 0);
    assert_eq!(take_snapshot(&terminal), vec!["", "", ""]);
    terminal.process(b"one\r\n\ttw");
    terminal.process(b"o");
    assert_eq!(take_snapshot(&terminal), vec!["one", "        tw", "o"]);
    terminal.process(b"\r\nfour");
    assert_eq!(take_snapshot(&terminal), vec!["        tw", "o", "four"]);
    let mut again = Terminal::new(3, 10, 0);
    again.process(&terminal.contents_formatted());
    assert_eq!(take_snapshot(&again), take_snapshot(&terminal));
}
