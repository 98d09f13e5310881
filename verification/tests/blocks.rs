//! Blocks in diff lines.
use codex_ctl::parser::blocks::{detect_blocks, extract_non_block_text, parse_block_header};

#[test]
fn test_parse_block_header_edited() {
    let result = parse_block_header("• Edited file.rs (+1 -1)");
    assert!(result.is_some());
    let (bt, text) = result.unwrap();
    assert_eq!(bt, "edited");
    assert_eq!(text, "Edited file.rs (+1 -1)");
}

#[test]
fn test_parse_block_header_created() {
    let result = parse_block_header("• Created new_file.py");
    assert!(result.is_some());
    let (bt, _) = result.unwrap();
    assert_eq!(bt, "created");
}

#[test]
fn test_parse_block_header_ran() {
    let result = parse_block_header("• Ran npm install");
    assert!(result.is_some());
    let (bt, _) = result.unwrap();
    assert_eq!(bt, "ran_command");
}

#[test]
fn test_parse_block_header_read() {
    let result = parse_block_header("• Read config.toml");
    assert!(result.is_some());
    let (bt, _) = result.unwrap();
    assert_eq!(bt, "read");
}

#[test]
fn test_parse_block_header_deleted() {
    let result = parse_block_header("• Deleted old.txt");
    assert!(result.is_some());
    let (bt, _) = result.unwrap();
    assert_eq!(bt, "deleted");
}

#[test]
fn test_parse_block_header_none() {
    assert!(parse_block_header("Regular text line").is_none());
    assert!(parse_block_header("• Designing runtime...").is_none());
}

#[test]
fn test_detect_edited_blocks() {
    let lines = vec![
        "• Edited PORTING_MATRIX.md (+2 -2)".into(),
        "    2".into(),
        "    3 -Reviewed: old".into(),
        "    3 +Reviewed: new".into(),
        "    4  Scope: every file".into(),
        "".into(),
        "• Edited UX_GAP_LOG.md (+2 -1)".into(),
        "    2".into(),
        "    3 -Reviewed: old".into(),
        "    3 +Reviewed: new".into(),
    ];
    let blocks = detect_blocks(&lines);
    assert_eq!(blocks.len(), 2);
    assert_eq!(blocks[0].block_type, "edited");
    assert_eq!(blocks[0].header, "Edited PORTING_MATRIX.md (+2 -2)");
    assert_eq!(blocks[0].body.len(), 4);
    assert_eq!(blocks[1].block_type, "edited");
    assert_eq!(blocks[1].body.len(), 3);
}

#[test]
fn test_detect_ran_command_block() {
    let lines = vec![
        "• Ran cargo test".into(),
        "   Compiling myapp v0.1.0".into(),
        "   Running unittests".into(),
        "   test result: ok. 5 passed".into(),
    ];
    let blocks = detect_blocks(&lines);
    assert_eq!(blocks.len(), 1);
    assert_eq!(blocks[0].block_type, "ran_command");
    assert_eq!(blocks[0].body.len(), 3);
}

#[test]
fn test_extract_non_block_text() {
    let lines = vec![
        "Analyzing the codebase...".into(),
        "• Edited file.rs (+1 -1)".into(),
        "    1 +new line".into(),
        "Continuing analysis...".into(),
    ];
    let blocks = detect_blocks(&lines);
    let remaining = extract_non_block_text(&lines, &blocks);
    assert_eq!(blocks.len(), 1);
    assert_eq!(
        remaining,
        vec!["Analyzing the codebase...", "Continuing analysis..."]
    );
}

#[test]
fn bodies_end_where_the_text_goes_on() {
    let lines: Vec<String> = vec![
        "• Ran x".into(),
        "\t1".into(),
        "".into(),
        "  2".into(),
        "".into(),
        "  ".into(),
        "text".into(),
        "  not a body".into(),
        "".into(),
    ];
    let blocks = detect_blocks(&lines);
    assert_eq!(blocks.len(), 1);
    assert_eq!(blocks[0].body, vec!["\t1", "", "  2"]);
    assert_eq!((blocks[0].id, blocks[0].seq), (0, 0));
    assert_eq!(extract_non_block_text(&lines, &blocks), vec!["text", "  not a body"]);
    assert!(detect_blocks(&[]).is_empty());
}

#[test]
fn each_line_is_told_once() {
    let lines: Vec<String> = [
        "before", "", "• Edited a.rs (+1 -1)", "    one", "", "    two", "   ", "after",
        "  indented", "• Ran ls", "• Read b.rs", "\tthree", "", "",
    ]
    .iter()
    .map(|s| s.to_string())
    .collect();
    let told = |lines: &[String]| lines.iter().filter(|l| !l.trim().is_empty()).count();
    let blocks = detect_blocks(&lines);
    let outside = extract_non_block_text(&lines, &blocks);
    assert_eq!(outside, vec!["before", "after", "  indented"]);
    let bodies: usize = blocks.iter().map(|b| told(&b.body)).sum();
    assert_eq!((blocks.len(), bodies), (3, 3));
    assert_eq!(told(&lines), outside.len() + blocks.len() + bodies);
}
