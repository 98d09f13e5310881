//! Questions on the screen.
use codex_ctl::parser::prompt::{parse_options, parse_prompt, parse_question_header};

#[test]
fn test_parse_question_header() {
    let lines = vec![
        "Question 1/3 (3 unanswered)".into(),
        "Some text".into(),
    ];
    assert_eq!(parse_question_header(&lines), Some((1, 3)));
}

#[test]
fn test_parse_question_header_none() {
    let lines = vec!["No question here".into()];
    assert_eq!(parse_question_header(&lines), None);
}

#[test]
fn test_parse_options() {
    let lines = vec![
        "› 1. Productivity (Recommended)   More output on tasks.".into(),
        "  2. Balance                       Moderate pace.".into(),
        "  3. Recovery                      Reduce workload.".into(),
        "  4. None of the above             Add details in notes.".into(),
    ];
    let options = parse_options(&lines);
    assert_eq!(options.len(), 4);
    assert_eq!(options[0].number, 1);
    assert!(options[0].label.contains("Productivity"));
    assert!(options[0].is_selected);
    assert!(!options[1].is_selected);
    assert_eq!(options[1].number, 2);
}

#[test]
fn test_parse_prompt_full() {
    let lines = vec![
        "Question 1/3 (3 unanswered)".into(),
        "Choose a direction:".into(),
        "".into(),
        "› 1. Option A   Description A".into(),
        "  2. Option B   Description B".into(),
        "  3. Option C   Description C".into(),
        "".into(),
        "tab to add notes | enter to submit answer".into(),
    ];
    let prompt = parse_prompt(&lines).unwrap();
    assert_eq!(prompt.question_num, 1);
    assert_eq!(prompt.question_total, 3);
    assert_eq!(prompt.question_text, "Choose a direction:");
    assert_eq!(prompt.options.len(), 3);
    assert_eq!(prompt.selected, 1);
}

#[test]
fn numbers_that_do_not_fit() {
    let lines: Vec<String> = vec!["Question 300/3".into(), "Question 1/3".into()];
    assert_eq!(parse_question_header(&lines), None);
    let lines: Vec<String> = vec!["300. big".into(), "2. small".into()];
    let options = parse_options(&lines);
    assert_eq!(options.len(), 1);
    assert_eq!(options[0].number, 2);
    assert_eq!(options[0].description, "");
}

#[test]
fn questions_over_several_lines() {
    let lines: Vec<String> = vec![
        "Question 2/2".into(),
        "".into(),
        "  Which one  ".into(),
        "do you want?".into(),
        "1. A".into(),
        "not a part".into(),
    ];
    let prompt = parse_prompt(&lines).unwrap();
    assert_eq!(prompt.question_text, "Which one do you want?");
    // Where none is marked, the first is taken.
    assert_eq!(prompt.selected, 1);
    assert!(parse_prompt(&lines[1..]).is_none());
}
