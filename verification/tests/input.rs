//! Keys and text.
use codex_ctl::session::input::{parse_actions, plan_actions, Action, KeyCode, Step};

#[test]
fn test_parse_actions_keys() {
    let args = vec!["down", "down", "enter"];
    let actions = parse_actions(&args);
    assert_eq!(
        actions,
        vec![
            Action::Key(KeyCode::Down),
            Action::Key(KeyCode::Down),
            Action::Key(KeyCode::Enter),
        ]
    );
}

#[test]
fn test_parse_actions_mixed() {
    let args = vec!["fix the bug", "enter"];
    let actions = parse_actions(&args);
    assert_eq!(
        actions,
        vec![
            Action::Text("fix the bug".into()),
            Action::Key(KeyCode::Enter),
        ]
    );
}

#[test]
fn test_parse_actions_wait() {
    let args = vec!["esc", "wait:500", "hello", "enter"];
    let actions = parse_actions(&args);
    assert_eq!(actions[0], Action::Key(KeyCode::Esc));
    assert_eq!(actions[1], Action::Wait(500));
    assert_eq!(actions[2], Action::Text("hello".into()));
    assert_eq!(actions[3], Action::Key(KeyCode::Enter));
}

#[test]
fn test_parse_actions_text_escape() {
    let args = vec!["text:enter"];
    let actions = parse_actions(&args);
    assert_eq!(actions, vec![Action::Text("enter".into())]);
}

#[test]
fn test_parse_actions_case_insensitive() {
    let args = vec!["ENTER", "Tab", "ESC"];
    let actions = parse_actions(&args);
    assert_eq!(
        actions,
        vec![
            Action::Key(KeyCode::Enter),
            Action::Key(KeyCode::Tab),
            Action::Key(KeyCode::Esc),
        ]
    );
}

#[test]
fn test_keycode_to_bytes() {
    assert_eq!(KeyCode::Enter.to_bytes(), b"\r");
    assert_eq!(KeyCode::Esc.to_bytes(), b"\x1b");
    assert_eq!(KeyCode::Up.to_bytes(), b"\x1b[A");
    assert_eq!(KeyCode::CtrlC.to_bytes(), b"\x03");
}

#[test]
fn actions_that_are_nearly_keys() {
    let actions = parse_actions(&["wait:x", "wait:-1", "wait:+5", "text:", " enter", "return"]);
    assert_eq!(
        actions,
        vec![
            Action::Text("wait:x".into()),
            Action::Text("wait:-1".into()),
            Action::Wait(5),
            Action::Text("".into()),
            Action::Text(" enter".into()),
            Action::Key(KeyCode::Enter),
        ]
    );
    assert_eq!(KeyCode::from_name("bac\u{212a}space"), Some(KeyCode::Backspace));
    assert_eq!(KeyCode::from_name("ctrl+x"), None);
}

#[test]
fn keys_have_names_and_bytes() {
    let keys: [(&str, KeyCode, &[u8]); 13] = [
        ("enter", KeyCode::Enter, b"\r"),
        ("tab", KeyCode::Tab, b"\t"),
        ("escape", KeyCode::Esc, b"\x1b"),
        ("up", KeyCode::Up, b"\x1b[A"),
        ("down", KeyCode::Down, b"\x1b[B"),
        ("right", KeyCode::Right, b"\x1b[C"),
        ("left", KeyCode::Left, b"\x1b[D"),
        ("backspace", KeyCode::Backspace, b"\x7f"),
        ("space", KeyCode::Space, b" "),
        ("ctrl+c", KeyCode::CtrlC, b"\x03"),
        ("ctrl+d", KeyCode::CtrlD, b"\x04"),
        ("ctrl+z", KeyCode::CtrlZ, b"\x1a"),
        ("ctrl+l", KeyCode::CtrlL, b"\x0c"),
    ];
    for (name, key, bytes) in keys {
        assert_eq!(KeyCode::from_name(name), Some(key.clone()));
        assert_eq!(key.to_bytes(), bytes);
    }
}

#[test]
fn long_texts_are_chunked() {
    let plan = |text: String| plan_actions(&[Action::Text(text)]);
    assert_eq!(plan("x".repeat(49)), vec![Step::Write(vec![b'x'; 49])]);
    assert_eq!(
        plan("x".repeat(50)),
        vec![
            Step::Write(vec![b'x'; 32]),
            Step::Sleep(10),
            Step::Write(vec![b'x'; 18]),
            Step::Sleep(10),
        ]
    );
    // It is characters that are counted, and bytes that are chunked.
    assert_eq!(plan("ü".repeat(49)), vec![Step::Write("ü".repeat(49).into_bytes())]);
    assert_eq!(plan("ü".repeat(50)).len(), 8);
    assert_eq!(plan("".into()), vec![Step::Write(vec![])]);
}

#[test]
fn actions_are_paused_between() {
    let steps = plan_actions(&parse_actions(&["hi", "wait:500", "enter"]));
    assert_eq!(
        steps,
        vec![
            Step::Write(b"hi".to_vec()),
            Step::Sleep(30),
            Step::Sleep(500),
            Step::Sleep(30),
            Step::Write(b"\r".to_vec()),
        ]
    );
    assert!(plan_actions(&[]).is_empty());
}

#[test]
fn key_names_in_any_case() {
    let names = [
        "enter", "tab", "esc", "space", "up", "down", "left", "right", "backspace", "ctrl+c",
        "ctrl+d", "ctrl+z", "ctrl+l",
    ];
    let keys: Vec<KeyCode> = names.iter().map(|n| KeyCode::from_name(n).unwrap()).collect();
    for i in 0..keys.len() {
        for j in 0..i {
            assert_ne!(keys[i], keys[j]);
        }
        assert_eq!(KeyCode::from_name(&names[i].to_uppercase()), Some(keys[i]));
    }
    let texts =
        ["Enter", "BACKSPACE", "bac\u{212a}space", "ENT\u{c9}R", "\u{130}", "e\u{3a3}", "", "x"];
    for text in texts {
        assert_eq!(KeyCode::from_name(text), KeyCode::from_name(&text.to_lowercase()), "{text}");
    }
    assert_eq!(KeyCode::from_name("bac\u{212a}space"), Some(KeyCode::Backspace));
}

#[test]
fn keys_have_names() {
    for name in ["enter", "esc", "backspace", "ctrl+l"] {
        assert_eq!(KeyCode::from_name(name).unwrap().as_str(), name);
    }
    assert_eq!(KeyCode::from_name("return").unwrap().as_str(), "enter");
    assert_eq!(KeyCode::from_name("ESCAPE").unwrap().as_str(), "esc");
}
