//! Logs: writing, reading back, and the bodies of blocks.
use codex_ctl::json::{parse_json, Json, Number};
use codex_ctl::log::bodies::{decode_body, encode_body};
use codex_ctl::log::reader::{
    next_cursor, read_all, read_blocks, read_since, read_unread, LogError,
};
use codex_ctl::log::{LogMessage, LogWriter};
use codex_ctl::parser::prompt::{PromptInfo, PromptOption};

/// The text of a log with messages of these numbers.
fn log_of(numbers: &[u64]) -> String {
    let mut w = LogWriter::new("/tmp/s", 0);
    for n in numbers {
        w.append_message(LogMessage::agent_output(*n, format!("msg {n}")));
    }
    w.flush_all().0
}

#[test]
fn append_body_offsets_and_round_trip() {
    let mut w = LogWriter::new("/tmp/s", 0);

    let off1 = w.append_body(b"hello\nworld");
    let off2 = w.append_body(b"second body");
    let off3 = w.append_body(b"");
    let off4 = w.append_body(b"x");

    // Offsets are running byte counters, including the empty append.
    assert_eq!(off1, 0);
    assert_eq!(off2, 11);
    assert_eq!(off3, 22);
    assert_eq!(off4, 22);

    // What a flush hands out is exactly the concatenation of what was appended.
    let (_, buf) = w.flush_all();
    assert_eq!(buf, b"hello\nworldsecond bodyx");
}

#[test]
fn append_message_does_not_flush_per_write() {
    let mut w = LogWriter::new("/tmp/s", 0);
    assert!(w.flush_all().0.is_empty());
    w.append_message(LogMessage::status(1, "hi".into()));
    let (text, _) = w.flush_all();
    assert!(!text.is_empty());
    // What was flushed does not come again.
    assert!(w.flush_all().0.is_empty());
}

#[test]
fn new_writer_resumes_bodies_len_from_disk() {
    let mut w = LogWriter::new("/tmp/s", b"pre-existing bytes".len() as u64);
    let off = w.append_body(b"new");
    assert_eq!(off, 18);
}

#[test]
fn pread_after_append_matches_expand_path() {
    let mut w = LogWriter::new("/tmp/s", 0);

    let bodies: Vec<&[u8]> = vec![
        b"hello world",
        b"second\nblock\nwith\nlines",
        b"",
        b"final",
    ];
    let mut file: Vec<u8> = Vec::new();
    let mut recorded: Vec<(u64, u64)> = Vec::new();
    for (i, b) in bodies.iter().enumerate() {
        let off = w.append_body(b);
        recorded.push((off, b.len() as u64));
        if i == 1 {
            file.extend(w.flush_all().1);
        }
    }
    file.extend(w.flush_all().1);

    for (i, &(off, len)) in recorded.iter().enumerate() {
        let buf = &file[off as usize..(off + len) as usize];
        assert_eq!(buf, bodies[i], "body {i} round-trips through pread");
    }
}

#[test]
fn writer_paths() {
    let w = LogWriter::new("/tmp/s", 0);
    assert_eq!(w.messages_path(), "/tmp/s/messages.jsonl");
    assert_eq!(w.bodies_path(), "/tmp/s/bodies.bin");
    let w = LogWriter::new("/tmp/s/", 5);
    assert_eq!(w.messages_path(), "/tmp/s/messages.jsonl");
    assert_eq!(w.next_offset(), 5);
}

#[test]
fn test_read_all_empty() {
    let msgs = read_all("").unwrap();
    assert!(msgs.is_empty());
}

#[test]
fn test_read_all_messages() {
    let mut w = LogWriter::new("/tmp/s", 0);
    w.append_message(LogMessage::agent_output(1, "hello".into()));
    let mut text = w.flush_all().0;
    w.append_message(LogMessage::agent_output(2, "world".into()));
    text.push_str(&w.flush_all().0);

    let msgs = read_all(&text).unwrap();
    assert_eq!(msgs.len(), 2);
    assert_eq!(msgs[0].seq, 1);
    assert_eq!(msgs[1].seq, 2);
}

#[test]
fn test_read_since() {
    let text = log_of(&[1, 2, 3, 4, 5]);
    let msgs = read_since(&text, 3).unwrap();
    assert_eq!(msgs.len(), 3);
    assert_eq!(msgs[0].seq, 3);
}

#[test]
fn test_read_unread() {
    let text = log_of(&[1, 2, 3, 4, 5]);
    let (msgs, cursor) = read_unread(&text, 3).unwrap();
    assert_eq!(msgs.len(), 3);
    assert_eq!(cursor, 6);
}

#[test]
fn unread_messages_come_once() {
    let mut text = log_of(&[1, 2, 3]);
    let (first, cursor) = read_unread(&text, 0).unwrap();
    assert_eq!(first.len(), 3);
    text.push_str(&log_of(&[4, 5]));
    let (second, cursor) = read_unread(&text, cursor).unwrap();
    assert_eq!(second.iter().map(|m| m.seq).collect::<Vec<u64>>(), vec![4, 5]);
    let (third, same) = read_unread(&text, cursor).unwrap();
    assert!(third.is_empty());
    assert_eq!(same, cursor);
}

#[test]
fn cursors_past_the_end() {
    assert_eq!(next_cursor(&[], 7), Some(7));
    let last = [LogMessage::status(u64::MAX, "x".into())];
    assert_eq!(next_cursor(&last, 7), None);
    let text = log_of(&[u64::MAX]);
    assert_eq!(read_unread(&text, 0).unwrap_err(), LogError::NoNextNumber);
}

#[test]
fn bad_lines() {
    let mut text = log_of(&[1]);
    text.push_str("\n   \n");
    text.push_str("{\"seq\":2}\n");
    assert_eq!(read_all(&text).unwrap_err(), LogError::BadLine("{\"seq\":2}".into()));
    assert_eq!(read_since("no json", 0).unwrap_err(), LogError::BadLine("no json".into()));
}

#[test]
fn log_lines_with_all_members() {
    let line = r#"{"seq":7,"ts":"t","type":"block","text":"Ran x","block_id":3,"block_type":"ran","block_lines":2,"body_offset":10,"body_len":4}"#;
    let msgs = read_all(line).unwrap();
    assert_eq!(msgs[0].block_id, Some(3));
    assert_eq!(msgs[0].block_type.as_deref(), Some("ran"));
    assert_eq!(msgs[0].block_lines, Some(2));
    assert_eq!(msgs[0].body_offset, Some(10));
    assert_eq!(msgs[0].body_len, Some(4));
    assert_eq!(msgs[0].state_from, None);
    // A number of lines of more than 32 bits is no number of lines.
    let line = r#"{"seq":7,"ts":"t","type":"block","text":"x","block_lines":4294967296}"#;
    assert!(read_all(line).is_err());
    let line = r#"{"seq":7,"ts":"t","type":"block","text":"x","block_lines":null}"#;
    assert_eq!(read_all(line).unwrap()[0].block_lines, None);
}

#[test]
fn prompts_survive_the_log() {
    let info = PromptInfo {
        question_num: 1,
        question_total: 3,
        question_text: "Choose \"one\"\nplease".into(),
        options: vec![PromptOption {
            number: 1,
            label: "A".into(),
            description: "an „A“".into(),
            is_selected: true,
        }],
        selected: 1,
    };
    let mut w = LogWriter::new("/tmp/s", 0);
    w.append_message(LogMessage::prompt_msg(4, info));
    let msgs = read_all(&w.flush_all().0).unwrap();
    let back = msgs[0].prompt.as_ref().unwrap();
    assert_eq!(msgs[0].text, "Choose \"one\"\nplease");
    assert_eq!(back.question_total, 3);
    assert_eq!(back.options[0].description, "an „A“");
    assert!(back.options[0].is_selected);
}

#[test]
fn message_members_in_json() {
    let msg = LogMessage::state_change(2, "working", "idle");
    let json = msg.to_json();
    assert_eq!(json.get("type"), Some(&Json::Str("state_change".into())));
    assert_eq!(json.get("text"), Some(&Json::Str("working → idle".into())));
    assert_eq!(json.get("state_from"), Some(&Json::Str("working".into())));
    assert_eq!(json.get("seq"), Some(&Json::Number(Number::Nat(2))));
    assert_eq!(json.get("prompt"), None);
    // The time has the form of RFC 3339, in UTC.
    assert!(msg.ts.len() >= 20 && msg.ts.contains('T') && msg.ts.ends_with("+00:00"));
    let placed = LogMessage::block(1, "Ran x", 4, "ran", 2).with_body(5, 6);
    assert_eq!(placed.body_offset, Some(5));
    assert_eq!(placed.body_len, Some(6));
}

#[test]
fn bodies_round_trip() {
    let lines: Vec<String> = vec!["one".into(), "".into(), "zwei ü".into(), "".into()];
    let bytes = encode_body(&lines);
    assert_eq!(bytes, "one\n\nzwei ü\n".as_bytes());
    assert_eq!(decode_body(&bytes), lines);
    assert_eq!(decode_body(b""), Vec::<String>::new());
    assert_eq!(encode_body(&[]), Vec::<u8>::new());
    // A single empty line has the bytes of no line at all.
    assert_eq!(encode_body(&["".to_string()]), Vec::<u8>::new());
    // What is no UTF-8 is shown by the replacement character.
    assert_eq!(decode_body(b"a\xffb"), vec!["a\u{fffd}b".to_string()]);
}

#[test]
fn blocks_are_read() {
    let text = "{\"id\":1,\"block_type\":\"read\",\"header\":\"Read x\",\"body\":[\"a\",\"b\"],\"seq\":9}\n\n";
    let blocks = read_blocks(text).unwrap();
    assert_eq!(blocks.len(), 1);
    assert_eq!(blocks[0].body, vec!["a", "b"]);
    assert_eq!(blocks[0].seq, 9);
    assert!(read_blocks("{\"id\":1}").is_err());
    match read_blocks(&format!("{text}\n\n{{\"id\":1}}\n{{\"id\":2}}\n")) {
        Err(LogError::BadLine(line)) => assert_eq!(line, "{\"id\":1}"),
        other => panic!("{:?}", other),
    }
    assert!(read_blocks("").unwrap().is_empty());
}

#[test]
fn json_round_trip() {
    let text = r#"{"a":[1,-2,true,null,"x\ny"],"b":{"c":18446744073709551615}}"#;
    let json = parse_json(text).unwrap();
    assert_eq!(codex_ctl::json::print_json(&json), text);
    assert_eq!(parse_json(&codex_ctl::json::print_pretty(&json)), Some(json));
    assert_eq!(parse_json("12.50").unwrap(), Json::Number(Number::Real("12.5".into())));
    assert_eq!(
        codex_ctl::json::print_json(&Json::Number(Number::Real("12.50".into()))),
        "12.5"
    );
    let odd = Json::Array(vec![
        Json::Number(Number::Int(5)),
        Json::Number(Number::Real("1e1".into())),
        Json::Number(Number::Real("7".into())),
        Json::Number(Number::Real("no".into())),
    ]);
    let held = parse_json(&codex_ctl::json::print_json(&odd)).unwrap();
    assert_eq!(
        held,
        Json::Array(vec![
            Json::Number(Number::Nat(5)),
            Json::Number(Number::Real("10.0".into())),
            Json::Number(Number::Nat(7)),
            Json::Null,
        ])
    );
    assert!(parse_json("{").is_none());
    // The later of two members of one name counts.
    let json = parse_json(r#"{"a":1,"a":2}"#).unwrap();
    assert_eq!(json.get("a"), Some(&Json::Number(Number::Nat(2))));
}

/// A message with these members behind the four that each has.
fn with(more: &str) -> String {
    format!(r#"{{"seq":1,"ts":"t","type":"status","text":"a"{more}}}"#)
}

#[test]
fn a_line_that_gives_a_field_twice_has_no_message() {
    let prompt = |more: &str, option: &str| {
        let option = format!(
            r#"{{"number":1,"label":"l","description":"d","is_selected":true{option}}}"#
        );
        let fields = r#""question_num":1,"question_total":2,"question_text":"q","selected":1"#;
        with(&format!(r#","prompt":{{{fields},"options":[{option},{option}]{more}}}"#))
    };
    let good = [
        with(""),
        with(r#","x":1,"x":2"#),
        with(r#","x":{"seq":1,"seq":2},"prompt":null"#),
        with(r#","x":"{\"seq\":1,","y":[{"text":1},{"text":2}]"#),
        prompt("", ""),
        prompt(r#","x":1,"x":[2]"#, r#","seq":1,"seq":2"#),
    ];
    for line in &good {
        assert_eq!(read_all(line).map(|m| m.len()), Ok(1), "{line}");
    }
    let bad = [
        with(r#","seq":1"#),
        with(r#","s\u0065q":2"#),
        with(r#","prompt":null,"x":{},"prompt":null"#),
        with(r#","body_len":null,"body_len":3"#),
        prompt(r#","selected":1"#, ""),
        prompt(r#","options":[]"#, ""),
        prompt("", r#","label":"m""#),
    ];
    for line in &bad {
        assert!(read_all(line).is_err(), "{line}");
    }
    let block = r#"{"id":1,"block_type":"ran","header":"h","body":["x"],"seq":2,"y":1,"y":1"#;
    assert_eq!(read_blocks(&format!("{block}}}")).unwrap()[0].body, vec!["x"]);
    assert!(read_blocks(&format!("{block},\"id\":1}}")).is_err());
}

#[test]
fn messages_and_blocks_as_arrays_of_their_fields() {
    let line = r#"[7,"t","prompt","q","a",null,
        [1,2,"q",[[1,"l","d",true],{"number":2,"label":"m","description":"","is_selected":false}],1],
        null,"ran",5]"#
        .replace('\n', " ");
    let message = &read_all(&line).unwrap()[0];
    assert_eq!((message.seq, message.msg_type.as_str()), (7, "prompt"));
    assert_eq!(message.state_from.as_deref(), Some("a"));
    assert_eq!(message.state_to, None);
    assert_eq!(message.block_lines, Some(5));
    assert_eq!((message.body_offset, message.body_len), (None, None));
    let prompt = message.prompt.as_ref().unwrap();
    assert_eq!((prompt.question_total, prompt.options.len()), (2, 2));
    assert_eq!(prompt.options[0].label, "l");
    assert!(!prompt.options[1].is_selected);
    let nulls = |n: usize| format!(r#"[1,"t","status","a"{}]"#, ",null".repeat(n));
    assert!(read_all(&nulls(5)).is_err());
    for n in 6..=8 {
        assert!(read_all(&nulls(n)).is_ok());
    }
    assert!(read_all(&nulls(9)).is_err());
    let both = r#"[1,"t","status","a",null,null,{"selected":1,"selected":1},null,null,null]"#;
    assert!(read_all(both).is_err());
    let block = &read_blocks(r#"[1,"ran","h",["x","y"],2]"#).unwrap()[0];
    assert_eq!((block.id, block.seq, block.body.len()), (1, 2, 2));
    assert!(read_blocks(r#"[1,"ran","h",["x"]]"#).is_err());
    assert!(read_blocks(r#"[1,"ran","h",["x"],2,3]"#).is_err());
}

#[test]
fn what_there_is_no_field_for_is_not_looked_at() {
    let deep = format!("{}{}", "[".repeat(300), "]".repeat(300));
    let strange = [
        "1e999",
        r#""\ud800""#,
        &deep,
        r#"{"a":[1,{"b":"}"}],"c":-1e999 } "#,
        r#" "\",:{" "#,
        "null",
    ];
    for value in strange {
        let line = with(&format!(r#","x" : {value} ,"block_id":3"#));
        assert_eq!(read_all(&line).unwrap()[0].block_id, Some(3), "{line}");
        let line = with(&format!(r#","block_id":3,"x":{value}"#));
        assert_eq!(read_all(&line).unwrap()[0].block_id, Some(3), "{line}");
        let block =
            format!(r#"{{"x":{value},"id":1,"block_type":"ran","header":"h","body":[],"seq":2}}"#);
        assert_eq!(read_blocks(&block).unwrap()[0].id, 1, "{block}");
    }
    for value in ["", "01", "@", r#""\x""#, "[1", "{1:2}", "nul"] {
        assert!(read_all(&with(&format!(r#","x":{value}"#))).is_err(), "{value}");
    }
    for value in ["1e999", "-1", r#""3""#, "{}"] {
        assert!(read_all(&with(&format!(r#","block_id":{value}"#))).is_err(), "{value}");
    }
    assert!(read_all(&with(r#","state_from":"\ud800""#)).is_err());
}
