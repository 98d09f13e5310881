//! Requests and answers.
use codex_ctl::json::{Json, Number};
use codex_ctl::protocol::{err_json, parse_request, Backend, Request};

#[test]
fn test_request_serde_roundtrip_spawn() {
    let json = r#"{"cmd":"spawn","binary_path":"/usr/bin/codex","prompt":"hello","cwd":"/tmp","gui":false}"#;
    let req: Request = parse_request(json).unwrap();
    match req {
        Request::Spawn { binary_path, prompt, cwd, gui, resume, .. } => {
            assert_eq!(binary_path, "/usr/bin/codex");
            assert_eq!(prompt.as_deref(), Some("hello"));
            assert_eq!(cwd.as_deref(), Some("/tmp"));
            assert!(!gui);
            assert!(resume.is_none());
        }
        _ => panic!("wrong variant"),
    }
}

#[test]
fn test_request_serde_roundtrip_spawn_with_resume() {
    let json = r#"{"cmd":"spawn","binary_path":"/usr/bin/codex","resume":"019c8826-8134-7183-be06-6f93dd6dd5e5","prompt":"continue","cwd":"/tmp"}"#;
    let req: Request = parse_request(json).unwrap();
    match req {
        Request::Spawn { binary_path, prompt, cwd, resume, .. } => {
            assert_eq!(binary_path, "/usr/bin/codex");
            assert_eq!(prompt.as_deref(), Some("continue"));
            assert_eq!(cwd.as_deref(), Some("/tmp"));
            assert_eq!(resume.as_deref(), Some("019c8826-8134-7183-be06-6f93dd6dd5e5"));
        }
        _ => panic!("wrong variant"),
    }
}

#[test]
fn test_request_serde_roundtrip_spawn_resume_no_prompt() {
    let json = r#"{"cmd":"spawn","binary_path":"/usr/bin/codex","resume":"019c8826-8134-7183-be06-6f93dd6dd5e5"}"#;
    let req: Request = parse_request(json).unwrap();
    match req {
        Request::Spawn { binary_path, prompt, resume, .. } => {
            assert_eq!(binary_path, "/usr/bin/codex");
            assert!(prompt.is_none());
            assert_eq!(resume.as_deref(), Some("019c8826-8134-7183-be06-6f93dd6dd5e5"));
        }
        _ => panic!("wrong variant"),
    }
}

#[test]
fn test_request_spawn_rejects_missing_binary_path() {
    // Without binary_path the request must fail to deserialize so that
    // pre-fix clients fail loudly instead of silently breaking.
    let json = r#"{"cmd":"spawn","prompt":"hello","cwd":"/tmp"}"#;
    assert!(parse_request(json).is_none());
}

#[test]
fn test_request_spawn_backend_default_is_codex() {
    // Old clients that omitted `backend` (or shipped the retired
    // `opencode: bool`) must map to Backend::Codex.
    let json = r#"{"cmd":"spawn","binary_path":"/usr/bin/codex","prompt":"x"}"#;
    let req: Request = parse_request(json).unwrap();
    match req {
        Request::Spawn { backend, .. } => assert_eq!(backend, Backend::Codex),
        _ => panic!("wrong variant"),
    }
}

#[test]
fn test_request_spawn_backend_kimi_roundtrip() {
    let json = r#"{"cmd":"spawn","binary_path":"/usr/bin/kimi","prompt":"x","backend":"kimi"}"#;
    let req: Request = parse_request(json).unwrap();
    match req {
        Request::Spawn { backend, .. } => assert_eq!(backend, Backend::Kimi),
        _ => panic!("wrong variant"),
    }
}

#[test]
fn test_request_spawn_backend_opencode_roundtrip() {
    let json = r#"{"cmd":"spawn","binary_path":"/usr/bin/opencode","prompt":"x","backend":"opencode"}"#;
    let req: Request = parse_request(json).unwrap();
    match req {
        Request::Spawn { backend, .. } => assert_eq!(backend, Backend::Opencode),
        _ => panic!("wrong variant"),
    }
}

#[test]
fn test_request_serde_roundtrip_list() {
    let json = r#"{"cmd":"list"}"#;
    let req: Request = parse_request(json).unwrap();
    assert!(matches!(req, Request::List));
}

#[test]
fn test_request_serde_roundtrip_ping() {
    let json = r#"{"cmd":"ping"}"#;
    let req: Request = parse_request(json).unwrap();
    assert!(matches!(req, Request::Ping));
}

#[test]
fn test_err_json() {
    let resp = err_json("something failed");
    assert_eq!(resp.get("ok"), Some(&Json::Bool(false)));
    assert_eq!(resp.get("error"), Some(&Json::Str("something failed".into())));
}

#[test]
fn requests_are_understood_as_they_were_meant() {
    let session = || "s".to_string();
    let requests = vec![
        Request::Spawn {
            binary_path: "/bin/kimi".into(),
            prompt: Some("a\nb".into()),
            cwd: None,
            gui: true,
            resume: Some("r".into()),
            backend: Backend::Kimi,
            model: None,
        },
        Request::List,
        Request::State {
            session: session(),
            wait: Some(vec!["idle".into(), "dead".into()]),
            timeout: Some(Number::Nat(5)),
        },
        Request::Log {
            session: session(),
            follow: true,
            since: Some(u64::MAX),
            wait: true,
            timeout: Some(Number::Int(-1)),
        },
        Request::Next { session: session(), wait: true, timeout: None },
        Request::Last { session: session() },
        Request::Act { session: session(), actions: vec!["\"quoted\"".into(), "enter".into()] },
        Request::Screen { session: session(), clean: true, raw: false },
        Request::Expand { session: session(), block_ids: vec!["1-3".into()] },
        Request::Gui { session: session() },
        Request::Kill { session: session() },
        Request::KillAll,
        Request::GuiAttach { session: session() },
        Request::Ping,
    ];
    for request in requests {
        let line = request.to_line();
        assert!(!line.contains('\n'));
        let back = parse_request(&format!("{line}\n")).unwrap();
        assert_eq!(back.to_json(), request.to_json(), "{line}");
    }
    let request =
        Request::Next { session: "s".into(), wait: false, timeout: Some(Number::Real("1.50".into())) };
    match parse_request(&request.to_line()) {
        Some(Request::Next { timeout, .. }) => assert_eq!(timeout, Some(Number::Real("1.5".into()))),
        _ => panic!("wrong variant"),
    }
}

#[test]
fn requests_as_arrays_of_their_fields() {
    let same = |array: &str, object: &str| {
        let (a, b) = (parse_request(array).unwrap(), parse_request(object).unwrap());
        assert_eq!(a.to_json(), b.to_json(), "{array}");
    };
    same(r#"["ping"]"#, r#"{"cmd":"ping"}"#);
    same(r#"["kill","s"]"#, r#"{"cmd":"kill","session":"s"}"#);
    same(r#"["act","s",["a"]]"#, r#"{"cmd":"act","session":"s","actions":["a"]}"#);
    same(r#"["state","s"]"#, r#"{"cmd":"state","session":"s"}"#);
    same(
        r#"["log","s",true,3,false,2.5]"#,
        r#"{"cmd":"log","session":"s","follow":true,"since":3,"timeout":2.5}"#,
    );
    same(
        r#"["spawn","/b",null,"/w",true,null,"kimi","m"]"#,
        r#"{"cmd":"spawn","binary_path":"/b","cwd":"/w","gui":true,"backend":"kimi","model":"m"}"#,
    );
    let bad = [
        "[]", "[1]", r#"["ping",1]"#, r#"["kill"]"#, r#"["kill","s",1]"#, r#"["act","s"]"#,
        r#"["no","s"]"#, r#"["spawn"]"#, r#"["screen","s",null]"#, r#"[["ping"]]"#,
    ];
    for line in bad {
        assert!(parse_request(line).is_none(), "{line}");
    }
}

#[test]
fn a_request_gives_each_field_once() {
    let good = [
        r#"{"cmd":"kill","session":"s","x":1,"x":2}"#,
        r#"{"cmd":"list","session":1,"session":2}"#,
        r#"{"cmd":"kill","session":"s","wait":1,"wait":2}"#,
        r#"{"cmd":"kill","session":"{\"session\":1,"}"#,
    ];
    for line in good {
        assert!(parse_request(line).is_some(), "{line}");
    }
    let bad = [
        r#"{"cmd":"kill","session":"s","session":"s"}"#,
        r#"{"cmd":"ping","cmd":"ping"}"#,
        r#"{"cmd":"state","session":"s","wait":null,"wa\u0069t":null}"#,
        r#"{"cmd":"kill","session":"s","x":1e999}"#,
    ];
    for line in bad {
        assert!(parse_request(line).is_none(), "{line}");
    }
}

#[test]
fn a_backend_by_itself_or_in_an_object() {
    let backend = |value: &str| {
        let line = format!(r#"{{"cmd":"spawn","binary_path":"/b","backend":{value}}}"#);
        match parse_request(&line) {
            Some(Request::Spawn { backend, .. }) => Some(backend),
            _ => None,
        }
    };
    assert_eq!(backend(r#""opencode""#), Some(Backend::Opencode));
    assert_eq!(backend(r#"{"kimi":null}"#), Some(Backend::Kimi));
    assert_eq!(backend(r#"{"codex":{}}"#), Some(Backend::Codex));
    let bad = [
        "null",
        "1",
        "{}",
        r#""Kimi""#,
        r#"{"kimi":1}"#,
        r#"{"kimi":{"a":1}}"#,
        r#"{"no":null}"#,
        r#"{"kimi":null,"codex":null}"#,
        r#"{"kimi":null,"kimi":null}"#,
        r#"["kimi"]"#,
    ];
    for value in bad {
        assert_eq!(backend(value), None, "{value}");
    }
    let array = r#"["spawn","/b",null,null,false,null,{"kimi":null,"kimi":null}]"#;
    assert!(parse_request(array).is_none());
}
