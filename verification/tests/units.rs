//! Tests of the parts that need no configuration.

use tmuxlet_server::auth::{
    check_bearer, ct_eq, generated_message, repaired_mode, resolve, token_hex, Token,
};
use tmuxlet_server::backend::api::{
    build_body, error_snippet, extract_content, finish_call, plan_call, split_url,
};
use tmuxlet_server::backend::cli::{
    finish_plain, finish_pty, is_write_error, plain_args, substitute_prompt,
};
use tmuxlet_server::backend::tmuxlet::{build_args, parse_output};
use tmuxlet_server::backend::{
    blank, last_line_of, poll_step, program_candidates, resolve_program, ApiBackend, Backend,
    BackendError, Call, ChildEnd, CliBackend, PollStep, TmuxletBackend,
};
use tmuxlet_server::env::{
    capture_step, capture_warning, glob_match, is_process_source, is_valid_key, parse_captured,
    parse_env, parse_env_nul, watchdog_message, CaptureStep, Env,
};
use tmuxlet_server::http::chat::{
    build_503_body, closing_line, parse_class, read_chat, truncate_tail, ChannelSseBody,
};
use tmuxlet_server::http::health::{
    cooldown_for, record_failure, record_success, ActiveSlot, BackendHealth,
};
use tmuxlet_server::http::{classify, url_path, Cors, Route};
use tmuxlet_server::http_client::{
    dechunk, parse_response, read_body, request_bytes, socket_timeouts, BodyReader, ReadAction,
    ReadError, ReadEvent, ResponseError,
};
use tmuxlet_server::json::{quote, Json};
use tmuxlet_server::log;
use tmuxlet_server::names::NameMap;
use tmuxlet_server::openai::{
    build_completion, flatten_to_prompt, last_user_prompt, last_user_text, leg_prompt, model_list,
    stream_frames, ChatMessage, ContentPart, ErrorEnvelope, MessageContent, PromptMode,
};
use tmuxlet_server::pty::{clean_bytes, clean_output};
use tmuxlet_server::text;
use tmuxlet_server::typo::{levenshtein, nearest};

fn env_of(pairs: &[(&str, &str)]) -> Env {
    let mut m: NameMap<String> = NameMap::new();
    for (k, v) in pairs {
        m.insert(k.to_string(), v.to_string());
    }
    Env::from_map(m)
}

fn no_cors() -> Cors {
    Cors { enabled: false, origin: None }
}

fn json(s: &str) -> Json {
    match read_chat(s, &no_cors()) {
        Ok(j) => j,
        Err(r) => panic!("no JSON: {}", r.body),
    }
}

fn number(j: &Json) -> i64 {
    match j {
        Json::Number(n) => n.as_i64().unwrap(),
        _ => panic!("no number"),
    }
}

// ---- auth ----

#[test]
fn ct_eq_matches_and_rejects() {
    assert!(ct_eq(b"abc", b"abc"));
    assert!(!ct_eq(b"abc", b"abd"));
    assert!(!ct_eq(b"abc", b"abcd"));
}

#[test]
fn check_bearer_parses_header() {
    assert!(check_bearer(Some("Bearer tok123"), "tok123"));
    assert!(!check_bearer(Some("Bearer wrong"), "tok123"));
    assert!(!check_bearer(Some("tok123"), "tok123"));
    assert!(!check_bearer(None, "tok123"));
}

#[test]
fn resolve_disabled_is_none() {
    let env = env_of(&[("PATH", "/bin")]);
    assert!(matches!(resolve(false, None, &env, "/nonexistent/token", None), Ok(None)));
}

#[test]
fn resolve_env_var_wins() {
    let env = env_of(&[("TEST_TMUXLET_TOKEN", "secret-xyz")]);
    let t = resolve(
        true,
        Some("TEST_TMUXLET_TOKEN"),
        &env,
        "/nonexistent/token",
        Some("from-the-file"),
    );
    match t {
        Ok(Some(Token::Given(s))) => assert_eq!(s, "secret-xyz"),
        _ => panic!("expected the variable's value"),
    }
}

#[test]
fn resolve_complains_of_an_unset_variable() {
    let env = env_of(&[("BLANK", "  ")]);
    for name in ["MISSING", "BLANK"] {
        match resolve(true, Some(name), &env, "/t/token", None) {
            Err(e) => assert_eq!(
                e,
                format!("auth is on and auth_token_env = \"{name}\", but ${name} is empty or unset — export it before starting, or remove auth_token_env to use the /t/token file")
            ),
            _ => panic!("expected a complaint"),
        }
    }
}

#[test]
fn resolve_generates_and_reuses_token_file() {
    let env = env_of(&[]);
    assert!(matches!(resolve(true, None, &env, "/t/token", None), Ok(Some(Token::Generate))));
    assert!(matches!(resolve(true, None, &env, "/t/token", Some(" \n")), Ok(Some(Token::Generate))));
    let first = token_hex(&[7u8; 32]);
    assert_eq!(first.len(), 64);
    let stored = format!("{first}\n");
    match resolve(true, None, &env, "/t/token", Some(&stored)) {
        Ok(Some(Token::Stored(second))) => assert_eq!(first, second),
        _ => panic!("expected the stored token"),
    }
    assert!(check_bearer(Some(&format!("Bearer {first}")), &first));
}

#[test]
fn an_open_token_file_is_made_private() {
    assert_eq!(repaired_mode(0o100644), Some(0o600));
    assert_eq!(repaired_mode(0o601), Some(0o600));
    assert_eq!(repaired_mode(0o100600), None);
    assert_eq!(repaired_mode(0o700), None);
}

#[test]
fn token_hex_writes_two_digits_a_byte() {
    assert_eq!(token_hex(&[0, 1, 15, 16, 255]), "00010f10ff");
    assert!(generated_message("/t").contains("$(cat /t)"));
}

// ---- api ----

#[test]
fn merges_extra_body_then_pins_model() {
    let caller = json(
        r#"{"model":"caller-wins?","messages":[{"role":"user","content":"hi"}],"think":false}"#,
    );
    let extra = json(r#"{"think":true,"foo":1}"#);
    let body = build_body(&caller, &extra, "pinned-model");
    assert_eq!(body.get("model").unwrap().as_str(), Some("pinned-model"));
    assert!(matches!(body.get("think"), Some(Json::Bool(true))));
    assert_eq!(number(body.get("foo").unwrap()), 1);
    assert!(matches!(body.get("messages"), Some(Json::Array(_))));
}

#[test]
fn body_drops_stream_and_keeps_other_values() {
    let caller = json(r#"{"model":"x","stream":true,"seed":42}"#);
    let body = build_body(&caller, &Json::Null, "m");
    assert!(body.get("stream").is_none());
    assert_eq!(number(body.get("seed").unwrap()), 42);
    assert!(matches!(build_body(&json("[1]"), &Json::Null, "m"), Json::Array(_)));
}

#[test]
fn splits_base_url() {
    assert_eq!(
        split_url("http://127.0.0.1:11434/v1"),
        ("http".into(), "127.0.0.1".into(), 11434, "/v1".into())
    );
    assert_eq!(
        split_url("https://openrouter.ai/api/v1"),
        ("https".into(), "openrouter.ai".into(), 443, "/api/v1".into())
    );
    assert_eq!(
        split_url("http://[::1]:11434/v1"),
        ("http".into(), "::1".into(), 11434, "/v1".into())
    );
    assert_eq!(
        split_url("http://[fe80::1]/v1"),
        ("http".into(), "fe80::1".into(), 80, "/v1".into())
    );
}

#[test]
fn splits_odd_urls() {
    assert_eq!(split_url("localhost"), ("http".into(), "localhost".into(), 80, "".into()));
    assert_eq!(split_url("https://h:99999/x"), ("https".into(), "h".into(), 443, "/x".into()));
    assert_eq!(split_url("http://[::1"), ("http".into(), "::1".into(), 80, "".into()));
    assert_eq!(split_url("http://[::1]x/p"), ("http".into(), "::1".into(), 80, "/p".into()));
}

#[test]
fn extracts_content_from_completion() {
    let r = r#"{"choices":[{"message":{"content":"hello"}}]}"#;
    assert_eq!(extract_content("api", r).ok().unwrap(), "hello");
}

#[test]
fn responses_without_content_are_parse_errors() {
    for r in [
        r#"{}"#,
        r#"{"choices":[]}"#,
        r#"{"choices":{"0":{"message":{"content":"x"}}}}"#,
        r#"{"choices":[{"message":{"content":7}}]}"#,
    ] {
        match extract_content("api", r) {
            Err(BackendError::Parse(n, m)) => {
                assert_eq!(n, "api");
                assert_eq!(m, "no choices[0].message.content");
            }
            _ => panic!("expected a parse error of {r}"),
        }
    }
    match extract_content("api", "{not json") {
        Err(BackendError::Parse(_, m)) => {
            let e = serde_json::from_str::<serde_json::Value>("{not json").unwrap_err();
            assert_eq!(m, e.to_string());
        }
        _ => panic!("expected a parse error"),
    }
}

#[test]
fn error_snippet_condenses_body() {
    let s = error_snippet("  {\n  \"error\": \"bad key\"\n}\t");
    assert_eq!(s, "{ \"error\": \"bad key\" }");
    assert!(error_snippet(&"x".repeat(500)).chars().count() <= 300);
}

fn api(name: &str) -> ApiBackend {
    ApiBackend {
        name: name.into(),
        base_url: "http://127.0.0.1:11434/v1/".into(),
        model: "kimi".into(),
        api_key_env: Some("KEY".into()),
        extra_body: Json::Null,
        timeout: None,
        allow_empty: false,
        max_response_bytes: 1024,
        max_concurrent: None,
        ca_file: None,
    }
}

#[test]
fn api_calls_are_planned() {
    let b = api("o");
    let raw = json(r#"{"b":1,"messages":[],"stream":true,"model":"x"}"#);
    let c = plan_call(&b, &raw, &env_of(&[("KEY", "sk")]));
    assert_eq!(c.path, "/v1/chat/completions");
    assert_eq!(c.host, "127.0.0.1");
    assert_eq!(c.port, 11434);
    assert_eq!(c.bearer.as_deref(), Some("sk"));
    assert_eq!(c.body, r#"{"b":1,"messages":[],"model":"kimi"}"#);
    assert_eq!(c.max_bytes, 1024);
    let c = plan_call(&b, &raw, &env_of(&[]));
    assert!(c.bearer.is_none());
    let call = Backend::Api(b).dispatch("ignored", &raw, &env_of(&[]), 5);
    assert!(matches!(call, Call::Api(_)));
}

#[test]
fn api_replies_are_judged() {
    let b = api("o");
    let ok = finish_call(&b, Ok((200, r#"{"choices":[{"message":{"content":"hi"}}]}"#.into())));
    let ok = ok.ok().unwrap();
    assert_eq!(ok.content, "hi");
    assert_eq!(ok.model_label, "kimi");
    assert!(matches!(
        finish_call(&b, Ok((429, "slow\ndown".into()))),
        Err(BackendError::Http(n, 429, d)) if n == "o" && d == "slow down"
    ));
    assert!(matches!(
        finish_call(&b, Ok((199, "".into()))),
        Err(BackendError::Http(_, 199, _))
    ));
    assert!(matches!(
        finish_call(&b, Err(ReadError::TooLarge(9))),
        Err(BackendError::Parse(_, m)) if m == "response exceeds max_response_bytes cap (9 bytes)"
    ));
    assert!(matches!(
        finish_call(&b, Err(ReadError::Failed("Connection refused".into()))),
        Err(BackendError::Spawn(_, m)) if m == "Connection refused"
    ));
}

// ---- cli ----

fn cli(name: &str, bin: &str, args: Vec<String>, pty: bool) -> CliBackend {
    CliBackend {
        name: name.into(),
        bin: bin.into(),
        args,
        pty,
        cwd: "/tmp".into(),
        pty_size: (200, 50),
        allow_empty: false,
        env_pass: None,
        stdin_prompt: false,
        max_concurrent: None,
        prompt_mode: PromptMode::Transcript,
    }
}

#[test]
fn plain_args_append_prompt() {
    let b = cli("x", "/bin/echo", vec!["-n".into()], false);
    assert_eq!(plain_args(&b, "hello"), vec!["-n".to_string(), "hello".to_string()]);
}

#[test]
fn plain_args_substitutes_placeholder_instead_of_appending() {
    let b = cli("x", "/bin/echo", vec!["-p".into(), "{prompt}".into()], false);
    assert_eq!(
        plain_args(&b, "hello world"),
        vec!["-p".to_string(), "hello world".to_string()]
    );
}

#[test]
fn every_placeholder_is_filled_once() {
    let args = vec!["a{prompt}b{prompt}".to_string(), "c".to_string()];
    let (out, found) = substitute_prompt(&args, "{prompt}!");
    assert!(found);
    assert_eq!(out, vec!["a{prompt}!b{prompt}!".to_string(), "c".to_string()]);
}

#[test]
fn pty_dispatch_substitutes_placeholder_into_argv() {
    let b = cli("echoer", "/bin/echo", vec!["{prompt}".into()], true);
    let call = tmuxlet_server::backend::cli::plan_call(&b, "READYTOKEN");
    assert_eq!(call.args, vec!["READYTOKEN".to_string()]);
    assert_eq!(call.stdin.as_deref(), Some(""));
    let r = finish_pty(&b, false, true, 0, b"READYTOKEN\r\n").ok().unwrap();
    assert_eq!(r.content.trim(), "READYTOKEN");
}

#[test]
fn pty_dispatch_fails_on_nonzero_exit_with_no_output() {
    let b = cli(
        "failer",
        "/bin/sh",
        vec!["-c".into(), "exit 1".into(), "{prompt}".into()],
        true,
    );
    let err = finish_pty(&b, false, false, 1, b"").err().unwrap();
    assert!(matches!(err, BackendError::Exit(ref n, _, _) if n == "failer"));
    assert!(matches!(
        finish_pty(&b, true, false, 1, b"partial"),
        Err(BackendError::Timeout(n)) if n == "failer"
    ));
}

#[test]
fn a_prompt_that_was_not_written_is_an_error() {
    assert!(is_write_error(true, false, false));
    assert!(!is_write_error(false, false, false));
    assert!(!is_write_error(true, true, false));
    assert!(!is_write_error(true, false, true));
}

#[test]
fn cli_prompts_go_where_they_are_wanted() {
    let mut b = cli("x", "/bin/cat", vec!["-".into()], false);
    b.stdin_prompt = true;
    let c = tmuxlet_server::backend::cli::plan_call(&b, "p");
    assert_eq!(c.args, vec!["-".to_string()]);
    assert_eq!(c.stdin.as_deref(), Some("p"));
    b.args = vec!["{prompt}".into()];
    let c = tmuxlet_server::backend::cli::plan_call(&b, "p");
    assert_eq!(c.args, vec!["p".to_string()]);
    assert!(c.stdin.is_none());
    b.pty = true;
    b.args = vec![];
    let c = tmuxlet_server::backend::cli::plan_call(&b, "p");
    assert!(c.args.is_empty());
    assert_eq!(c.stdin.as_deref(), Some("p"));
}

#[test]
fn plain_runs_are_judged() {
    let b = cli("x", "/bin/x", vec![], false);
    let ok = finish_plain(&b, false, Some(3), b"text\n", b"").ok().unwrap();
    assert_eq!(ok.content, "text\n");
    assert_eq!(ok.model_label, "x");
    match finish_plain(&b, false, Some(3), b" \n", b"first\nlast\n") {
        Err(BackendError::Exit(n, 3, s)) => {
            assert_eq!(n, "x");
            assert_eq!(s, "last");
        }
        _ => panic!("expected an exit error"),
    }
    assert!(matches!(finish_plain(&b, false, None, b"", b""), Err(BackendError::Exit(_, -1, _))));
    assert!(finish_plain(&b, true, Some(0), b"", b"").is_ok());
}

#[test]
fn a_killed_child_has_not_answered() {
    let c = cli("x", "/bin/x", vec![], false);
    let t = tmux();
    let end = ChildEnd::TimedOut;
    assert!(matches!(
        tmuxlet_server::backend::cli::finish_child(&c, &end),
        Err(BackendError::Timeout(n)) if n == "x"
    ));
    assert!(matches!(
        tmuxlet_server::backend::tmuxlet::finish_child(&t, &end),
        Err(BackendError::Timeout(n)) if n == "t"
    ));
    let end = ChildEnd::NotRun("no such file".into());
    assert!(matches!(
        tmuxlet_server::backend::cli::finish_child(&c, &end),
        Err(BackendError::Spawn(n, m)) if n == "x" && m == "no such file"
    ));
    assert!(matches!(
        tmuxlet_server::backend::tmuxlet::finish_child(&t, &end),
        Err(BackendError::Spawn(n, _)) if n == "t"
    ));
    let end = ChildEnd::Ended {
        success: true,
        code: Some(0),
        stdout: b"\x1b[1mhi\n".to_vec(),
        stderr: vec![],
    };
    let r = tmuxlet_server::backend::cli::finish_child(&c, &end).ok().unwrap();
    assert_eq!(r.content, "hi\n");
    let r = tmuxlet_server::backend::tmuxlet::finish_child(&t, &end).ok().unwrap();
    assert_eq!(r.content, "\x1b[1mhi\n");
}

#[test]
fn children_are_polled_until_their_limit() {
    assert_eq!(poll_step(true, 10, 5), PollStep::Collect);
    assert_eq!(poll_step(false, 5, 5), PollStep::Kill);
    assert_eq!(poll_step(false, 4, 5), PollStep::Wait);
}

#[test]
fn blank_and_last_line() {
    assert!(blank(" \t\u{a0}\n"));
    assert!(!blank(" x "));
    assert_eq!(last_line_of("a\nb"), "b");
    assert_eq!(last_line_of(""), "");
}

// ---- errors ----

#[test]
fn error_messages_name_the_backend() {
    assert!(BackendError::Timeout("agy".into()).to_string().contains("agy"));
    assert!(BackendError::Http("ollama".into(), 500, String::new())
        .to_string()
        .contains("500"));
}

#[test]
fn http_error_includes_body_detail() {
    let e = BackendError::Http("or".into(), 401, "invalid key".into());
    assert!(e.to_string().contains("invalid key"));
    assert_eq!(e.class(), "http error");
    assert_eq!(
        BackendError::Http("or".into(), 429, String::new()).class(),
        "rate limited"
    );
}

#[test]
fn error_messages_are_exact() {
    let cases = [
        (BackendError::Timeout("a".into()), "[a] timed out", "timeout"),
        (BackendError::Spawn("a".into(), "e".into()), "[a] spawn failed: e", "spawn"),
        (BackendError::Exit("a".into(), -1, "s".into()), "[a] exited with -1: s", "exit"),
        (BackendError::Backend("a".into(), "m".into()), "[a] backend error: m", "backend error"),
        (BackendError::Http("a".into(), 500, "".into()), "[a] HTTP 500", "http error"),
        (BackendError::Http("a".into(), 500, "d".into()), "[a] HTTP 500: d", "http error"),
        (BackendError::Parse("a".into(), "m".into()), "[a] parse error: m", "parse error"),
        (BackendError::Busy("a".into()), "[a] busy (max_concurrent reached)", "busy"),
    ];
    for (e, text, class) in cases {
        assert_eq!(e.to_string(), text);
        assert_eq!(e.class(), class);
        assert_eq!(e.backend_name(), "a");
    }
}

#[test]
fn programs_are_found_on_the_path() {
    let env = env_of(&[("PATH", "/a::/b/:/c")]);
    assert_eq!(
        program_candidates("tmuxlet", &env),
        vec!["/a/tmuxlet".to_string(), "/b/tmuxlet".to_string(), "/c/tmuxlet".to_string()]
    );
    let there = vec!["/c/tmuxlet".to_string(), "/b/tmuxlet".to_string()];
    assert_eq!(resolve_program("tmuxlet", &env, &there), "/b/tmuxlet");
    assert_eq!(resolve_program("tmuxlet", &env, &vec![]), "tmuxlet");
    assert_eq!(resolve_program("./tmuxlet", &env, &there), "./tmuxlet");
    assert_eq!(resolve_program("tmuxlet", &env_of(&[]), &there), "tmuxlet");
}

// ---- tmuxlet ----

fn tmux() -> TmuxletBackend {
    TmuxletBackend {
        name: "t".into(),
        bin: "tmuxlet".into(),
        target: "coder".into(),
        target_args: vec!["--effort".into(), "max".into()],
        cwd: "/tmp".into(),
        allow_empty: false,
        env_pass: None,
        use_stdin: false,
        max_concurrent: None,
        prompt_mode: PromptMode::Transcript,
    }
}

#[test]
fn assembles_args_with_target_args_and_timeout() {
    let a = build_args(&tmux(), "hello", 1800);
    assert_eq!(
        a,
        vec![
            "-p",
            "--target",
            "coder",
            "--output-format",
            "json",
            "-C",
            "/tmp",
            "--timeout",
            "1800",
            "--target-arg",
            "--effort",
            "--target-arg",
            "max",
            "hello"
        ]
    );
}

#[test]
fn tmuxlet_reads_standard_input_where_it_can() {
    let mut b = tmux();
    b.use_stdin = true;
    let c = tmuxlet_server::backend::tmuxlet::plan_call(&b, "long prompt", 2_500_000_000);
    assert_eq!(c.args.last().unwrap(), "-");
    assert!(c.args.contains(&"2".to_string()));
    assert_eq!(c.stdin.as_deref(), Some("long prompt"));
    assert_eq!(c.limit, 7_500_000_000);
}

#[test]
fn parses_completed_status() {
    let j = r#"{"id":"r1","target":"coder","status":"completed","output":"done","cwd":"/tmp","tmuxSession":"s","completionSource":"hook","elapsedMs":12}"#;
    assert_eq!(parse_output("t", j).ok().unwrap(), "done");
}

#[test]
fn non_completed_status_is_error() {
    let j = r#"{"id":"r1","target":"coder","status":"timeout","output":"partial","cwd":"/tmp","tmuxSession":"s","completionSource":"none","elapsedMs":9}"#;
    assert!(parse_output("t", j).is_err());
    assert!(matches!(
        parse_output("t", j),
        Err(BackendError::Backend(_, m)) if m == "tmuxlet status=timeout"
    ));
}

#[test]
fn non_json_falls_back_to_raw() {
    assert_eq!(parse_output("t", "just text").ok().unwrap(), "just text");
}

#[test]
fn tmuxlet_runs_are_judged() {
    let b = tmux();
    let ok = tmuxlet_server::backend::tmuxlet::finish_call(
        &b,
        true,
        Some(0),
        br#" {"status":"completed","output":"x"} "#,
        b"",
    );
    let ok = ok.ok().unwrap();
    assert_eq!(ok.content, "x");
    assert_eq!(ok.model_label, "t");
    assert!(matches!(
        tmuxlet_server::backend::tmuxlet::finish_call(&b, false, Some(2), b"", b"why\n"),
        Err(BackendError::Exit(_, 2, s)) if s == "why"
    ));
}

// ---- env ----

#[test]
fn parses_keyvalue_skips_noise() {
    let raw = "PATH=/usr/bin:/bin\nHOME=/Users/kk\n\x1b]7;file://x\x1b\\garbage line\nVAR_2=a=b=c\nbad key=nope\n";
    let m = parse_env(raw);
    assert_eq!(m.get("PATH").map(String::as_str), Some("/usr/bin:/bin"));
    assert_eq!(m.get("VAR_2").map(String::as_str), Some("a=b=c"));
    assert!(!m.contains_key("garbage line"));
    assert!(!m.contains_key("bad key"));
}

#[test]
fn nul_parse_keeps_multiline_values() {
    let raw = "FUNC=line1\nline2\nline3\0PATH=/usr/bin\0";
    let m = parse_env_nul(raw);
    assert_eq!(m.get("FUNC").map(String::as_str), Some("line1\nline2\nline3"));
    assert_eq!(m.get("PATH").map(String::as_str), Some("/usr/bin"));
}

#[test]
fn captured_text_is_read_in_either_form() {
    let m = parse_captured(b"A=1\nB=2\r\nA=3\n");
    assert_eq!(m.get("A").map(String::as_str), Some("3"));
    assert_eq!(m.get("B").map(String::as_str), Some("2"));
    let m = parse_captured(b"A=1\nB=2\0C=\xff\0");
    assert_eq!(m.get("A").map(String::as_str), Some("1\nB=2"));
    assert_eq!(m.get("C").map(String::as_str), Some("\u{fffd}"));
}

#[test]
fn captures_are_watched() {
    assert!(is_process_source("process"));
    assert!(!is_process_source("shell"));
    assert_eq!(capture_step(true, 1, 9_000_000_000), CaptureStep::Collect);
    assert_eq!(capture_step(false, 1, 1_000_000_000), CaptureStep::Kill);
    assert_eq!(capture_step(false, 1, 999_999_999), CaptureStep::Wait);
    assert_eq!(capture_step(false, 0, u128::MAX), CaptureStep::Wait);
    assert_eq!(watchdog_message(15), "exceeded 15s watchdog");
    assert!(capture_warning("no shell").starts_with("shell env capture failed (no shell); using"));
}

#[test]
fn names_of_variables() {
    assert!(is_valid_key("_a9"));
    assert!(!is_valid_key("9a"));
    assert!(!is_valid_key(""));
    assert!(!is_valid_key("a-b"));
}

#[test]
fn glob_matches_prefix_suffix_and_infix() {
    assert!(glob_match("ANTHROPIC_*", "ANTHROPIC_API_KEY"));
    assert!(!glob_match("ANTHROPIC_*", "OPENAI_API_KEY"));
    assert!(glob_match("*_TOKEN", "GH_TOKEN"));
    assert!(!glob_match("*_TOKEN", "TOKEN_X"));
    assert!(glob_match("AWS_*_KEY", "AWS_SECRET_KEY"));
    assert!(!glob_match("AWS_*_KEY", "AWS_SECRET"));
    assert!(glob_match("PATH", "PATH"));
    assert!(!glob_match("PATH", "PATHX"));
    assert!(glob_match("*", "anything"));
}

#[test]
fn glob_literals_do_not_overlap() {
    assert!(!glob_match("ab*ba", "aba"));
    assert!(glob_match("ab*ba", "abba"));
    assert!(glob_match("a*b*c", "aXbYbZc"));
    assert!(!glob_match("a*b*c", "aXc"));
    assert!(glob_match("**", ""));
    assert!(!glob_match("", "x"));
}

#[test]
fn filtered_pairs_keeps_base_and_allowlisted() {
    let env = env_of(&[
        ("PATH", "/bin"),
        ("ANTHROPIC_API_KEY", "sk"),
        ("AWS_SECRET_ACCESS_KEY", "leak"),
    ]);
    let allow = vec!["ANTHROPIC_*".to_string()];
    let pairs: std::collections::HashMap<_, _> =
        env.filtered_pairs(Some(&allow)).into_iter().collect();
    assert!(pairs.contains_key("PATH"));
    assert!(pairs.contains_key("ANTHROPIC_API_KEY"));
    assert!(!pairs.contains_key("AWS_SECRET_ACCESS_KEY"));
    assert_eq!(env.filtered_pairs(None).len(), 3);
    assert_eq!(env.as_pairs().len(), 3);
}

#[test]
fn a_name_map_keeps_one_entry_a_name() {
    let mut m: NameMap<u8> = NameMap::new();
    m.insert("a".into(), 1);
    m.insert("b".into(), 2);
    m.insert("a".into(), 3);
    assert_eq!(m.len(), 2);
    assert_eq!(m.key_at(0), "a");
    assert_eq!(*m.value_at(0), 3);
    assert_eq!(m.position("b"), Some(1));
    assert!(m.get("c").is_none());
}

// ---- http ----

#[test]
fn classifies_routes() {
    assert!(matches!(classify("GET", "/health"), Route::Health));
    assert!(matches!(classify("GET", "/v1/models"), Route::Models));
    assert!(matches!(classify("GET", "/v1/backends"), Route::Backends));
    assert!(matches!(classify("POST", "/v1/chat/completions"), Route::Chat));
    assert!(matches!(classify("GET", "/ui/index.html"), Route::Reserved));
    assert!(matches!(classify("GET", "/"), Route::Reserved));
    assert!(matches!(classify("GET", "/nope"), Route::NotFound));
    assert!(matches!(classify("HEAD", "/health"), Route::Health));
    assert!(matches!(classify("HEAD", "/v1/models"), Route::Models));
    assert!(matches!(
        classify("DELETE", "/v1/models"),
        Route::MethodNotAllowed("GET, HEAD")
    ));
    assert!(matches!(
        classify("GET", "/v1/chat/completions"),
        Route::MethodNotAllowed("POST")
    ));
}

#[test]
fn only_the_named_namespaces_are_reserved() {
    for path in ["/ui/", "/ui/index.html", "/api/", "/api/sessions/1", "/"] {
        assert!(matches!(classify("GET", path), Route::Reserved), "{path}");
        assert!(matches!(classify("DELETE", path), Route::Reserved), "{path}");
    }
    for path in ["/uix", "/apiary", "/ui", "/api", "", "//", "/v1", "/health/"] {
        assert!(matches!(classify("GET", path), Route::NotFound), "{path}");
    }
}

#[test]
fn queries_are_no_part_of_the_path() {
    assert_eq!(url_path("/v1/models?x=1?y"), "/v1/models");
    assert_eq!(url_path("/health"), "/health");
}

#[test]
fn channel_sse_body_streams_then_eof_on_drop() {
    let mut pieces: Vec<Vec<u8>> = vec![b": keepalive\n\n".to_vec(), b"data: x\n\n".to_vec()];
    pieces.reverse();
    let mut body = ChannelSseBody { current: Vec::new(), pos: 0 };
    let mut all = Vec::new();
    loop {
        match body.read(5) {
            Some(bytes) => all.extend_from_slice(&bytes),
            None => match pieces.pop() {
                Some(p) => body.refill(p),
                None => break,
            },
        }
    }
    let s = String::from_utf8(all).unwrap();
    assert_eq!(s, ": keepalive\n\ndata: x\n\n");
}

#[test]
fn cooldown_scales_with_error_class() {
    assert_eq!(cooldown_for(&BackendError::Timeout("t".into()), 1, 60), 30);
    assert_eq!(cooldown_for(&BackendError::Timeout("t".into()), 3, 60), 120);
    assert_eq!(cooldown_for(&BackendError::Timeout("t".into()), 9, 60), 300);
    assert_eq!(
        cooldown_for(
            &BackendError::Spawn("t".into(), "Connection refused".into()),
            1,
            60
        ),
        5
    );
    assert_eq!(
        cooldown_for(&BackendError::Http("t".into(), 429, String::new()), 1, 60),
        60
    );
}

#[test]
fn success_ends_a_cooldown() {
    let mut health: NameMap<BackendHealth> = NameMap::new();
    let server = tmuxlet_server::config::Server {
        listen: "".into(),
        default_chain: "".into(),
        request_timeout_secs: 1,
        env_source: "".into(),
        log_level: "".into(),
        env_capture_timeout_secs: 1,
        auth: false,
        auth_token_env: None,
        env_pass: None,
        max_response_bytes: 0,
        workers: None,
        chain_budget_secs: None,
        cooldown: true,
        cooldown_secs: 60,
        strict_models: false,
        cors_origins: vec![],
    };
    let e = BackendError::Timeout("a".into());
    let note = record_failure(&mut health, &server, "a", &e, 7, 1_000);
    assert_eq!(note.as_deref(), Some("cooldown a for 30s (timeout)"));
    record_failure(&mut health, &server, "a", &e, 8, 2_000);
    let h = health.get("a").unwrap();
    assert_eq!(h.consecutive_failures, 2);
    assert_eq!(h.cooling_until, Some(2_000 + 60_000_000_000));
    assert_eq!(h.last_error.as_deref(), Some("[a] timed out"));
    assert_eq!(h.last_latency_ms, Some(8));
    record_success(&mut health, "a", 5);
    let h = health.get("a").unwrap();
    assert_eq!(h.consecutive_failures, 0);
    assert!(h.cooling_until.is_none());
    assert!(h.last_error.is_none());
    assert_eq!(h.last_latency_ms, Some(5));
}

#[test]
fn parse_class_matches_exact_then_contains_then_fallback() {
    let mut routes: NameMap<String> = NameMap::new();
    routes.insert("research".to_string(), "best".to_string());
    routes.insert("execution".to_string(), "fast".to_string());
    assert_eq!(parse_class("RESEARCH", &routes, "execution"), "research");
    assert_eq!(
        parse_class("I think this is execution work", &routes, "research"),
        "execution"
    );
    assert_eq!(parse_class("nonsense", &routes, "execution"), "execution");
}

#[test]
fn tails_are_cut_by_characters() {
    assert_eq!(truncate_tail("häßlich", 3), "ich");
    assert_eq!(truncate_tail("ab", 3), "ab");
    assert_eq!(truncate_tail("abc", 0), "");
}

#[test]
fn active_slot_caps_and_frees() {
    let mut active: NameMap<usize> = NameMap::new();
    let s1 = ActiveSlot::try_acquire(&mut active, "b", 1);
    assert!(s1.is_some(), "first acquire under cap succeeds");
    assert_eq!(*active.get("b").unwrap(), 1);
    assert!(
        ActiveSlot::try_acquire(&mut active, "b", 1).is_none(),
        "second acquire at cap is refused"
    );
    s1.unwrap().release(&mut active);
    assert_eq!(*active.get("b").unwrap(), 0);
    assert!(
        ActiveSlot::try_acquire(&mut active, "b", 1).is_some(),
        "slot is reusable after release"
    );
}

#[test]
fn failures_are_summed_up() {
    let errors = vec![
        BackendError::Timeout("agy".into()),
        BackendError::Http("or".into(), 401, "bad \"key\"".into()),
    ];
    assert_eq!(
        build_503_body(&errors, false),
        r#"{"error":{"message":"all backends failed: agy (timeout), or (http error)","type":"server_error","param":null,"code":"all_backends_failed","details":["[agy] timed out","[or] HTTP 401: bad \"key\""]}}"#
    );
    assert_eq!(
        build_503_body(&errors, true),
        r#"{"error":{"message":"all backends failed: agy (timeout), or (http error)","type":"server_error","param":null,"code":"all_backends_failed","details":["agy (timeout)","or (http error)"]}}"#
    );
}

#[test]
fn closing_lines_say_how_a_chat_ended() {
    assert_eq!(
        closing_line("00000a", "m", &None, 12, &Some("w".into()), 0),
        "00000a model=m route=- elapsed_ms=12 backend=w status=ok"
    );
    assert_eq!(
        closing_line("00000a", "m", &Some("c/t".into()), 12, &Some("w".into()), 1),
        "00000a model=m route=c/t elapsed_ms=12 backend=w status=fallback"
    );
    assert_eq!(
        closing_line("00000a", "m", &None, 0, &None, 2),
        "00000a model=m route=- elapsed_ms=0 backend=- status=fail"
    );
}

// ---- http client ----

#[test]
fn builds_request_with_bearer_and_length() {
    let r = request_bytes("h", 443, "/v1/chat/completions", Some("tok"), "{}");
    assert!(r.contains("POST /v1/chat/completions HTTP/1.1\r\n"));
    assert!(r.contains("Host: h:443\r\n"));
    assert!(r.contains("Authorization: Bearer tok\r\n"));
    assert!(r.contains("Content-Length: 2\r\n"));
    assert!(r.ends_with("\r\n\r\n{}"));
}

#[test]
fn content_length_counts_bytes() {
    let r = request_bytes("h", 80, "/", None, "ä€");
    assert!(r.contains("Content-Length: 5\r\n"));
    assert!(!r.contains("Authorization"));
}

#[test]
fn requests_say_where_they_end() {
    for bearer in [None, Some("tok")] {
        let r = request_bytes("h", 80, "/v1", bearer, "{\"a\":\"ä\"}");
        let sent = format!("{r}the next request");
        for piece in [1, 7, 8192] {
            assert_eq!(read_in(sent.as_bytes(), piece, 0).unwrap(), r.as_bytes());
        }
    }
}

#[test]
fn parses_status_and_body() {
    let raw = b"HTTP/1.1 200 OK\r\nContent-Type: application/json\r\nContent-Length: 7\r\n\r\n{\"ok\":1}";
    let (status, body) = parse_response(raw).unwrap();
    assert_eq!(status, 200);
    assert_eq!(body, "{\"ok\":1}");
}

#[test]
fn dechunks_chunked_response() {
    let raw = b"HTTP/1.1 200 OK\r\nTransfer-Encoding: chunked\r\n\r\n5\r\nhello\r\n6\r\n world\r\n0\r\n\r\n";
    let (status, body) = parse_response(raw).unwrap();
    assert_eq!(status, 200);
    assert_eq!(body, "hello world");
}

#[test]
fn dechunk_handles_extensions_and_truncation() {
    assert_eq!(dechunk(b"3;foo=bar\r\nabc\r\n0\r\n\r\n"), b"abc");
    assert_eq!(dechunk(b"4\r\nab"), b"ab");
}

#[test]
fn dechunk_stops_at_what_it_cannot_read() {
    assert_eq!(dechunk(b"2\r\nab\r\nzz\r\ncd\r\n"), b"ab");
    assert_eq!(dechunk(b" A \r\n0123456789\r\n0\r\n\r\n"), b"0123456789");
    assert_eq!(dechunk(b"ffffffffffffffffff\r\nab"), b"");
    assert_eq!(dechunk(b"no line end"), b"");
}

#[test]
fn bad_responses_are_refused() {
    assert_eq!(parse_response(b"HTTP/1.1 200 OK\r\n"), Err(ResponseError::NoHeaderTerminator));
    assert_eq!(parse_response(b"HTTP/1.1\r\n\r\n"), Err(ResponseError::BadStatusLine));
    assert_eq!(parse_response(b"HTTP/1.1 x\r\n\r\n"), Err(ResponseError::BadStatusLine));
    assert_eq!(parse_response(b"\r\n\r\n"), Err(ResponseError::BadStatusLine));
    assert_eq!(ResponseError::BadStatusLine.message(), "bad status line");
    assert_eq!(ResponseError::NoHeaderTerminator.message(), "no header terminator");
    let (_, body) = parse_response(b"HTTP/1.1 200\r\n\r\n\xff").unwrap();
    assert_eq!(body, "\u{fffd}");
}

fn read_in(raw: &[u8], piece: usize, max: usize) -> Result<Vec<u8>, String> {
    let mut reader = BodyReader::new(max);
    let mut rest = raw;
    loop {
        let n = rest.len().min(piece);
        let event = if n == 0 {
            ReadEvent::End
        } else {
            ReadEvent::Data(rest[..n].to_vec())
        };
        rest = &rest[n..];
        match read_body(&mut reader, event) {
            ReadAction::More => {}
            ReadAction::Done => return Ok(reader.buf),
            ReadAction::Fail(e) => return Err(e.message()),
        }
    }
}

#[test]
fn read_body_stops_at_content_length() {
    let raw = b"HTTP/1.1 200 OK\r\nContent-Length: 5\r\n\r\nhelloEXTRA-BYTES-THAT-WOULD-BLOCK";
    let buf = read_in(raw, 8192, 0).unwrap();
    let (status, body) = parse_response(&buf).unwrap();
    assert_eq!(status, 200);
    assert_eq!(body, "hello");
}

#[test]
fn read_body_enforces_max_bytes() {
    let mut body = b"HTTP/1.1 200 OK\r\nContent-Type: application/json\r\n\r\n".to_vec();
    body.resize(body.len() + 1000, b'x');
    let err = read_in(&body, 8192, 200).unwrap_err();
    assert!(err.contains("max_response_bytes"));
}

#[test]
fn pieces_make_no_difference() {
    let raw = b"HTTP/1.1 200 OK\r\nContent-Length: +5\r\n\r\nhelloEXTRA";
    let whole = read_in(raw, 8192, 0).unwrap();
    for piece in 1..20 {
        assert_eq!(read_in(raw, piece, 0).unwrap(), whole);
    }
    let open = b"HTTP/1.1 200 OK\r\nTransfer-Encoding: chunked\r\nContent-Length: 1\r\n\r\n1\r\na\r\n0\r\n\r\n";
    assert_eq!(read_in(open, 3, 0).unwrap(), open.to_vec());
    let huge = b"HTTP/1.1 200 OK\r\nContent-Length: 18446744073709551615\r\n\r\nab";
    assert_eq!(read_in(huge, 3, 0).unwrap(), huge.to_vec());
}

#[test]
fn a_failed_read_is_handed_on() {
    let mut reader = BodyReader::new(0);
    let a = read_body(&mut reader, ReadEvent::Failed("timed out".into()));
    assert!(matches!(a, ReadAction::Fail(ReadError::Failed(m)) if m == "timed out"));
}

#[test]
fn sockets_have_bounded_timeouts() {
    assert_eq!(socket_timeouts(0), (1_000_000_000, None));
    assert_eq!(socket_timeouts(5_000_000_000), (5_000_000_000, Some(5_000_000_000)));
    assert_eq!(socket_timeouts(99_000_000_000), (15_000_000_000, Some(99_000_000_000)));
}

// ---- log ----

#[test]
fn sanitize_strips_control_and_ansi() {
    let dirty = "coder-3\nInjected: fake\x1b[31m red\ttab\x07bell";
    let clean = log::sanitize(dirty);
    assert!(!clean.chars().any(|c| c.is_control()), "no control bytes must remain: {clean:?}");
    assert!(!clean.contains('\n'));
    assert!(!clean.contains('\x1b'));
    assert!(clean.contains("coder-3"));
    assert!(clean.contains("Injected: fake"));
}

#[test]
fn levels_decide_what_is_written() {
    let mut l = log::new_log();
    assert_eq!(log::info(&l, 17, "a\nb").as_deref(), Some("17 info a b"));
    assert!(log::debug(&l, 17, "x").is_none());
    log::set_level(&mut l, "WARN");
    assert!(log::info(&l, 17, "x").is_none());
    assert_eq!(log::warn(&l, 17, "x").as_deref(), Some("17 warn x"));
    assert_eq!(log::error(&l, 0, "x").as_deref(), Some("0 error x"));
    log::set_level(&mut l, "debug");
    assert!(log::enabled(&l, 3));
    log::set_level(&mut l, "loud");
    assert_eq!(l.level, 2);
}

#[test]
fn request_ids_count_up() {
    let mut l = log::new_log();
    assert_eq!(log::next_reqid(&mut l), "000000");
    l.requests = 0xabcde;
    assert_eq!(log::next_reqid(&mut l), "0abcde");
    l.requests = 0x1234567;
    assert_eq!(log::next_reqid(&mut l), "1234567");
    l.requests = u64::MAX;
    assert_eq!(log::next_reqid(&mut l), "ffffffffffffffff");
    l.requests = 0x10;
    assert_ne!(log::next_reqid(&mut l), log::next_reqid(&mut l));
    l.requests = u64::MAX;
    log::next_reqid(&mut l);
    assert_eq!(l.requests, 0);
}

// ---- openai ----

fn message(role: &str, content: &str) -> ChatMessage {
    ChatMessage {
        role: role.into(),
        content: MessageContent::Text(content.into()),
        name: None,
    }
}

#[test]
fn flattens_messages_with_role_labels() {
    let messages = vec![message("system", "S"), message("user", "U")];
    assert_eq!(flatten_to_prompt(&messages), "[System]: S\n\nUser: U");
}

#[test]
fn other_roles_are_capitalized() {
    let messages = vec![message("tool", "T"), message("", "E"), message("äther", "A")];
    assert_eq!(flatten_to_prompt(&messages), "Tool: T\n\n: E\n\nÄther: A");
    assert_eq!(flatten_to_prompt(&[message("ßx", "A")]), "SSx: A");
    assert_eq!(flatten_to_prompt(&[]), "");
}

#[test]
fn text_parts_stand_on_lines_of_their_own() {
    let m = ChatMessage {
        role: "user".into(),
        content: MessageContent::Parts(vec![
            ContentPart::Text { text: "a".into() },
            ContentPart::Other,
            ContentPart::Text { text: "b".into() },
        ]),
        name: None,
    };
    assert_eq!(flatten_to_prompt(&[m]), "User: a\nb");
}

#[test]
fn the_last_user_message_is_found() {
    let messages = vec![
        message("system", "be terse"),
        message("user", "hi"),
        message("assistant", "prev"),
        message("user", "final ask"),
        message("assistant", "more"),
    ];
    assert_eq!(last_user_text(&messages), "final ask");
    assert_eq!(last_user_prompt(&messages), "be terse\n\nfinal ask");
    assert_eq!(last_user_text(&[message("system", "x")]), "");
    assert_eq!(last_user_prompt(&[message("system", "x")]), "x");
}

#[test]
fn a_leg_is_sent_the_prompt_of_its_mode() {
    let messages = vec![message("system", "S"), message("assistant", "A"), message("user", "U")];
    assert_eq!(
        leg_prompt(PromptMode::Transcript, &messages),
        "[System]: S\n\nAssistant: A\n\nUser: U"
    );
    assert_eq!(leg_prompt(PromptMode::LastUser, &messages), "S\n\nU");
}

#[test]
fn prompt_modes_have_names() {
    assert_eq!(PromptMode::parse("transcript"), Some(PromptMode::Transcript));
    assert_eq!(PromptMode::parse("last_user"), Some(PromptMode::LastUser));
    assert_eq!(PromptMode::parse("verbatim"), None);
    assert_eq!(PromptMode::default(), PromptMode::Transcript);
}

#[test]
fn final_stream_delta_serializes_empty() {
    let frames = stream_frames("id1", "agy", "Hello", 7);
    assert_eq!(frames.len(), 4);
    assert!(frames[0].contains(r#""role":"assistant""#));
    assert!(frames[1].contains(r#""content":"Hello""#));
    assert!(frames[2].contains(r#""delta":{}"#));
    assert!(frames[2].contains(r#""finish_reason":"stop""#));
    assert_eq!(frames[3], "data: [DONE]\n\n");
}

#[test]
fn frames_are_exact_and_on_one_line() {
    let frames = stream_frames("id1", "agy", "a\nb", 7);
    assert_eq!(
        frames[0],
        "data: {\"id\":\"id1\",\"object\":\"chat.completion.chunk\",\"created\":7,\"model\":\"agy\",\"choices\":[{\"index\":0,\"delta\":{\"role\":\"assistant\",\"content\":\"\"},\"finish_reason\":null}]}\n\n"
    );
    assert_eq!(
        frames[1],
        "data: {\"id\":\"id1\",\"object\":\"chat.completion.chunk\",\"created\":7,\"model\":\"agy\",\"choices\":[{\"index\":0,\"delta\":{\"content\":\"a\\nb\"},\"finish_reason\":null}]}\n\n"
    );
    for f in &frames {
        assert_eq!(f.matches('\n').count(), 2);
    }
}

#[test]
fn completion_has_usage_object() {
    let c = build_completion("id1".into(), "agy".into(), "hi".into(), 7);
    let j = c.to_json();
    assert!(j.contains(r#""object":"chat.completion""#));
    assert!(j.contains(r#""usage""#));
    assert_eq!(
        j,
        r#"{"id":"id1","object":"chat.completion","created":7,"model":"agy","choices":[{"index":0,"message":{"role":"assistant","content":"hi"},"finish_reason":"stop"}],"usage":{"prompt_tokens":0,"completion_tokens":0,"total_tokens":0}}"#
    );
}

#[test]
fn lists_and_errors_are_written() {
    let l = model_list(vec!["a".into()], 7);
    assert_eq!(
        l.to_json(),
        r#"{"object":"list","data":[{"id":"a","object":"model","created":7,"owned_by":"tmuxlet-server"}]}"#
    );
    assert_eq!(
        ErrorEnvelope::new("m", "t", None).to_json(),
        r#"{"error":{"message":"m","type":"t","param":null,"code":null}}"#
    );
    assert_eq!(
        ErrorEnvelope::with_details("m", "t", Some("c"), vec!["d".into()]).to_json(),
        r#"{"error":{"message":"m","type":"t","param":null,"code":"c","details":["d"]}}"#
    );
}

#[test]
fn strings_are_quoted() {
    let mut all = String::new();
    for c in 0u32..0x250 {
        all.push(char::from_u32(c).unwrap());
    }
    all.push('\u{1F600}');
    assert_eq!(quote(&all), serde_json::to_string(&all).unwrap());
    assert_eq!(serde_json::from_str::<String>(&quote(&all)).unwrap(), all);
    assert_eq!(quote("\"\\\u{8}\t\n\u{c}\r\u{1}\u{7f}é"), "\"\\\"\\\\\\b\\t\\n\\f\\r\\u0001\u{7f}é\"");
}

// ---- pty ----

#[test]
fn strips_ansi_cr_and_control_keeps_newline_tab() {
    let raw = b"\x1b[1;32mHELLO\x1b[0m\r\nline2\ttab\x07\n";
    assert_eq!(clean_output(raw), "HELLO\nline2\ttab\n");
}

#[test]
fn strips_osc_sequences() {
    let raw = b"\x1b]0;title\x07visible";
    assert_eq!(clean_output(raw), "visible");
}

#[test]
fn sequences_leave_nothing_behind() {
    assert_eq!(clean_output(b"a\x1b]2;title; more\x07b\x1b[38;5;1mc\x1b[?25hd"), "abcd");
}

#[test]
fn cleaning_twice_is_cleaning_once() {
    let raw = b"\x1b]0;t\x1b\\x\x1bcy\x7f\xc3\xa4\xff";
    let once = clean_bytes(raw);
    assert_eq!(once, b"xy\xc3\xa4\xff".to_vec());
    assert_eq!(clean_bytes(&once), once);
    assert_eq!(clean_output(raw), "xyä\u{fffd}");
    for raw in [&b"a\xf0\x9f\r\x01\x7f\tb\n"[..], b"\xc3\x1b[0m\xa4", b"\xed\xa0\x80z"] {
        let s = clean_output(raw);
        assert!(s.chars().all(|c| c == '\n' || c == '\t' || (c >= ' ' && c != '\u{7f}')), "{s:?}");
        assert_eq!(clean_output(s.as_bytes()), s);
    }
    let plain = "plain\ttext\nä€\u{1F600}\u{85}";
    assert_eq!(clean_output(plain.as_bytes()), plain);
}

// ---- text ----

#[test]
fn white_space_and_control_are_those_of_std() {
    for n in 0u32..0x110000 {
        if let Some(c) = char::from_u32(n) {
            assert_eq!(text::space(c), c.is_whitespace(), "{n:x}");
            assert_eq!(text::control(c), c.is_control(), "{n:x}");
            assert_eq!(text::lower_char(c), c.to_ascii_lowercase(), "{n:x}");
        }
    }
}

#[test]
fn pieces_are_those_of_std() {
    for s in ["", "a", "a\n", "\n", "a\r\nb\r", "\r\n\n x", " a  b ", "=b=", "a=", "äß€\u{2003}x"] {
        assert_eq!(text::lines_of(s), s.lines().collect::<Vec<_>>(), "{s:?}");
        assert_eq!(text::words_of(s), s.split_whitespace().collect::<Vec<_>>(), "{s:?}");
        assert_eq!(text::split_text(s, 'b'), s.split('b').collect::<Vec<_>>(), "{s:?}");
        assert_eq!(text::trimmed(s), s.trim(), "{s:?}");
        assert_eq!(
            text::split_at_char(s, '='),
            s.split_once('=').map(|(a, b)| (a.to_string(), b.to_string())),
            "{s:?}"
        );
        assert_eq!(text::replace_text(s, "b", "bb"), s.replace("b", "bb"), "{s:?}");
        assert_eq!(text::contains(s, "b"), s.contains("b"), "{s:?}");
        assert_eq!(text::trim_trailing(s, '='), s.trim_end_matches('='), "{s:?}");
    }
}

#[test]
fn numbers_are_those_of_std() {
    for s in ["", "+", "-1", "0", "007", "+5", "++5", "65535", "65536", "99999999999999999999", "1a"] {
        assert_eq!(text::parse_number(s, 10, 65535), s.parse::<u16>().ok().map(|n| n as usize));
        assert_eq!(text::parse_number(s, 10, usize::MAX), s.parse::<usize>().ok());
        assert_eq!(
            text::parse_number(s, 16, usize::MAX),
            usize::from_str_radix(s, 16).ok()
        );
    }
    for n in [0u64, 9, 10, 255, u64::MAX] {
        assert_eq!(text::decimal_text(n as u128), n.to_string());
        assert_eq!(text::hex_text(n), format!("{n:x}"));
    }
    assert_eq!(text::signed_decimal_text(i64::MIN), i64::MIN.to_string());
    assert_eq!(text::pad_zeros("7", 3), "007");
}

#[test]
fn texts_are_sorted_as_by_std() {
    let mut v: Vec<String> = ["b", "a", "ab", "", "ä", "Z", "a", "\u{10000}", "\u{ffff}"]
        .iter()
        .map(|s| s.to_string())
        .collect();
    let r = text::sort_texts(&v);
    v.sort();
    assert_eq!(r, v);
}

// ---- typos ----

#[test]
fn distances_are_counted() {
    assert_eq!(levenshtein("kitten", "sitting"), 3);
    assert_eq!(levenshtein("sitting", "kitten"), 3);
    assert_eq!(levenshtein("", "abc"), 3);
    assert_eq!(levenshtein("abc", ""), 3);
    assert_eq!(levenshtein("abc", "abc"), 0);
    assert_eq!(levenshtein("flaw", "lawn"), 2);
}

/// Every word that one edit makes of `w`, over a small alphabet.
fn edits(w: &str) -> Vec<String> {
    let v: Vec<char> = w.chars().collect();
    let mut out = Vec::new();
    for i in 0..=v.len() {
        for c in ['a', 'b'] {
            let mut x = v.clone();
            x.insert(i, c);
            out.push(x.iter().collect());
            if i < v.len() {
                let mut x = v.clone();
                x[i] = c;
                out.push(x.iter().collect());
            }
        }
        if i < v.len() {
            let mut x = v.clone();
            x.remove(i);
            out.push(x.iter().collect());
        }
    }
    out
}

#[test]
fn the_distance_is_the_least_number_of_edits() {
    for start in ["", "a", "ab", "abba"] {
        let mut reached: Vec<String> = vec![start.to_string()];
        let mut level = reached.clone();
        for n in 1..=3 {
            let mut next = Vec::new();
            for w in &level {
                for e in edits(w) {
                    if !reached.contains(&e) {
                        assert_eq!(levenshtein(start, &e), n, "{start} {e}");
                        reached.push(e.clone());
                        next.push(e);
                    }
                }
            }
            level = next;
        }
    }
}

#[test]
fn a_detour_is_never_shorter() {
    let words = ["", "a", "ba", "kitten", "sitting", "mitten", "knit"];
    for a in words {
        for b in words {
            for c in words {
                assert!(levenshtein(a, c) <= levenshtein(a, b) + levenshtein(b, c));
            }
        }
    }
}

#[test]
fn the_nearest_key_is_suggested() {
    assert_eq!(nearest("lisen", &vec!["listen", "type"]).as_deref(), Some("listen"));
    assert_eq!(nearest("typ", &vec!["type"]), None);
    assert_eq!(nearest("zzzzzz", &vec!["listen"]), None);
    assert_eq!(nearest("ab", &vec!["cd", "ef"]).as_deref(), Some("cd"));
}
