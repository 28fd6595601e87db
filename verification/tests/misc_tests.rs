use testbox::fetch::{fetch_response, parse_fetch_options, FetchOptionsError};
use testbox::json::Json;
use testbox::process::{
    exec_bg_result, exec_result, kill_failure_is_fatal, to_exec_bg_result, CommandOutput,
    ExecBgError, OutputPump, OutputWait, ProcessOutput, PumpStep, Received, WaitProcessError,
};
use testbox::random::{get_rand_chars, random_chars};
use testbox::script_error::{
    is_child_test_failure, lua_error_message, lua_runtime_error, CaughtError, CaughtKind,
};

fn obj(entries: Vec<(&str, Json)>) -> Json {
    Json::Object(entries.into_iter().map(|(k, v)| (k.to_string(), v)).collect())
}

fn text(t: &str) -> Json {
    Json::Str(t.to_string())
}

fn fetch_error(options: &Json) -> String {
    match parse_fetch_options(options) {
        Err(FetchOptionsError::Runtime(m)) => m,
        _ => panic!("expected an error"),
    }
}

#[test]
fn fetch_options_defaults_and_headers() {
    let options = obj(vec![
        ("headers", obj(vec![("X-A", text("1")), ("X-N", Json::Number("2".to_string()))])),
        ("url", text("http://localhost/x")),
    ]);
    let o = parse_fetch_options(&options).unwrap();
    assert_eq!(o.url, "http://localhost/x");
    assert_eq!(o.method, "GET");
    assert_eq!(o.body, None);
    assert_eq!(o.headers, Some(vec![("X-A".to_string(), "1".to_string())]));

    let options = obj(vec![("url", text("http://h/")), ("method", text("post")), ("body", text("{}"))]);
    let o = parse_fetch_options(&options).unwrap();
    assert_eq!(o.method, "POST");
    assert_eq!(o.body.as_deref(), Some("{}"));
    assert_eq!(o.headers, None);
}

#[test]
fn fetch_option_errors() {
    assert_eq!(fetch_error(&text("x")), "Invalid fetch options.");
    assert_eq!(fetch_error(&obj(vec![])), "Missing URL");
    assert_eq!(fetch_error(&obj(vec![("url", Json::Bool(true))])), "Wrong format for URL field");
    assert_eq!(
        fetch_error(&obj(vec![("method", Json::Null), ("url", text("u"))])),
        "Failed to decode method"
    );
    assert_eq!(
        fetch_error(&obj(vec![("body", Json::Null), ("url", text("u"))])),
        "Body must be string"
    );
}

#[test]
fn fetch_refuses_what_the_http_library_refuses() {
    let bad_method = obj(vec![("method", text("not a method")), ("url", text("http://h/"))]);
    assert!(matches!(parse_fetch_options(&bad_method), Err(FetchOptionsError::InvalidMethod(m)) if m == "NOT A METHOD"));
    let bad_name = obj(vec![("headers", obj(vec![("bad name", text("v"))])), ("url", text("http://h/"))]);
    assert!(matches!(parse_fetch_options(&bad_name), Err(FetchOptionsError::InvalidHeaderName(n)) if n == "bad name"));
    let bad_value = obj(vec![("headers", obj(vec![("x", text("a\nb"))])), ("url", text("http://h/"))]);
    assert!(matches!(parse_fetch_options(&bad_value), Err(FetchOptionsError::InvalidHeaderValue(v)) if v == "a\nb"));
    let bad_url = obj(vec![("url", text("not a url"))]);
    assert!(matches!(parse_fetch_options(&bad_url), Err(FetchOptionsError::InvalidUrl(u)) if u == "not a url"));
    let method_before_body = obj(vec![("body", Json::Null), ("method", text("a b")), ("url", text("u"))]);
    assert!(matches!(parse_fetch_options(&method_before_body), Err(FetchOptionsError::InvalidMethod(_))));
}

#[test]
fn fetch_accepts_token_methods_and_header_names() {
    let method = obj(vec![("method", text("m-search")), ("url", text("http://h/"))]);
    assert_eq!(parse_fetch_options(&method).unwrap().method, "M-SEARCH");
    let accented = obj(vec![("method", text("g\u{e9}t")), ("url", text("http://h/"))]);
    assert!(matches!(parse_fetch_options(&accented), Err(FetchOptionsError::InvalidMethod(m)) if m == "G\u{c9}T"));
    let empty = obj(vec![("method", text("")), ("url", text("http://h/"))]);
    assert!(matches!(parse_fetch_options(&empty), Err(FetchOptionsError::InvalidMethod(m)) if m.is_empty()));

    let long_ok = "a".repeat(65535);
    let names = obj(vec![
        ("headers", obj(vec![("X-Ok_1!", text("v")), (long_ok.as_str(), text("w"))])),
        ("url", text("http://h/")),
    ]);
    assert_eq!(parse_fetch_options(&names).unwrap().headers.unwrap().len(), 2);
    let too_long = "a".repeat(65536);
    let long_name = obj(vec![("headers", obj(vec![(too_long.as_str(), text("v"))])), ("url", text("http://h/"))]);
    assert!(matches!(parse_fetch_options(&long_name), Err(FetchOptionsError::InvalidHeaderName(n)) if n.len() == 65536));
    let empty_name = obj(vec![("headers", obj(vec![("", text("v"))])), ("url", text("http://h/"))]);
    assert!(matches!(parse_fetch_options(&empty_name), Err(FetchOptionsError::InvalidHeaderName(n)) if n.is_empty()));
    let accented_name = obj(vec![("headers", obj(vec![("caf\u{e9}", text("v"))])), ("url", text("http://h/"))]);
    assert!(matches!(parse_fetch_options(&accented_name), Err(FetchOptionsError::InvalidHeaderName(_))));
}

#[test]
fn fetch_response_reads_json_bodies() {
    let r = fetch_response(200, vec![], "{\"ok\":true}".to_string());
    assert!(matches!(&r.json, Json::Object(es) if es.len() == 1));
    let r = fetch_response(404, vec![], "not json".to_string());
    assert!(matches!(r.json, Json::Null));
    assert_eq!(r.status, 404);
}

#[test]
fn exec_result_trims_and_reports() {
    let r = exec_result(Ok(CommandOutput {
        stdout: b"FOOBAR\n\n".to_vec(),
        stderr: vec![0xff, 0xfe],
        status: Some(0),
    }));
    assert_eq!(r.stdout.as_deref(), Some("FOOBAR"));
    assert_eq!(r.stderr.as_deref(), Some(""));
    assert_eq!(r.error, None);
    assert_eq!(r.status, Some(0));
    let r = exec_result(Err("No such file".to_string()));
    assert_eq!(r.stdout.as_deref(), Some(""));
    assert_eq!(r.error.as_deref(), Some("No such file"));
    assert_eq!(r.status, None);
}

#[test]
fn exec_bg_results() {
    let (o, e) = to_exec_bg_result(b"ready\n".to_vec(), vec![0xc3]);
    assert_eq!(o.as_deref(), Some("ready\n"));
    assert_eq!(e.as_deref(), Some(""));
    match exec_bg_result::<()>(Ok((None, None))) {
        Ok((o, e)) => assert_eq!((o.as_str(), e.as_str()), ("", "")),
        Err(_) => panic!(),
    }
    match exec_bg_result::<()>(Err(WaitProcessError::TimedOut { stdout: b"a\xffb".to_vec(), stderr: vec![] })) {
        Err(ExecBgError::Runtime(m)) => assert_eq!(m, "Timed out: stdout: a\u{FFFD}b; stderr: "),
        _ => panic!(),
    }
    assert!(matches!(exec_bg_result(Err(WaitProcessError::LuaError(7))), Err(ExecBgError::Script(7))));
}

#[test]
fn waiting_collects_output_until_the_script_agrees() {
    let mut wait = OutputWait::new();
    assert!(wait.receive::<()>(Received::Output(ProcessOutput::Stdout(b"Server ".to_vec()))).is_none());
    assert!(wait.decide::<()>(Ok(false)).is_none());
    assert!(wait.receive::<()>(Received::NothingYet).is_none());
    assert!(wait.receive::<()>(Received::Output(ProcessOutput::Stdout(b"is ready".to_vec()))).is_none());
    assert!(wait.receive::<()>(Received::Output(ProcessOutput::Stderr(b"warn".to_vec()))).is_none());
    match wait.decide::<()>(Ok(true)) {
        Some(Ok((Some(o), Some(e)))) => {
            assert_eq!(o, "Server is ready");
            assert_eq!(e, "warn");
        },
        _ => panic!(),
    }
    assert!(matches!(wait.decide(Err("lua")), Some(Err(WaitProcessError::LuaError("lua")))));
    match wait.receive::<()>(Received::Closed) {
        Some(WaitProcessError::TimedOut { stdout, .. }) => assert_eq!(stdout, b"Server is ready".to_vec()),
        _ => panic!(),
    }
    match wait.receive::<()>(Received::ReadFailed("broken".to_string())) {
        Some(WaitProcessError::IoError(m)) => assert_eq!(m, "broken"),
        _ => panic!(),
    }
}

#[test]
fn pumping_output() {
    let mut pump = OutputPump::new();
    assert!(matches!(pump.after_read::<()>(Ok(vec![])), PumpStep::Finish));
    assert!(matches!(pump.after_read::<()>(Ok(vec![1])), PumpStep::Save(c) if c == vec![1]));
    assert!(matches!(pump.after_read(Err(5)), PumpStep::Report(5)));
    assert!(matches!(pump.after_save::<()>(vec![2], Ok(())), PumpStep::Forward(c) if c == vec![2]));
    pump.after_send(false);
    assert!(!pump.send_output);
    assert!(matches!(pump.after_save::<()>(vec![2], Ok(())), PumpStep::ReadMore));
    assert!(matches!(pump.after_save(vec![2], Err(1)), PumpStep::Finish));
    assert!(matches!(pump.after_read(Err(5)), PumpStep::Finish));
}

/// Runs a pump over reads, with a file that takes every chunk and a wait that
/// takes the first `listening` chunks; gives the chunks saved and handed over.
fn run_pump(reads: Vec<Result<Vec<u8>, ()>>, listening: usize) -> (Vec<Vec<u8>>, Vec<Vec<u8>>) {
    let mut pump = OutputPump::new();
    let mut saved = Vec::new();
    let mut forwarded = Vec::new();
    for read in reads {
        let mut step = pump.after_read(read);
        loop {
            match step {
                PumpStep::Finish | PumpStep::Report(_) => return (saved, forwarded),
                PumpStep::Save(chunk) => {
                    saved.push(chunk.clone());
                    step = pump.after_save(chunk, Ok(()));
                }
                PumpStep::Forward(chunk) => {
                    let delivered = forwarded.len() < listening;
                    if delivered {
                        forwarded.push(chunk);
                    }
                    pump.after_send(delivered);
                    break;
                }
                PumpStep::ReadMore => break,
            }
        }
    }
    (saved, forwarded)
}

#[test]
fn a_pump_keeps_saving_after_the_wait_is_gone() {
    let reads = vec![Ok(vec![1]), Ok(vec![2]), Ok(vec![3]), Ok(vec![4]), Ok(vec![]), Ok(vec![5])];
    let (saved, forwarded) = run_pump(reads, 1);
    assert_eq!(saved, vec![vec![1], vec![2], vec![3], vec![4]]);
    assert_eq!(forwarded, vec![vec![1]]);
    let (saved, forwarded) = run_pump(vec![Ok(vec![1]), Err(()), Ok(vec![2])], 0);
    assert_eq!(saved, vec![vec![1]]);
    assert!(forwarded.is_empty());
}

#[test]
fn waited_output_only_grows() {
    let mut wait = OutputWait::new();
    let polls = vec![
        Received::Output(ProcessOutput::Stdout(b"ab".to_vec())),
        Received::NothingYet,
        Received::Output(ProcessOutput::Stderr(b"x".to_vec())),
        Received::Output(ProcessOutput::Stdout(b"c".to_vec())),
    ];
    let mut seen: Vec<Vec<u8>> = Vec::new();
    for poll in polls {
        assert!(wait.receive::<()>(poll).is_none());
        seen.push(wait.stdout.clone());
    }
    assert_eq!(seen, vec![b"ab".to_vec(), b"ab".to_vec(), b"ab".to_vec(), b"abc".to_vec()]);
    assert_eq!(wait.stderr, b"x".to_vec());
}

#[test]
fn only_missing_process_groups_are_tolerated() {
    assert!(!kill_failure_is_fatal(Some(3)));
    assert!(kill_failure_is_fatal(Some(1)));
    assert!(kill_failure_is_fatal(None));
}

#[test]
fn random_chars_are_alphanumeric() {
    let s = random_chars(24);
    assert_eq!(s.chars().count(), 24);
    assert!(s.chars().all(|c| c.is_ascii_alphanumeric()));
    assert_eq!(get_rand_chars(0), "");
}

#[test]
fn caught_errors_are_classified() {
    let child = CaughtError {
        kind: CaughtKind::Runtime("__testbox_child_test_failed__".to_string()),
        text: "runtime error: __testbox_child_test_failed__".to_string(),
    };
    assert!(is_child_test_failure(&child));
    let helper = CaughtError { kind: CaughtKind::Callback(Some("Not equal!".to_string())), text: "x".to_string() };
    assert!(!is_child_test_failure(&helper));
    assert_eq!(lua_error_message(&helper), "Not equal!");
    assert_eq!(lua_runtime_error(&helper).as_deref(), Some("Not equal!"));
    let other = CaughtError { kind: CaughtKind::Callback(None), text: "callback error: bad argument".to_string() };
    assert_eq!(lua_error_message(&other), "callback error: bad argument");
    assert_eq!(lua_runtime_error(&other), None);
    let syntax = CaughtError { kind: CaughtKind::Other, text: "syntax error: x".to_string() };
    assert_eq!(lua_error_message(&syntax), "syntax error: x");
}
