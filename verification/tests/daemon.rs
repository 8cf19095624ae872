//! The proof daemon: its lines, its frames, its messages, and the documents it keeps open.
use sable::daemon::{
    awaited, classify, file_uri, import_header, socket_path, Awaited, Incoming, LeanDiagnostic,
    Outgoing, Published,
};
use sable::serve::{confirm, must_replace, settle, spawn_failure, Build, Settled};
use sable::session::{Action, Event, PendingCheck, Session, Turn};
use sable::wire::{
    error_reply, frame, read_body, read_header, read_reply, read_request, reply_line,
    request_line, take_reply, take_request, HeaderLine, HeaderReader, HeaderStep, LeanMessage,
};
use serde_json::Value;

fn value(text: &str) -> Value {
    serde_json::from_str(text).expect("the text is JSON")
}

fn message(severity: &str, line: usize, data: &str) -> LeanMessage {
    LeanMessage {
        severity: severity.into(),
        line,
        data: data.into(),
    }
}

fn shown(messages: &[LeanMessage]) -> Vec<(String, usize, String)> {
    messages
        .iter()
        .map(|m| (m.severity.clone(), m.line, m.data.clone()))
        .collect()
}

fn bodies(messages: &[Outgoing]) -> Vec<Value> {
    messages.iter().map(|m| value(&m.body())).collect()
}

fn methods(messages: &[Outgoing]) -> Vec<String> {
    bodies(messages)
        .iter()
        .map(|v| v["method"].as_str().unwrap().to_string())
        .collect()
}

fn diagnostics(uri: &str, list: &str) -> Value {
    value(&format!(
        "{{\"method\":\"textDocument/publishDiagnostics\",\"params\":{{\"uri\":\"{uri}\",\"diagnostics\":{list}}}}}"
    ))
}

fn progress(uri: &str, list: &str) -> Value {
    value(&format!(
        "{{\"method\":\"$/lean/fileProgress\",\"params\":{{\"textDocument\":{{\"uri\":\"{uri}\"}},\"processing\":{list}}}}}"
    ))
}

fn tell(check: &mut PendingCheck, message: &Value) -> Action {
    let incoming = classify(message, &check.uri, check.wait_id);
    check.step(Event::Message(incoming))
}

#[test]
fn the_socket_lies_in_the_output_directory() {
    assert_eq!(socket_path("/work/sable"), "/work/sable/.sable-out/daemon.sock");
    assert_eq!(socket_path("/"), "/.sable-out/daemon.sock");
}

#[test]
fn addresses_escape_what_is_not_plain() {
    assert_eq!(file_uri("/a/B-9._~"), "file:///a/B-9._~");
    assert_eq!(file_uri("/a b%é"), "file:///a%20b%25%C3%A9");
}

#[test]
fn import_headers_are_the_leading_import_lines() {
    assert_eq!(import_header("import A\r\n  import B\n\nimport C\n"), "import A\n  import B");
    assert_eq!(import_header("def x := 1\nimport A"), "");
    assert_eq!(import_header("imports A"), "");
    assert_eq!(import_header("import A"), "import A");
}

#[test]
fn requests_are_read_back() {
    let line = request_line("/x/gen.lean", "fnv64:12", "import A\n\"quoted\" é\u{1}");
    assert!(!line.contains('\n'));
    let request = read_request(&format!("{line}\n")).expect("the request is well formed");
    assert_eq!(request.file, "/x/gen.lean");
    assert_eq!(request.fingerprint, "fnv64:12");
    assert_eq!(request.text, "import A\n\"quoted\" é\u{1}");
}

#[test]
fn malformed_requests_are_refused_by_what_is_missing() {
    let cases = [
        ("", "malformed request (expected one JSON line)"),
        ("{\"file\": 1", "malformed request (expected one JSON line)"),
        ("[]", "request missing \"file\""),
        ("{\"file\": 1}", "request missing \"file\""),
        ("{\"file\": \"f\"}", "request missing \"fingerprint\""),
        (
            "{\"file\": \"f\", \"fingerprint\": \"p\", \"text\": null}",
            "request missing \"text\"",
        ),
    ];
    for (line, expected) in cases {
        assert_eq!(read_request(line).unwrap_err(), expected);
    }
    assert!(take_request(&value("{\"file\":\"f\",\"fingerprint\":\"p\",\"text\":\"t\"}")).is_ok());
}

#[test]
fn replies_are_read_back() {
    let messages = vec![message("warning", 3, "a\nb"), message("error", 0, "")];
    let line = reply_line(&messages);
    assert!(!line.contains('\n'));
    assert_eq!(
        value(&line),
        value("{\"ok\":true,\"messages\":[{\"severity\":\"warning\",\"line\":3,\"data\":\"a\\nb\"},{\"severity\":\"error\",\"line\":0,\"data\":\"\"}]}")
    );
    let read = read_reply(&format!("{line}\n")).expect("the reply brings messages");
    assert_eq!(shown(&read), shown(&messages));
}

#[test]
fn anything_but_messages_is_no_reply() {
    let refusal = error_reply("no");
    assert_eq!(value(&refusal), value("{\"ok\":false,\"error\":\"no\"}"));
    assert!(read_reply(&refusal).is_none());
    assert!(read_reply("").is_none());
    assert!(read_reply("{\"ok\": 1, \"messages\": []}").is_none());
    assert!(read_reply("{\"ok\": true}").is_none());
    assert!(read_reply("{\"ok\": true, \"messages\": {}}").is_none());
    let partial = take_reply(&value("{\"ok\": true, \"messages\": [{}, {\"line\": -1}]}")).unwrap();
    assert_eq!(
        shown(&partial),
        [
            ("error".to_string(), 0, String::new()),
            ("error".to_string(), 0, String::new())
        ]
    );
}

#[test]
fn frames_count_bytes() {
    assert_eq!(frame("é{}"), "Content-Length: 4\r\n\r\né{}");
    let mut reader = HeaderReader::new();
    assert!(matches!(reader.line("Content-Length: 4\r\n"), HeaderStep::More));
    assert!(matches!(reader.line("\r\n"), HeaderStep::Body(4)));
}

#[test]
fn header_lines_are_told_apart() {
    assert_eq!(read_header(""), HeaderLine::Closed);
    assert_eq!(read_header("\r\n"), HeaderLine::Blank);
    assert_eq!(read_header("content-length:12 \r\n"), HeaderLine::Length(Some(12)));
    assert_eq!(read_header("Content-Length: +7\n"), HeaderLine::Length(Some(7)));
    assert_eq!(read_header("Content-Length: x\n"), HeaderLine::Length(None));
    assert_eq!(read_header("Content-Type: y\n"), HeaderLine::Other);
    let mut reader = HeaderReader::new();
    assert!(matches!(reader.line("Content-Type: y\r\n"), HeaderStep::More));
    let HeaderStep::Failed(error) = reader.line("\r\n") else {
        panic!("a frame without a length has no body")
    };
    assert_eq!(error, "lean server message missing Content-Length");
    let HeaderStep::Failed(error) = reader.line("") else {
        panic!("the stream has ended")
    };
    assert_eq!(error, "lean server closed its stdout");
}

#[test]
fn bodies_are_json() {
    assert_eq!(read_body(&b"{\"id\": 1}".to_vec()).unwrap(), value("{\"id\":1}"));
    let error = read_body(&b"{".to_vec()).unwrap_err();
    assert!(error.starts_with("lean server sent invalid JSON: EOF"), "{error}");
}

#[test]
fn messages_to_the_server_have_their_shape() {
    let cases = [
        (
            Outgoing::Initialize { id: 1, process: 77, root_uri: "file:///r".into() },
            "{\"jsonrpc\":\"2.0\",\"id\":1,\"method\":\"initialize\",\"params\":{\"processId\":77,\"rootUri\":\"file:///r\",\"capabilities\":{}}}",
        ),
        (
            Outgoing::Initialized,
            "{\"jsonrpc\":\"2.0\",\"method\":\"initialized\",\"params\":{}}",
        ),
        (
            Outgoing::Open { uri: "u".into(), version: 2, text: "t".into() },
            "{\"jsonrpc\":\"2.0\",\"method\":\"textDocument/didOpen\",\"params\":{\"textDocument\":{\"uri\":\"u\",\"languageId\":\"lean\",\"version\":2,\"text\":\"t\"}}}",
        ),
        (
            Outgoing::Change { uri: "u".into(), version: 3, text: "t".into() },
            "{\"jsonrpc\":\"2.0\",\"method\":\"textDocument/didChange\",\"params\":{\"textDocument\":{\"uri\":\"u\",\"version\":3},\"contentChanges\":[{\"text\":\"t\"}]}}",
        ),
        (
            Outgoing::Close { uri: "u".into() },
            "{\"jsonrpc\":\"2.0\",\"method\":\"textDocument/didClose\",\"params\":{\"textDocument\":{\"uri\":\"u\"}}}",
        ),
        (
            Outgoing::Wait { id: 9, uri: "u".into(), version: 3 },
            "{\"jsonrpc\":\"2.0\",\"id\":9,\"method\":\"textDocument/waitForDiagnostics\",\"params\":{\"uri\":\"u\",\"version\":3}}",
        ),
    ];
    for (message, expected) in cases {
        assert_eq!(message.value(), value(expected));
        assert_eq!(value(&message.body()), value(expected));
    }
}

#[test]
fn requests_of_the_server_are_declined() {
    let ask = value("{\"id\":\"q\",\"method\":\"workspace/configuration\"}");
    let Incoming::Request(body) = classify(&ask, "u", 1) else {
        panic!("a request is declined")
    };
    let expected =
        "{\"jsonrpc\":\"2.0\",\"id\":\"q\",\"error\":{\"code\":-32601,\"message\":\"method not found\"}}";
    assert_eq!(value(&body), value(expected));
    let Awaited::Request(body) = awaited(&ask, "initialize", 1) else {
        panic!("a request is declined during the handshake too")
    };
    assert_eq!(value(&body), value(expected));
}

#[test]
fn the_handshake_waits_for_its_answer() {
    assert!(matches!(awaited(&value("{\"id\":1,\"result\":{}}"), "initialize", 1), Awaited::Answered));
    assert!(matches!(awaited(&value("{\"id\":2,\"result\":{}}"), "initialize", 1), Awaited::Other));
    assert!(matches!(awaited(&value("{\"method\":\"x\"}"), "initialize", 1), Awaited::Other));
    let Awaited::Refused(error) =
        awaited(&value("{\"id\":1,\"error\":{\"code\":3}}"), "initialize", 1)
    else {
        panic!("an error refuses the request")
    };
    assert_eq!(error, "lean server error for initialize: {\"code\":3}");
}

#[test]
fn a_check_opens_then_changes_then_reopens() {
    let mut session = Session::new();
    let hello = session.initialize(7, "/r");
    assert_eq!(value(&hello.body())["id"], 1);

    let (check, out) = session.begin("/a.lean", "import A\none");
    assert_eq!(methods(&out), ["textDocument/didOpen", "textDocument/waitForDiagnostics"]);
    assert_eq!(check.wait_id, 2);
    assert_eq!(bodies(&out)[1]["params"]["version"], 1);
    let none = session.finish(check);
    assert!(none.is_empty());

    let (check, out) = session.begin("/a.lean", "import A\ntwo");
    assert_eq!(methods(&out), ["textDocument/didChange", "textDocument/waitForDiagnostics"]);
    session.finish(check);

    let (check, out) = session.begin("/a.lean", "import B\ntwo");
    assert_eq!(
        methods(&out),
        ["textDocument/didClose", "textDocument/didOpen", "textDocument/waitForDiagnostics"]
    );
    session.finish(check);
    assert_eq!(session.open_docs.len(), 1);
    assert_eq!(session.next_version, 3);
    assert_eq!(session.next_id, 4);
}

#[test]
fn the_least_recently_used_document_is_closed() {
    let mut session = Session::new();
    for file in ["/1", "/2", "/3", "/4"] {
        let (check, _) = session.begin(file, "x");
        session.finish(check);
    }
    let (check, _) = session.begin("/1", "y");
    session.finish(check);
    let (check, out) = session.begin("/5", "x");
    assert_eq!(
        methods(&out),
        ["textDocument/didClose", "textDocument/didOpen", "textDocument/waitForDiagnostics"]
    );
    assert_eq!(bodies(&out)[0]["params"]["textDocument"]["uri"], "file:///2");
    session.finish(check);
    let open: Vec<&str> = session.open_docs.iter().map(|d| d.uri.as_str()).collect();
    assert_eq!(open, ["file:///3", "file:///4", "file:///1", "file:///5"]);
}

#[test]
fn a_check_collects_its_diagnostics() {
    let mut session = Session::new();
    let (mut check, _) = session.begin("/a", "x");
    let uri = check.uri.clone();
    assert!(matches!(tell(&mut check, &diagnostics("file:///b", "[{}]")), Action::Wait));
    let list = "[{\"severity\":1,\"range\":{\"start\":{\"line\":4}},\"message\":\"e\"},{\"severity\":2,\"message\":\"w\"},{\"severity\":3},{\"severity\":4},{}]";
    assert!(matches!(tell(&mut check, &diagnostics(&uri, list)), Action::Wait));
    assert!(matches!(tell(&mut check, &value("{\"id\":5}")), Action::Wait));
    let done = value(&format!("{{\"id\":{},\"result\":{{}}}}", check.wait_id));
    assert!(matches!(tell(&mut check, &done), Action::Finish));
    assert!(session.countable(&check));
    let messages = session.finish(check);
    assert_eq!(
        shown(&messages),
        [
            ("error".to_string(), 5, "e".to_string()),
            ("warning".to_string(), 1, "w".to_string()),
            ("information".to_string(), 1, String::new()),
            ("hint".to_string(), 1, String::new()),
            ("error".to_string(), 1, String::new()),
        ]
    );

    let (check, _) = session.begin("/a", "x");
    assert_eq!(session.finish(check).len(), 5, "the same text reuses what was published");
    let (check, _) = session.begin("/a", "y");
    assert!(session.finish(check).is_empty(), "another text does not");
}

#[test]
fn a_failed_wait_falls_back_to_progress() {
    let mut session = Session::new();
    let (mut check, _) = session.begin("/a", "x");
    let uri = check.uri.clone();
    assert!(matches!(tell(&mut check, &progress(&uri, "[]")), Action::Wait));
    assert!(matches!(tell(&mut check, &progress(&uri, "[{}]")), Action::Wait));
    let failed = value(&format!("{{\"id\":{},\"error\":{{}}}}", check.wait_id));
    assert!(matches!(tell(&mut check, &failed), Action::Wait));
    assert!(matches!(tell(&mut check, &progress("file:///b", "[]")), Action::Wait));
    assert!(matches!(tell(&mut check, &progress(&uri, "[]")), Action::Finish));

    let (mut check, _) = session.begin("/c", "x");
    let uri = check.uri.clone();
    assert!(matches!(tell(&mut check, &progress(&uri, "[]")), Action::Wait));
    let failed = value(&format!("{{\"id\":{},\"error\":{{}}}}", check.wait_id));
    assert!(matches!(tell(&mut check, &failed), Action::Finish));
}

#[test]
fn a_client_that_leaves_cancels_its_check() {
    let mut session = Session::new();
    let (mut check, _) = session.begin("/a", "x");
    assert!(matches!(check.step(Event::Silence { disconnected: false }), Action::Wait));
    assert!(matches!(check.step(Event::Silence { disconnected: true }), Action::Cancel));
    assert!(matches!(check.step(Event::Silence { disconnected: true }), Action::Wait));
    let done = value(&format!("{{\"id\":{},\"result\":{{}}}}", check.wait_id));
    let Action::Fail(error) = tell(&mut check, &done) else {
        panic!("a canceled check does not succeed")
    };
    assert_eq!(error, "canceled: client disconnected");
    let Action::Fail(error) = check.step(Event::Expired) else {
        panic!("the time has run out")
    };
    assert_eq!(error, "canceled: client disconnected");
    assert!(session.abandon(check).is_none());
    assert!(session.open_docs.is_empty());
}

#[test]
fn a_broken_check_closes_its_document() {
    let mut session = Session::new();
    let (first, _) = session.begin("/a", "x");
    session.finish(first);
    let (mut check, _) = session.begin("/b", "x");
    let Action::Fail(error) = check.step(Event::Broken("gone".into())) else {
        panic!("the server is gone")
    };
    assert_eq!(error, "gone");
    let close = session.abandon(check).expect("the document is still open in the server");
    assert_eq!(value(&close.body())["params"]["textDocument"]["uri"], "file:///b");
    assert_eq!(session.open_docs.len(), 1);
    let (_, out) = session.begin("/b", "x");
    assert_eq!(methods(&out)[0], "textDocument/didOpen");
}

#[test]
fn lines_beyond_the_machine_are_not_counted() {
    let published = |line: u64| Published {
        items: Some(vec![LeanDiagnostic {
            severity: None,
            line,
            message: String::new(),
        }]),
    };
    assert!(published(usize::MAX as u64 - 1).countable());
    assert!(!published(usize::MAX as u64).countable());
    assert!(Published { items: None }.countable());
}

#[test]
fn a_server_serves_one_build() {
    let build = |fingerprint: &str, root: &str| Build {
        fingerprint: fingerprint.into(),
        root: root.into(),
    };
    let wanted = build("f", "/b");
    assert!(must_replace(None, &wanted));
    assert!(!must_replace(Some(&build("f", "/b")), &wanted));
    assert!(must_replace(Some(&build("g", "/b")), &wanted));
    assert!(must_replace(Some(&build("f", "/c")), &wanted));
}

#[test]
fn every_request_is_answered() {
    assert_eq!(value(&spawn_failure(false, "e"))["error"], "lean server spawn failed: e");
    assert_eq!(value(&spawn_failure(true, "e"))["error"], "lean server respawn failed: e");
    let Settled::Validate(line) = settle(&Ok(vec![message("error", 1, "m")])) else {
        panic!("a check that is over is validated")
    };
    assert_eq!(read_reply(&line).map(|m| m.len()), Some(1));
    assert_eq!(confirm(Ok(()), line.clone()), line);
    assert_eq!(value(&confirm(Err("stale".into()), line))["error"], "stale");
    let Settled::Restart(line) = settle(&Err("broken".into())) else {
        panic!("a check that failed restarts the server")
    };
    assert_eq!(value(&line), value("{\"ok\":false,\"error\":\"broken\"}"));
}

#[test]
fn turns_carry_a_check_to_its_end() {
    let mut session = Session::new();
    let (check, _) = session.begin("/a", "import A\nx");
    let list = "[{\"severity\":2,\"range\":{\"start\":{\"line\":1}},\"message\":\"w\"}]";
    let published = classify(&diagnostics(&check.uri, list), &check.uri, check.wait_id);
    let Turn::Wait(check) = session.turn(check, Event::Message(published)) else {
        panic!("diagnostics end nothing")
    };
    let request = value("{\"id\":9,\"method\":\"workspace/x\"}");
    let request = classify(&request, &check.uri, check.wait_id);
    let Turn::Send(check, body) = session.turn(check, Event::Message(request)) else {
        panic!("a request of the server is declined")
    };
    assert_eq!(value(&body)["error"]["code"], -32601);
    let done = value(&format!("{{\"id\":{},\"result\":{{}}}}", check.wait_id));
    let done = classify(&done, &check.uri, check.wait_id);
    let Turn::Done(messages) = session.turn(check, Event::Message(done)) else {
        panic!("the answer ends the check")
    };
    assert_eq!(shown(&messages), [("warning".to_string(), 2, "w".to_string())]);
    assert_eq!(session.open_docs.last().unwrap().uri, "file:///a");
    assert_eq!(session.last_diags.len(), 1);

    let (check, _) = session.begin("/a", "import A\nx");
    let Turn::Cancel(check, close) = session.turn(check, Event::Silence { disconnected: true })
    else {
        panic!("the client has gone")
    };
    assert_eq!(value(&close.body())["method"], "textDocument/didClose");
    let Turn::Failed(error, close) = session.turn(check, Event::Expired) else {
        panic!("a canceled check does not succeed")
    };
    assert_eq!(error, "canceled: client disconnected");
    assert!(close.is_none(), "it was closed before");
    assert!(session.open_docs.is_empty());
    assert!(session.last_diags.is_empty());

    let (check, _) = session.begin("/b", "y");
    let Turn::Failed(error, close) = session.turn(check, Event::Broken("gone".into())) else {
        panic!("the server is gone")
    };
    assert_eq!(error, "gone");
    assert!(close.is_some());

    let (mut check, _) = session.begin("/c", "z");
    check.diagnostics = Some(Published {
        items: Some(vec![LeanDiagnostic {
            severity: None,
            line: u64::MAX,
            message: String::new(),
        }]),
    });
    let done = Event::Message(Incoming::Answer { failed: false });
    assert!(matches!(session.turn(check, done), Turn::Uncounted(_)));
}
