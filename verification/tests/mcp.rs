//! The tool server.
use gatehouse::json::{parse, render, Json};
use gatehouse::mcp::{
    dispatch, exec_outcome, fetch_outcome, fetch_refusal, parse_error, redirect_outcome, respond,
    truncate_body, Collector, McpStep, Server, SubmitResult, SubmitStep, MAX_BODY_BYTES,
};
use gatehouse::proto::request::Operation;
use gatehouse::proto::wire::{DaemonMsg, DecisionStatus, Tier};

fn server() -> Server {
    Server { version: "0.1.0".into(), cwd: Ok("/work".into()), process: 7 }
}

fn step(msg: &str) -> McpStep {
    dispatch(&parse(msg).unwrap(), &server())
}

fn resp(msg: &str) -> Option<Json> {
    match step(msg) {
        McpStep::Ignore => None,
        McpStep::Reply(j) => Some(j),
        McpStep::Exec { .. } | McpStep::Fetch { .. } => panic!("expected an answer"),
    }
}

fn at<'a>(j: &'a Json, path: &[&str]) -> Option<&'a Json> {
    let mut here = j;
    for key in path {
        here = match here {
            Json::Array(v) => v.get(key.parse::<usize>().unwrap())?,
            _ => here.get(key)?,
        };
    }
    Some(here)
}

fn shown(j: &Json, path: &[&str]) -> String {
    render(at(j, path).unwrap())
}

#[test]
fn id_zero_and_string_ids_echo_verbatim() {
    let r = resp("{\"jsonrpc\":\"2.0\",\"id\":0,\"method\":\"ping\"}").unwrap();
    assert_eq!(shown(&r, &["id"]), "0");
    let r = resp("{\"jsonrpc\":\"2.0\",\"id\":\"abc\",\"method\":\"ping\"}").unwrap();
    assert_eq!(shown(&r, &["id"]), "\"abc\"");
    let r = resp("{\"jsonrpc\":\"2.0\",\"id\":1.5,\"method\":\"ping\"}").unwrap();
    assert_eq!(shown(&r, &["id"]), "1.5");
}

#[test]
fn notifications_get_no_response() {
    for method in [
        "notifications/initialized",
        "notifications/cancelled",
        "notifications/progress",
        "some/unknown/notification",
    ] {
        assert!(
            resp(&format!("{{\"jsonrpc\":\"2.0\",\"method\":\"{method}\"}}")).is_none(),
            "{method} must not be answered"
        );
    }
}

#[test]
fn responses_are_not_answered() {
    assert!(resp("{\"jsonrpc\":\"2.0\",\"id\":1,\"result\":{}}").is_none());
}

#[test]
fn unknown_method_is_a_jsonrpc_error() {
    let r = resp("{\"jsonrpc\":\"2.0\",\"id\":7,\"method\":\"bogus\"}").unwrap();
    assert_eq!(shown(&r, &["id"]), "7");
    assert_eq!(shown(&r, &["error", "code"]), "-32601");
    assert_eq!(shown(&r, &["error", "message"]), "\"method not found: bogus\"");
    assert!(r.get("result").is_none());
}

#[test]
fn tools_list_advertises_both_tools() {
    let r = resp("{\"jsonrpc\":\"2.0\",\"id\":1,\"method\":\"tools/list\"}").unwrap();
    let names: Vec<String> = match at(&r, &["result", "tools"]).unwrap() {
        Json::Array(tools) => tools.iter().map(|t| t.get_text("name").unwrap().clone()).collect(),
        _ => panic!("expected a list"),
    };
    assert_eq!(names, vec!["gated_exec", "gated_fetch"]);
    assert_eq!(shown(&r, &["result", "tools", "1", "inputSchema", "required"]), "[\"url\"]");
}

#[test]
fn initialize_names_the_server() {
    let r = resp("{\"jsonrpc\":\"2.0\",\"id\":1,\"method\":\"initialize\"}").unwrap();
    assert_eq!(
        shown(&r, &["result"]),
        "{\"protocolVersion\":\"2024-11-05\",\"capabilities\":{\"tools\":{}},\"serverInfo\":{\"name\":\"gatehouse\",\"version\":\"0.1.0\"}}"
    );
}

#[test]
fn unknown_tool_is_a_tool_error_not_a_protocol_error() {
    let r = resp(
        "{\"jsonrpc\":\"2.0\",\"id\":1,\"method\":\"tools/call\",\"params\":{\"name\":\"nope\",\"arguments\":{}}}",
    )
    .unwrap();
    assert!(r.get("error").is_none());
    assert_eq!(shown(&r, &["result", "isError"]), "true");
    assert_eq!(shown(&r, &["result", "content", "0", "type"]), "\"text\"");
}

#[test]
fn daemon_failure_maps_to_tool_error() {
    let call = step(
        "{\"jsonrpc\":\"2.0\",\"id\":1,\"method\":\"tools/call\",\"params\":{\"name\":\"gated_exec\",\"arguments\":{\"argv\":[\"ls\"]}}}",
    );
    let McpStep::Exec { id, request } = call else {
        panic!("expected a command");
    };
    assert_eq!(request.summary(), "Run `ls` in /work");
    let failed: Result<SubmitResult, String> =
        Err("connect /nonexistent/gatehouse-test/agent.sock: is gatehoused running?".into());
    let r = respond(id, exec_outcome(&failed));
    assert!(r.get("error").is_none());
    assert_eq!(shown(&r, &["result", "isError"]), "true");
}

#[test]
fn non_http_scheme_is_refused_before_submitting() {
    let r = resp(
        "{\"jsonrpc\":\"2.0\",\"id\":1,\"method\":\"tools/call\",\"params\":{\"name\":\"gated_fetch\",\"arguments\":{\"url\":\"file:///etc/passwd\"}}}",
    )
    .unwrap();
    assert_eq!(shown(&r, &["result", "isError"]), "true");
    let text = at(&r, &["result", "content", "0", "text"]).unwrap().as_text().unwrap().clone();
    assert!(text.contains("http/https only"), "got: {text}");
}

fn call_text(tool: &str, args: &str) -> String {
    let r = resp(&format!(
        "{{\"id\":1,\"method\":\"tools/call\",\"params\":{{\"name\":\"{tool}\",\"arguments\":{args}}}}}"
    ))
    .unwrap();
    at(&r, &["result", "content", "0", "text"]).unwrap().as_text().unwrap().clone()
}

#[test]
fn malformed_tool_calls_are_tool_errors() {
    assert_eq!(call_text("gated_exec", "{}"), "gated_exec requires argv or command");
    assert_eq!(call_text("gated_exec", "{\"argv\":[1,null]}"), "empty argv");
    assert_eq!(call_text("gated_fetch", "{}"), "gated_fetch requires url");
    assert_eq!(call_text("gated_fetch", "{\"url\":\"not a url\"}"), "bad url");
    let mut s = server();
    s.cwd = Err("cwd".into());
    let msg = parse("{\"id\":1,\"method\":\"tools/call\",\"params\":{\"name\":\"gated_exec\"}}").unwrap();
    match dispatch(&msg, &s) {
        McpStep::Reply(j) => assert_eq!(shown(&j, &["result", "content", "0", "text"]), "\"cwd\""),
        _ => panic!("expected an answer"),
    }
}

#[test]
fn commands_and_addresses_become_requests() {
    match step("{\"id\":1,\"method\":\"tools/call\",\"params\":{\"name\":\"gated_exec\",\"arguments\":{\"command\":\"a | b\"}}}") {
        McpStep::Exec { request, .. } => {
            assert_eq!(request.session_id, "mcp-7");
            assert_eq!(request.summary(), "Run `sh -c a | b` in /work");
        }
        _ => panic!("expected a command"),
    }
    match step("{\"id\":1,\"method\":\"tools/call\",\"params\":{\"name\":\"gated_fetch\",\"arguments\":{\"url\":\"http://example.com/x\"}}}") {
        McpStep::Fetch { request, url, .. } => {
            assert_eq!(url, "http://example.com/x");
            assert!(matches!(request.op, Operation::Net { host, port: 80 } if host == "example.com"));
        }
        _ => panic!("expected an address"),
    }
    match step("{\"id\":1,\"method\":\"tools/call\",\"params\":{\"name\":\"gated_fetch\",\"arguments\":{\"url\":\"https://example.com:8443\"}}}") {
        McpStep::Fetch { request, .. } => assert!(matches!(request.op, Operation::Net { port: 8443, .. })),
        _ => panic!("expected an address"),
    }
}

#[test]
fn truncation_never_splits_a_utf8_character() {
    let text = "é".repeat(MAX_BODY_BYTES);
    let out = truncate_body(&text);
    assert!(out.ends_with("…\n(truncated)"));
    assert!(out.len() < text.len());
}

#[test]
fn short_bodies_pass_through_unchanged() {
    assert_eq!(truncate_body("hello"), "hello");
}

#[test]
fn truncation_keeps_as_much_as_fits() {
    let exact = "a".repeat(MAX_BODY_BYTES);
    assert_eq!(truncate_body(&exact), exact);
    let over = format!("{exact}b");
    assert_eq!(truncate_body(&over), format!("{exact}…\n(truncated)"));
    let straddling = format!("{}é", "a".repeat(MAX_BODY_BYTES - 1));
    assert_eq!(
        truncate_body(&straddling),
        format!("{}…\n(truncated)", "a".repeat(MAX_BODY_BYTES - 1))
    );
}

fn decision(status: DecisionStatus) -> DaemonMsg {
    DaemonMsg::Decision {
        digest: "0123456789".into(),
        tier: Tier::Ask,
        status,
        summary: "S".into(),
    }
}

#[test]
fn output_is_collected_until_the_child_ends() {
    let mut c = Collector::new();
    match c.take(&decision(DecisionStatus::Pending), true) {
        SubmitStep::Note(n) => assert_eq!(n, "gate-mcp: waiting for approval [01234567] S"),
        _ => panic!("expected a note"),
    }
    assert!(matches!(c.take(&decision(DecisionStatus::Allowed), true), SubmitStep::Continue));
    assert!(matches!(c.take(&DaemonMsg::Stdout { b64: "aGk=".into() }, true), SubmitStep::Continue));
    assert!(matches!(c.take(&DaemonMsg::Stderr { b64: "/w==".into() }, true), SubmitStep::Continue));
    match c.take(&DaemonMsg::Exit { code: 3 }, true) {
        SubmitStep::Done(SubmitResult::Output { stdout, stderr, code }) => {
            assert_eq!((stdout.as_str(), stderr.as_str(), code), ("hi", "\u{fffd}", 3));
            let done = Ok(SubmitResult::Output { stdout, stderr, code });
            let j = exec_outcome(&done);
            assert_eq!(shown(&j, &["isError"]), "true");
            assert_eq!(at(&j, &["content", "0", "text"]).unwrap().as_text().unwrap(), "hi\n\u{fffd}");
        }
        _ => panic!("expected the end"),
    }
}

#[test]
fn submissions_end_early_where_they_are_decided() {
    let mut c = Collector::new();
    assert!(matches!(
        c.take(&decision(DecisionStatus::Denied), true),
        SubmitStep::Done(SubmitResult::Denied { summary }) if summary == "S"
    ));
    assert!(matches!(
        c.take(&decision(DecisionStatus::Allowed), false),
        SubmitStep::Done(SubmitResult::Output { code: 0, .. })
    ));
    assert!(matches!(
        c.take(&DaemonMsg::Stdout { b64: "a*==".into() }, true),
        SubmitStep::Fail(m) if m == "Invalid symbol 42, offset 1."
    ));
    assert!(matches!(
        c.take(&DaemonMsg::Error { message: "m".into() }, true),
        SubmitStep::Fail(m) if m == "daemon error: m"
    ));
}

#[test]
fn results_of_commands_and_addresses() {
    let quiet = Ok(SubmitResult::Output { stdout: String::new(), stderr: String::new(), code: 0 });
    assert_eq!(
        render(&exec_outcome(&quiet)),
        "{\"content\":[{\"type\":\"text\",\"text\":\"(exit 0)\"}],\"isError\":false}"
    );
    assert!(fetch_refusal(&quiet).is_none());
    let denied = Ok(SubmitResult::Denied { summary: "S".into() });
    assert_eq!(
        render(&fetch_refusal(&denied).unwrap()),
        "{\"content\":[{\"type\":\"text\",\"text\":\"denied: S\"}],\"isError\":true}"
    );
    assert_eq!(shown(&fetch_outcome("200 OK", "body"), &["content", "0", "text"]), "\"HTTP 200 OK\\nbody\"");
    let r = redirect_outcome("302 Found", None);
    assert!(shown(&r, &["content", "0", "text"]).contains("redirect to (no location header) — not followed"));
    assert_eq!(
        render(&parse_error("bad")),
        "{\"jsonrpc\":\"2.0\",\"id\":null,\"error\":{\"code\":-32700,\"message\":\"bad\"}}"
    );
}
