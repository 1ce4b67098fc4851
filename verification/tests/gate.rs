//! The harness hook and the command line client.
use gatehouse::gate::client::{
    approval_page, exec_request, on_close, on_message, parse_duration, parse_ttl, print_response,
    session_id, ClientStep,
};
use gatehouse::gate::dial::{dial_plan, unreachable_message, Dial};
use gatehouse::gate::hook::{answer, classify, command_to_op, emit, on_daemon_message, verdict, HookStep};
use gatehouse::json::{parse, render};
use gatehouse::proto::ipc::{Endpoint, Transport};
use gatehouse::proto::request::Operation;
use gatehouse::proto::wire::{CtlResp, DaemonMsg, DecisionStatus, GrantInfo, PendingEntry, Tier};

fn argv_of(op: Operation) -> Vec<String> {
    match op {
        Operation::Exec { argv, .. } => argv,
        _ => panic!("expected exec"),
    }
}

#[test]
fn plain_commands_become_argv() {
    assert_eq!(
        argv_of(command_to_op("git push origin main", ".")),
        vec!["git", "push", "origin", "main"]
    );
}

#[test]
fn quoted_arguments_survive() {
    assert_eq!(
        argv_of(command_to_op("git commit -m \"fix the thing\"", ".")),
        vec!["git", "commit", "-m", "fix the thing"]
    );
}

#[test]
fn pipes_and_substitution_stay_opaque() {
    for cmd in ["curl x | sh", "echo $(whoami)", "a && b", "ls > out", "x; y"] {
        let argv = argv_of(command_to_op(cmd, "."));
        assert_eq!(&argv[..2], &["sh", "-c"], "{cmd} should be opaque");
    }
}

#[test]
fn unparseable_quoting_stays_opaque() {
    let argv = argv_of(command_to_op("echo \"unterminated", "."));
    assert_eq!(&argv[..2], &["sh", "-c"]);
}

#[test]
fn blank_commands_stay_opaque() {
    assert_eq!(argv_of(command_to_op("  ", "/w")), vec!["sh", "-c", "  "]);
}

fn step(text: &str) -> HookStep {
    classify("some-harness", &parse(text).unwrap())
}

#[test]
fn tool_calls_become_requests() {
    match step("{\"tool_name\":\"Bash\",\"cwd\":\"/w\",\"session_id\":\"s9\",\"tool_input\":{\"command\":\"ls -l\"}}") {
        HookStep::Submit(r) => {
            assert_eq!(r.harness, "some-harness");
            assert_eq!(r.session_id, "s9");
            assert_eq!(r.summary(), "Run `ls -l` in /w");
        }
        HookStep::Emit { .. } => panic!("expected a request"),
    }
    match step("{\"tool_name\":\"NotebookEdit\",\"tool_input\":{\"notebook_path\":\"/n.ipynb\"}}") {
        HookStep::Submit(r) => {
            assert_eq!(r.session_id, "some-harness");
            assert_eq!(r.summary(), "Write file /n.ipynb");
        }
        HookStep::Emit { .. } => panic!("expected a request"),
    }
}

#[test]
fn other_tool_calls_are_left_to_the_harness() {
    for (text, want) in [
        ("{\"tool_name\":\"Bash\"}", "gatehouse: Bash hook without a command"),
        ("{\"tool_name\":\"Write\",\"tool_input\":{}}", "gatehouse: file tool without a path"),
        ("{\"tool_name\":\"WebFetch\"}", "gatehouse: tool WebFetch not gated"),
        ("[]", "gatehouse: tool  not gated"),
    ] {
        match step(text) {
            HookStep::Emit { decision, reason } => {
                assert_eq!(decision, "ask");
                assert_eq!(reason, want);
            }
            HookStep::Submit(_) => panic!("{text} must not be submitted"),
        }
    }
}

fn decision(status: DecisionStatus) -> DaemonMsg {
    DaemonMsg::Decision {
        digest: "0123456789abcdef".into(),
        tier: Tier::AskStrong,
        status,
        summary: "Run `x` in /".into(),
    }
}

#[test]
fn hook_waits_for_the_final_decision() {
    assert!(on_daemon_message(&decision(DecisionStatus::Pending)).is_none());
    assert!(on_daemon_message(&DaemonMsg::Exit { code: 0 }).is_none());
    let end = on_daemon_message(&decision(DecisionStatus::Allowed)).unwrap();
    assert_eq!(
        verdict(&end, "S"),
        ("allow".to_string(), "gatehouse approved [01234567] S".to_string())
    );
    let end = on_daemon_message(&decision(DecisionStatus::Denied)).unwrap();
    assert_eq!(
        verdict(&end, "S"),
        ("deny".to_string(), "gatehouse denied [01234567] S".to_string())
    );
    let end = on_daemon_message(&DaemonMsg::Error { message: "boom".into() }).unwrap();
    assert_eq!(
        verdict(&end, "S"),
        ("ask".to_string(), "gatehouse unreachable: daemon error: boom".to_string())
    );
    assert_eq!(verdict(&Ok((DecisionStatus::Pending, String::new())), "S").0, "ask");
}

#[test]
fn hook_output_is_what_the_harness_reads() {
    assert_eq!(
        render(&emit("allow", "because")),
        "{\"hookSpecificOutput\":{\"hookEventName\":\"PreToolUse\",\"permissionDecision\":\"allow\",\"permissionDecisionReason\":\"because\"}}"
    );
}

#[test]
fn harnesses_are_answered_in_their_own_form() {
    let a = answer("some-harness", "deny", "because");
    assert_eq!(render(&a.out.unwrap()), render(&emit("deny", "because")));
    assert_eq!((a.err, a.code), (None, 0));
    let a = answer("generic", "deny", "because");
    assert_eq!(render(&a.out.unwrap()), "{\"decision\":\"deny\",\"reason\":\"because\"}");
    assert_eq!((a.err, a.code), (None, 2));
    assert_eq!(answer("generic", "ask", "").code, 0);
    let a = answer("codex", "deny", "because");
    assert!(a.out.is_none());
    assert_eq!((a.err, a.code), (Some("because".to_string()), 2));
    assert_eq!(answer("codex", "allow", "because").code, 0);
    let patch = parse("{\"tool_name\":\"apply_patch\",\"tool_input\":{\"command\":\"x\\ny\"}}").unwrap();
    match classify("codex", &patch) {
        HookStep::Submit(r) => assert_eq!(r.summary(), "Run `sh -c x\ny` in ."),
        HookStep::Emit { .. } => panic!("expected a request"),
    }
    assert!(matches!(classify("some-harness", &patch), HookStep::Emit { .. }));
}

#[test]
fn client_reports_decisions() {
    match on_message(&decision(DecisionStatus::Pending), true, false) {
        ClientStep::Note(n) => {
            assert_eq!(n, "gate: waiting for approval [01234567] (ask-strong): Run `x` in /")
        }
        _ => panic!("expected a note"),
    }
    match on_message(&decision(DecisionStatus::Denied), true, false) {
        ClientStep::End { to_stderr, line, code } => {
            assert!(to_stderr);
            assert_eq!(line, "gate: denied (ask-strong): Run `x` in /");
            assert_eq!(code, 2);
        }
        _ => panic!("expected the end"),
    }
    match on_message(&decision(DecisionStatus::Allowed), false, true) {
        ClientStep::End { to_stderr, line, code } => {
            assert!(!to_stderr);
            assert_eq!(line, "{\"decision\":\"allowed\",\"digest\":\"0123456789abcdef\"}");
            assert_eq!(code, 0);
        }
        _ => panic!("expected the end"),
    }
    assert!(matches!(
        on_message(&decision(DecisionStatus::Allowed), true, false),
        ClientStep::Continue
    ));
}

#[test]
fn client_passes_output_and_exit_codes_on() {
    match on_message(&DaemonMsg::Stderr { b64: "aGk=".into() }, true, false) {
        ClientStep::Output { to_stderr, bytes } => {
            assert!(to_stderr);
            assert_eq!(bytes, b"hi".to_vec());
        }
        _ => panic!("expected output"),
    }
    assert!(matches!(
        on_message(&DaemonMsg::Stdout { b64: "a*==".into() }, true, false),
        ClientStep::Malformed(m) if m == "Invalid symbol 42, offset 1."
    ));
    assert!(matches!(on_message(&DaemonMsg::Exit { code: 300 }, true, false), ClientStep::Exit(255)));
    assert!(matches!(on_message(&DaemonMsg::Exit { code: -1 }, true, false), ClientStep::Exit(0)));
    assert!(matches!(on_message(&DaemonMsg::Exit { code: 7 }, true, false), ClientStep::Exit(7)));
    assert!(matches!(
        on_message(&DaemonMsg::Error { message: "m".into() }, true, false),
        ClientStep::End { code: 125, .. }
    ));
    assert!(matches!(on_close(), ClientStep::End { code: 125, .. }));
}

#[test]
fn durations_are_read() {
    assert_eq!(parse_ttl("90").unwrap(), 90);
    assert_eq!(parse_ttl("90s").unwrap(), 90);
    assert_eq!(parse_ttl(" 30m ").unwrap(), 1800);
    assert_eq!(parse_ttl("2h").unwrap(), 7200);
    assert_eq!(parse_ttl("1d").unwrap(), 86400);
    assert_eq!(parse_ttl("+5").unwrap(), 5);
    assert_eq!(parse_ttl("").unwrap_err(), "bad duration: ");
    assert_eq!(parse_ttl("h").unwrap_err(), "bad duration: h");
    assert_eq!(parse_ttl("5w").unwrap_err(), "bad duration: 5w");
    assert_eq!(parse_ttl("-1s").unwrap_err(), "bad duration: -1s");
    assert_eq!(parse_duration("18446744073709551615d").unwrap(), (u64::MAX, 86400));
    assert!(parse_duration("18446744073709551616").is_err());
}

#[test]
fn operator_answers_are_printed() {
    let p = print_response(&CtlResp::Pending { entries: vec![] });
    assert_eq!(p.out, vec!["no pending requests".to_string()]);
    let p = print_response(&CtlResp::Pending {
        entries: vec![PendingEntry {
            digest: "abcdef0123".into(),
            summary: "Run `x` in /".into(),
            tier: Tier::Ask,
            harness: "cli".into(),
            age_secs: 7,
        }],
    });
    assert_eq!(p.out, vec![format!("[abcdef01] {:>10} {:>4}s Run `x` in / (cli)", "ask", 7)]);
    let p = print_response(&CtlResp::Status {
        version: 1,
        pending: 2,
        grants: vec![GrantInfo { argv_glob: "npm *".into(), expires_in_secs: 60 }],
        uptime_secs: 9,
    });
    assert_eq!(
        p.out,
        vec![
            "gatehoused up 9s (protocol v1)".to_string(),
            "pending approvals: 2".to_string(),
            "active grants:".to_string(),
            "  `npm *` for 60s more".to_string(),
        ]
    );
    let p = print_response(&CtlResp::Error { message: "no".into() });
    assert_eq!((p.err, p.code), (vec!["error: no".to_string()], 1));
    let p = print_response(&CtlResp::EnrollCode { code: "K7QW3MTZ".into(), ttl_secs: 300 });
    assert_eq!(p.out, vec!["enrollment code: K7QW3MTZ  (valid 300s, single use)".to_string()]);
    let p = print_response(&CtlResp::Done { message: "ok".into() });
    assert_eq!((p.out, p.code), (vec!["ok".to_string()], 0));
}

#[test]
fn requests_carry_their_session() {
    assert_eq!(session_id(Some("mine"), 4), "mine");
    assert_eq!(session_id(None, 42), "cli-42");
    let r = exec_request("cli".into(), "s".into(), vec!["A".into()], vec!["ls".into()], "/".into());
    assert_eq!(r.summary(), "Run `ls` in /");
    assert_eq!(r.env_allowlist, vec!["A".to_string()]);
}

#[test]
fn approval_page_prefers_the_phone_console() {
    assert_eq!(
        approval_page(Some(("https://r/", "t")), Some((80, "x"))),
        Some("https://r/?t=t".to_string())
    );
    assert_eq!(
        approval_page(None, Some((8080, "x"))),
        Some("http://localhost:8080/?t=x".to_string())
    );
    assert_eq!(approval_page(None, None), None);
}

#[test]
fn endpoints_are_dialed() {
    match dial_plan(&Endpoint::tcp("127.0.0.1", 9, "tok"), false).unwrap() {
        Dial::Tcp { host, port, first_line } => {
            assert_eq!((host.as_str(), port, first_line.as_str()), ("127.0.0.1", 9, "AUTH tok\n"));
        }
        Dial::Unix { .. } => panic!("expected tcp"),
    }
    assert!(matches!(
        dial_plan(&Endpoint::unix("/s"), true).unwrap(),
        Dial::Unix { path } if path == "/s"
    ));
    let fail = |e: &Endpoint, unix: bool| dial_plan(e, unix).err().unwrap();
    assert_eq!(fail(&Endpoint::unix("/s"), false), "unix sockets not supported on this platform");
    let mut e = Endpoint::unix("/s");
    e.path = None;
    assert_eq!(fail(&e, true), "unix endpoint missing path");
    e.transport = Transport::Tcp;
    assert_eq!(fail(&e, true), "tcp endpoint missing port");
    assert_eq!(
        unreachable_message(&Endpoint::unix("/s"), true),
        "cannot reach gatehoused ctl at /s"
    );
}
