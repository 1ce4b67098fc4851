//! Submitting, approving and denying: the daemon's state, its log and its envelopes.
use gatehouse::daemon::audit::Audit;
use gatehouse::daemon::ctl::{decide, delivered, handle, CtlStep, ENVELOPE_TTL_SECS};
use gatehouse::daemon::ctx::{page_url, Ctx, HttpInfo};
use gatehouse::daemon::server::{
    child_plan, exit_message, new_nonce, output_message, spawn_failed, Next, Submitted, Ticket, WaitEnd,
};
use gatehouse::daemon::state::{Pending, Shared, SECOND};
use gatehouse::json::Json;
use gatehouse::proto::audit_log::verify_text;
use gatehouse::proto::envelope::{ApprovalEnvelope, SigScheme};
use gatehouse::proto::policy::Policy;
use gatehouse::proto::policy_file::DEFAULT_POLICY;
use gatehouse::proto::request::{GateRequest, Operation};
use gatehouse::proto::wire::{CtlMsg, CtlResp, DaemonMsg, DecisionStatus, Tier};

fn exec(argv: &[&str]) -> GateRequest {
    GateRequest {
        harness: "cli".into(),
        session_id: "s".into(),
        env_allowlist: vec!["EDITOR".into()],
        op: Operation::Exec {
            argv: argv.iter().map(|s| s.to_string()).collect(),
            cwd: "/w".into(),
        },
    }
}

fn ctx() -> Ctx {
    let policy = Policy::load(DEFAULT_POLICY).unwrap();
    Ctx::new(policy, vec![], vec![], Audit::open(None), true, None)
}

fn status_of(msg: &DaemonMsg) -> DecisionStatus {
    match msg {
        DaemonMsg::Decision { status, .. } => *status,
        _ => panic!("expected a decision"),
    }
}

fn wait_of(s: Submitted) -> (Ticket, Vec<String>, Option<String>) {
    match s.next {
        Next::Wait { ticket, notices, open } => (ticket, notices, open),
        _ => panic!("expected a wait"),
    }
}

#[test]
fn allowed_commands_run_at_once() {
    let mut c = ctx();
    let s = c.handle_submit(exec(&["ls"]), true, 0);
    assert_eq!(status_of(&s.reply), DecisionStatus::Allowed);
    assert_eq!(s.note.unwrap().decision, "allowed");
    assert!(matches!(s.next, Next::Run));
    let s = c.handle_submit(exec(&["ls"]), false, 0);
    assert!(matches!(s.next, Next::Done), "without execute nothing runs");
    assert!(c.state.pending.is_empty());
}

#[test]
fn denied_commands_never_run() {
    let mut c = ctx();
    c.state.add_grant("*".into(), 60, 0);
    let s = c.handle_submit(exec(&["sudo", "ls"]), true, 1);
    assert_eq!(status_of(&s.reply), DecisionStatus::Denied);
    assert!(matches!(s.next, Next::Done));
    assert_eq!(s.note.unwrap().decision, "denied");
}

#[test]
fn grants_lift_ask_tiers_until_they_expire() {
    let mut c = ctx();
    c.state.add_grant("git push*".into(), 60, 5 * SECOND);
    let s = c.handle_submit(exec(&["git", "push", "origin"]), true, 64 * SECOND);
    assert!(matches!(s.next, Next::Run));
    let note = s.note.unwrap();
    assert_eq!(note.rule, "session grant");
    assert_eq!(note.tier, Tier::Allow);
    let s = c.handle_submit(exec(&["git", "push", "origin"]), true, 65 * SECOND);
    assert_eq!(status_of(&s.reply), DecisionStatus::Pending);
    assert!(c.state.grants.is_empty(), "an expired grant is forgotten");
}

#[test]
fn grant_snapshot_counts_whole_seconds_down() {
    let mut s = Shared::new();
    s.add_grant("a*".into(), 10, 0);
    s.add_grant("[".into(), 2, 0);
    let g = s.grant_snapshot(SECOND + 1);
    assert_eq!(g.len(), 2);
    assert_eq!((g[0].argv_glob.as_str(), g[0].expires_in_secs), ("a*", 8));
    assert_eq!(s.grant_snapshot(2 * SECOND).len(), 1);
    assert!(s.grant_matches("abc", 2 * SECOND));
    assert!(!s.grant_matches("[", 0), "a malformed glob covers nothing");
}

#[test]
fn a_pending_request_is_approved_once() {
    let mut c = ctx();
    let s = c.handle_submit(exec(&["frobnicate"]), true, 0);
    assert_eq!(status_of(&s.reply), DecisionStatus::Pending);
    let (ticket, notices, open) = wait_of(s);
    let short: String = ticket.digest.chars().take(8).collect();
    assert_eq!(
        notices,
        vec![format!("APPROVAL NEEDED [{short}] Run `frobnicate` in /w — run: gate approve {short}")]
    );
    assert_eq!(open, None);
    assert_eq!(ticket.nonce.len(), 64);
    assert_eq!(c.state.pending_nonce(&ticket.digest), Some(ticket.nonce.clone()));

    let again = c.handle_submit(exec(&["frobnicate"]), true, 1);
    assert!(matches!(
        again.reply,
        DaemonMsg::Error { message } if message == "identical request already pending approval"
    ));
    assert!(again.note.is_none());

    let d = decide(&mut c, &short, true, 1000).unwrap();
    assert_eq!(d.digest, ticket.digest);
    assert_eq!(d.summary, "Run `frobnicate` in /w");
    let e = d.verdict.unwrap();
    assert_eq!((e.issued_at, e.expires_at), (1000, 1000 + ENVELOPE_TTL_SECS));
    assert_eq!(e.key_id, "operator-ctl");
    let replay = ApprovalEnvelope {
        digest: e.digest.clone(),
        nonce: e.nonce.clone(),
        issued_at: e.issued_at,
        expires_at: e.expires_at,
        key_id: e.key_id.clone(),
        scheme: SigScheme::Unattested,
        sig: String::new(),
    };
    let settled = c.settle(&ticket, WaitEnd::Verdict(Some(e)), 1001);
    assert!(settled.run);
    assert_eq!(status_of(&settled.reply), DecisionStatus::Allowed);
    assert_eq!(settled.note.decision, "approved");
    assert_eq!(settled.note.rule, "None:operator-ctl");
    let twice = c.settle(&ticket, WaitEnd::Verdict(Some(replay)), 1002);
    assert!(!twice.run, "an approval releases once");
    assert_eq!(twice.note.decision, "denied");
}

fn waiting(c: &mut Ctx) -> Ticket {
    let s = c.handle_submit(exec(&["frobnicate"]), true, 0);
    wait_of(s).0
}

fn approval(t: &Ticket) -> ApprovalEnvelope {
    ApprovalEnvelope {
        digest: t.digest.clone(),
        nonce: t.nonce.clone(),
        issued_at: 100,
        expires_at: 220,
        key_id: "k".into(),
        scheme: SigScheme::Webauthn,
        sig: String::new(),
    }
}

#[test]
fn approvals_of_something_else_deny() {
    let mut c = ctx();
    let t = waiting(&mut c);
    let mut other = approval(&t);
    other.digest = "0".repeat(64);
    assert!(!c.settle(&t, WaitEnd::Verdict(Some(other)), 150).run);
    let mut stale = approval(&t);
    stale.nonce = "n".into();
    let s = c.settle(&t, WaitEnd::Verdict(Some(stale)), 150);
    assert!(!s.run);
    let short: String = t.digest.chars().take(8).collect();
    assert!(s.notices.contains(&format!("[{short}] approval envelope rejected (binding/expiry)")));
    assert!(!c.settle(&t, WaitEnd::Verdict(Some(approval(&t))), 221).run);
    assert!(!c.settle(&t, WaitEnd::Verdict(Some(approval(&t))), 99).run);
    let s = c.settle(&t, WaitEnd::Verdict(Some(approval(&t))), 220);
    assert!(s.run);
    assert_eq!(s.note.rule, "Webauthn:k");
}

#[test]
fn silence_and_denial_deny() {
    let mut c = ctx();
    let t = waiting(&mut c);
    let s = c.settle(&t, WaitEnd::Dropped, 0);
    assert!(!s.run);
    assert_eq!((s.note.decision.as_str(), s.note.rule.as_str()), ("denied", "operator"));
    assert!(c.state.is_pending(&t.digest));
    let s = c.settle(&t, WaitEnd::TimedOut, 0);
    assert!(!s.run);
    assert!(!c.state.is_pending(&t.digest), "a request that timed out is forgotten");
    let t = waiting(&mut c);
    let d = decide(&mut c, &t.digest, false, 0).unwrap();
    assert!(d.verdict.is_none());
    assert!(!c.settle(&t, WaitEnd::Verdict(None), 0).run);
    assert_eq!(
        decide(&mut c, "ffff", true, 0).err().unwrap(),
        "no pending request matches 'ffff'"
    );
}

#[test]
fn strong_requests_point_at_the_passkey_page() {
    let mut c = ctx();
    let t = c.handle_submit(exec(&["git", "push"]), false, 0);
    let (t, notices, open) = wait_of(t);
    let short: String = t.digest.chars().take(8).collect();
    assert_eq!(notices.len(), 2);
    assert_eq!(
        notices[1],
        format!("[{short}] tier is ask-strong but no passkey is enrolled; operator approval will be recorded as unattested (run `gate enroll` to fix)")
    );
    assert_eq!(open, None);
    c.settle(&t, WaitEnd::TimedOut, 0);

    c.passkeys.push(Json::Null);
    let (t, notices, open) = wait_of(c.handle_submit(exec(&["git", "push"]), false, 0));
    assert_eq!(
        notices,
        vec![format!("APPROVAL NEEDED [{short}] Run `git push` in /w — approval page not up yet")]
    );
    assert_eq!(open, None);
    c.settle(&t, WaitEnd::TimedOut, 0);

    c.http = Some(HttpInfo { port: 4278, token: "tok".into() });
    let (t, notices, open) = wait_of(c.handle_submit(exec(&["git", "push"]), false, 0));
    let url = "http://localhost:4278/?t=tok";
    assert_eq!(page_url(4278, "tok"), url);
    assert_eq!(
        notices,
        vec![format!("APPROVAL NEEDED [{short}] Run `git push` in /w — passkey required: {url}")]
    );
    assert_eq!(open, Some(url.to_string()));
    c.settle(&t, WaitEnd::TimedOut, 0);

    c.auto_open = false;
    c.phone_url = Some("https://phone/".into());
    let (_, notices, open) = wait_of(c.handle_submit(exec(&["git", "push"]), false, 0));
    assert!(notices[0].ends_with("passkey required: https://phone/"));
    assert_eq!(open, None);
}

fn pending(word: &str, submitted: u64) -> (String, Pending) {
    let request = exec(&[word]);
    let digest = request.digest().unwrap();
    (digest, Pending { request, tier: Tier::Ask, nonce: "n".into(), submitted })
}

#[test]
fn prefixes_must_be_unique() {
    let mut s = Shared::new();
    let (x, first) = pending("x", 0);
    let (y, second) = pending("y", 0);
    assert_eq!(
        s.take_pending("").err().unwrap(),
        "no pending request matches ''"
    );
    assert!(s.insert_pending(x.clone(), first));
    assert!(s.insert_pending(y.clone(), second));
    assert!(!s.insert_pending(y.clone(), pending("y", 7).1));
    assert_eq!(
        s.take_pending("").err().unwrap(),
        "'' is ambiguous (2 matches); use more characters"
    );
    assert_eq!(s.take_pending("z").err().unwrap(), "no pending request matches 'z'");
    let (digest, entry) = s.take_pending(&y[..40]).ok().unwrap();
    assert_eq!(digest, y);
    assert_eq!(entry.request.summary(), "Run `y` in /w");
    assert!(s.is_pending(&x) && !s.is_pending(&y));
    s.remove_pending(&x);
    assert!(s.pending.is_empty());
}

#[test]
fn the_oldest_request_is_listed_first() {
    let mut s = Shared::new();
    let (new, young) = pending("new", 9 * SECOND);
    let (old, aged) = pending("old", 2 * SECOND);
    s.insert_pending(new.clone(), young);
    s.insert_pending(old.clone(), aged);
    let l = s.pending_snapshot(10 * SECOND);
    assert_eq!((l[0].digest.as_str(), l[0].age_secs), (old.as_str(), 8));
    assert_eq!((l[1].digest.as_str(), l[1].age_secs), (new.as_str(), 1));
    assert_eq!(l[0].harness, "cli");
}

#[test]
fn spent_nonces_are_remembered_until_their_envelope_expires() {
    let mut s = Shared::new();
    assert!(s.spend_nonce("n", 100, 50));
    assert!(!s.spend_nonce("n", 100, 100));
    assert!(s.spend_nonce("m", 100, 100));
    assert!(s.spend_nonce("o", 300, 101));
    assert_eq!(s.spent.len(), 1);
}

#[test]
fn operators_control_the_daemon() {
    let mut c = ctx();
    let t = waiting(&mut c);
    match handle(&mut c, CtlMsg::Pending, 3 * SECOND, 0, 0) {
        CtlStep::Reply(CtlResp::Pending { entries }) => {
            assert_eq!(entries.len(), 1);
            assert_eq!(entries[0].age_secs, 3);
        }
        _ => panic!("expected the list"),
    }
    match handle(&mut c, CtlMsg::Grant { argv_glob: "npm *".into(), ttl_secs: 60 }, 0, 0, 0) {
        CtlStep::Reply(CtlResp::Done { message }) => assert_eq!(message, "granted `npm *` for 60s"),
        _ => panic!("expected an answer"),
    }
    match handle(&mut c, CtlMsg::Status, 9 * SECOND, 0, 2 * SECOND) {
        CtlStep::Reply(CtlResp::Status { version, pending, grants, uptime_secs }) => {
            assert_eq!((version, pending, grants.len(), uptime_secs), (1, 1, 1, 7));
        }
        _ => panic!("expected the status"),
    }
    match handle(&mut c, CtlMsg::EnrollCode, 0, 0, 0) {
        CtlStep::Reply(CtlResp::EnrollCode { code, ttl_secs }) => {
            assert_eq!((code.len(), ttl_secs), (8, 300));
            assert!(c.enroll_codes.redeem(&code, 1));
        }
        _ => panic!("expected a code"),
    }
    match handle(&mut c, CtlMsg::Approve { digest_prefix: t.digest.clone() }, 0, 0, 0) {
        CtlStep::Deliver(d) => assert!(d.verdict.is_some()),
        _ => panic!("expected a verdict"),
    }
    match handle(&mut c, CtlMsg::Deny { digest_prefix: t.digest.clone() }, 0, 0, 0) {
        CtlStep::Reply(CtlResp::Error { message }) => {
            assert_eq!(message, format!("no pending request matches '{}'", t.digest));
        }
        _ => panic!("expected an error"),
    }
}

#[test]
fn operators_hear_what_came_of_a_verdict() {
    match delivered("0123456789", "S", true, true) {
        CtlResp::Done { message } => assert_eq!(message, "approved [01234567] S"),
        _ => panic!("expected success"),
    }
    match delivered("0123456789", "S", false, true) {
        CtlResp::Done { message } => assert_eq!(message, "denied [01234567] S"),
        _ => panic!("expected success"),
    }
    match delivered("0123456789", "S", true, false) {
        CtlResp::Error { message } => {
            assert_eq!(message, "requester is gone (timed out or disconnected)")
        }
        _ => panic!("expected an error"),
    }
}

#[test]
fn children_get_only_named_variables() {
    let plan = child_plan(&exec(&["/bin/echo", "a", "b"])).unwrap();
    assert_eq!(plan.program, "/bin/echo");
    assert_eq!(plan.args, vec!["a".to_string(), "b".to_string()]);
    assert_eq!(plan.cwd, "/w");
    assert_eq!(
        plan.env,
        vec!["PATH", "HOME", "TERM", "LANG", "USER", "SHELL", "TMPDIR", "EDITOR"]
    );
    let mut net = exec(&[]);
    net.op = Operation::Net { host: "h".into(), port: 1 };
    assert!(child_plan(&net).is_none());
}

#[test]
fn children_report_back() {
    assert!(matches!(exit_message(Some(3)), DaemonMsg::Exit { code: 3 }));
    assert!(matches!(exit_message(None), DaemonMsg::Exit { code: -1 }));
    assert!(matches!(output_message(b"hi", false), DaemonMsg::Stdout { b64 } if b64 == "aGk="));
    assert!(matches!(output_message(b"\xff\xfe", true), DaemonMsg::Stderr { b64 } if b64 == "//4="));
    let (error, exit) = spawn_failed("no such file");
    assert!(matches!(error, DaemonMsg::Error { message } if message == "spawn failed: no such file"));
    assert!(matches!(exit, DaemonMsg::Exit { code: 127 }));
}

#[test]
fn decisions_make_a_log_that_verifies() {
    let mut c = ctx();
    let mut log = String::new();
    let mut notes = Vec::new();
    notes.push(c.handle_submit(exec(&["ls"]), true, 0).note.unwrap());
    let s = c.handle_submit(exec(&["frobnicate"]), true, 0);
    notes.push(match s.note {
        Some(n) => n,
        None => panic!("expected a note"),
    });
    for n in notes {
        let r = c.audit(7, &n.digest, &n.summary, n.tier, &n.decision, &n.rule).unwrap();
        log.push_str(&r.line);
        log.push('\n');
        c.audit.written(r.hash);
    }
    assert_eq!(verify_text(&log).unwrap(), 2);
    assert!(log.contains("\"decision\":\"pending\""));
}

#[test]
fn nonces_are_random() {
    let a = new_nonce();
    assert_eq!(a.len(), 64);
    assert!(a.chars().all(|c| c.is_ascii_hexdigit()));
    assert_ne!(a, new_nonce());
}
