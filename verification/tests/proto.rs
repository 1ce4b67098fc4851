//! Requests, envelopes, the audit log, the policy and the local endpoints.
use gatehouse::daemon::audit::Audit;
use gatehouse::json::{parse, render, Json};
use gatehouse::proto::audit_log::{
    entry_hash, read_lines, verify_read, verify_text, Entry, Reading, VerifyError, GENESIS,
};
use gatehouse::proto::envelope::{ApprovalEnvelope, EnvelopeError, SigScheme};
use gatehouse::proto::ipc::{
    agent_endpoint_path, auth_line, ctl_endpoint_path, line_authorizes, new_token, prefer_tcp,
    resolve_agent_endpoint, resolve_ctl_endpoint, Endpoint, Transport,
};
use gatehouse::proto::paths::{
    agent_sock, audit_path, config_dir, ctl_sock, data_dir, http_info_path, join_path,
    passkeys_path, policy_path, relay_config_path, runtime_dir,
};
use gatehouse::proto::policy::{expand_tilde, file_name, glob_matches, is_opaque_shell, Policy, Rule};
use gatehouse::proto::policy_file::{PolicyError, DEFAULT_POLICY};
use gatehouse::proto::relay::DeviceCred;
use gatehouse::proto::request::{GateRequest, Operation};
use gatehouse::proto::wire::Tier;

fn req(argv: &[&str]) -> GateRequest {
    GateRequest {
        harness: "test".into(),
        session_id: "s1".into(),
        env_allowlist: vec![],
        op: Operation::Exec {
            argv: argv.iter().map(|s| s.to_string()).collect(),
            cwd: "/tmp".into(),
        },
    }
}

#[test]
fn digest_is_stable_across_runs() {
    let a = req(&["git", "push"]);
    let b = req(&["git", "push"]);
    assert_eq!(a.digest().unwrap(), b.digest().unwrap());
}

#[test]
fn digest_changes_with_any_field() {
    let base = req(&["git", "push"]);
    let other_argv = req(&["git", "pull"]);
    assert_ne!(base.digest().unwrap(), other_argv.digest().unwrap());

    let mut other_cwd = base.copy();
    if let Operation::Exec { cwd, .. } = &mut other_cwd.op {
        *cwd = "/home".into();
    }
    assert_ne!(base.digest().unwrap(), other_cwd.digest().unwrap());
}

#[test]
fn canonical_json_is_jcs_sorted() {
    let json = req(&["ls"]).canonical_json().unwrap();
    let env_pos = json.find("env_allowlist").unwrap();
    let harness_pos = json.find("harness").unwrap();
    let op_pos = json.find("\"op\"").unwrap();
    assert!(env_pos < harness_pos && harness_pos < op_pos);
}

#[test]
fn canonical_text_of_each_operation() {
    assert_eq!(
        req(&["ls", "a\"b"]).canonical_json().unwrap(),
        "{\"env_allowlist\":[],\"harness\":\"test\",\"op\":{\"argv\":[\"ls\",\"a\\\"b\"],\"cwd\":\"/tmp\",\"kind\":\"exec\"},\"session_id\":\"s1\"}"
    );
    let mut r = req(&[]);
    r.env_allowlist = vec!["PATH".into()];
    r.op = Operation::FileWrite { path: "/x".into() };
    assert_eq!(
        r.canonical_json().unwrap(),
        "{\"env_allowlist\":[\"PATH\"],\"harness\":\"test\",\"op\":{\"kind\":\"file_write\",\"path\":\"/x\"},\"session_id\":\"s1\"}"
    );
    r.op = Operation::Net { host: "h".into(), port: 443 };
    assert_eq!(
        r.canonical_json().unwrap(),
        "{\"env_allowlist\":[\"PATH\"],\"harness\":\"test\",\"op\":{\"host\":\"h\",\"kind\":\"net\",\"port\":443},\"session_id\":\"s1\"}"
    );
}

#[test]
fn digest_is_the_hexadecimal_sha256_of_the_canonical_text() {
    let r = req(&["git", "push"]);
    let text = r.canonical_json().unwrap();
    let hash = <sha2::Sha256 as sha2::Digest>::digest(text.as_bytes());
    assert_eq!(r.digest().unwrap(), hex::encode(hash));
    assert_eq!(r.digest().unwrap().len(), 64);
}

#[test]
fn summaries_name_the_operation() {
    assert_eq!(req(&["git", "push"]).summary(), "Run `git push` in /tmp");
    let mut r = req(&[]);
    r.op = Operation::FileWrite { path: "/etc/hosts".into() };
    assert_eq!(r.summary(), "Write file /etc/hosts");
    r.op = Operation::Net { host: "example.com".into(), port: 8080 };
    assert_eq!(r.summary(), "Connect to example.com:8080");
}

fn env(digest: &str) -> ApprovalEnvelope {
    ApprovalEnvelope {
        digest: digest.into(),
        nonce: "n1".into(),
        issued_at: 100,
        expires_at: 220,
        key_id: "operator".into(),
        scheme: SigScheme::Unattested,
        sig: String::new(),
    }
}

#[test]
fn rejects_wrong_digest_even_if_unexpired() {
    assert_eq!(env("aaaa").check("bbbb", 150), Err(EnvelopeError::DigestMismatch));
}

#[test]
fn rejects_expired_and_future_envelopes() {
    assert_eq!(env("d").check("d", 300), Err(EnvelopeError::Expired));
    assert_eq!(env("d").check("d", 50), Err(EnvelopeError::NotYetValid));
    assert_eq!(env("d").check("d", 150), Ok(()));
}

#[test]
fn envelope_window_includes_both_ends() {
    assert_eq!(env("d").check("d", 100), Ok(()));
    assert_eq!(env("d").check("d", 220), Ok(()));
    assert_eq!(env("d").check("d", 99), Err(EnvelopeError::NotYetValid));
    assert_eq!(env("d").check("d", 221), Err(EnvelopeError::Expired));
}

#[test]
fn signing_payload_covers_everything_but_the_signature() {
    let mut e = env("d");
    assert_eq!(
        e.signing_payload().unwrap(),
        "{\"digest\":\"d\",\"expires_at\":220,\"issued_at\":100,\"key_id\":\"operator\",\"nonce\":\"n1\",\"scheme\":\"none\"}"
    );
    let before = e.signing_payload().unwrap();
    e.sig = "abcd".into();
    assert_eq!(e.signing_payload().unwrap(), before);
    e.scheme = SigScheme::Webauthn;
    assert_ne!(e.signing_payload().unwrap(), before);
    assert_eq!(SigScheme::P256.name(), "p256");
    assert_eq!(SigScheme::Unattested.label(), "None");
}

/// Build a well-formed two-entry chain.
fn chain() -> Vec<Entry> {
    let mut prev = GENESIS.to_string();
    let mut out = Vec::new();
    for (digest, decision, tier) in [
        ("d1", "allowed", Tier::Allow),
        ("d2", "denied", Tier::AskStrong),
    ] {
        let mut e = Entry {
            ts: 1_700_000_000,
            digest: digest.into(),
            summary: format!("Run `{digest}`"),
            tier,
            decision: decision.into(),
            rule: "r".into(),
            prev: prev.clone(),
            hash: String::new(),
        };
        e.hash = entry_hash(&e).unwrap();
        prev = e.hash.clone();
        out.push(e);
    }
    out
}

fn to_text(entries: &[Entry]) -> String {
    entries.iter().map(|e| e.to_line()).collect::<Vec<_>>().join("\n")
}

#[test]
fn empty_file_ok() {
    assert_eq!(verify_text("").unwrap(), 0);
}

#[test]
fn intact_chain_verifies() {
    assert_eq!(verify_text(&to_text(&chain())).unwrap(), 2);
}

#[test]
fn tampered_body_fails_even_though_linkage_is_intact() {
    let mut entries = chain();
    entries[1].decision = "approved".into();
    assert_eq!(entries[1].prev, entries[0].hash, "linkage still looks fine");
    match verify_text(&to_text(&entries)) {
        Err(VerifyError::HashMismatch { line }) => assert_eq!(line, 2),
        other => panic!("tampered body must fail verification, got {other:?}"),
    }
}

#[test]
fn tampered_first_entry_fails() {
    let mut entries = chain();
    entries[0].summary = "Run `something else`".into();
    match verify_text(&to_text(&entries)) {
        Err(VerifyError::HashMismatch { line }) => assert_eq!(line, 1),
        other => panic!("expected hash mismatch on line 1, got {other:?}"),
    }
}

#[test]
fn broken_linkage_fails() {
    let mut entries = chain();
    entries[1].prev = "0".repeat(64);
    match verify_text(&to_text(&entries)) {
        Err(VerifyError::Broken { line, .. }) => assert_eq!(line, 2),
        other => panic!("expected broken chain, got {other:?}"),
    }
}

#[test]
fn removing_the_first_entry_fails() {
    let entries = chain();
    match verify_text(&to_text(&entries[1..])) {
        Err(VerifyError::Broken { line, expected, .. }) => {
            assert_eq!(line, 1);
            assert_eq!(expected, GENESIS);
        }
        other => panic!("expected broken chain, got {other:?}"),
    }
}

#[test]
fn lines_that_are_no_entries_are_found() {
    match verify_text("\n  \nnot json\n") {
        Err(VerifyError::Json { line, source }) => {
            assert_eq!(line, 3);
            assert_eq!(source, "expected ident at line 1 column 2");
        }
        other => panic!("expected a malformed line, got {other:?}"),
    }
    match verify_text("{\"ts\":1}") {
        Err(VerifyError::Json { line, source }) => {
            assert_eq!(line, 1);
            assert_eq!(source, "missing field `digest`");
        }
        other => panic!("expected a malformed line, got {other:?}"),
    }
}

#[test]
fn errors_are_put_in_words() {
    assert_eq!(EnvelopeError::Expired.message(), "envelope expired");
    assert_eq!(EnvelopeError::NotYetValid.message(), "envelope issued in the future");
    assert_eq!(
        EnvelopeError::DigestMismatch.message(),
        "envelope digest does not match request digest"
    );
    assert_eq!(
        VerifyError::Json { line: 3, source: "missing field `digest`".into() }.message(),
        "json on line 3: missing field `digest`"
    );
    assert_eq!(VerifyError::HashMismatch { line: 12 }.message(), "hash mismatch at line 12");
    let broken = VerifyError::Broken { line: 1, got: "a\"b".into(), expected: "genesis".into() };
    assert_eq!(
        broken.message(),
        "chain broken at line 1: prev=\"a\\\"b\" expected=\"genesis\""
    );
}

#[test]
fn lines_that_were_read_are_verified() {
    let read = |entries: Vec<Entry>| -> Vec<Reading> {
        let mut reads = vec![Reading::Blank];
        for e in entries {
            reads.push(Reading::Entry(e));
            reads.push(Reading::Blank);
        }
        reads
    };
    assert_eq!(verify_read(&read(chain())).unwrap(), chain().len());
    assert_eq!(verify_read(&vec![]).unwrap(), 0);
    assert_eq!(Audit::resume(&read(chain())).last_hash, chain().last().unwrap().hash);
    assert_eq!(Audit::resume(&vec![Reading::Blank]).last_hash, GENESIS);

    let mut broken = read(chain());
    broken[1] = Reading::Fault("trailing characters".into());
    match verify_read(&broken) {
        Err(VerifyError::Json { line, source }) => {
            assert_eq!((line, source.as_str()), (2, "trailing characters"));
        }
        other => panic!("expected a malformed line, got {other:?}"),
    }
    broken.push(Reading::Fault("cut off".into()));
    assert_eq!(Audit::resume(&broken).last_hash, GENESIS);

    let mut entries = chain();
    entries[0].summary = "changed".into();
    match verify_read(&read(entries)) {
        Err(VerifyError::HashMismatch { line }) => assert_eq!(line, 2),
        other => panic!("expected hash mismatch, got {other:?}"),
    }
    let mut entries = chain();
    entries.remove(0);
    match verify_read(&read(entries)) {
        Err(VerifyError::Broken { line, expected, .. }) => {
            assert_eq!((line, expected.as_str()), (2, GENESIS));
        }
        other => panic!("expected broken chain, got {other:?}"),
    }
}

#[test]
fn lines_of_a_log_are_read() {
    let e = &chain()[0];
    let reads = read_lines(&format!("{}\n \n[\n17", e.to_line()));
    assert_eq!(reads.len(), 4);
    assert!(matches!(&reads[0], Reading::Entry(r) if r.hash == e.hash && r.ts == e.ts));
    assert!(matches!(&reads[1], Reading::Blank));
    let cut = serde_json::from_str::<serde_json::Value>("[").unwrap_err().to_string();
    assert!(matches!(&reads[2], Reading::Fault(m) if *m == cut));
    assert!(matches!(&reads[3], Reading::Fault(m) if m == "not an object"));
    let faults = read_lines("[1,2]\n{\"ts\":1,\"digest\":2}");
    assert!(matches!(&faults[0], Reading::Fault(m) if m == "invalid length 2"));
    assert!(matches!(&faults[1], Reading::Fault(m) if m == "invalid field `digest`"));
}

#[test]
fn syntax_errors_say_what_is_wrong() {
    assert_eq!(parse("nul").err().unwrap().message, "EOF while parsing a value at line 1 column 3");
    assert_eq!(parse("{} 1").err().unwrap().message, "trailing characters at line 1 column 4");
}

#[test]
fn blank_lines_and_carriage_returns_do_not_break_the_chain() {
    let entries = chain();
    let text = format!("\r\n{}\r\n\n{}\n", entries[0].to_line(), entries[1].to_line());
    assert_eq!(verify_text(&text).unwrap(), 2);
}

#[test]
fn entry_line_has_its_members_in_order_and_reads_back() {
    let e = &chain()[1];
    let line = e.to_line();
    let start = "{\"ts\":1700000000,\"digest\":\"d2\",\"summary\":\"Run `d2`\",\"tier\":\"ask_strong\",\"decision\":\"denied\",\"rule\":\"r\",\"prev\":\"";
    assert!(line.starts_with(start), "got: {line}");
    let back = Entry::read_line(&line).unwrap();
    assert_eq!(back.hash, e.hash);
    assert_eq!(back.tier, Tier::AskStrong);
    assert_eq!(back.ts, 1_700_000_000);
    assert!(Entry::read_line("{}").is_err());
    assert!(Entry::read_line("17").is_err());
}

#[test]
fn entry_without_a_hash_reads_as_an_empty_one() {
    let j = "{\"ts\":1,\"digest\":\"d\",\"summary\":\"s\",\"tier\":\"ask\",\"decision\":\"x\",\"rule\":\"r\",\"prev\":\"genesis\"}";
    let e = Entry::read_line(j).unwrap();
    assert_eq!(e.hash, "");
    let listed = Entry::read_line("[1,\"d\",\"s\",\"ask\",\"x\",\"r\",\"genesis\"]").unwrap();
    assert_eq!(entry_hash(&e).unwrap(), entry_hash(&listed).unwrap());
    match verify_text(j) {
        Err(VerifyError::HashMismatch { line }) => assert_eq!(line, 1),
        other => panic!("expected hash mismatch, got {other:?}"),
    }
}

#[test]
fn chain_links_and_survives_reopen() {
    let mut log = String::new();
    {
        let mut a = Audit::open(None);
        for (digest, summary, tier, decision, rule) in [
            ("d1", "Run `ls`", Tier::Allow, "allowed", "r1"),
            ("d2", "Run `git push`", Tier::AskStrong, "pending", "r2"),
        ] {
            let r = a.record(1, digest, summary, tier, decision, rule).unwrap();
            log.push_str(&r.line);
            log.push('\n');
            a.written(r.hash);
        }
    }
    {
        let mut a = Audit::open(Some(&log));
        let r = a.record(2, "d2", "Run `git push`", Tier::AskStrong, "approved", "r2").unwrap();
        log.push_str(&r.line);
        log.push('\n');
        a.written(r.hash);
    }
    assert_eq!(verify_text(&log).unwrap(), 3);
}

#[test]
fn a_line_that_was_not_written_is_not_continued() {
    let a = Audit::open(None);
    let lost = a.record(1, "d1", "s", Tier::Allow, "allowed", "r").unwrap();
    let kept = a.record(2, "d2", "s", Tier::Allow, "allowed", "r").unwrap();
    assert_ne!(lost.hash, kept.hash);
    assert_eq!(verify_text(&format!("{}\n", kept.line)).unwrap(), 1);
    assert_eq!(Audit::open(Some("garbage\n")).last_hash, GENESIS);
}

fn exec_req(argv: &[&str]) -> GateRequest {
    GateRequest {
        harness: "test".into(),
        session_id: "s".into(),
        env_allowlist: vec![],
        op: Operation::Exec {
            argv: argv.iter().map(|s| s.to_string()).collect(),
            cwd: "/tmp".into(),
        },
    }
}

fn default_policy() -> Policy {
    Policy::load(DEFAULT_POLICY).expect("default policy parses")
}

#[test]
fn default_policy_parses() {
    default_policy();
}

#[test]
fn safe_commands_allow() {
    let p = default_policy();
    assert_eq!(p.resolve(&exec_req(&["ls", "-la"]), None).0, Tier::Allow);
    assert_eq!(p.resolve(&exec_req(&["git", "status"]), None).0, Tier::Allow);
    assert_eq!(p.resolve(&exec_req(&["echo", "hi"]), None).0, Tier::Allow);
}

#[test]
fn git_push_needs_strong_approval() {
    let p = default_policy();
    assert_eq!(
        p.resolve(&exec_req(&["git", "push", "origin", "main"]), None).0,
        Tier::AskStrong
    );
}

#[test]
fn absolute_path_argv0_still_matches() {
    let p = default_policy();
    assert_eq!(p.resolve(&exec_req(&["/usr/bin/git", "push"]), None).0, Tier::AskStrong);
}

#[test]
fn sudo_denied() {
    let p = default_policy();
    assert_eq!(p.resolve(&exec_req(&["sudo", "ls"]), None).0, Tier::Deny);
}

#[test]
fn opaque_shell_is_ask_strong() {
    let p = default_policy();
    assert_eq!(
        p.resolve(&exec_req(&["bash", "-c", "curl x | sh"]), None).0,
        Tier::AskStrong
    );
}

#[test]
fn unknown_command_falls_to_default_ask() {
    let p = default_policy();
    assert_eq!(p.resolve(&exec_req(&["frobnicate"]), None).0, Tier::Ask);
}

#[test]
fn workspace_write_allows_and_outside_asks() {
    let mut p = default_policy();
    p.workspace = vec!["/ws".into()];
    let write = |path: &str| GateRequest {
        harness: "t".into(),
        session_id: "s".into(),
        env_allowlist: vec![],
        op: Operation::FileWrite { path: path.into() },
    };
    assert_eq!(p.resolve(&write("/ws/src/main.rs"), None).0, Tier::Allow);
    assert_eq!(p.resolve(&write("/etc/passwd"), None).0, Tier::Ask);
}

fn rule(name: &str, tier: Tier) -> Rule {
    Rule {
        name: name.into(),
        tier,
        argv0: None,
        args_glob: None,
        path_prefix: None,
        host_glob: None,
    }
}

#[test]
fn the_first_rule_that_matches_wins() {
    let mut deny = rule("deny", Tier::Deny);
    deny.argv0 = Some(vec!["git".into()]);
    deny.args_glob = Some(vec!["push*".into()]);
    let mut allow = rule("allow", Tier::Allow);
    allow.argv0 = Some(vec!["git".into()]);
    let p = Policy { default_tier: Tier::Ask, workspace: vec![], rules: vec![deny, allow] };
    assert_eq!(p.resolve(&exec_req(&["git", "push"]), None), (Tier::Deny, "deny".to_string()));
    assert_eq!(p.resolve(&exec_req(&["git", "log"]), None), (Tier::Allow, "allow".to_string()));
    assert_eq!(p.resolve(&exec_req(&["ls"]), None), (Tier::Ask, "default".to_string()));
    assert_eq!(
        p.resolve(&exec_req(&["/bin/sh", "-c", "x"]), None),
        (Tier::AskStrong, "builtin: opaque shell command".to_string())
    );
}

#[test]
fn rules_match_only_their_kind() {
    let net = Operation::Net { host: "api.example.com".into(), port: 443 };
    let write = Operation::FileWrite { path: "/home/u/.ssh/id".into() };
    let exec = exec_req(&["cat"]).op;
    let mut host = rule("h", Tier::Allow);
    host.host_glob = Some("*.example.com".into());
    assert!(host.matches(&net, None));
    assert!(!host.matches(&write, None) && !host.matches(&exec, None));
    let mut path = rule("p", Tier::Allow);
    path.path_prefix = Some("~/.ssh/".into());
    assert!(path.matches(&write, Some("/home/u")));
    assert!(!path.matches(&write, Some("/root")) && !path.matches(&write, None));
    let bare = rule("bare", Tier::Allow);
    assert!(!bare.matches(&net, None) && !bare.matches(&write, None) && !bare.matches(&exec, None));
    let mut both = rule("both", Tier::Allow);
    both.argv0 = Some(vec!["cat".into()]);
    assert!(both.matches(&exec, None));
    assert!(!both.matches(&exec_req(&[]).op, None));
    both.host_glob = Some("*".into());
    assert!(!both.matches(&exec, None) && !both.matches(&net, None));
}

#[test]
fn given_glob_results_decide() {
    let mut r = rule("r", Tier::Ask);
    r.args_glob = Some(vec!["[".into()]);
    assert!(r.matches_given(&exec_req(&["x"]).op, None, true));
    assert!(!r.matches_given(&exec_req(&["x"]).op, None, false));
    assert!(!r.matches(&exec_req(&["x", "["]).op, None), "a malformed glob covers nothing");
}

#[test]
fn globs_are_matched_as_globs() {
    assert!(glob_matches("push*", "push origin"));
    assert!(glob_matches("*", ""));
    assert!(!glob_matches("push", "push origin"));
    assert!(!glob_matches("[", "["));
}

#[test]
fn program_names_lose_their_directories() {
    assert_eq!(file_name("/usr/bin/git"), "git");
    assert_eq!(file_name("git/"), "git");
    assert_eq!(file_name("a/./."), "a");
    assert_eq!(file_name(".."), "");
    assert_eq!(file_name("/"), "");
    assert_eq!(file_name(""), "");
    assert!(is_opaque_shell(&vec!["/bin/bash".into(), "-c".into(), "x".into()]));
    assert!(!is_opaque_shell(&vec!["bash".into(), "x".into()]));
    assert!(!is_opaque_shell(&vec![]));
}

#[test]
fn tilde_is_expanded_only_in_front() {
    assert_eq!(expand_tilde("~/x", Some("/home/u")), "/home/u/x");
    assert_eq!(expand_tilde("~/x", None), "~/x");
    assert_eq!(expand_tilde("/a/~/x", Some("/home/u")), "/a/~/x");
}

#[test]
fn policy_files_are_read_and_refused() {
    let p = Policy::load(
        "workspace = [\"/ws\"]\n[[rules]]\nname = \"n\"\ntier = \"ask_strong\"\nargv0 = [\"a\"]\nhost_glob = \"h\"\n",
    )
    .unwrap();
    assert_eq!(p.default_tier, Tier::Ask);
    assert_eq!(p.workspace, vec!["/ws".to_string()]);
    assert_eq!(p.rules[0].tier, Tier::AskStrong);
    assert_eq!(p.rules[0].argv0, Some(vec!["a".to_string()]));
    assert_eq!(p.rules[0].args_glob, None);
    assert_eq!(p.rules[0].host_glob, Some("h".to_string()));
    assert_eq!(Policy::load("").unwrap().rules.len(), 0);
    let syntax = toml::from_str::<toml::Value>("= 1").unwrap_err().to_string();
    match Policy::load("= 1") {
        Err(PolicyError::Syntax(m)) => assert_eq!(m, syntax),
        other => panic!("expected a syntax error, got {other:?}"),
    }
    for (text, fault) in [
        ("default_tier = \"never\"", "`default_tier` is not a tier"),
        ("workspace = [1]", "`workspace` is not a list of strings"),
        ("rules = 1", "`rules` is not a list"),
        ("rules = [1]", "rule 1: not a table"),
        ("[[rules]]\ntier = \"ask\"", "rule 1: missing field `name`"),
        ("rules = [[1]]", "rule 1: `name` is not a string"),
        ("rules = [[\"a\", \"ask\"], [\"n\"]]", "rule 2: missing field `tier`"),
        ("rules = [[\"n\", \"never\"]]", "rule 1: `tier` is not a tier"),
        ("rules = [[\"n\", \"ask\", \"a\"]]", "rule 1: `argv0` is not a list of strings"),
        ("rules = [[\"n\", \"ask\", [], [1]]]", "rule 1: `args_glob` is not a list of strings"),
        ("rules = [[\"n\", \"ask\", [], [], 1]]", "rule 1: `path_prefix` is not a string"),
        ("rules = [[\"n\", \"ask\", [], [], \"p\", 1]]", "rule 1: `host_glob` is not a string"),
    ] {
        match Policy::load(text) {
            Err(PolicyError::Shape(m)) => assert_eq!(m, fault),
            other => panic!("expected a malformed policy, got {other:?}"),
        }
    }
    assert_eq!(Policy::load("rules = 1").unwrap_err().message(), "`rules` is not a list");
}

#[test]
fn rules_are_read_by_position_too() {
    let p = Policy::load("rules = [[\"no-sudo\", \"deny\", [\"sudo\"]]]").unwrap();
    assert_eq!(p.rules.len(), 1);
    assert_eq!((p.rules[0].name.as_str(), p.rules[0].tier), ("no-sudo", Tier::Deny));
    assert_eq!(p.rules[0].argv0, Some(vec!["sudo".to_string()]));
    assert_eq!(p.rules[0].args_glob, None);
    assert_eq!(p.rules[0].host_glob, None);
    assert_eq!(p.resolve(&req(&["sudo", "ls"]), None), (Tier::Deny, "no-sudo".to_string()));
    let p = Policy::load("rules = [[\"n\", \"ask\", [], [], \"/p\", \"h\", 7]]").unwrap();
    assert_eq!(p.rules[0].path_prefix, Some("/p".to_string()));
    assert_eq!(p.rules[0].host_glob, Some("h".to_string()));
}

#[test]
fn tiers_have_names_and_labels() {
    assert_eq!(Tier::AskStrong.name(), "ask_strong");
    assert_eq!(Tier::AskStrong.label(), "ask-strong");
    for t in [Tier::Allow, Tier::Ask, Tier::AskStrong, Tier::Deny] {
        assert_eq!(Tier::named(t.name()), Some(t));
    }
    assert_eq!(Tier::named("ask-strong"), None);
}

#[test]
fn paths_lie_below_their_directories() {
    assert_eq!(runtime_dir(None, "/home/u"), "/home/u/.gatehouse/run");
    assert_eq!(runtime_dir(Some("/r"), "/home/u"), "/r");
    assert_eq!(agent_sock("/r"), "/r/agent.sock");
    assert_eq!(ctl_sock("/r/"), "/r/ctl.sock");
    assert_eq!(http_info_path("/r"), "/r/http.json");
    assert_eq!(config_dir(None, "/home/u/.config"), "/home/u/.config/gatehouse");
    assert_eq!(data_dir(Some("/d"), "/x"), "/d");
    assert_eq!(policy_path("/c"), "/c/policy.toml");
    assert_eq!(audit_path("/d"), "/d/audit.jsonl");
    assert_eq!(passkeys_path("/d"), "/d/passkeys.json");
    assert_eq!(relay_config_path("/d"), "/d/relay/config.json");
    assert_eq!(join_path("", "x"), "x");
    assert_eq!(agent_endpoint_path("/r"), "/r/agent.endpoint.json");
    assert_eq!(ctl_endpoint_path("/r"), "/r/ctl.endpoint.json");
}

#[test]
fn endpoints_are_shown_without_their_token() {
    let t = Endpoint::tcp("127.0.0.1", 4000, "secret");
    assert_eq!(t.display(), "tcp://127.0.0.1:4000/****");
    assert_eq!(Endpoint::unix("/r/agent.sock").display(), "/r/agent.sock");
    let empty = Endpoint { transport: Transport::Tcp, path: None, host: None, port: None, token: None };
    assert_eq!(empty.display(), "tcp://127.0.0.1:0/****");
}

#[test]
fn endpoints_are_resolved_in_order() {
    let advertised = resolve_agent_endpoint("/r", Some(Endpoint::tcp("h", 1, "t")), true, true);
    assert_eq!(advertised.unwrap().host, Some("h".to_string()));
    assert_eq!(
        resolve_agent_endpoint("/r", None, true, true).unwrap().path,
        Some("/r/agent.sock".to_string())
    );
    assert_eq!(
        resolve_ctl_endpoint("/r", None, true, false).unwrap_err(),
        "no ctl endpoint at /r/ctl.endpoint.json (is gatehoused running?)"
    );
    assert!(resolve_agent_endpoint("/r", None, false, true).is_err());
}

#[test]
fn tcp_clients_present_their_token_in_the_first_line() {
    assert_eq!(auth_line("t"), "AUTH t");
    assert!(line_authorizes("AUTH t\r\n", "t"));
    assert!(line_authorizes("AUTH t", "t"));
    assert!(!line_authorizes("AUTH t2\n", "t"));
    assert!(!line_authorizes("auth t\n", "t"));
    assert_eq!(new_token(255, 16), "ghff10");
    assert!(prefer_tcp(Some("TcP"), false));
    assert!(prefer_tcp(None, true));
    assert!(!prefer_tcp(Some("unix"), false));
}

#[test]
fn device_credentials_know_their_phone_address() {
    let mut c = DeviceCred {
        device_id: "dev_1".into(),
        token: "w".into(),
        endpoint: "https://r:1".into(),
        rp_id: "r".into(),
        origin: "https://r//".into(),
        phone_token: Some("p".into()),
    };
    assert_eq!(c.phone_url(), Some("https://r/?t=p&d=dev_1".to_string()));
    let cfg = c.as_relay_config();
    assert_eq!(cfg.phone_token, "p");
    assert_eq!(cfg.daemon_auth, Some("token".to_string()));
    c.phone_token = None;
    assert_eq!(c.phone_url(), None);
    assert_eq!(c.as_relay_config().phone_token, "");
}

#[test]
fn json_keeps_order_and_reads_back() {
    let text = "{\"b\":[1,-2,true,null],\"a\":{\"x\":\"é\\n\"}}";
    let j = parse(text).unwrap();
    assert_eq!(render(&j), text);
    assert!(parse("{").is_err());
    assert!(matches!(j.get("a").unwrap().get_text("x"), Some(t) if t == "é\n"));
    assert!(j.get("c").is_none());
    let changed = j.with_inner("a", "x", Json::Null).unwrap();
    assert_eq!(render(&changed), "{\"b\":[1,-2,true,null],\"a\":{\"x\":null}}");
    assert!(j.with_inner("b", "x", Json::Null).is_none());
    assert_eq!(render(&j.copy()), text);
}
