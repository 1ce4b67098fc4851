//! The hook of a harness that asks before it uses a tool: the tool call comes in as JSON, and the
//! permission decision goes out as JSON.
//!
//! This is the *advisory* mode: the harness still runs the tool itself after an "allow".
use vstd::prelude::*;
use vstd::string::*;

use crate::json::{lemma_object_view, member, members_view, text, Json, JsonSpec, Member};
use crate::proto::request::{GateRequest, Operation, OperationSpec, RequestSpec};
use crate::proto::wire::{DaemonMsg, DaemonMsgSpec, DecisionStatus};
use crate::text::{contains_any, first_chars, has_any, opt_text, same, take_chars, texts};

verus! {

/// Shell syntax that makes a command more than a plain list of arguments: pipes, redirection,
/// substitution, chaining. A command with any of these is submitted as an opaque `sh -c`.
pub const SHELL_META: &'static str = "|;&><$`()\n{}";

/// The words that `shell_words::split` finds in a command, if its quotes are closed.
pub uninterp spec fn shell_split(cmd: Seq<char>) -> Option<Seq<Seq<char>>>;

/// What an optional list of strings says.
pub open spec fn opt_words(words: Option<Vec<String>>) -> Option<Seq<Seq<char>>> {
    match words {
        Some(w) => Some(texts(w@)),
        None => None,
    }
}

/// `shell_words::split`: the words of a command as a shell would split them, which depend on the
/// command alone; nothing where a quote is not closed.
#[verifier::external_body]
fn split_words(cmd: &str) -> (r: Option<Vec<String>>)
    ensures
        opt_words(r) == shell_split(cmd@),
{
    shell_words::split(cmd).ok()
}

/// A command as one string for a shell.
pub open spec fn opaque_op(cmd: Seq<char>, cwd: Seq<char>) -> OperationSpec {
    OperationSpec::Exec { argv: seq!["sh"@, "-c"@, cmd], cwd }
}

/// The operation of a command, given the words it splits into: those words where it holds no shell
/// syntax and at least one word, else the string for a shell.
pub open spec fn classified(
    cmd: Seq<char>,
    cwd: Seq<char>,
    words: Option<Seq<Seq<char>>>,
) -> OperationSpec {
    if has_any(cmd, SHELL_META@) {
        opaque_op(cmd, cwd)
    } else {
        match words {
            Some(argv) if argv.len() > 0 => OperationSpec::Exec { argv, cwd },
            _ => opaque_op(cmd, cwd),
        }
    }
}

/// A command with shell syntax is always submitted as an opaque string for a shell, which the policy
/// asks about strongly unless a rule says otherwise.
pub proof fn law_shell_syntax_stays_opaque(
    cmd: Seq<char>,
    cwd: Seq<char>,
    words: Option<Seq<Seq<char>>>,
)
    requires
        has_any(cmd, SHELL_META@),
    ensures
        classified(cmd, cwd, words) == opaque_op(cmd, cwd),
        crate::proto::policy::opaque_shell(seq!["sh"@, "-c"@, cmd]),
{
    let argv = seq!["sh"@, "-c"@, cmd];
    reveal_strlit("sh");
    reveal_strlit(".");
    reveal_strlit("..");
    let s = "sh"@;
    assert(s =~= seq!['s', 'h']);
    crate::text::lemma_split_append(Seq::empty(), s, '/');
    assert(Seq::<char>::empty() + s =~= s);
    let parts = crate::text::split_on(s, '/');
    assert(parts =~= seq![s]);
    reveal_with_fuel(crate::proto::policy::last_named, 2);
    assert(parts[0].len() == 2);
    assert("."@.len() == 1);
    assert(parts[0][0] == 's');
    assert(".."@[0] == '.');
    assert(crate::proto::policy::base_name(s) == s);
    assert(argv[1] == "-c"@);
}

fn opaque(cmd: &str, cwd: &str) -> (r: Operation)
    ensures
        r@ == opaque_op(cmd@, cwd@),
{
    let mut argv: Vec<String> = Vec::new();
    argv.push("sh".to_owned());
    argv.push("-c".to_owned());
    argv.push(cmd.to_owned());
    assert(texts(argv@) =~= seq!["sh"@, "-c"@, cmd@]);
    Operation::Exec { argv, cwd: cwd.to_owned() }
}

/// The operation of a command, given the words it splits into.
pub fn command_to_op_given(cmd: &str, cwd: &str, words: Option<Vec<String>>) -> (r: Operation)
    ensures
        r@ == classified(cmd@, cwd@, opt_words(words)),
{
    if contains_any(cmd, SHELL_META) {
        return opaque(cmd, cwd);
    }
    match words {
        Some(argv) => if argv.len() > 0 {
            Operation::Exec { argv, cwd: cwd.to_owned() }
        } else {
            opaque(cmd, cwd)
        },
        None => opaque(cmd, cwd),
    }
}

/// The operation of a command. A plain command becomes a list of arguments, so that the policy can
/// match its program and arguments; one with shell syntax stays opaque. This only classifies:
/// the harness runs the command, not the daemon.
pub fn command_to_op(cmd: &str, cwd: &str) -> (r: Operation)
    ensures
        r@ == classified(cmd@, cwd@, shell_split(cmd@)),
{
    let words = split_words(cmd);
    command_to_op_given(cmd, cwd, words)
}

/// What to do about a tool call.
pub enum HookStep {
    /// Answer at once, with a decision and a reason.
    Emit { decision: String, reason: String },
    /// Ask the daemon.
    Submit(GateRequest),
}

/// What to do about a tool call.
#[verifier::ext_equal]
pub enum HookSpec {
    Emit { decision: Seq<char>, reason: Seq<char> },
    Submit(RequestSpec),
}

impl View for HookStep {
    type V = HookSpec;

    open spec fn view(&self) -> HookSpec {
        match self {
            HookStep::Emit { decision, reason } => HookSpec::Emit {
                decision: decision@,
                reason: reason@,
            },
            HookStep::Submit(r) => HookSpec::Submit(r@),
        }
    }
}

/// The text under a key, or another where there is none.
pub open spec fn text_or(m: JsonSpec, key: Seq<char>, other: Seq<char>) -> Seq<char> {
    match m.text_member(key) {
        Some(t) => t,
        None => other,
    }
}

/// The text under a key of the tool's input.
pub open spec fn input_text(hook: JsonSpec, key: Seq<char>) -> Option<Seq<char>> {
    match hook.member("tool_input"@) {
        Some(input) => input.text_member(key),
        None => None,
    }
}

/// Whether a tool writes a file.
pub open spec fn writes_files(tool: Seq<char>) -> bool {
    tool == "Write"@ || tool == "Edit"@ || tool == "MultiEdit"@ || tool == "NotebookEdit"@
}

/// The path that a tool writes to.
pub open spec fn written_path(hook: JsonSpec) -> Option<Seq<char>> {
    match input_text(hook, "file_path"@) {
        Some(p) => Some(p),
        None => input_text(hook, "notebook_path"@),
    }
}

/// Whether a tool of a harness runs a command.
pub open spec fn runs_commands(harness: Seq<char>, tool: Seq<char>) -> bool {
    tool == "Bash"@ || (harness == "codex"@ && tool == "apply_patch"@)
}

/// The request that a tool call of a harness comes to.
pub open spec fn hook_request(harness: Seq<char>, hook: JsonSpec, op: OperationSpec) -> HookSpec {
    HookSpec::Submit(
        RequestSpec {
            harness,
            session_id: text_or(hook, "session_id"@, harness),
            env_allowlist: Seq::empty(),
            op,
        },
    )
}

/// What to do about a tool call of a harness, given the words that a command splits into: commands
/// and file writes are put to the daemon, everything else is left to the harness.
pub open spec fn hook_step(
    harness: Seq<char>,
    hook: JsonSpec,
    words: Option<Seq<Seq<char>>>,
) -> HookSpec {
    let tool = text_or(hook, "tool_name"@, Seq::empty());
    let cwd = text_or(hook, "cwd"@, "."@);
    if runs_commands(harness, tool) {
        match input_text(hook, "command"@) {
            Some(cmd) => hook_request(harness, hook, classified(cmd, cwd, words)),
            None => HookSpec::Emit {
                decision: "ask"@,
                reason: "gatehouse: "@ + tool + " hook without a command"@,
            },
        }
    } else if writes_files(tool) {
        match written_path(hook) {
            Some(path) => hook_request(harness, hook, OperationSpec::FileWrite { path }),
            None => HookSpec::Emit {
                decision: "ask"@,
                reason: "gatehouse: file tool without a path"@,
            },
        }
    } else {
        HookSpec::Emit {
            decision: "ask"@,
            reason: "gatehouse: tool "@ + tool + " not gated"@,
        }
    }
}

/// The words of the command in a tool call, if it holds one.
pub open spec fn hook_words(hook: JsonSpec) -> Option<Seq<Seq<char>>> {
    match input_text(hook, "command"@) {
        Some(cmd) => shell_split(cmd),
        None => None,
    }
}

fn get_text_or(j: &Json, key: &str, other: &str) -> (r: String)
    ensures
        r@ == text_or(j@, key@, other@),
{
    match j.get_text(key) {
        Some(t) => t.clone(),
        None => other.to_owned(),
    }
}

fn get_input_text(j: &Json, key: &str) -> (r: Option<String>)
    ensures
        crate::text::opt_text(r) == input_text(j@, key@),
{
    match j.get("tool_input") {
        Some(input) => match input.get_text(key) {
            Some(t) => Some(t.clone()),
            None => None,
        },
        None => None,
    }
}

fn ask(reason: &str) -> (r: HookStep)
    ensures
        r@ == (HookSpec::Emit { decision: "ask"@, reason: reason@ }),
{
    HookStep::Emit { decision: "ask".to_owned(), reason: reason.to_owned() }
}

/// What to do about a tool call of a harness, given the words that its command splits into.
pub fn classify_given(harness: &str, hook: &Json, words: Option<Vec<String>>) -> (r: HookStep)
    ensures
        r@ == hook_step(harness@, hook@, opt_words(words)),
{
    proof {
        reveal_strlit("");
        assert(""@ =~= Seq::empty());
    }
    let tool = get_text_or(hook, "tool_name", "");
    let cwd = get_text_or(hook, "cwd", ".");
    let session_id = get_text_or(hook, "session_id", harness);
    let t = tool.as_str();
    let op = if same(t, "Bash") || (same(harness, "codex") && same(t, "apply_patch")) {
        match get_input_text(hook, "command") {
            Some(cmd) => command_to_op_given(cmd.as_str(), cwd.as_str(), words),
            None => {
                let mut reason = "gatehouse: ".to_owned();
                reason.append(t);
                reason.append(" hook without a command");
                return ask(reason.as_str());
            },
        }
    } else if same(t, "Write") || same(t, "Edit") || same(t, "MultiEdit") || same(
        t,
        "NotebookEdit",
    ) {
        let path = match get_input_text(hook, "file_path") {
            Some(p) => Some(p),
            None => get_input_text(hook, "notebook_path"),
        };
        match path {
            Some(path) => Operation::FileWrite { path },
            None => {
                return ask("gatehouse: file tool without a path");
            },
        }
    } else {
        let mut reason = "gatehouse: tool ".to_owned();
        reason.append(t);
        reason.append(" not gated");
        return ask(reason.as_str());
    };
    let env_allowlist: Vec<String> = Vec::new();
    assert(texts(env_allowlist@) =~= Seq::empty());
    HookStep::Submit(GateRequest { harness: harness.to_owned(), session_id, env_allowlist, op })
}

/// What to do about a tool call of a harness: commands and file writes are put to the daemon,
/// everything else is left to the harness.
pub fn classify(harness: &str, hook: &Json) -> (r: HookStep)
    ensures
        r@ == hook_step(harness@, hook@, hook_words(hook@)),
{
    let words = match get_input_text(hook, "command") {
        Some(cmd) => split_words(cmd.as_str()),
        None => None,
    };
    classify_given(harness, hook, words)
}

/// How asking the daemon ends, as far as one message says.
pub open spec fn asked_end(msg: DaemonMsgSpec) -> Option<
    Result<(DecisionStatus, Seq<char>), Seq<char>>,
> {
    match msg {
        DaemonMsgSpec::Decision { digest, status, .. } => if status == DecisionStatus::Pending {
            None
        } else {
            Some(Ok((status, digest)))
        },
        DaemonMsgSpec::Error { message } => Some(Err("daemon error: "@ + message)),
        _ => None,
    }
}

/// How asking the daemon ends, as far as one message says: with a decision and the digest it is for,
/// or with a failure; nothing while the daemon has not decided.
pub fn on_daemon_message(msg: &DaemonMsg) -> (r: Option<Result<(DecisionStatus, String), String>>)
    ensures
        (match r {
            Some(end) => Some(outcome_view(end)),
            None => None,
        }) == asked_end(msg@),
        match msg@ {
            DaemonMsgSpec::Decision { digest, status, .. } => if status == DecisionStatus::Pending {
                r is None
            } else {
                r matches Some(Ok((s, d))) && s == status && d@ == digest
            },
            DaemonMsgSpec::Error { message } => r matches Some(Err(m)) && m@ == "daemon error: "@
                + message,
            _ => r is None,
        },
{
    match msg {
        DaemonMsg::Decision { digest, status, .. } => if *status == DecisionStatus::Pending {
            None
        } else {
            Some(Ok((*status, digest.clone())))
        },
        DaemonMsg::Error { message } => {
            let mut out = "daemon error: ".to_owned();
            out.append(message.as_str());
            Some(Err(out))
        },
        _ => None,
    }
}

/// What the harness is told about the end of asking the daemon. Where the daemon cannot be reached,
/// the harness asks by itself.
pub open spec fn verdict_of(
    status: Result<(DecisionStatus, Seq<char>), Seq<char>>,
    summary: Seq<char>,
) -> (Seq<char>, Seq<char>) {
    match status {
        Ok((DecisionStatus::Allowed, digest)) => (
            "allow"@,
            "gatehouse approved ["@ + first_chars(digest, 8) + "] "@ + summary,
        ),
        Ok((DecisionStatus::Denied, digest)) => (
            "deny"@,
            "gatehouse denied ["@ + first_chars(digest, 8) + "] "@ + summary,
        ),
        Ok((DecisionStatus::Pending, _)) => (
            "ask"@,
            "gatehouse: unexpected non-terminal decision"@,
        ),
        Err(m) => ("ask"@, "gatehouse unreachable: "@ + m),
    }
}

/// What the end of asking the daemon says.
pub open spec fn outcome_view(r: Result<(DecisionStatus, String), String>) -> Result<
    (DecisionStatus, Seq<char>),
    Seq<char>,
> {
    match r {
        Ok((s, d)) => Ok((s, d@)),
        Err(m) => Err(m@),
    }
}

/// What the harness is told about the end of asking the daemon.
pub fn verdict(outcome: &Result<(DecisionStatus, String), String>, summary: &str) -> (r: (
    String,
    String,
))
    ensures
        (r.0@, r.1@) == verdict_of(outcome_view(*outcome), summary@),
{
    match outcome {
        Ok((DecisionStatus::Allowed, digest)) => {
            let mut reason = "gatehouse approved [".to_owned();
            reason.append(take_chars(digest.as_str(), 8).as_str());
            reason.append("] ");
            reason.append(summary);
            ("allow".to_owned(), reason)
        },
        Ok((DecisionStatus::Denied, digest)) => {
            let mut reason = "gatehouse denied [".to_owned();
            reason.append(take_chars(digest.as_str(), 8).as_str());
            reason.append("] ");
            reason.append(summary);
            ("deny".to_owned(), reason)
        },
        Ok((DecisionStatus::Pending, _)) => (
            "ask".to_owned(),
            "gatehouse: unexpected non-terminal decision".to_owned(),
        ),
        Err(m) => {
            let mut reason = "gatehouse unreachable: ".to_owned();
            reason.append(m.as_str());
            ("ask".to_owned(), reason)
        },
    }
}

/// The answer to the harness, as JSON.
pub open spec fn hook_output(decision: Seq<char>, reason: Seq<char>) -> JsonSpec {
    JsonSpec::Object(
        seq![
            (
                "hookSpecificOutput"@,
                JsonSpec::Object(
                    seq![
                        ("hookEventName"@, JsonSpec::Text("PreToolUse"@)),
                        ("permissionDecision"@, JsonSpec::Text(decision)),
                        ("permissionDecisionReason"@, JsonSpec::Text(reason)),
                    ],
                ),
            ),
        ],
    )
}

/// The answer to the harness, as JSON.
pub fn emit(decision: &str, reason: &str) -> (r: Json)
    ensures
        r@ == hook_output(decision@, reason@),
{
    let mut inner: Vec<Member> = Vec::new();
    inner.push(member("hookEventName", text("PreToolUse")));
    inner.push(member("permissionDecision", text(decision)));
    inner.push(member("permissionDecisionReason", text(reason)));
    proof {
        lemma_object_view(inner);
        assert(members_view(inner@) =~= hook_output(
            decision@,
            reason@,
        )->Object_0[0].1->Object_0);
    }
    let mut out: Vec<Member> = Vec::new();
    out.push(member("hookSpecificOutput", Json::Object(inner)));
    proof {
        lemma_object_view(out);
        assert(members_view(out@) =~= hook_output(decision@, reason@)->Object_0);
    }
    Json::Object(out)
}

/// The answer to a harness that has no form of its own, as JSON.
pub open spec fn generic_output(decision: Seq<char>, reason: Seq<char>) -> JsonSpec {
    JsonSpec::Object(seq![("decision"@, JsonSpec::Text(decision)), ("reason"@, JsonSpec::Text(reason))])
}

fn emit_generic(decision: &str, reason: &str) -> (r: Json)
    ensures
        r@ == generic_output(decision@, reason@),
{
    let mut out: Vec<Member> = Vec::new();
    out.push(member("decision", text(decision)));
    out.push(member("reason", text(reason)));
    proof {
        lemma_object_view(out);
        assert(members_view(out@) =~= generic_output(decision@, reason@)->Object_0);
    }
    Json::Object(out)
}

/// How a harness is answered.
pub struct Answer {
    /// What is printed.
    pub out: Option<Json>,
    /// What is printed as an error.
    pub err: Option<String>,
    /// The exit code.
    pub code: u8,
}

/// How a harness is answered.
#[verifier::ext_equal]
pub struct AnswerSpec {
    pub out: Option<JsonSpec>,
    pub err: Option<Seq<char>>,
    pub code: u8,
}

impl View for Answer {
    type V = AnswerSpec;

    open spec fn view(&self) -> AnswerSpec {
        AnswerSpec {
            out: match self.out {
                Some(j) => Some(j@),
                None => None,
            },
            err: opt_text(self.err),
            code: self.code,
        }
    }
}

/// The exit code that blocks the tool, for a harness that goes by it.
pub const BLOCKED: u8 = 2;

/// How a harness is answered.
pub open spec fn answer_of(harness: Seq<char>, decision: Seq<char>, reason: Seq<char>) -> AnswerSpec {
    let code: u8 = if decision == "deny"@ {
        BLOCKED
    } else {
        0
    };
    if harness == "codex"@ {
        AnswerSpec { out: None, err: Some(reason), code }
    } else if harness == "generic"@ {
        AnswerSpec { out: Some(generic_output(decision, reason)), err: None, code }
    } else {
        AnswerSpec { out: Some(hook_output(decision, reason)), err: None, code: 0 }
    }
}

/// How a harness is answered: `codex` goes by the exit code alone, `generic` by the exit code and
/// plain JSON, every other by the answer of [`emit`].
pub fn answer(harness: &str, decision: &str, reason: &str) -> (r: Answer)
    ensures
        r@ == answer_of(harness@, decision@, reason@),
        r.code == (if (harness@ == "codex"@ || harness@ == "generic"@) && decision@ == "deny"@ {
            BLOCKED
        } else {
            0
        }),
        harness@ == "codex"@ ==> r.out is None && r.err is Some && r.err->0@ == reason@,
        harness@ != "codex"@ ==> {
            &&& r.err is None
            &&& r.out is Some
            &&& r.out->0@ == (if harness@ == "generic"@ {
                generic_output(decision@, reason@)
            } else {
                hook_output(decision@, reason@)
            })
        },
{
    let code: u8 = if same(decision, "deny") {
        BLOCKED
    } else {
        0
    };
    proof {
        reveal_strlit("codex");
        reveal_strlit("generic");
        assert("codex"@.len() != "generic"@.len());
    }
    if same(harness, "codex") {
        Answer { out: None, err: Some(reason.to_owned()), code }
    } else if same(harness, "generic") {
        Answer { out: Some(emit_generic(decision, reason)), err: None, code }
    } else {
        Answer { out: Some(emit(decision, reason)), err: None, code: 0 }
    }
}

}
