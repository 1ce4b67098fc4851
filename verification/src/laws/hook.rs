//! Tool calls of a harness: what becomes of them and what the harness is told.
use vstd::prelude::*;
use vstd::string::*;

use crate::gate::hook::{
    answer_of, classified, generic_output, hook_output, hook_step, hook_words, shell_split,
    verdict_of, AnswerSpec, HookSpec,
};
use crate::json::JsonSpec;
use crate::proto::request::{OperationSpec, RequestSpec};
use crate::proto::wire::DecisionStatus;
use crate::text::first_chars;

verus! {

/// The text under a key of a tool call's input.
pub open spec fn given(hook: JsonSpec, key: Seq<char>) -> Option<Seq<char>> {
    match hook.member("tool_input"@) {
        Some(input) => input.text_member(key),
        None => None,
    }
}

/// The session of a tool call: the one it names, else the harness.
pub open spec fn session(harness: Seq<char>, hook: JsonSpec) -> Seq<char> {
    match hook.text_member("session_id"@) {
        Some(s) => s,
        None => harness,
    }
}

/// Each tool that writes a file puts the write to the daemon, for the path it names: that of a file,
/// else that of a notebook.
pub proof fn law_writes_are_submitted(
    harness: Seq<char>,
    hook: JsonSpec,
    words: Option<Seq<Seq<char>>>,
    tool: Seq<char>,
)
    requires
        hook.text_member("tool_name"@) == Some(tool),
        tool == "Write"@ || tool == "Edit"@ || tool == "MultiEdit"@ || tool == "NotebookEdit"@,
    ensures
        given(hook, "file_path"@) matches Some(path) ==> hook_step(harness, hook, words)
            == HookSpec::Submit(
            RequestSpec {
                harness,
                session_id: session(harness, hook),
                env_allowlist: Seq::empty(),
                op: OperationSpec::FileWrite { path },
            },
        ),
        given(hook, "file_path"@) is None ==> (given(hook, "notebook_path"@) matches Some(path)
            ==> hook_step(harness, hook, words) == HookSpec::Submit(
            RequestSpec {
                harness,
                session_id: session(harness, hook),
                env_allowlist: Seq::empty(),
                op: OperationSpec::FileWrite { path },
            },
        )),
        given(hook, "file_path"@) is None && given(hook, "notebook_path"@) is None ==> hook_step(
            harness,
            hook,
            words,
        ) == (HookSpec::Emit {
            decision: "ask"@,
            reason: "gatehouse: file tool without a path"@,
        }),
{
    lemma_tools_differ();
}

proof fn lemma_tools_differ()
    ensures
        "Write"@ != "Bash"@ && "Edit"@ != "Bash"@ && "MultiEdit"@ != "Bash"@ && "NotebookEdit"@
            != "Bash"@,
        "Write"@ != "apply_patch"@ && "Edit"@ != "apply_patch"@ && "MultiEdit"@ != "apply_patch"@
            && "NotebookEdit"@ != "apply_patch"@,
        "apply_patch"@ != "Bash"@,
{
    reveal_strlit("Write");
    reveal_strlit("Edit");
    reveal_strlit("MultiEdit");
    reveal_strlit("NotebookEdit");
    reveal_strlit("Bash");
    reveal_strlit("apply_patch");
    assert("Write"@[0] == 'W' && "Edit"@[0] == 'E' && "MultiEdit"@[0] == 'M'
        && "NotebookEdit"@[0] == 'N' && "Bash"@[0] == 'B' && "apply_patch"@[0] == 'a');
}

/// A shell command is put to the daemon as what it comes to, in the directory that the call names,
/// else in the current one. So is a patch of the one harness whose patches are commands.
pub proof fn law_commands_are_submitted(
    harness: Seq<char>,
    hook: JsonSpec,
    words: Option<Seq<Seq<char>>>,
    tool: Seq<char>,
    cwd: Seq<char>,
)
    requires
        hook.text_member("tool_name"@) == Some(tool),
        tool == "Bash"@ || (harness == "codex"@ && tool == "apply_patch"@),
        hook.text_member("cwd"@) == Some(cwd) || (hook.text_member("cwd"@) is None && cwd == "."@),
    ensures
        given(hook, "command"@) matches Some(cmd) ==> hook_step(harness, hook, words)
            == HookSpec::Submit(
            RequestSpec {
                harness,
                session_id: session(harness, hook),
                env_allowlist: Seq::empty(),
                op: classified(cmd, cwd, words),
            },
        ),
        given(hook, "command"@) is None ==> hook_step(harness, hook, words) == (HookSpec::Emit {
            decision: "ask"@,
            reason: "gatehouse: "@ + tool + " hook without a command"@,
        }),
        given(hook, "command"@) matches Some(cmd) ==> hook_words(hook) == shell_split(cmd),
{
}

/// A call of any other tool, or of none, is left to the harness, which is told so.
pub proof fn law_other_tools_are_left(
    harness: Seq<char>,
    hook: JsonSpec,
    words: Option<Seq<Seq<char>>>,
    tool: Seq<char>,
)
    requires
        hook.text_member("tool_name"@) == Some(tool) || (hook.text_member("tool_name"@) is None
            && tool.len() == 0),
        tool != "Bash"@,
        harness != "codex"@ || tool != "apply_patch"@,
        tool != "Write"@ && tool != "Edit"@ && tool != "MultiEdit"@ && tool != "NotebookEdit"@,
    ensures
        hook_step(harness, hook, words) == (HookSpec::Emit {
            decision: "ask"@,
            reason: "gatehouse: tool "@ + tool + " not gated"@,
        }),
{
    if hook.text_member("tool_name"@) is None {
        assert(tool =~= Seq::empty());
    }
}

/// Whether a character has a meaning to a shell beyond being part of a word.
pub open spec fn shell_syntax(c: char) -> bool {
    c == '|' || c == ';' || c == '&' || c == '>' || c == '<' || c == '$' || c == '`' || c == '('
        || c == ')' || c == '\n' || c == '{' || c == '}'
}

/// A command with shell syntax anywhere in it goes to a shell as it stands. One without goes by the
/// words it splits into, and by the shell only where there are none.
pub proof fn law_plain_commands_are_split(
    cmd: Seq<char>,
    cwd: Seq<char>,
    words: Option<Seq<Seq<char>>>,
)
    ensures
        (exists|i: int| 0 <= i < cmd.len() && shell_syntax(#[trigger] cmd[i])) ==> classified(
            cmd,
            cwd,
            words,
        ) == (OperationSpec::Exec { argv: seq!["sh"@, "-c"@, cmd], cwd }),
        (forall|i: int| 0 <= i < cmd.len() ==> !shell_syntax(#[trigger] cmd[i])) && words is Some
            && words->0.len() > 0 ==> classified(cmd, cwd, words) == (OperationSpec::Exec {
            argv: words->0,
            cwd,
        }),
        words is None || words->0.len() == 0 ==> classified(cmd, cwd, words) == (
        OperationSpec::Exec { argv: seq!["sh"@, "-c"@, cmd], cwd }),
{
    let meta = crate::gate::hook::SHELL_META@;
    reveal_strlit("|;&><$`()\n{}");
    assert(meta == "|;&><$`()\n{}"@);
    assert(meta.len() == 12);
    assert forall|c: char| shell_syntax(c) implies #[trigger] meta.contains(c) by {
        assert(meta[0] == '|' && meta[1] == ';' && meta[2] == '&' && meta[3] == '>' && meta[4]
            == '<' && meta[5] == '$' && meta[6] == '`' && meta[7] == '(' && meta[8] == ')'
            && meta[9] == '\n' && meta[10] == '{' && meta[11] == '}');
    }
    if exists|i: int| 0 <= i < cmd.len() && shell_syntax(#[trigger] cmd[i]) {
        let i = choose|i: int| 0 <= i < cmd.len() && shell_syntax(#[trigger] cmd[i]);
        assert(meta.contains(cmd[i]));
    }
}

/// The harness is told to go ahead, or not to, exactly as the daemon decided, and to ask by itself
/// where it did not.
pub proof fn law_verdict_is_the_decision(digest: Seq<char>, failure: Seq<char>, summary: Seq<char>)
    ensures
        verdict_of(Ok((DecisionStatus::Allowed, digest)), summary) == (
            "allow"@,
            "gatehouse approved ["@ + first_chars(digest, 8) + "] "@ + summary,
        ),
        verdict_of(Ok((DecisionStatus::Denied, digest)), summary) == (
            "deny"@,
            "gatehouse denied ["@ + first_chars(digest, 8) + "] "@ + summary,
        ),
        verdict_of(Ok((DecisionStatus::Pending, digest)), summary) == (
            "ask"@,
            "gatehouse: unexpected non-terminal decision"@,
        ),
        verdict_of(Err(failure), summary) == ("ask"@, "gatehouse unreachable: "@ + failure),
{
}

/// A harness that goes by the exit code is stopped by a denial and by nothing else, and a harness
/// that reads a decision reads the one that was made, with its reason.
pub proof fn law_answers_carry_the_decision(
    harness: Seq<char>,
    decision: Seq<char>,
    reason: Seq<char>,
)
    ensures
        harness == "codex"@ ==> answer_of(harness, decision, reason) == (AnswerSpec {
            out: None,
            err: Some(reason),
            code: if decision == "deny"@ {
                2
            } else {
                0
            },
        }),
        harness == "generic"@ ==> {
            let a = answer_of(harness, decision, reason);
            &&& a.err is None
            &&& a.code == if decision == "deny"@ {
                2u8
            } else {
                0u8
            }
            &&& a.out matches Some(m)
            &&& m.text_member("decision"@) == Some(decision)
            &&& m.text_member("reason"@) == Some(reason)
        },
        harness != "codex"@ && harness != "generic"@ ==> {
            let a = answer_of(harness, decision, reason);
            &&& a.err is None
            &&& a.code == 0
            &&& a.out matches Some(m)
            &&& m.member("hookSpecificOutput"@) matches Some(h)
            &&& h.text_member("hookEventName"@) == Some("PreToolUse"@)
            &&& h.text_member("permissionDecision"@) == Some(decision)
            &&& h.text_member("permissionDecisionReason"@) == Some(reason)
        },
{
    reveal_with_fuel(crate::json::first_member, 4);
    reveal_strlit("codex");
    reveal_strlit("generic");
    reveal_strlit("decision");
    reveal_strlit("reason");
    reveal_strlit("hookEventName");
    reveal_strlit("permissionDecision");
    reveal_strlit("permissionDecisionReason");
    assert("codex"@.len() != "generic"@.len());
    let g = generic_output(decision, reason)->Object_0;
    assert(g.drop_first() =~= seq![g[1]]);
    assert("decision"@.len() != "reason"@.len());
    let inner = hook_output(decision, reason)->Object_0[0].1->Object_0;
    assert(inner.drop_first() =~= seq![inner[1], inner[2]]);
    assert(inner.drop_first().drop_first() =~= seq![inner[2]]);
    assert("hookEventName"@.len() == 13 && "permissionDecision"@.len() == 18
        && "permissionDecisionReason"@.len() == 24);
}

}
