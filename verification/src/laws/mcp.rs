//! The tool server.
use vstd::prelude::*;
use vstd::string::*;
use vstd::utf8::*;

use crate::codec::base64_bytes;
use crate::json::JsonSpec;
use crate::mcp::{
    chunk_text, collected, exec_result, exec_step, fetch_step, lossy_text, message_step, redirected,
    refused_fetch, submit_step, texts_among, tool_result, tool_step, truncation, McpSpec,
    SubmitSpec, SubmitStepSpec, ToolSpec,
};
use crate::number::{decimal, signed_decimal};
use crate::proto::request::{OperationSpec, RequestSpec};
use crate::proto::wire::{DaemonMsgSpec, DecisionStatus, Tier};
use crate::text::first_chars;
use crate::urls::UrlSpec;

verus! {

/// The output after some messages of the daemon.
pub open spec fn after_messages(
    out: (Seq<char>, Seq<char>),
    msgs: Seq<DaemonMsgSpec>,
) -> (Seq<char>, Seq<char>)
    decreases msgs.len(),
{
    if msgs.len() == 0 {
        out
    } else {
        collected(after_messages(out, msgs.drop_last()), msgs.last(), chunk_text(msgs.last()))
    }
}

/// The texts of all chunks of standard output among some messages, one behind the other.
pub open spec fn all_stdout(msgs: Seq<DaemonMsgSpec>) -> Seq<char>
    decreases msgs.len(),
{
    if msgs.len() == 0 {
        Seq::empty()
    } else {
        all_stdout(msgs.drop_last()) + (match msgs.last() {
            DaemonMsgSpec::Stdout { b64 } => match base64_bytes(b64) {
                Ok(bytes) => lossy_text(bytes),
                Err(_) => Seq::empty(),
            },
            _ => Seq::empty(),
        })
    }
}

/// The texts of all chunks of standard error among some messages, one behind the other.
pub open spec fn all_stderr(msgs: Seq<DaemonMsgSpec>) -> Seq<char>
    decreases msgs.len(),
{
    if msgs.len() == 0 {
        Seq::empty()
    } else {
        all_stderr(msgs.drop_last()) + (match msgs.last() {
            DaemonMsgSpec::Stderr { b64 } => match base64_bytes(b64) {
                Ok(bytes) => lossy_text(bytes),
                Err(_) => Seq::empty(),
            },
            _ => Seq::empty(),
        })
    }
}

/// What a command wrote is all there in order when it ends: over any messages, each of the two
/// outputs is what its chunks hold, one behind the other.
pub proof fn law_output_is_complete(
    out: (Seq<char>, Seq<char>),
    msgs: Seq<DaemonMsgSpec>,
    code: i32,
    execute: bool,
    chunk: Result<Seq<char>, Seq<char>>,
)
    ensures
        after_messages(out, msgs) == (out.0 + all_stdout(msgs), out.1 + all_stderr(msgs)),
        submit_step(after_messages(out, msgs), DaemonMsgSpec::Exit { code }, execute, chunk)
            == SubmitStepSpec::Done(
            SubmitSpec::Output {
                stdout: out.0 + all_stdout(msgs),
                stderr: out.1 + all_stderr(msgs),
                code,
            },
        ),
    decreases msgs.len(),
{
    if msgs.len() == 0 {
        assert(out.0 + all_stdout(msgs) =~= out.0);
        assert(out.1 + all_stderr(msgs) =~= out.1);
    } else {
        let front = msgs.drop_last();
        law_output_is_complete(out, front, code, execute, chunk);
        let r = after_messages(out, msgs);
        assert(r.0 =~= out.0 + all_stdout(msgs));
        assert(r.1 =~= out.1 + all_stderr(msgs));
    }
}

/// What was collected is only ever added to, each output by its own chunks.
pub proof fn law_output_only_grows(
    out: (Seq<char>, Seq<char>),
    msg: DaemonMsgSpec,
    chunk: Result<Seq<char>, Seq<char>>,
)
    ensures
        out.0.is_prefix_of(collected(out, msg, chunk).0),
        out.1.is_prefix_of(collected(out, msg, chunk).1),
        !(msg is Stdout) ==> collected(out, msg, chunk).0 == out.0,
        !(msg is Stderr) ==> collected(out, msg, chunk).1 == out.1,
        msg is Stdout && chunk is Ok ==> collected(out, msg, chunk).0 == out.0 + chunk->Ok_0,
        msg is Stderr && chunk is Ok ==> collected(out, msg, chunk).1 == out.1 + chunk->Ok_0,
        chunk is Err ==> collected(out, msg, chunk) == out,
{
    let r = collected(out, msg, chunk);
    assert(r.0.subrange(0, out.0.len() as int) =~= out.0);
    assert(r.1.subrange(0, out.1.len() as int) =~= out.1);
}

/// A submission goes on while the daemon waits or a command writes, and ends with a denial, with an
/// approval that is all that was asked for, or with a failure.
pub proof fn law_submissions_end(
    out: (Seq<char>, Seq<char>),
    execute: bool,
    chunk: Result<Seq<char>, Seq<char>>,
    digest: Seq<char>,
    tier: Tier,
    summary: Seq<char>,
    b64: Seq<char>,
    message: Seq<char>,
)
    ensures
        submit_step(
            out,
            DaemonMsgSpec::Decision { digest, tier, status: DecisionStatus::Denied, summary },
            execute,
            chunk,
        ) == SubmitStepSpec::Done(SubmitSpec::Denied { summary }),
        submit_step(
            out,
            DaemonMsgSpec::Decision { digest, tier, status: DecisionStatus::Allowed, summary },
            true,
            chunk,
        ) is Continue,
        submit_step(
            out,
            DaemonMsgSpec::Decision { digest, tier, status: DecisionStatus::Allowed, summary },
            false,
            chunk,
        ) == SubmitStepSpec::Done(
            SubmitSpec::Output { stdout: Seq::empty(), stderr: Seq::empty(), code: 0 },
        ),
        submit_step(
            out,
            DaemonMsgSpec::Decision { digest, tier, status: DecisionStatus::Pending, summary },
            execute,
            chunk,
        ) == SubmitStepSpec::Note(
            "gate-mcp: waiting for approval ["@ + first_chars(digest, 8) + "] "@ + summary,
        ),
        chunk is Ok ==> submit_step(out, DaemonMsgSpec::Stdout { b64 }, execute, chunk) is Continue
            && submit_step(out, DaemonMsgSpec::Stderr { b64 }, execute, chunk) is Continue,
        chunk matches Err(m) ==> submit_step(out, DaemonMsgSpec::Stdout { b64 }, execute, chunk)
            == SubmitStepSpec::Fail(m) && submit_step(
            out,
            DaemonMsgSpec::Stderr { b64 },
            execute,
            chunk,
        ) == SubmitStepSpec::Fail(m),
        submit_step(out, DaemonMsgSpec::Error { message }, execute, chunk) == SubmitStepSpec::Fail(
            "daemon error: "@ + message,
        ),
{
}

/// The text of a tool's result.
pub open spec fn result_text(m: JsonSpec) -> Option<Seq<char>> {
    match m.member("content"@) {
        Some(JsonSpec::Array(v)) if v.len() == 1 => v[0].text_member("text"@),
        _ => None,
    }
}

/// Whether a tool's result is marked as an error.
pub open spec fn result_failed(m: JsonSpec) -> bool {
    m.member("isError"@) == Some(JsonSpec::Bool(true))
}

/// Whether a tool's result is marked as none.
pub open spec fn result_fine(m: JsonSpec) -> bool {
    m.member("isError"@) == Some(JsonSpec::Bool(false))
}

/// A tool's result shows its text, as text, and whether it is an error.
pub proof fn law_results_show(msg: Seq<char>, failed: bool)
    ensures
        result_text(tool_result(msg, failed)) == Some(msg),
        failed ==> result_failed(tool_result(msg, failed)),
        !failed ==> result_fine(tool_result(msg, failed)),
        tool_result(msg, failed).member("content"@)->0->Array_0[0].text_member("type"@) == Some(
            "text"@,
        ),
{
    reveal_with_fuel(crate::json::first_member, 3);
    reveal_strlit("content");
    reveal_strlit("isError");
    reveal_strlit("type");
    reveal_strlit("text");
    let v = tool_result(msg, failed)->Object_0;
    assert(v.drop_first() =~= seq![v[1]]);
    assert("content"@[0] == 'c' && "isError"@[0] == 'i');
    let w = v[0].1->Array_0[0]->Object_0;
    assert(w.drop_first() =~= seq![w[1]]);
    assert("type"@[1] == 'y' && "text"@[1] == 'e');
}

/// The result of a command is an error exactly where it failed, was denied or ended with another
/// code than zero, and shows what the command wrote, else its code.
pub proof fn law_command_results(
    stdout: Seq<char>,
    stderr: Seq<char>,
    code: i32,
    summary: Seq<char>,
    message: Seq<char>,
)
    ensures
        ({
            let m = exec_result(Ok(SubmitSpec::Output { stdout, stderr, code }));
            &&& code == 0 ==> result_fine(m)
            &&& code != 0 ==> result_failed(m)
            &&& stdout.len() > 0 && stderr.len() > 0 ==> result_text(m) == Some(
                stdout + "\n"@ + stderr,
            )
            &&& stdout.len() > 0 && stderr.len() == 0 ==> result_text(m) == Some(stdout)
            &&& stdout.len() == 0 && stderr.len() > 0 ==> result_text(m) == Some(stderr)
            &&& stdout.len() == 0 && stderr.len() == 0 ==> result_text(m) == Some(
                "(exit "@ + signed_decimal(code as int) + ")"@,
            )
        }),
        result_failed(exec_result(Ok(SubmitSpec::Denied { summary }))),
        result_text(exec_result(Ok(SubmitSpec::Denied { summary }))) == Some("denied: "@ + summary),
        result_failed(exec_result(Err(message))),
        result_text(exec_result(Err(message))) == Some(message),
{
    law_results_show(crate::mcp::output_text(stdout, stderr, code), code != 0);
    law_results_show("denied: "@ + summary, true);
    law_results_show(message, true);
}

/// An address is fetched only where the daemon allowed it; a denial and a failure are errors.
pub proof fn law_fetch_is_allowed_first(r: Result<SubmitSpec, Seq<char>>)
    ensures
        refused_fetch(r) is None <==> r is Ok && r->Ok_0 is Output,
        refused_fetch(r) matches Some(m) ==> result_failed(m),
        r matches Err(e) ==> result_text(refused_fetch(r)->0) == Some(e),
        r matches Ok(SubmitSpec::Denied { summary }) ==> result_text(refused_fetch(r)->0) == Some(
            "denied: "@ + summary,
        ),
{
    match r {
        Err(e) => law_results_show(e, true),
        Ok(SubmitSpec::Denied { summary }) => law_results_show("denied: "@ + summary, true),
        Ok(_) => {},
    }
}

/// A redirection is an error that names where it leads.
pub proof fn law_redirections_are_shown(status: Seq<char>, location: Seq<char>)
    ensures
        result_failed(redirected(status, Some(location))),
        result_failed(redirected(status, None)),
        result_text(redirected(status, Some(location))) == Some(
            "HTTP "@ + status + " redirect to "@ + location
                + " — not followed; call gated_fetch again with that url so policy sees the new host"@,
        ),
        result_text(redirected(status, None)) == Some(
            "HTTP "@ + status + " redirect to "@ + "(no location header)"@
                + " — not followed; call gated_fetch again with that url so policy sees the new host"@,
        ),
{
    law_results_show(
        "HTTP "@ + status + " redirect to "@ + location
            + " — not followed; call gated_fetch again with that url so policy sees the new host"@,
        true,
    );
    law_results_show(
        "HTTP "@ + status + " redirect to "@ + "(no location header)"@
            + " — not followed; call gated_fetch again with that url so policy sees the new host"@,
        true,
    );
}

/// A text of at most 32000 bytes is kept whole; a longer one is cut to as many characters as fit, and
/// marked.
pub proof fn law_long_answers_are_cut(s: Seq<char>, r: Seq<char>)
    requires
        truncation(s, r),
    ensures
        encode_utf8(s).len() <= 32000 ==> r == s,
        encode_utf8(s).len() > 32000 ==> exists|k: int|
            {
                &&& 0 <= k < s.len()
                &&& r == #[trigger] s.take(k) + "…\n(truncated)"@
                &&& encode_utf8(s.take(k)).len() <= 32000
                &&& encode_utf8(s.take(k + 1)).len() > 32000
            },
{
    if encode_utf8(s).len() > 32000 {
        let k = choose|k: int| #[trigger]
            crate::mcp::cut_at(s, k) && r == s.take(k) + crate::mcp::CUT_MARK@;
        assert(r == s.take(k) + "…\n(truncated)"@);
    }
}

/// The words of a command are the texts of its list, in order; whatever is no text is left out.
pub proof fn law_words_of_a_list(v: Seq<JsonSpec>, t: Seq<char>, other: JsonSpec)
    requires
        !(other is Text),
    ensures
        texts_among(Seq::empty()).len() == 0,
        texts_among(v.push(JsonSpec::Text(t))) == texts_among(v).push(t),
        texts_among(v.push(other)) == texts_among(v),
{
    assert(v.push(JsonSpec::Text(t)).drop_last() =~= v);
    assert(v.push(other).drop_last() =~= v);
}

/// A request of this server.
pub open spec fn from_server(process: u32, op: OperationSpec) -> RequestSpec {
    RequestSpec {
        harness: "mcp"@,
        session_id: "mcp-"@ + decimal(process as nat),
        env_allowlist: Seq::empty(),
        op,
    }
}

/// A list of words is put to the daemon as it stands, and goes before a string, which goes to a
/// shell. Without either, or with no word, the tool fails.
pub proof fn law_commands_of_a_call(args: JsonSpec, cwd: Seq<char>, why: Seq<char>, process: u32)
    ensures
        args.member("argv"@) matches Some(JsonSpec::Array(v)) ==> {
            &&& texts_among(v).len() > 0 ==> exec_step(args, Ok(cwd), process) == ToolSpec::Exec(
                from_server(process, OperationSpec::Exec { argv: texts_among(v), cwd }),
            )
            &&& texts_among(v).len() == 0 ==> (exec_step(args, Ok(cwd), process) matches
                ToolSpec::Result(m) && result_failed(m) && result_text(m) == Some("empty argv"@))
        },
        !(args.member("argv"@) is Some && args.member("argv"@)->0 is Array) ==> {
            &&& args.text_member("command"@) matches Some(cmd) ==> exec_step(args, Ok(cwd), process)
                == ToolSpec::Exec(
                from_server(process, OperationSpec::Exec { argv: seq!["sh"@, "-c"@, cmd], cwd }),
            )
            &&& args.text_member("command"@) is None ==> (exec_step(args, Ok(cwd), process) matches
                ToolSpec::Result(m) && result_failed(m) && result_text(m) == Some(
                "gated_exec requires argv or command"@,
            ))
        },
        exec_step(args, Err(why), process) matches ToolSpec::Result(m) && result_failed(m)
            && result_text(m) == Some(why),
{
    law_results_show("empty argv"@, true);
    law_results_show("gated_exec requires argv or command"@, true);
    law_results_show(why, true);
}

/// An address is put to the daemon as a connection to its host and port, the port of secure
/// addresses where it has none. Another scheme, a missing host, a text that is no address and a
/// missing address fail.
pub proof fn law_addresses_of_a_call(url: Seq<char>, u: UrlSpec, host: Seq<char>, process: u32)
    ensures
        (u.scheme == "http"@ || u.scheme == "https"@) && u.host == Some(host) ==> fetch_step(
            Some(url),
            Some(u),
            process,
        ) == (ToolSpec::Fetch {
            request: from_server(
                process,
                OperationSpec::Net {
                    host,
                    port: if u.port is Some {
                        u.port->0
                    } else {
                        443
                    },
                },
            ),
            url,
        }),
        (u.scheme == "http"@ || u.scheme == "https"@) && u.host is None ==> (fetch_step(
            Some(url),
            Some(u),
            process,
        ) matches ToolSpec::Result(m) && result_failed(m) && result_text(m) == Some(
            "url missing host"@,
        )),
        u.scheme != "http"@ && u.scheme != "https"@ ==> (fetch_step(Some(url), Some(u), process)
            matches ToolSpec::Result(m) && result_failed(m) && result_text(m) == Some(
            "gated_fetch supports http/https only, got "@ + u.scheme,
        )),
        fetch_step(Some(url), None, process) matches ToolSpec::Result(m) && result_failed(m)
            && result_text(m) == Some("bad url"@),
        fetch_step(None, None, process) matches ToolSpec::Result(m) && result_failed(m)
            && result_text(m) == Some("gated_fetch requires url"@),
{
    law_results_show("url missing host"@, true);
    law_results_show("gated_fetch supports http/https only, got "@ + u.scheme, true);
    law_results_show("bad url"@, true);
    law_results_show("gated_fetch requires url"@, true);
}

/// A tool is called by its name, with the arguments of the call; a name that is none fails.
pub proof fn law_tools_go_by_name(
    params: JsonSpec,
    args: JsonSpec,
    name: Seq<char>,
    cwd: Result<Seq<char>, Seq<char>>,
    process: u32,
    parts: Option<UrlSpec>,
)
    requires
        params.text_member("name"@) == Some(name),
        params.member("arguments"@) == Some(args),
    ensures
        name == "gated_exec"@ ==> tool_step(params, cwd, process, parts) == exec_step(
            args,
            cwd,
            process,
        ),
        name == "gated_fetch"@ ==> tool_step(params, cwd, process, parts) == fetch_step(
            args.text_member("url"@),
            parts,
            process,
        ),
        name != "gated_exec"@ && name != "gated_fetch"@ ==> (tool_step(params, cwd, process, parts)
            matches ToolSpec::Result(m) && result_failed(m) && result_text(m) == Some(
            "unknown tool: "@ + name,
        )),
{
    reveal_strlit("gated_exec");
    reveal_strlit("gated_fetch");
    assert("gated_exec"@.len() != "gated_fetch"@.len());
    law_results_show("unknown tool: "@ + name, true);
}

/// Whether a message is the answer to a call, with a result.
pub open spec fn answers_with(m: JsonSpec, id: JsonSpec, result: JsonSpec) -> bool {
    &&& m.text_member("jsonrpc"@) == Some("2.0"@)
    &&& m.member("id"@) == Some(id)
    &&& m.member("result"@) == Some(result)
    &&& m.member("error"@) is None
}

/// Whether a message is the answer to a call that failed, with a code and a reason.
pub open spec fn fails_with(m: JsonSpec, id: JsonSpec, code: int, reason: Seq<char>) -> bool {
    &&& m.text_member("jsonrpc"@) == Some("2.0"@)
    &&& m.member("id"@) == Some(id)
    &&& m.member("result"@) is None
    &&& m.member("error"@) matches Some(e)
    &&& e.member("code"@) == Some(JsonSpec::Integer(code))
    &&& e.text_member("message"@) == Some(reason)
}

proof fn lemma_answers(id: JsonSpec, result: JsonSpec, code: int, reason: Seq<char>)
    ensures
        answers_with(crate::mcp::rpc_result(id, result), id, result),
        fails_with(crate::mcp::rpc_failure(id, code, reason), id, code, reason),
{
    reveal_with_fuel(crate::json::first_member, 4);
    reveal_strlit("jsonrpc");
    reveal_strlit("id");
    reveal_strlit("result");
    reveal_strlit("error");
    reveal_strlit("code");
    reveal_strlit("message");
    assert("jsonrpc"@.len() == 7 && "id"@.len() == 2 && "result"@.len() == 6 && "error"@.len() == 5
        && "code"@.len() == 4 && "message"@.len() == 7);
    assert("jsonrpc"@[0] == 'j' && "message"@[0] == 'm');
    let v = crate::mcp::rpc_result(id, result)->Object_0;
    assert(v.drop_first() =~= seq![v[1], v[2]]);
    assert(v.drop_first().drop_first() =~= seq![v[2]]);
    assert(v.drop_first().drop_first().drop_first() =~= Seq::empty());
    let w = crate::mcp::rpc_failure(id, code, reason)->Object_0;
    assert(w.drop_first() =~= seq![w[1], w[2]]);
    assert(w.drop_first().drop_first() =~= seq![w[2]]);
    assert(w.drop_first().drop_first().drop_first() =~= Seq::empty());
    let e = w[2].1->Object_0;
    assert(e.drop_first() =~= seq![e[1]]);
}

/// A call is answered by its method: greetings and pings are acknowledged, tools are listed and
/// called, and any other method is not found.
pub proof fn law_calls_go_by_method(
    msg: JsonSpec,
    id: JsonSpec,
    method: Seq<char>,
    version: Seq<char>,
    tool: ToolSpec,
)
    requires
        msg.member("id"@) == Some(id),
        msg.member("method"@) == Some(JsonSpec::Text(method)),
    ensures
        method == "ping"@ || method == "initialized"@ || method == "notifications/initialized"@ ==> (
        message_step(msg, version, tool) matches McpSpec::Reply(m) && answers_with(
            m,
            id,
            JsonSpec::Object(Seq::empty()),
        )),
        method == "initialize"@ ==> (message_step(msg, version, tool) matches McpSpec::Reply(m)
            && answers_with(m, id, crate::mcp::server_info(version))),
        method == "tools/list"@ ==> (message_step(msg, version, tool) matches McpSpec::Reply(m)
            && answers_with(m, id, crate::mcp::tools_listed())),
        method == "tools/call"@ ==> match tool {
            ToolSpec::Result(j) => message_step(msg, version, tool) matches McpSpec::Reply(m)
                && answers_with(m, id, j),
            ToolSpec::Exec(request) => message_step(msg, version, tool) == (McpSpec::Exec {
                id,
                request,
            }),
            ToolSpec::Fetch { request, url } => message_step(msg, version, tool) == (
            McpSpec::Fetch { id, request, url }),
        },
        method != "ping"@ && method != "initialized"@ && method != "notifications/initialized"@
            && method != "initialize"@ && method != "tools/list"@ && method != "tools/call"@ ==> (
        message_step(msg, version, tool) matches McpSpec::Reply(m) && fails_with(
            m,
            id,
            -32601,
            "method not found: "@ + method,
        )),
{
    reveal_strlit("ping");
    reveal_strlit("initialized");
    reveal_strlit("notifications/initialized");
    reveal_strlit("initialize");
    reveal_strlit("tools/list");
    reveal_strlit("tools/call");
    assert("ping"@.len() == 4 && "initialized"@.len() == 11 && "notifications/initialized"@.len()
        == 25 && "initialize"@.len() == 10 && "tools/list"@.len() == 10 && "tools/call"@.len()
        == 10);
    assert("initialize"@[0] == 'i' && "tools/list"@[6] == 'l' && "tools/call"@[6] == 'c'
        && "tools/list"@[0] == 't' && "tools/call"@[0] == 't');
    lemma_answers(id, JsonSpec::Object(Seq::empty()), -32601, "method not found: "@ + method);
    lemma_answers(id, crate::mcp::server_info(version), 0, Seq::empty());
    lemma_answers(id, crate::mcp::tools_listed(), 0, Seq::empty());
    if let ToolSpec::Result(j) = tool {
        lemma_answers(id, j, 0, Seq::empty());
    }
}

/// The server names itself, the protocol it speaks and its version, and lists its two tools by their
/// names.
pub proof fn law_server_describes_itself(version: Seq<char>)
    ensures
        ({
            let m = crate::mcp::server_info(version);
            &&& m.text_member("protocolVersion"@) == Some("2024-11-05"@)
            &&& m.member("capabilities"@) matches Some(c) && c.member("tools"@) is Some
            &&& m.member("serverInfo"@) matches Some(s) && s.text_member("name"@) == Some(
                "gatehouse"@,
            ) && s.text_member("version"@) == Some(version)
        }),
        crate::mcp::tools_listed().member("tools"@) matches Some(JsonSpec::Array(v)) && v.len() == 2
            && v[0].text_member("name"@) == Some("gated_exec"@) && v[1].text_member("name"@) == Some(
            "gated_fetch"@,
        ),
{
    reveal_with_fuel(crate::json::first_member, 4);
    reveal_strlit("protocolVersion");
    reveal_strlit("capabilities");
    reveal_strlit("serverInfo");
    reveal_strlit("name");
    reveal_strlit("version");
    assert("protocolVersion"@.len() == 15 && "capabilities"@.len() == 12 && "serverInfo"@.len()
        == 10 && "name"@.len() == 4 && "version"@.len() == 7);
    let v = crate::mcp::server_info(version)->Object_0;
    assert(v.drop_first() =~= seq![v[1], v[2]]);
    assert(v.drop_first().drop_first() =~= seq![v[2]]);
    let w = v[2].1->Object_0;
    assert(w.drop_first() =~= seq![w[1]]);
}

/// A call without arguments is one with none, and a tool without a name is unknown.
pub proof fn law_calls_without_arguments(
    params: JsonSpec,
    cwd: Result<Seq<char>, Seq<char>>,
    process: u32,
    parts: Option<UrlSpec>,
    name: Seq<char>,
)
    ensures
        params.text_member("name"@) == Some(name) && name == "gated_exec"@ && params.member(
            "arguments"@,
        ) is None ==> tool_step(params, cwd, process, parts) == exec_step(
            JsonSpec::Object(Seq::empty()),
            cwd,
            process,
        ),
        params.text_member("name"@) is None ==> (tool_step(params, cwd, process, parts) matches
            ToolSpec::Result(m) && result_failed(m)),
{
    reveal_strlit("gated_exec");
    reveal_strlit("gated_fetch");
    assert("gated_exec"@.len() == 10 && "gated_fetch"@.len() == 11);
    law_results_show("unknown tool: "@ + Seq::empty(), true);
}

/// A line that is not JSON is answered with the code for that and without an id.
pub proof fn law_bad_lines(message: Seq<char>)
    ensures
        crate::mcp::PARSE_ERROR == -32700,
        fails_with(
            crate::mcp::rpc_failure(JsonSpec::Null, crate::mcp::PARSE_ERROR as int, message),
            JsonSpec::Null,
            -32700,
            message,
        ),
{
    lemma_answers(JsonSpec::Null, JsonSpec::Null, -32700, message);
}

/// The parameters of a message are those it holds, and none where it holds none.
pub proof fn law_parameters(msg: JsonSpec, p: JsonSpec, url: Seq<char>)
    ensures
        msg.member("params"@) == Some(p) ==> crate::mcp::params_of(msg) == p,
        msg.member("params"@) is None ==> crate::mcp::params_of(msg) == JsonSpec::Object(
            Seq::empty(),
        ),
        crate::mcp::parts_of(Some(url)) == crate::urls::url_parts(url),
        crate::mcp::parts_of(None) is None,
{
}

/// What the tools say they take: a command as a string or as a list of words, and an address, which
/// is required.
pub proof fn law_tools_say_what_they_take()
    ensures
        crate::mcp::exec_tool().member("inputSchema"@) matches Some(s) && (s.member("properties"@)
            matches Some(p) && p.member("command"@) is Some && p.member("argv"@) is Some),
        crate::mcp::fetch_tool().member("inputSchema"@) matches Some(s) && s.member("required"@)
            == Some(JsonSpec::Array(seq![JsonSpec::Text("url"@)])) && (s.member("properties"@)
            matches Some(p) && p.member("url"@) is Some),
{
    reveal_with_fuel(crate::json::first_member, 4);
    reveal_strlit("name");
    reveal_strlit("description");
    reveal_strlit("inputSchema");
    reveal_strlit("type");
    reveal_strlit("properties");
    reveal_strlit("required");
    reveal_strlit("command");
    reveal_strlit("argv");
    assert("name"@.len() == 4 && "description"@.len() == 11 && "inputSchema"@.len() == 11
        && "type"@.len() == 4 && "properties"@.len() == 10 && "required"@.len() == 8
        && "command"@.len() == 7 && "argv"@.len() == 4);
    assert("description"@[0] == 'd' && "inputSchema"@[0] == 'i');
    let v = crate::mcp::exec_tool()->Object_0;
    assert(v.drop_first() =~= seq![v[1], v[2]]);
    assert(v.drop_first().drop_first() =~= seq![v[2]]);
    let s = v[2].1->Object_0;
    assert(s.drop_first() =~= seq![s[1]]);
    let p = s[1].1->Object_0;
    assert(p.drop_first() =~= seq![p[1]]);
    let w = crate::mcp::fetch_tool()->Object_0;
    assert(w.drop_first() =~= seq![w[1], w[2]]);
    assert(w.drop_first().drop_first() =~= seq![w[2]]);
    let t = w[2].1->Object_0;
    assert(t.drop_first() =~= seq![t[1], t[2]]);
    assert(t.drop_first().drop_first() =~= seq![t[2]]);
}

}
