//! The tool server: `gated_exec` and `gated_fetch` for harnesses that speak JSON-RPC over standard
//! input and output.
//!
//! Both tools submit to the daemon. A command is then run by the daemon; an address is fetched by
//! this process once the policy allows connecting to its host.
use vstd::prelude::*;
use vstd::string::*;
use vstd::utf8::*;

use crate::codec::{base64_bytes, base64_decode};
use crate::json::{array, items_view, member, members_view, object, text, Json, JsonSpec, Member};
use crate::number::{decimal, signed_decimal, to_decimal, to_signed_decimal};
use crate::proto::request::{GateRequest, Operation, OperationSpec, RequestSpec};
use crate::proto::wire::{DaemonMsg, DaemonMsgSpec, DecisionStatus};
use crate::text::{chars_of, first_chars, opt_str, same, string_of, take_chars, texts};
use crate::urls::{parse_url, url_parts, UrlParts, UrlSpec};

verus! {

/// The JSON-RPC code of a message that is not JSON.
pub const PARSE_ERROR: i128 = -32700;

/// The JSON-RPC code of an unknown method.
pub const METHOD_NOT_FOUND: i128 = -32601;

/// Answers are cut to this many bytes before they are handed back.
pub const MAX_BODY_BYTES: usize = 32_000;

/// What follows an answer that was cut.
pub const CUT_MARK: &'static str = "…\n(truncated)";

/// The result of a tool: a text, and whether it is an error.
pub open spec fn tool_result(msg: Seq<char>, is_error: bool) -> JsonSpec {
    JsonSpec::Object(
        seq![
            (
                "content"@,
                JsonSpec::Array(
                    seq![
                        JsonSpec::Object(
                            seq![("type"@, JsonSpec::Text("text"@)), ("text"@, JsonSpec::Text(msg))],
                        ),
                    ],
                ),
            ),
            ("isError"@, JsonSpec::Bool(is_error)),
        ],
    )
}

fn tool_json(msg: &str, is_error: bool) -> (r: Json)
    ensures
        r@ == tool_result(msg@, is_error),
{
    let mut part: Vec<Member> = Vec::new();
    part.push(member("type", text("text")));
    part.push(member("text", text(msg)));
    assert(members_view(part@) =~= seq![
        ("type"@, JsonSpec::Text("text"@)),
        ("text"@, JsonSpec::Text(msg@)),
    ]);
    let mut content: Vec<Json> = Vec::new();
    content.push(object(part));
    assert(items_view(content@) =~= tool_result(msg@, is_error)->Object_0[0].1->Array_0);
    let mut out: Vec<Member> = Vec::new();
    out.push(member("content", array(content)));
    out.push(member("isError", Json::Bool(is_error)));
    assert(members_view(out@) =~= tool_result(msg@, is_error)->Object_0);
    object(out)
}

/// The result of a tool that failed.
pub fn tool_error(msg: &str) -> (r: Json)
    ensures
        r@ == tool_result(msg@, true),
{
    tool_json(msg, true)
}

/// The result of a tool that succeeded.
pub fn tool_ok(msg: &str) -> (r: Json)
    ensures
        r@ == tool_result(msg@, false),
{
    tool_json(msg, false)
}

/// The answer to a call that succeeded.
pub open spec fn rpc_result(id: JsonSpec, result: JsonSpec) -> JsonSpec {
    JsonSpec::Object(
        seq![("jsonrpc"@, JsonSpec::Text("2.0"@)), ("id"@, id), ("result"@, result)],
    )
}

/// The answer to a call that failed.
pub open spec fn rpc_failure(id: JsonSpec, code: int, message: Seq<char>) -> JsonSpec {
    JsonSpec::Object(
        seq![
            ("jsonrpc"@, JsonSpec::Text("2.0"@)),
            ("id"@, id),
            (
                "error"@,
                JsonSpec::Object(
                    seq![
                        ("code"@, JsonSpec::Integer(code)),
                        ("message"@, JsonSpec::Text(message)),
                    ],
                ),
            ),
        ],
    )
}

/// The answer to a call that succeeded. It carries the id of the call as it came.
pub fn respond(id: Json, result: Json) -> (r: Json)
    ensures
        r@ == rpc_result(id@, result@),
{
    let ghost want = rpc_result(id@, result@)->Object_0;
    let mut out: Vec<Member> = Vec::new();
    out.push(member("jsonrpc", text("2.0")));
    out.push(member("id", id));
    out.push(member("result", result));
    assert(members_view(out@) =~= want);
    object(out)
}

/// The answer to a call that failed.
pub fn respond_error(id: Json, code: i128, message: &str) -> (r: Json)
    ensures
        r@ == rpc_failure(id@, code as int, message@),
{
    let ghost want = rpc_failure(id@, code as int, message@)->Object_0;
    let mut error: Vec<Member> = Vec::new();
    error.push(member("code", Json::Integer(code)));
    error.push(member("message", text(message)));
    assert(members_view(error@) =~= want[2].1->Object_0);
    let mut out: Vec<Member> = Vec::new();
    out.push(member("jsonrpc", text("2.0")));
    out.push(member("id", id));
    out.push(member("error", object(error)));
    assert(members_view(out@) =~= want);
    object(out)
}

/// The answer to a line that is not JSON.
pub fn parse_error(message: &str) -> (r: Json)
    ensures
        r@ == rpc_failure(JsonSpec::Null, PARSE_ERROR as int, message@),
{
    respond_error(Json::Null, PARSE_ERROR, message)
}

/// An object without members.
pub open spec fn nothing() -> JsonSpec {
    JsonSpec::Object(Seq::empty())
}

fn empty_object() -> (r: Json)
    ensures
        r@ == nothing(),
{
    let out: Vec<Member> = Vec::new();
    assert(members_view(out@) =~= Seq::empty());
    object(out)
}

/// An object with one member.
pub open spec fn single(key: Seq<char>, value: JsonSpec) -> JsonSpec {
    JsonSpec::Object(seq![(key, value)])
}

fn single_json(key: &str, value: Json) -> (r: Json)
    ensures
        r@ == single(key@, value@),
{
    let ghost v = value@;
    let mut out: Vec<Member> = Vec::new();
    out.push(member(key, value));
    assert(members_view(out@) =~= seq![(key@, v)]);
    object(out)
}

/// What the server says of itself.
pub open spec fn server_info(version: Seq<char>) -> JsonSpec {
    JsonSpec::Object(
        seq![
            ("protocolVersion"@, JsonSpec::Text("2024-11-05"@)),
            ("capabilities"@, single("tools"@, nothing())),
            (
                "serverInfo"@,
                JsonSpec::Object(
                    seq![
                        ("name"@, JsonSpec::Text("gatehouse"@)),
                        ("version"@, JsonSpec::Text(version)),
                    ],
                ),
            ),
        ],
    )
}

fn server_info_json(version: &str) -> (r: Json)
    ensures
        r@ == server_info(version@),
{
    let mut info: Vec<Member> = Vec::new();
    info.push(member("name", text("gatehouse")));
    info.push(member("version", text(version)));
    assert(members_view(info@) =~= server_info(version@)->Object_0[2].1->Object_0);
    let mut out: Vec<Member> = Vec::new();
    out.push(member("protocolVersion", text("2024-11-05")));
    out.push(member("capabilities", single_json("tools", empty_object())));
    out.push(member("serverInfo", object(info)));
    assert(members_view(out@) =~= server_info(version@)->Object_0);
    object(out)
}

/// A type with a description.
pub open spec fn described(kind: Seq<char>, description: Seq<char>) -> JsonSpec {
    JsonSpec::Object(
        seq![("type"@, JsonSpec::Text(kind)), ("description"@, JsonSpec::Text(description))],
    )
}

/// The tool that runs a command.
pub open spec fn exec_tool() -> JsonSpec {
    JsonSpec::Object(
        seq![
            ("name"@, JsonSpec::Text("gated_exec"@)),
            (
                "description"@,
                JsonSpec::Text(
                    "Run a command through the gatehouse broker (broker-executes on allow)."@,
                ),
            ),
            (
                "inputSchema"@,
                JsonSpec::Object(
                    seq![
                        ("type"@, JsonSpec::Text("object"@)),
                        (
                            "properties"@,
                            JsonSpec::Object(
                                seq![
                                    ("command"@, described("string"@, "Shell command string"@)),
                                    (
                                        "argv"@,
                                        JsonSpec::Object(
                                            seq![
                                                ("type"@, JsonSpec::Text("array"@)),
                                                (
                                                    "items"@,
                                                    single("type"@, JsonSpec::Text("string"@)),
                                                ),
                                                (
                                                    "description"@,
                                                    JsonSpec::Text(
                                                        "Preferred: explicit argv (no shell)"@,
                                                    ),
                                                ),
                                            ],
                                        ),
                                    ),
                                ],
                            ),
                        ),
                    ],
                ),
            ),
        ],
    )
}

/// The tool that fetches an address.
pub open spec fn fetch_tool() -> JsonSpec {
    JsonSpec::Object(
        seq![
            ("name"@, JsonSpec::Text("gated_fetch"@)),
            (
                "description"@,
                JsonSpec::Text(
                    "HTTP GET after gatehouse policy allows connecting to the host."@,
                ),
            ),
            (
                "inputSchema"@,
                JsonSpec::Object(
                    seq![
                        ("type"@, JsonSpec::Text("object"@)),
                        ("required"@, JsonSpec::Array(seq![JsonSpec::Text("url"@)])),
                        (
                            "properties"@,
                            single("url"@, single("type"@, JsonSpec::Text("string"@))),
                        ),
                    ],
                ),
            ),
        ],
    )
}

/// The tools of the server.
pub open spec fn tools_listed() -> JsonSpec {
    single("tools"@, JsonSpec::Array(seq![exec_tool(), fetch_tool()]))
}

fn exec_tool_json() -> (r: Json)
    ensures
        r@ == exec_tool(),
{
    let mut argv: Vec<Member> = Vec::new();
    argv.push(member("type", text("array")));
    argv.push(member("items", single_json("type", text("string"))));
    argv.push(member("description", text("Preferred: explicit argv (no shell)")));
    let ghost schema = exec_tool()->Object_0[2].1->Object_0;
    assert(members_view(argv@) =~= schema[1].1->Object_0[1].1->Object_0);
    let mut command: Vec<Member> = Vec::new();
    command.push(member("type", text("string")));
    command.push(member("description", text("Shell command string")));
    assert(members_view(command@) =~= described("string"@, "Shell command string"@)->Object_0);
    let mut properties: Vec<Member> = Vec::new();
    properties.push(member("command", object(command)));
    properties.push(member("argv", object(argv)));
    assert(members_view(properties@) =~= schema[1].1->Object_0);
    let mut input: Vec<Member> = Vec::new();
    input.push(member("type", text("object")));
    input.push(member("properties", object(properties)));
    assert(members_view(input@) =~= schema);
    let mut out: Vec<Member> = Vec::new();
    out.push(member("name", text("gated_exec")));
    out.push(
        member(
            "description",
            text("Run a command through the gatehouse broker (broker-executes on allow)."),
        ),
    );
    out.push(member("inputSchema", object(input)));
    assert(members_view(out@) =~= exec_tool()->Object_0);
    object(out)
}

fn fetch_tool_json() -> (r: Json)
    ensures
        r@ == fetch_tool(),
{
    let ghost schema = fetch_tool()->Object_0[2].1->Object_0;
    let mut required: Vec<Json> = Vec::new();
    required.push(text("url"));
    assert(items_view(required@) =~= schema[1].1->Array_0);
    let mut input: Vec<Member> = Vec::new();
    input.push(member("type", text("object")));
    input.push(member("required", array(required)));
    input.push(
        member("properties", single_json("url", single_json("type", text("string")))),
    );
    assert(members_view(input@) =~= schema);
    let mut out: Vec<Member> = Vec::new();
    out.push(member("name", text("gated_fetch")));
    out.push(
        member(
            "description",
            text("HTTP GET after gatehouse policy allows connecting to the host."),
        ),
    );
    out.push(member("inputSchema", object(input)));
    assert(members_view(out@) =~= fetch_tool()->Object_0);
    object(out)
}

fn tools_json() -> (r: Json)
    ensures
        r@ == tools_listed(),
{
    let mut tools: Vec<Json> = Vec::new();
    tools.push(exec_tool_json());
    tools.push(fetch_tool_json());
    assert(items_view(tools@) =~= seq![exec_tool(), fetch_tool()]);
    single_json("tools", array(tools))
}

/// What the server knows of its own process.
pub struct Server {
    pub version: String,
    /// The working directory, or why it is not known.
    pub cwd: Result<String, String>,
    pub process: u32,
}

/// What the working directory says.
pub open spec fn cwd_view(cwd: Result<String, String>) -> Result<Seq<char>, Seq<char>> {
    match cwd {
        Ok(d) => Ok(d@),
        Err(m) => Err(m@),
    }
}

/// What to do for a tool call.
pub enum ToolStep {
    /// It is settled: this is the result.
    Result(Json),
    /// Have the daemon run a command.
    Exec(GateRequest),
    /// Have the daemon decide about a host, then fetch the address.
    Fetch { request: GateRequest, url: String },
}

/// What to do for a tool call.
#[verifier::ext_equal]
pub enum ToolSpec {
    Result(JsonSpec),
    Exec(RequestSpec),
    Fetch { request: RequestSpec, url: Seq<char> },
}

impl View for ToolStep {
    type V = ToolSpec;

    open spec fn view(&self) -> ToolSpec {
        match self {
            ToolStep::Result(j) => ToolSpec::Result(j@),
            ToolStep::Exec(r) => ToolSpec::Exec(r@),
            ToolStep::Fetch { request, url } => ToolSpec::Fetch { request: request@, url: url@ },
        }
    }
}

/// The texts among some values, in order.
pub open spec fn texts_among(v: Seq<JsonSpec>) -> Seq<Seq<char>>
    decreases v.len(),
{
    if v.len() == 0 {
        Seq::empty()
    } else {
        match v.last() {
            JsonSpec::Text(t) => texts_among(v.drop_last()).push(t),
            _ => texts_among(v.drop_last()),
        }
    }
}

/// The command in the arguments of a tool call: a list of arguments, else a string for a shell.
pub open spec fn command_in(args: JsonSpec) -> Option<Seq<Seq<char>>> {
    match args.member("argv"@) {
        Some(JsonSpec::Array(v)) => Some(texts_among(v)),
        _ => match args.text_member("command"@) {
            Some(cmd) => Some(seq!["sh"@, "-c"@, cmd]),
            None => None,
        },
    }
}

/// A request of this server.
pub open spec fn mcp_request(process: u32, op: OperationSpec) -> RequestSpec {
    RequestSpec {
        harness: "mcp"@,
        session_id: "mcp-"@ + decimal(process as nat),
        env_allowlist: Seq::empty(),
        op,
    }
}

/// What to do for a call of the tool that runs a command.
pub open spec fn exec_step(
    args: JsonSpec,
    cwd: Result<Seq<char>, Seq<char>>,
    process: u32,
) -> ToolSpec {
    match cwd {
        Err(m) => ToolSpec::Result(tool_result(m, true)),
        Ok(cwd) => match command_in(args) {
            None => ToolSpec::Result(tool_result("gated_exec requires argv or command"@, true)),
            Some(argv) => if argv.len() == 0 {
                ToolSpec::Result(tool_result("empty argv"@, true))
            } else {
                ToolSpec::Exec(mcp_request(process, OperationSpec::Exec { argv, cwd }))
            },
        },
    }
}

/// What to do for a call of the tool that fetches an address, given the parts of the address. Only
/// addresses with a host that the policy can judge are fetched.
pub open spec fn fetch_step(url: Option<Seq<char>>, parts: Option<UrlSpec>, process: u32) -> ToolSpec {
    match url {
        None => ToolSpec::Result(tool_result("gated_fetch requires url"@, true)),
        Some(url) => match parts {
            None => ToolSpec::Result(tool_result("bad url"@, true)),
            Some(u) => if u.scheme != "http"@ && u.scheme != "https"@ {
                ToolSpec::Result(
                    tool_result(
                        "gated_fetch supports http/https only, got "@ + u.scheme,
                        true,
                    ),
                )
            } else {
                match u.host {
                    None => ToolSpec::Result(tool_result("url missing host"@, true)),
                    Some(host) => ToolSpec::Fetch {
                        request: mcp_request(
                            process,
                            OperationSpec::Net {
                                host,
                                port: match u.port {
                                    Some(p) => p,
                                    None => 443u16,
                                },
                            },
                        ),
                        url,
                    },
                }
            },
        },
    }
}

/// The arguments of a tool call; none are an empty object.
pub open spec fn arguments_of(params: JsonSpec) -> JsonSpec {
    match params.member("arguments"@) {
        Some(a) => a,
        None => nothing(),
    }
}

/// The name of the tool that is called; empty where there is none.
pub open spec fn tool_of(params: JsonSpec) -> Seq<char> {
    match params.text_member("name"@) {
        Some(n) => n,
        None => Seq::empty(),
    }
}

/// The parts of an optional address.
pub open spec fn parts_of(url: Option<Seq<char>>) -> Option<UrlSpec> {
    match url {
        Some(u) => url_parts(u),
        None => None,
    }
}

/// What to do for a tool call, given the parts of the address in it.
pub open spec fn tool_step(
    params: JsonSpec,
    cwd: Result<Seq<char>, Seq<char>>,
    process: u32,
    parts: Option<UrlSpec>,
) -> ToolSpec {
    let tool = tool_of(params);
    let args = arguments_of(params);
    if tool == "gated_exec"@ {
        exec_step(args, cwd, process)
    } else if tool == "gated_fetch"@ {
        fetch_step(args.text_member("url"@), parts, process)
    } else {
        ToolSpec::Result(tool_result("unknown tool: "@ + tool, true))
    }
}

fn request_of(process: u32, op: Operation) -> (r: GateRequest)
    ensures
        r@ == mcp_request(process, op@),
{
    let mut session_id = "mcp-".to_owned();
    session_id.append(to_decimal(process as u64).as_str());
    let env_allowlist: Vec<String> = Vec::new();
    assert(texts(env_allowlist@) =~= Seq::empty());
    GateRequest { harness: "mcp".to_owned(), session_id, env_allowlist, op }
}

fn texts_in(v: &Vec<Json>) -> (r: Vec<String>)
    ensures
        texts(r@) == texts_among(items_view(v@)),
{
    let ghost all = items_view(v@);
    let mut out: Vec<String> = Vec::new();
    let mut i: usize = 0;
    assert(texts(out@) =~= texts_among(all.take(0)));
    while i < v.len()
        invariant
            all == items_view(v@),
            i <= v@.len(),
            texts(out@) == texts_among(all.take(i as int)),
        decreases v@.len() - i,
    {
        let ghost before = texts(out@);
        assert(all.take(i + 1).drop_last() =~= all.take(i as int));
        assert(all.take(i + 1).last() == v@[i as int]@);
        if let Json::Text(t) = &v[i] {
            out.push(t.clone());
            assert(texts(out@) =~= before.push(t@));
        }
        i += 1;
    }
    assert(all.take(v@.len() as int) =~= all);
    out
}

fn read_command(args: &Json) -> (r: Option<Vec<String>>)
    ensures
        crate::gate::hook::opt_words(r) == command_in(args@),
{
    if let Some(Json::Array(v)) = args.get("argv") {
        proof {
            crate::json::lemma_array_view(*v);
        }
        return Some(texts_in(v));
    }
    match args.get_text("command") {
        Some(cmd) => {
            let mut argv: Vec<String> = Vec::new();
            argv.push("sh".to_owned());
            argv.push("-c".to_owned());
            argv.push(cmd.clone());
            assert(texts(argv@) =~= seq!["sh"@, "-c"@, cmd@]);
            Some(argv)
        },
        None => None,
    }
}

/// What to do for a call of the tool that runs a command.
pub fn gated_exec(args: &Json, cwd: &Result<String, String>, process: u32) -> (r: ToolStep)
    ensures
        r@ == exec_step(args@, cwd_view(*cwd), process),
{
    let cwd = match cwd {
        Ok(d) => d,
        Err(m) => {
            return ToolStep::Result(tool_error(m.as_str()));
        },
    };
    match read_command(args) {
        None => ToolStep::Result(tool_error("gated_exec requires argv or command")),
        Some(argv) => if argv.len() == 0 {
            ToolStep::Result(tool_error("empty argv"))
        } else {
            ToolStep::Exec(request_of(process, Operation::Exec { argv, cwd: cwd.clone() }))
        },
    }
}

/// What the parts of an optional address say.
pub open spec fn opt_url(u: Option<UrlParts>) -> Option<UrlSpec> {
    match u {
        Some(u) => Some(u@),
        None => None,
    }
}

/// What to do for a call of the tool that fetches an address, given the parts of the address.
pub fn gated_fetch_given(url: Option<&str>, parts: Option<UrlParts>, process: u32) -> (r: ToolStep)
    ensures
        r@ == fetch_step(opt_str(url), opt_url(parts), process),
{
    let url = match url {
        Some(u) => u,
        None => {
            return ToolStep::Result(tool_error("gated_fetch requires url"));
        },
    };
    let parts = match parts {
        Some(p) => p,
        None => {
            return ToolStep::Result(tool_error("bad url"));
        },
    };
    if !same(parts.scheme.as_str(), "http") && !same(parts.scheme.as_str(), "https") {
        let mut m = "gated_fetch supports http/https only, got ".to_owned();
        m.append(parts.scheme.as_str());
        return ToolStep::Result(tool_error(m.as_str()));
    }
    let port: u16 = match parts.port {
        Some(p) => p,
        None => 443,
    };
    match parts.host {
        Some(host) => ToolStep::Fetch {
            request: request_of(process, Operation::Net { host, port }),
            url: url.to_owned(),
        },
        None => ToolStep::Result(tool_error("url missing host")),
    }
}

/// What to do for a call of the tool that fetches an address.
pub fn gated_fetch(args: &Json, process: u32) -> (r: ToolStep)
    ensures
        r@ == fetch_step(
            args@.text_member("url"@),
            parts_of(args@.text_member("url"@)),
            process,
        ),
{
    match args.get_text("url") {
        Some(u) => {
            let parts = parse_url(u.as_str());
            gated_fetch_given(Some(u.as_str()), parts, process)
        },
        None => gated_fetch_given(None, None, process),
    }
}

/// What to do for a tool call.
pub fn handle_tool_call(params: &Json, server: &Server) -> (r: ToolStep)
    ensures
        r@ == tool_step(
            params@,
            cwd_view(server.cwd),
            server.process,
            parts_of(arguments_of(params@).text_member("url"@)),
        ),
{
    let name = match params.get_text("name") {
        Some(n) => n.clone(),
        None => String::new(),
    };
    assert(name@ =~= tool_of(params@));
    let none = empty_object();
    let args = match params.get("arguments") {
        Some(a) => a,
        None => &none,
    };
    if same(name.as_str(), "gated_exec") {
        gated_exec(args, &server.cwd, server.process)
    } else if same(name.as_str(), "gated_fetch") {
        gated_fetch(args, server.process)
    } else {
        let mut m = "unknown tool: ".to_owned();
        m.append(name.as_str());
        ToolStep::Result(tool_error(m.as_str()))
    }
}

/// What to do about a message.
pub enum McpStep {
    /// Nothing is sent.
    Ignore,
    /// This is the answer.
    Reply(Json),
    /// Have the daemon run a command, then answer the call with this id.
    Exec { id: Json, request: GateRequest },
    /// Have the daemon decide about a host, fetch the address, then answer the call with this id.
    Fetch { id: Json, request: GateRequest, url: String },
}

/// What to do about a message.
#[verifier::ext_equal]
pub enum McpSpec {
    Ignore,
    Reply(JsonSpec),
    Exec { id: JsonSpec, request: RequestSpec },
    Fetch { id: JsonSpec, request: RequestSpec, url: Seq<char> },
}

impl View for McpStep {
    type V = McpSpec;

    open spec fn view(&self) -> McpSpec {
        match self {
            McpStep::Ignore => McpSpec::Ignore,
            McpStep::Reply(j) => McpSpec::Reply(j@),
            McpStep::Exec { id, request } => McpSpec::Exec { id: id@, request: request@ },
            McpStep::Fetch { id, request, url } => McpSpec::Fetch {
                id: id@,
                request: request@,
                url: url@,
            },
        }
    }
}

/// The method of a message that has one; empty where it is no text.
pub open spec fn method_of(m: JsonSpec) -> Seq<char> {
    match m.text() {
        Some(t) => t,
        None => Seq::empty(),
    }
}

/// The parameters of a message; none are an empty object.
pub open spec fn params_of(msg: JsonSpec) -> JsonSpec {
    match msg.member("params"@) {
        Some(p) => p,
        None => nothing(),
    }
}

/// The answer or the work for a call, given what to do for a tool call.
pub open spec fn call_step(
    id: JsonSpec,
    method: Seq<char>,
    version: Seq<char>,
    tool: ToolSpec,
) -> McpSpec {
    if method == "initialize"@ {
        McpSpec::Reply(rpc_result(id, server_info(version)))
    } else if method == "notifications/initialized"@ || method == "initialized"@ || method
        == "ping"@ {
        McpSpec::Reply(rpc_result(id, nothing()))
    } else if method == "tools/list"@ {
        McpSpec::Reply(rpc_result(id, tools_listed()))
    } else if method == "tools/call"@ {
        match tool {
            ToolSpec::Result(j) => McpSpec::Reply(rpc_result(id, j)),
            ToolSpec::Exec(request) => McpSpec::Exec { id, request },
            ToolSpec::Fetch { request, url } => McpSpec::Fetch { id, request, url },
        }
    } else {
        McpSpec::Reply(
            rpc_failure(id, METHOD_NOT_FOUND as int, "method not found: "@ + method),
        )
    }
}

/// What to do about a message, given what to do for a tool call. A message without an id is a
/// notification and one without a method a response: answering either would break the protocol.
pub open spec fn message_step(msg: JsonSpec, version: Seq<char>, tool: ToolSpec) -> McpSpec {
    match (msg.member("method"@), msg.member("id"@)) {
        (Some(method), Some(id)) => call_step(id, method_of(method), version, tool),
        _ => McpSpec::Ignore,
    }
}

/// Notifications and responses are never answered.
pub proof fn law_only_calls_are_answered(msg: JsonSpec, version: Seq<char>, tool: ToolSpec)
    requires
        msg.member("id"@) is None || msg.member("method"@) is None,
    ensures
        message_step(msg, version, tool) is Ignore,
{
}

/// The id of an answer or of the work for a call, if there is one.
pub open spec fn answered_id(s: McpSpec) -> Option<JsonSpec> {
    match s {
        McpSpec::Ignore => None,
        McpSpec::Reply(j) => match j {
            JsonSpec::Object(v) => if v.len() > 1 {
                Some(v[1].1)
            } else {
                None
            },
            _ => None,
        },
        McpSpec::Exec { id, .. } => Some(id),
        McpSpec::Fetch { id, .. } => Some(id),
    }
}

/// A call is answered under the id it came with, whatever that is.
pub proof fn law_ids_are_echoed(msg: JsonSpec, version: Seq<char>, tool: ToolSpec)
    requires
        msg.member("id"@) is Some,
        msg.member("method"@) is Some,
    ensures
        answered_id(message_step(msg, version, tool)) == msg.member("id"@),
{
    let id = msg.member("id"@)->0;
    let m = method_of(msg.member("method"@)->0);
    let s = call_step(id, m, version, tool);
    if let McpSpec::Reply(j) = s {
        let v = j->Object_0;
        assert(v.len() == 3);
        assert(v[1].1 == id);
    }
}

/// What to do about a message.
pub fn dispatch(msg: &Json, server: &Server) -> (r: McpStep)
    ensures
        r@ == message_step(
            msg@,
            server.version@,
            tool_step(
                params_of(msg@),
                cwd_view(server.cwd),
                server.process,
                parts_of(arguments_of(params_of(msg@)).text_member("url"@)),
            ),
        ),
{
    let method = match msg.get("method") {
        Some(m) => m,
        None => {
            return McpStep::Ignore;
        },
    };
    let id = match msg.get("id") {
        Some(id) => id.copy(),
        None => {
            return McpStep::Ignore;
        },
    };
    let name = match method.as_text() {
        Some(t) => t.clone(),
        None => String::new(),
    };
    assert(name@ =~= method_of(method@));
    let m = name.as_str();
    if same(m, "initialize") {
        return McpStep::Reply(respond(id, server_info_json(server.version.as_str())));
    }
    if same(m, "notifications/initialized") || same(m, "initialized") || same(m, "ping") {
        return McpStep::Reply(respond(id, empty_object()));
    }
    if same(m, "tools/list") {
        return McpStep::Reply(respond(id, tools_json()));
    }
    if same(m, "tools/call") {
        let none = empty_object();
        let params = match msg.get("params") {
            Some(p) => p,
            None => &none,
        };
        return match handle_tool_call(params, server) {
            ToolStep::Result(j) => McpStep::Reply(respond(id, j)),
            ToolStep::Exec(request) => McpStep::Exec { id, request },
            ToolStep::Fetch { request, url } => McpStep::Fetch { id, request, url },
        };
    }
    let mut message = "method not found: ".to_owned();
    message.append(m);
    McpStep::Reply(respond_error(id, METHOD_NOT_FOUND, message.as_str()))
}

/// How a submitted request ends.
pub enum SubmitResult {
    Denied { summary: String },
    Output { stdout: String, stderr: String, code: i32 },
}

/// How a submitted request ends.
#[verifier::ext_equal]
pub enum SubmitSpec {
    Denied { summary: Seq<char> },
    Output { stdout: Seq<char>, stderr: Seq<char>, code: i32 },
}

impl View for SubmitResult {
    type V = SubmitSpec;

    open spec fn view(&self) -> SubmitSpec {
        match self {
            SubmitResult::Denied { summary } => SubmitSpec::Denied { summary: summary@ },
            SubmitResult::Output { stdout, stderr, code } => SubmitSpec::Output {
                stdout: stdout@,
                stderr: stderr@,
                code: *code,
            },
        }
    }
}

/// The text that `String::from_utf8_lossy` makes of some bytes.
pub uninterp spec fn lossy_text(bytes: Seq<u8>) -> Seq<char>;

/// `String::from_utf8_lossy`: the text whose UTF-8 form the bytes are, and where they are none, a
/// text with marks in the place of what is malformed. It depends on the bytes alone.
#[verifier::external_body]
fn lossy(bytes: &[u8]) -> (r: String)
    ensures
        r@ == lossy_text(bytes@),
        valid_utf8(bytes@) ==> r@ == decode_utf8(bytes@),
{
    String::from_utf8_lossy(bytes).into_owned()
}

/// The output of a command that is being run.
pub struct Collector {
    pub stdout: String,
    pub stderr: String,
}

/// What to do after a message of the daemon.
pub enum SubmitStep {
    /// Go on.
    Continue,
    /// Tell the user and go on.
    Note(String),
    /// It is over.
    Done(SubmitResult),
    /// It failed.
    Fail(String),
}

/// What to do after a message of the daemon.
#[verifier::ext_equal]
pub enum SubmitStepSpec {
    Continue,
    Note(Seq<char>),
    Done(SubmitSpec),
    Fail(Seq<char>),
}

impl View for SubmitStep {
    type V = SubmitStepSpec;

    open spec fn view(&self) -> SubmitStepSpec {
        match self {
            SubmitStep::Continue => SubmitStepSpec::Continue,
            SubmitStep::Note(n) => SubmitStepSpec::Note(n@),
            SubmitStep::Done(r) => SubmitStepSpec::Done(r@),
            SubmitStep::Fail(m) => SubmitStepSpec::Fail(m@),
        }
    }
}

/// The output after a message of the daemon, given the text of an output chunk.
pub open spec fn collected(
    out: (Seq<char>, Seq<char>),
    msg: DaemonMsgSpec,
    chunk: Result<Seq<char>, Seq<char>>,
) -> (Seq<char>, Seq<char>) {
    match (msg, chunk) {
        (DaemonMsgSpec::Stdout { .. }, Ok(t)) => (out.0 + t, out.1),
        (DaemonMsgSpec::Stderr { .. }, Ok(t)) => (out.0, out.1 + t),
        _ => out,
    }
}

/// What to do after a message of the daemon, given the output so far and the text of an output
/// chunk.
pub open spec fn submit_step(
    out: (Seq<char>, Seq<char>),
    msg: DaemonMsgSpec,
    execute: bool,
    chunk: Result<Seq<char>, Seq<char>>,
) -> SubmitStepSpec {
    match msg {
        DaemonMsgSpec::Decision { digest, status, summary, .. } => match status {
            DecisionStatus::Denied => SubmitStepSpec::Done(SubmitSpec::Denied { summary }),
            DecisionStatus::Allowed => if execute {
                SubmitStepSpec::Continue
            } else {
                SubmitStepSpec::Done(
                    SubmitSpec::Output { stdout: Seq::empty(), stderr: Seq::empty(), code: 0 },
                )
            },
            DecisionStatus::Pending => SubmitStepSpec::Note(
                "gate-mcp: waiting for approval ["@ + first_chars(digest, 8) + "] "@ + summary,
            ),
        },
        DaemonMsgSpec::Stdout { .. } => match chunk {
            Ok(_) => SubmitStepSpec::Continue,
            Err(m) => SubmitStepSpec::Fail(m),
        },
        DaemonMsgSpec::Stderr { .. } => match chunk {
            Ok(_) => SubmitStepSpec::Continue,
            Err(m) => SubmitStepSpec::Fail(m),
        },
        DaemonMsgSpec::Exit { code } => SubmitStepSpec::Done(
            SubmitSpec::Output { stdout: out.0, stderr: out.1, code },
        ),
        DaemonMsgSpec::Error { message } => SubmitStepSpec::Fail("daemon error: "@ + message),
    }
}

/// The text of the output chunk in a message, or what is wrong with the chunk. Another message
/// holds an empty one.
pub open spec fn chunk_text(msg: DaemonMsgSpec) -> Result<Seq<char>, Seq<char>> {
    let bytes = match msg {
        DaemonMsgSpec::Stdout { b64 } => base64_bytes(b64),
        DaemonMsgSpec::Stderr { b64 } => base64_bytes(b64),
        _ => Ok(Seq::empty()),
    };
    match bytes {
        Ok(b) => Ok(lossy_text(b)),
        Err(m) => Err(m),
    }
}

/// What a text or a complaint says.
pub open spec fn text_or(r: Result<String, String>) -> Result<Seq<char>, Seq<char>> {
    match r {
        Ok(t) => Ok(t@),
        Err(m) => Err(m@),
    }
}

impl Collector {
    /// Nothing has come yet.
    pub fn new() -> (r: Collector)
        ensures
            r.stdout@.len() == 0,
            r.stderr@.len() == 0,
    {
        Collector { stdout: String::new(), stderr: String::new() }
    }

    /// Takes a message of the daemon, given the text of an output chunk.
    pub fn take_given(&mut self, msg: &DaemonMsg, execute: bool, chunk: Result<String, String>) -> (r:
        SubmitStep)
        ensures
            r@ == submit_step(
                (old(self).stdout@, old(self).stderr@),
                msg@,
                execute,
                text_or(chunk),
            ),
            (final(self).stdout@, final(self).stderr@) == collected(
                (old(self).stdout@, old(self).stderr@),
                msg@,
                text_or(chunk),
            ),
    {
        match msg {
            DaemonMsg::Decision { digest, status, summary, .. } => match status {
                DecisionStatus::Denied => SubmitStep::Done(
                    SubmitResult::Denied { summary: summary.clone() },
                ),
                DecisionStatus::Allowed => if execute {
                    SubmitStep::Continue
                } else {
                    let stdout = String::new();
                    let stderr = String::new();
                    assert(stdout@ =~= Seq::empty());
                    assert(stderr@ =~= Seq::empty());
                    SubmitStep::Done(SubmitResult::Output { stdout, stderr, code: 0 })
                },
                DecisionStatus::Pending => {
                    let mut line = "gate-mcp: waiting for approval [".to_owned();
                    line.append(take_chars(digest.as_str(), 8).as_str());
                    line.append("] ");
                    line.append(summary.as_str());
                    SubmitStep::Note(line)
                },
            },
            DaemonMsg::Stdout { .. } => match chunk {
                Ok(t) => {
                    self.stdout.append(t.as_str());
                    SubmitStep::Continue
                },
                Err(m) => SubmitStep::Fail(m),
            },
            DaemonMsg::Stderr { .. } => match chunk {
                Ok(t) => {
                    self.stderr.append(t.as_str());
                    SubmitStep::Continue
                },
                Err(m) => SubmitStep::Fail(m),
            },
            DaemonMsg::Exit { code } => SubmitStep::Done(
                SubmitResult::Output {
                    stdout: self.stdout.clone(),
                    stderr: self.stderr.clone(),
                    code: *code,
                },
            ),
            DaemonMsg::Error { message } => {
                let mut m = "daemon error: ".to_owned();
                m.append(message.as_str());
                SubmitStep::Fail(m)
            },
        }
    }

    /// Takes a message of the daemon.
    pub fn take(&mut self, msg: &DaemonMsg, execute: bool) -> (r: SubmitStep)
        ensures
            r@ == submit_step(
                (old(self).stdout@, old(self).stderr@),
                msg@,
                execute,
                chunk_text(msg@),
            ),
            (final(self).stdout@, final(self).stderr@) == collected(
                (old(self).stdout@, old(self).stderr@),
                msg@,
                chunk_text(msg@),
            ),
    {
        let bytes = match msg {
            DaemonMsg::Stdout { b64 } => base64_decode(b64.as_str()),
            DaemonMsg::Stderr { b64 } => base64_decode(b64.as_str()),
            _ => Ok(Vec::new()),
        };
        let chunk = match bytes {
            Ok(b) => {
                assert(!(msg@ is Stdout) && !(msg@ is Stderr) ==> b@ =~= Seq::empty());
                Ok(lossy(b.as_slice()))
            },
            Err(m) => Err(m),
        };
        self.take_given(msg, execute, chunk)
    }
}

/// What is said where the daemon goes away before it is done.
pub fn closed_message() -> (r: &'static str)
    ensures
        r@ == "daemon closed connection"@,
{
    "daemon closed connection"
}

/// The text that a tool returns for the output of a command: what it wrote, else its exit code.
pub open spec fn output_text(stdout: Seq<char>, stderr: Seq<char>, code: i32) -> Seq<char> {
    if stdout.len() == 0 && stderr.len() == 0 {
        "(exit "@ + signed_decimal(code as int) + ")"@
    } else if stderr.len() == 0 {
        stdout
    } else if stdout.len() == 0 {
        stderr
    } else {
        stdout + "\n"@ + stderr
    }
}

/// The result of the tool that runs a command.
pub open spec fn exec_result(r: Result<SubmitSpec, Seq<char>>) -> JsonSpec {
    match r {
        Err(m) => tool_result(m, true),
        Ok(SubmitSpec::Denied { summary }) => tool_result("denied: "@ + summary, true),
        Ok(SubmitSpec::Output { stdout, stderr, code }) => tool_result(
            output_text(stdout, stderr, code),
            code != 0,
        ),
    }
}

/// What the end of a submitted request says.
pub open spec fn end_view(r: Result<SubmitResult, String>) -> Result<SubmitSpec, Seq<char>> {
    match r {
        Ok(s) => Ok(s@),
        Err(m) => Err(m@),
    }
}

/// The result of the tool that runs a command. A daemon that fails makes the tool fail, never the
/// protocol.
pub fn exec_outcome(r: &Result<SubmitResult, String>) -> (j: Json)
    ensures
        j@ == exec_result(end_view(*r)),
{
    match r {
        Err(m) => tool_error(m.as_str()),
        Ok(SubmitResult::Denied { summary }) => {
            let mut m = "denied: ".to_owned();
            m.append(summary.as_str());
            tool_error(m.as_str())
        },
        Ok(SubmitResult::Output { stdout, stderr, code }) => {
            let mut out = String::new();
            if !stdout.as_str().is_empty() {
                out.append(stdout.as_str());
            }
            if !stderr.as_str().is_empty() {
                if !stdout.as_str().is_empty() {
                    out.append("\n");
                }
                out.append(stderr.as_str());
            }
            if stdout.as_str().is_empty() && stderr.as_str().is_empty() {
                out.append("(exit ");
                out.append(to_signed_decimal(*code as i64).as_str());
                out.append(")");
            }
            assert(out@ =~= output_text(stdout@, stderr@, *code));
            if *code != 0 {
                tool_error(out.as_str())
            } else {
                tool_ok(out.as_str())
            }
        },
    }
}

/// The result where an address is not to be fetched: the daemon failed or denied it.
pub open spec fn refused_fetch(r: Result<SubmitSpec, Seq<char>>) -> Option<JsonSpec> {
    match r {
        Err(m) => Some(tool_result(m, true)),
        Ok(SubmitSpec::Denied { summary }) => Some(tool_result("denied: "@ + summary, true)),
        Ok(SubmitSpec::Output { .. }) => None,
    }
}

/// What comes before fetching an address: the result where it is not to be fetched.
pub fn fetch_refusal(r: &Result<SubmitResult, String>) -> (j: Option<Json>)
    ensures
        (match j {
            Some(v) => Some(v@),
            None => None,
        }) == refused_fetch(end_view(*r)),
        match *r {
            Err(m) => j matches Some(v) && v@ == tool_result(m@, true),
            Ok(SubmitResult::Denied { summary }) => j matches Some(v) && v@ == tool_result(
                "denied: "@ + summary@,
                true,
            ),
            Ok(SubmitResult::Output { .. }) => j is None,
        },
{
    match r {
        Err(m) => Some(tool_error(m.as_str())),
        Ok(SubmitResult::Denied { summary }) => {
            let mut m = "denied: ".to_owned();
            m.append(summary.as_str());
            Some(tool_error(m.as_str()))
        },
        Ok(SubmitResult::Output { .. }) => None,
    }
}

/// The result for an address that answered with a redirection.
pub open spec fn redirected(status: Seq<char>, location: Option<Seq<char>>) -> JsonSpec {
    tool_result(
        "HTTP "@ + status + " redirect to "@ + (match location {
            Some(l) => l,
            None => "(no location header)"@,
        })
            + " — not followed; call gated_fetch again with that url so policy sees the new host"@,
        true,
    )
}

/// The result for an address that answered with a redirection. It is not followed: the policy has
/// not seen the host it leads to.
pub fn redirect_outcome(status: &str, location: Option<&str>) -> (j: Json)
    ensures
        j@ == redirected(status@, opt_str(location)),
{
    let mut m = "HTTP ".to_owned();
    m.append(status);
    m.append(" redirect to ");
    match location {
        Some(l) => m.append(l),
        None => m.append("(no location header)"),
    }
    m.append(
        " — not followed; call gated_fetch again with that url so policy sees the new host",
    );
    tool_error(m.as_str())
}

/// Whether a text is cut after so many characters: they fit into the limit, and one more would not.
pub open spec fn cut_at(s: Seq<char>, k: int) -> bool {
    &&& 0 <= k < s.len()
    &&& encode_utf8(s.take(k)).len() <= MAX_BODY_BYTES
    &&& encode_utf8(s.take(k + 1)).len() > MAX_BODY_BYTES
}

/// A text, cut to the limit where it is longer.
pub open spec fn truncation(s: Seq<char>, r: Seq<char>) -> bool {
    if encode_utf8(s).len() <= MAX_BODY_BYTES {
        r == s
    } else {
        exists|k: int| #[trigger] cut_at(s, k) && r == s.take(k) + CUT_MARK@
    }
}

/// A character put behind a text puts its UTF-8 form behind that of the text.
pub proof fn lemma_encode_push(s: Seq<char>, c: char)
    ensures
        encode_utf8(s.push(c)) == encode_utf8(s) + encode_scalar(c as u32),
    decreases s.len(),
{
    if s.len() == 0 {
        reveal_with_fuel(encode_utf8, 2);
        assert(s.push(c).drop_first() =~= Seq::empty());
        assert(encode_utf8(s.push(c)) =~= encode_scalar(c as u32));
        assert(encode_utf8(s) + encode_scalar(c as u32) =~= encode_scalar(c as u32));
    } else {
        lemma_encode_push(s.drop_first(), c);
        assert(s.push(c).drop_first() =~= s.drop_first().push(c));
        assert(encode_utf8(s.push(c)) =~= encode_utf8(s) + encode_scalar(c as u32));
    }
}

fn width(c: char) -> (r: usize)
    ensures
        r == encode_scalar(c as u32).len(),
        1 <= r <= 4,
{
    let n: u32 = c as u32;
    if n <= 0x7f {
        1
    } else if n <= 0x7ff {
        2
    } else if n <= 0xffff {
        3
    } else {
        4
    }
}

/// A longer text has the longer UTF-8 form.
proof fn lemma_encode_monotone(s: Seq<char>, a: int, b: int)
    requires
        0 <= a <= b <= s.len(),
    ensures
        encode_utf8(s.take(a)).len() <= encode_utf8(s.take(b)).len(),
    decreases b - a,
{
    if a < b {
        lemma_encode_monotone(s, a, b - 1);
        assert(s.take(b) =~= s.take(b - 1).push(s[b - 1]));
        lemma_encode_push(s.take(b - 1), s[b - 1]);
    }
}

/// A text, cut to the limit where it is longer. It is never cut within a character.
pub fn truncate_body(body: &str) -> (r: String)
    ensures
        truncation(body@, r@),
{
    if body.as_bytes().len() <= MAX_BODY_BYTES {
        return body.to_owned();
    }
    let chars = chars_of(body);
    let mut used: usize = 0;
    let mut k: usize = 0;
    assert(chars@.take(0) =~= Seq::empty());
    assert(chars@.take(chars@.len() as int) =~= chars@);
    while k < chars.len() && used + width(chars[k]) <= MAX_BODY_BYTES
        invariant
            k <= chars@.len(),
            used <= MAX_BODY_BYTES,
            used == encode_utf8(chars@.take(k as int)).len(),
        decreases chars@.len() - k,
    {
        proof {
            lemma_encode_push(chars@.take(k as int), chars@[k as int]);
            assert(chars@.take(k + 1) =~= chars@.take(k as int).push(chars@[k as int]));
        }
        used += width(chars[k]);
        k += 1;
    }
    proof {
        assert(k < chars@.len());
        lemma_encode_push(chars@.take(k as int), chars@[k as int]);
        assert(chars@.take(k + 1) =~= chars@.take(k as int).push(chars@[k as int]));
        assert(cut_at(body@, k as int));
        assert(chars@.subrange(0, k as int) =~= chars@.take(k as int));
    }
    let mut out = string_of(&chars, 0, k);
    out.append(CUT_MARK);
    out
}

/// A cut text starts like the whole one and keeps within the limit, but for the mark that follows.
pub proof fn law_truncation_keeps_a_prefix(s: Seq<char>, r: Seq<char>)
    requires
        truncation(s, r),
        r != s,
    ensures
        exists|k: int|
            0 <= k < s.len() && r == #[trigger] s.take(k) + CUT_MARK@ && encode_utf8(
                s.take(k),
            ).len() <= MAX_BODY_BYTES,
{
    let k = choose|k: int| #[trigger] cut_at(s, k) && r == s.take(k) + CUT_MARK@;
    assert(cut_at(s, k));
}

/// A text is cut in one place only.
pub proof fn law_truncation_is_determined(s: Seq<char>, a: Seq<char>, b: Seq<char>)
    requires
        truncation(s, a),
        truncation(s, b),
    ensures
        a == b,
{
    if encode_utf8(s).len() > MAX_BODY_BYTES {
        let i = choose|k: int| #[trigger] cut_at(s, k) && a == s.take(k) + CUT_MARK@;
        let j = choose|k: int| #[trigger] cut_at(s, k) && b == s.take(k) + CUT_MARK@;
        if i < j {
            lemma_encode_monotone(s, i + 1, j);
        } else if j < i {
            lemma_encode_monotone(s, j + 1, i);
        }
    }
}

/// The result for an address that was fetched, given the status and the body of the answer.
pub fn fetch_outcome(status: &str, body: &str) -> (j: Json)
    ensures
        exists|shown: Seq<char>|
            truncation("HTTP "@ + status@ + "\n"@ + body@, shown) && j@ == #[trigger] tool_result(
                shown,
                false,
            ),
{
    let mut whole = "HTTP ".to_owned();
    whole.append(status);
    whole.append("\n");
    whole.append(body);
    let shown = truncate_body(whole.as_str());
    let j = tool_ok(shown.as_str());
    assert(j@ == tool_result(shown@, false));
    j
}

}
