//! The command line client: submitting requests, and the operator's commands.
use vstd::prelude::*;
use vstd::string::*;

use crate::codec::{base64_bytes, base64_decode};
use crate::daemon::ctx::{page_address, page_url};
use crate::number::{decimal, is_digit, parse_u64, to_decimal, unsigned_of};
use crate::proto::request::{GateRequest, Operation, OperationSpec, RequestSpec};
use crate::proto::wire::{
    tier_label, CtlResp, CtlRespSpec, DaemonMsg, DaemonMsgSpec, DecisionStatus, PendingEntrySpec,
};
use crate::text::{
    chars_of, cut_end, first_chars, opt_str, opt_text, string_of, take_chars, texts, trim,
    trim_end_matches, trimmed,
};

verus! {

/// The exit code where the request was denied.
pub const DENIED: u8 = 2;

/// The exit code where the daemon failed.
pub const FAILED: u8 = 125;

/// What the client does about a message of the daemon.
pub enum ClientStep {
    /// Tell the user and go on.
    Note(String),
    /// Go on.
    Continue,
    /// Pass a chunk of the child's output on, and go on.
    Output { to_stderr: bool, bytes: Vec<u8> },
    /// Print a line and end.
    End { to_stderr: bool, line: String, code: u8 },
    /// End.
    Exit(u8),
    /// The message could not be understood, with what is wrong with it.
    Malformed(String),
}

/// What the client does about a message of the daemon.
#[verifier::ext_equal]
pub enum ClientSpec {
    Note(Seq<char>),
    Continue,
    Output { to_stderr: bool, bytes: Seq<u8> },
    End { to_stderr: bool, line: Seq<char>, code: u8 },
    Exit(u8),
    Malformed(Seq<char>),
}

impl View for ClientStep {
    type V = ClientSpec;

    open spec fn view(&self) -> ClientSpec {
        match self {
            ClientStep::Note(s) => ClientSpec::Note(s@),
            ClientStep::Continue => ClientSpec::Continue,
            ClientStep::Output { to_stderr, bytes } => ClientSpec::Output {
                to_stderr: *to_stderr,
                bytes: bytes@,
            },
            ClientStep::End { to_stderr, line, code } => ClientSpec::End {
                to_stderr: *to_stderr,
                line: line@,
                code: *code,
            },
            ClientStep::Exit(code) => ClientSpec::Exit(*code),
            ClientStep::Malformed(m) => ClientSpec::Malformed(m@),
        }
    }
}

/// A decision as one line of JSON.
pub open spec fn decision_json(decision: Seq<char>, digest: Seq<char>) -> Seq<char> {
    "{\"decision\":\""@ + decision + "\",\"digest\":\""@ + digest + "\"}"@
}

/// The exit code of the client for that of the child: it is kept within a byte.
pub open spec fn exit_code(code: i32) -> u8 {
    if code < 0 {
        0u8
    } else if code > 255 {
        255u8
    } else {
        code as u8
    }
}

/// What the client does about a message of the daemon, given the bytes of an output chunk.
pub open spec fn client_step(
    msg: DaemonMsgSpec,
    execute: bool,
    json: bool,
    bytes: Result<Seq<u8>, Seq<char>>,
) -> ClientSpec {
    match msg {
        DaemonMsgSpec::Decision { digest, tier, status, summary } => match status {
            DecisionStatus::Pending => ClientSpec::Note(
                "gate: waiting for approval ["@ + first_chars(digest, 8) + "] ("@ + tier_label(tier)
                    + "): "@ + summary,
            ),
            DecisionStatus::Denied => if json {
                ClientSpec::End {
                    to_stderr: false,
                    line: decision_json("denied"@, digest),
                    code: DENIED,
                }
            } else {
                ClientSpec::End {
                    to_stderr: true,
                    line: "gate: denied ("@ + tier_label(tier) + "): "@ + summary,
                    code: DENIED,
                }
            },
            DecisionStatus::Allowed => if execute {
                ClientSpec::Continue
            } else if json {
                ClientSpec::End {
                    to_stderr: false,
                    line: decision_json("allowed"@, digest),
                    code: 0,
                }
            } else {
                ClientSpec::End {
                    to_stderr: true,
                    line: "gate: allowed: "@ + summary,
                    code: 0,
                }
            },
        },
        DaemonMsgSpec::Stdout { .. } => match bytes {
            Ok(b) => ClientSpec::Output { to_stderr: false, bytes: b },
            Err(m) => ClientSpec::Malformed(m),
        },
        DaemonMsgSpec::Stderr { .. } => match bytes {
            Ok(b) => ClientSpec::Output { to_stderr: true, bytes: b },
            Err(m) => ClientSpec::Malformed(m),
        },
        DaemonMsgSpec::Exit { code } => ClientSpec::Exit(exit_code(code)),
        DaemonMsgSpec::Error { message } => ClientSpec::End {
            to_stderr: true,
            line: "gate: daemon error: "@ + message,
            code: FAILED,
        },
    }
}

/// The bytes of the output chunk in a message, or what is wrong with the chunk. Another message
/// holds an empty one.
pub open spec fn chunk_of(msg: DaemonMsgSpec) -> Result<Seq<u8>, Seq<char>> {
    match msg {
        DaemonMsgSpec::Stdout { b64 } => base64_bytes(b64),
        DaemonMsgSpec::Stderr { b64 } => base64_bytes(b64),
        _ => Ok(Seq::empty()),
    }
}

/// What bytes or a complaint say.
pub open spec fn bytes_or(b: Result<Vec<u8>, String>) -> Result<Seq<u8>, Seq<char>> {
    match b {
        Ok(b) => Ok(b@),
        Err(m) => Err(m@),
    }
}

fn decision_line(decision: &str, digest: &str) -> (r: String)
    ensures
        r@ == decision_json(decision@, digest@),
{
    let mut out = "{\"decision\":\"".to_owned();
    out.append(decision);
    out.append("\",\"digest\":\"");
    out.append(digest);
    out.append("\"}");
    out
}

/// What the client does about a message of the daemon, given the bytes of an output chunk.
pub fn on_message_given(
    msg: &DaemonMsg,
    execute: bool,
    json: bool,
    bytes: Result<Vec<u8>, String>,
) -> (r: ClientStep)
    ensures
        r@ == client_step(msg@, execute, json, bytes_or(bytes)),
{
    match msg {
        DaemonMsg::Decision { digest, tier, status, summary } => match status {
            DecisionStatus::Pending => {
                let mut line = "gate: waiting for approval [".to_owned();
                line.append(take_chars(digest.as_str(), 8).as_str());
                line.append("] (");
                line.append(tier.label());
                line.append("): ");
                line.append(summary.as_str());
                ClientStep::Note(line)
            },
            DecisionStatus::Denied => if json {
                ClientStep::End {
                    to_stderr: false,
                    line: decision_line("denied", digest.as_str()),
                    code: DENIED,
                }
            } else {
                let mut line = "gate: denied (".to_owned();
                line.append(tier.label());
                line.append("): ");
                line.append(summary.as_str());
                ClientStep::End { to_stderr: true, line, code: DENIED }
            },
            DecisionStatus::Allowed => if execute {
                ClientStep::Continue
            } else if json {
                ClientStep::End {
                    to_stderr: false,
                    line: decision_line("allowed", digest.as_str()),
                    code: 0,
                }
            } else {
                let mut line = "gate: allowed: ".to_owned();
                line.append(summary.as_str());
                ClientStep::End { to_stderr: true, line, code: 0 }
            },
        },
        DaemonMsg::Stdout { .. } => match bytes {
            Ok(bytes) => ClientStep::Output { to_stderr: false, bytes },
            Err(m) => ClientStep::Malformed(m),
        },
        DaemonMsg::Stderr { .. } => match bytes {
            Ok(bytes) => ClientStep::Output { to_stderr: true, bytes },
            Err(m) => ClientStep::Malformed(m),
        },
        DaemonMsg::Exit { code } => if *code < 0 {
            ClientStep::Exit(0)
        } else if *code > 255 {
            ClientStep::Exit(255)
        } else {
            ClientStep::Exit(*code as u8)
        },
        DaemonMsg::Error { message } => {
            let mut line = "gate: daemon error: ".to_owned();
            line.append(message.as_str());
            ClientStep::End { to_stderr: true, line, code: FAILED }
        },
    }
}

/// What the client does about a message of the daemon.
pub fn on_message(msg: &DaemonMsg, execute: bool, json: bool) -> (r: ClientStep)
    ensures
        r@ == client_step(msg@, execute, json, chunk_of(msg@)),
{
    let bytes = match msg {
        DaemonMsg::Stdout { b64 } => base64_decode(b64.as_str()),
        DaemonMsg::Stderr { b64 } => base64_decode(b64.as_str()),
        _ => Ok(Vec::new()),
    };
    on_message_given(msg, execute, json, bytes)
}

/// What the client does where the daemon goes away before it is done.
pub fn on_close() -> (r: ClientStep)
    ensures
        r@ == (ClientSpec::End {
            to_stderr: true,
            line: "gate: daemon closed the connection unexpectedly"@,
            code: FAILED,
        }),
{
    ClientStep::End {
        to_stderr: true,
        line: "gate: daemon closed the connection unexpectedly".to_owned(),
        code: FAILED,
    }
}

/// The session that requests belong to.
pub open spec fn session_of(set: Option<Seq<char>>, process: u32) -> Seq<char> {
    match set {
        Some(s) => s,
        None => "cli-"@ + decimal(process as nat),
    }
}

/// The session that requests belong to: the one that is set, else this process.
pub fn session_id(set: Option<&str>, process: u32) -> (r: String)
    ensures
        r@ == session_of(opt_str(set), process),
        r@ == (match opt_str(set) {
            Some(s) => s,
            None => "cli-"@ + decimal(process as nat),
        }),
{
    match set {
        Some(s) => s.to_owned(),
        None => {
            let mut out = "cli-".to_owned();
            out.append(to_decimal(process as u64).as_str());
            out
        },
    }
}

/// The request to run a command.
pub fn exec_request(
    harness: String,
    session_id: String,
    env_allowlist: Vec<String>,
    argv: Vec<String>,
    cwd: String,
) -> (r: GateRequest)
    ensures
        r@ == (RequestSpec {
            harness: harness@,
            session_id: session_id@,
            env_allowlist: texts(env_allowlist@),
            op: OperationSpec::Exec { argv: texts(argv@), cwd: cwd@ },
        }),
{
    GateRequest { harness, session_id, env_allowlist, op: Operation::Exec { argv, cwd } }
}

/// A text with spaces before it so that it is at least so wide.
pub open spec fn padded(s: Seq<char>, width: int) -> Seq<char> {
    if s.len() >= width {
        s
    } else {
        Seq::new((width - s.len()) as nat, |i: int| ' ') + s
    }
}

fn pad(s: &str, width: usize) -> (r: String)
    ensures
        r@ == padded(s@, width as int),
{
    let n = chars_of(s).len();
    let mut out = String::new();
    let mut i: usize = n;
    while i < width
        invariant
            n == s@.len(),
            n <= i,
            i <= width || i == n,
            out@ == Seq::new((i - n) as nat, |k: int| ' '),
        decreases width - i,
    {
        out.push(' ');
        assert(out@ =~= Seq::new((i + 1 - n) as nat, |k: int| ' '));
        i += 1;
    }
    out.append(s);
    assert(out@ =~= padded(s@, width as int));
    out
}

/// What the client prints about an answer of the daemon, and its exit code.
pub struct Printed {
    pub out: Vec<String>,
    pub err: Vec<String>,
    pub code: u8,
}

/// What the client prints about an answer of the daemon, and its exit code.
#[verifier::ext_equal]
pub struct PrintedSpec {
    pub out: Seq<Seq<char>>,
    pub err: Seq<Seq<char>>,
    pub code: u8,
}

impl View for Printed {
    type V = PrintedSpec;

    open spec fn view(&self) -> PrintedSpec {
        PrintedSpec { out: texts(self.out@), err: texts(self.err@), code: self.code }
    }
}

/// The line about a waiting request.
pub open spec fn pending_line(e: PendingEntrySpec) -> Seq<char> {
    "["@ + first_chars(e.digest, 8) + "] "@ + padded(tier_label(e.tier), 10) + " "@ + padded(
        decimal(e.age_secs as nat),
        4,
    ) + "s "@ + e.summary + " ("@ + e.harness + ")"@
}

/// The line about a grant.
pub open spec fn grant_line(g: (Seq<char>, u64)) -> Seq<char> {
    "  `"@ + g.0 + "` for "@ + decimal(g.1 as nat) + "s more"@
}

/// What the client prints about an answer of the daemon.
pub open spec fn printed(resp: CtlRespSpec) -> PrintedSpec {
    match resp {
        CtlRespSpec::Done { message } => PrintedSpec {
            out: seq![message],
            err: Seq::empty(),
            code: 0,
        },
        CtlRespSpec::Error { message } => PrintedSpec {
            out: Seq::empty(),
            err: seq!["error: "@ + message],
            code: 1,
        },
        CtlRespSpec::Pending { entries } => PrintedSpec {
            out: if entries.len() == 0 {
                seq!["no pending requests"@]
            } else {
                entries.map_values(|e: PendingEntrySpec| pending_line(e))
            },
            err: Seq::empty(),
            code: 0,
        },
        CtlRespSpec::EnrollCode { code, ttl_secs } => PrintedSpec {
            out: seq![
                "enrollment code: "@ + code + "  (valid "@ + decimal(ttl_secs as nat)
                    + "s, single use)"@,
            ],
            err: Seq::empty(),
            code: 0,
        },
        CtlRespSpec::Status { version, pending, grants, uptime_secs } => PrintedSpec {
            out: seq![
                "gatehoused up "@ + decimal(uptime_secs as nat) + "s (protocol v"@ + decimal(
                    version as nat,
                ) + ")"@,
                "pending approvals: "@ + decimal(pending as nat),
            ] + (if grants.len() == 0 {
                seq!["active grants: none"@]
            } else {
                seq!["active grants:"@] + grants.map_values(|g: (Seq<char>, u64)| grant_line(g))
            }),
            err: Seq::empty(),
            code: 0,
        },
    }
}

fn one(line: String) -> (r: Vec<String>)
    ensures
        texts(r@) == seq![line@],
{
    let mut out: Vec<String> = Vec::new();
    out.push(line);
    assert(texts(out@) =~= seq![line@]);
    out
}

fn none() -> (r: Vec<String>)
    ensures
        texts(r@) == Seq::<Seq<char>>::empty(),
{
    let out: Vec<String> = Vec::new();
    assert(texts(out@) =~= Seq::empty());
    out
}

/// What the client prints about an answer of the daemon.
pub fn print_response(resp: &CtlResp) -> (r: Printed)
    ensures
        r@ == printed(resp@),
{
    match resp {
        CtlResp::Done { message } => Printed { out: one(message.clone()), err: none(), code: 0 },
        CtlResp::Error { message } => {
            let mut line = "error: ".to_owned();
            line.append(message.as_str());
            Printed { out: none(), err: one(line), code: 1 }
        },
        CtlResp::Pending { entries } => {
            if entries.len() == 0 {
                return Printed {
                    out: one("no pending requests".to_owned()),
                    err: none(),
                    code: 0,
                };
            }
            let mut out: Vec<String> = Vec::new();
            let mut i: usize = 0;
            while i < entries.len()
                invariant
                    i <= entries@.len(),
                    out@.len() == i,
                    forall|k: int| 0 <= k < i ==> (#[trigger] out@[k])@ == pending_line(entries@[k]@),
                decreases entries@.len() - i,
            {
                let e = &entries[i];
                let mut line = "[".to_owned();
                line.append(take_chars(e.digest.as_str(), 8).as_str());
                line.append("] ");
                line.append(pad(e.tier.label(), 10).as_str());
                line.append(" ");
                line.append(pad(to_decimal(e.age_secs).as_str(), 4).as_str());
                line.append("s ");
                line.append(e.summary.as_str());
                line.append(" (");
                line.append(e.harness.as_str());
                line.append(")");
                out.push(line);
                i += 1;
            }
            assert(texts(out@) =~= printed(resp@).out);
            Printed { out, err: none(), code: 0 }
        },
        CtlResp::EnrollCode { code, ttl_secs } => {
            let mut line = "enrollment code: ".to_owned();
            line.append(code.as_str());
            line.append("  (valid ");
            line.append(to_decimal(*ttl_secs).as_str());
            line.append("s, single use)");
            Printed { out: one(line), err: none(), code: 0 }
        },
        CtlResp::Status { version, pending, grants, uptime_secs } => {
            let mut out: Vec<String> = Vec::new();
            let mut line = "gatehoused up ".to_owned();
            line.append(to_decimal(*uptime_secs).as_str());
            line.append("s (protocol v");
            line.append(to_decimal(*version as u64).as_str());
            line.append(")");
            let ghost first = line@;
            out.push(line);
            let mut line = "pending approvals: ".to_owned();
            line.append(to_decimal(*pending as u64).as_str());
            let ghost second = line@;
            out.push(line);
            if grants.len() == 0 {
                out.push("active grants: none".to_owned());
                assert(texts(out@) =~= printed(resp@).out);
                return Printed { out, err: none(), code: 0 };
            }
            out.push("active grants:".to_owned());
            let mut i: usize = 0;
            while i < grants.len()
                invariant
                    i <= grants@.len(),
                    out@.len() == i + 3,
                    out@[0]@ == first,
                    out@[1]@ == second,
                    out@[2]@ == "active grants:"@,
                    forall|k: int| 0 <= k < i ==> (#[trigger] out@[k + 3])@ == grant_line(grants@[k]@),
                decreases grants@.len() - i,
            {
                let g = &grants[i];
                let mut line = "  `".to_owned();
                line.append(g.argv_glob.as_str());
                line.append("` for ");
                line.append(to_decimal(g.expires_in_secs).as_str());
                line.append("s more");
                out.push(line);
                i += 1;
            }
            proof {
                let want = printed(resp@).out;
                assert forall|k: int| 0 <= k < want.len() implies texts(out@)[k] == want[k] by {
                    if k >= 3 {
                        assert(out@[(k - 3) + 3]@ == grant_line(grants@[k - 3]@));
                    }
                }
                assert(texts(out@) =~= want);
            }
            Printed { out, err: none(), code: 0 }
        },
    }
}

/// The number of seconds that a unit stands for.
pub open spec fn unit_secs(c: char) -> Option<u64> {
    if c == 's' {
        Some(1u64)
    } else if c == 'm' {
        Some(60u64)
    } else if c == 'h' {
        Some(3600u64)
    } else if c == 'd' {
        Some(86400u64)
    } else {
        None
    }
}

/// The number and the unit of a duration such as "90", "90s", "30m", "2h" or "1d", if it is one.
pub open spec fn duration_parts(s: Seq<char>) -> Option<(u64, u64)> {
    let t = trimmed(s);
    if t.len() == 0 {
        None
    } else {
        match unit_secs(t.last()) {
            Some(mult) => match unsigned_of(t.drop_last()) {
                Some(n) => Some((n, mult)),
                None => None,
            },
            None => if is_digit(t.last()) {
                match unsigned_of(t) {
                    Some(n) => Some((n, 1u64)),
                    None => None,
                }
            } else {
                None
            },
        }
    }
}

/// The number and the unit, in seconds, of a duration, or why it is none.
pub fn parse_duration(s: &str) -> (r: Result<(u64, u64), String>)
    ensures
        match r {
            Ok((n, mult)) => duration_parts(s@) == Some((n, mult)),
            Err(m) => duration_parts(s@) is None && m@ == "bad duration: "@ + trimmed(s@),
        },
{
    let t = trim(s);
    let mut bad = "bad duration: ".to_owned();
    bad.append(t.as_str());
    let chars = chars_of(t.as_str());
    let n = chars.len();
    if n == 0 {
        return Err(bad);
    }
    let last = chars[n - 1];
    let mult: u64 = match last {
        's' => 1,
        'm' => 60,
        'h' => 3600,
        'd' => 86400,
        _ => 0,
    };
    if mult > 0 {
        let num = string_of(&chars, 0, n - 1);
        assert(num@ =~= t@.drop_last());
        return match parse_u64(num.as_str()) {
            Some(v) => Ok((v, mult)),
            None => Err(bad),
        };
    }
    if '0' <= last && last <= '9' {
        return match parse_u64(t.as_str()) {
            Some(v) => Ok((v, 1)),
            None => Err(bad),
        };
    }
    Err(bad)
}

/// The seconds of a duration such as "90", "90s", "30m", "2h" or "1d", or why it is none.
pub fn parse_ttl(s: &str) -> (r: Result<u64, String>)
    requires
        duration_parts(s@) matches Some((n, mult)) ==> n * mult <= u64::MAX,
    ensures
        match r {
            Ok(secs) => duration_parts(s@) matches Some((n, mult)) && secs == n * mult,
            Err(m) => duration_parts(s@) is None && m@ == "bad duration: "@ + trimmed(s@),
        },
{
    match parse_duration(s) {
        Ok((n, mult)) => Ok(n * mult),
        Err(m) => Err(m),
    }
}

/// Where approvals are given: at the relay, else at the page that the daemon advertises.
pub open spec fn page_of(
    relay: Option<(Seq<char>, Seq<char>)>,
    page: Option<(u16, Seq<char>)>,
) -> Option<Seq<char>> {
    match relay {
        Some((origin, token)) => Some(cut_end(origin, '/') + "/?t="@ + token),
        None => match page {
            Some((port, token)) => Some(page_address(port, token)),
            None => None,
        },
    }
}

/// The approval page: the phone console where a relay is set up, given its origin and phone token,
/// else the page that the daemon advertises, given its port and token.
pub fn approval_page(relay: Option<(&str, &str)>, page: Option<(u16, &str)>) -> (r: Option<String>)
    ensures
        opt_text(r) == page_of(
            match relay {
                Some((o, t)) => Some((o@, t@)),
                None => None,
            },
            match page {
                Some((p, t)) => Some((p, t@)),
                None => None,
            },
        ),
        opt_text(r) == (match relay {
            Some((origin, token)) => Some(cut_end(origin@, '/') + "/?t="@ + token@),
            None => match page {
                Some((port, token)) => Some(page_address(port, token@)),
                None => None,
            },
        }),
{
    match relay {
        Some((origin, token)) => {
            let mut out = trim_end_matches(origin, '/');
            out.append("/?t=");
            out.append(token);
            Some(out)
        },
        None => match page {
            Some((port, token)) => Some(page_url(port, token)),
            None => None,
        },
    }
}

}
