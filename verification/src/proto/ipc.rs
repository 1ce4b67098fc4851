//! Local endpoints of the agent and ctl channels: a Unix domain socket, or loopback TCP with
//! a bearer token that the first line presents.
use vstd::prelude::*;

use crate::number::{decimal, hexadecimal, to_decimal, to_hexadecimal};
use crate::proto::paths::{join_path, path_join};
use crate::text::{opt_text, uppercased};

verus! {

/// How a local channel is reached.
#[derive(Clone, Copy, Debug, PartialEq, Eq, Structural)]
pub enum Transport {
    Unix,
    Tcp,
}

/// Where a local channel is reached.
#[derive(Clone, Debug)]
pub struct Endpoint {
    pub transport: Transport,
    /// The path of a Unix socket.
    pub path: Option<String>,
    pub host: Option<String>,
    pub port: Option<u16>,
    /// The bearer token of a TCP endpoint. Clients present it in the first line.
    pub token: Option<String>,
}

/// What an endpoint says.
#[verifier::ext_equal]
pub struct EndpointSpec {
    pub transport: Transport,
    pub path: Option<Seq<char>>,
    pub host: Option<Seq<char>>,
    pub port: Option<u16>,
    pub token: Option<Seq<char>>,
}

impl View for Endpoint {
    type V = EndpointSpec;

    open spec fn view(&self) -> EndpointSpec {
        EndpointSpec {
            transport: self.transport,
            path: opt_text(self.path),
            host: opt_text(self.host),
            port: self.port,
            token: opt_text(self.token),
        }
    }
}

/// The endpoint at a Unix socket.
pub open spec fn unix_endpoint(path: Seq<char>) -> EndpointSpec {
    EndpointSpec { transport: Transport::Unix, path: Some(path), host: None, port: None, token: None }
}

/// The endpoint at a TCP port.
pub open spec fn tcp_endpoint(host: Seq<char>, port: u16, token: Seq<char>) -> EndpointSpec {
    EndpointSpec {
        transport: Transport::Tcp,
        path: None,
        host: Some(host),
        port: Some(port),
        token: Some(token),
    }
}

/// An endpoint as it is shown, without its token.
pub open spec fn endpoint_text(e: EndpointSpec) -> Seq<char> {
    match e.transport {
        Transport::Unix => match e.path {
            Some(p) => p,
            None => "unix:?"@,
        },
        Transport::Tcp => "tcp://"@ + (match e.host {
            Some(h) => h,
            None => "127.0.0.1"@,
        }) + ":"@ + decimal(
            (match e.port {
                Some(p) => p,
                None => 0u16,
            }) as nat,
        ) + "/****"@,
    }
}

impl Endpoint {
    /// The endpoint at a Unix socket.
    pub fn unix(path: &str) -> (r: Endpoint)
        ensures
            r@ == unix_endpoint(path@),
    {
        Endpoint {
            transport: Transport::Unix,
            path: Some(path.to_owned()),
            host: None,
            port: None,
            token: None,
        }
    }

    /// The endpoint at a TCP port.
    pub fn tcp(host: &str, port: u16, token: &str) -> (r: Endpoint)
        ensures
            r@ == tcp_endpoint(host@, port, token@),
    {
        Endpoint {
            transport: Transport::Tcp,
            path: None,
            host: Some(host.to_owned()),
            port: Some(port),
            token: Some(token.to_owned()),
        }
    }

    /// The endpoint as it is shown, without its token.
    pub fn display(&self) -> (r: String)
        ensures
            r@ == endpoint_text(self@),
    {
        match self.transport {
            Transport::Unix => match &self.path {
                Some(p) => p.clone(),
                None => "unix:?".to_owned(),
            },
            Transport::Tcp => {
                let mut out = "tcp://".to_owned();
                match &self.host {
                    Some(h) => out.append(h.as_str()),
                    None => out.append("127.0.0.1"),
                }
                out.append(":");
                let port: u16 = match self.port {
                    Some(p) => p,
                    None => 0,
                };
                out.append(to_decimal(port as u64).as_str());
                out.append("/****");
                out
            },
        }
    }
}

/// Where the daemon advertises the agent endpoint.
pub fn agent_endpoint_path(runtime_dir: &str) -> (r: String)
    ensures
        r@ == path_join(runtime_dir@, "agent.endpoint.json"@),
{
    join_path(runtime_dir, "agent.endpoint.json")
}

/// Where the daemon advertises the ctl endpoint.
pub fn ctl_endpoint_path(runtime_dir: &str) -> (r: String)
    ensures
        r@ == path_join(runtime_dir@, "ctl.endpoint.json"@),
{
    join_path(runtime_dir, "ctl.endpoint.json")
}

/// Whether the channels go over TCP.
pub open spec fn over_tcp(set: Option<Seq<char>>, windows: bool) -> bool {
    windows || (set matches Some(s) && uppercased(s) == uppercased("tcp"@))
}

/// Whether a first line presents a token.
pub open spec fn presents_token(line: Seq<char>, token: Seq<char>) -> bool {
    cut_newlines(line) == "AUTH "@ + token
}

/// Whether the channels go over TCP: on Windows, or where `GATEHOUSE_IPC` asks for it in
/// either case.
pub fn prefer_tcp(set: Option<&str>, windows: bool) -> (r: bool)
    ensures
        r == over_tcp(crate::text::opt_str(set), windows),
        r == (windows || (set matches Some(s) && uppercased(s@) == uppercased("tcp"@))),
{
    let asked = match set {
        Some(s) => crate::text::same(
            crate::text::to_ascii_uppercase(s).as_str(),
            crate::text::to_ascii_uppercase("tcp").as_str(),
        ),
        None => false,
    };
    asked || windows
}

/// Why an endpoint could not be resolved: what was looked for, and where.
pub open spec fn missing_endpoint(label: Seq<char>, path: Seq<char>) -> Seq<char> {
    "no "@ + label + " endpoint at "@ + path + " (is gatehoused running?)"@
}

/// The outcome of looking for an endpoint.
pub open spec fn resolution(
    advertised: Option<EndpointSpec>,
    unix: bool,
    socket: bool,
    label: Seq<char>,
    json: Seq<char>,
    sock: Seq<char>,
) -> Result<EndpointSpec, Seq<char>> {
    match advertised {
        Some(e) => Ok(e),
        None => if unix && socket {
            Ok(unix_endpoint(sock))
        } else {
            Err(missing_endpoint(label, json))
        },
    }
}

/// What the outcome of looking for an endpoint says.
pub open spec fn resolved(r: Result<Endpoint, String>) -> Result<EndpointSpec, Seq<char>> {
    match r {
        Ok(e) => Ok(e@),
        Err(m) => Err(m@),
    }
}

/// What an optional endpoint says.
pub open spec fn opt_endpoint(e: Option<Endpoint>) -> Option<EndpointSpec> {
    match e {
        Some(e) => Some(e@),
        None => None,
    }
}

fn resolve(
    advertised: Option<Endpoint>,
    unix: bool,
    socket: bool,
    label: &str,
    json: &str,
    sock: &str,
) -> (r: Result<Endpoint, String>)
    ensures
        resolved(r) == resolution(opt_endpoint(advertised), unix, socket, label@, json@, sock@),
{
    match advertised {
        Some(e) => Ok(e),
        None => if unix && socket {
            Ok(Endpoint::unix(sock))
        } else {
            let mut out = "no ".to_owned();
            out.append(label);
            out.append(" endpoint at ");
            out.append(json);
            out.append(" (is gatehoused running?)");
            Err(out)
        },
    }
}

/// The agent endpoint: the advertised one if there is one, else the Unix socket where it
/// exists.
pub fn resolve_agent_endpoint(
    runtime_dir: &str,
    advertised: Option<Endpoint>,
    unix: bool,
    socket: bool,
) -> (r: Result<Endpoint, String>)
    ensures
        resolved(r) == resolution(
            opt_endpoint(advertised),
            unix,
            socket,
            "agent"@,
            path_join(runtime_dir@, "agent.endpoint.json"@),
            path_join(runtime_dir@, "agent.sock"@),
        ),
{
    let json = agent_endpoint_path(runtime_dir);
    let sock = crate::proto::paths::agent_sock(runtime_dir);
    resolve(advertised, unix, socket, "agent", json.as_str(), sock.as_str())
}

/// The ctl endpoint: the advertised one if there is one, else the Unix socket where it
/// exists.
pub fn resolve_ctl_endpoint(
    runtime_dir: &str,
    advertised: Option<Endpoint>,
    unix: bool,
    socket: bool,
) -> (r: Result<Endpoint, String>)
    ensures
        resolved(r) == resolution(
            opt_endpoint(advertised),
            unix,
            socket,
            "ctl"@,
            path_join(runtime_dir@, "ctl.endpoint.json"@),
            path_join(runtime_dir@, "ctl.sock"@),
        ),
{
    let json = ctl_endpoint_path(runtime_dir);
    let sock = crate::proto::paths::ctl_sock(runtime_dir);
    resolve(advertised, unix, socket, "ctl", json.as_str(), sock.as_str())
}

/// A pairing token for a loopback endpoint, made of the time and the process.
pub fn new_token(nanos: u128, process: u32) -> (r: String)
    ensures
        r@ == "gh"@ + hexadecimal(nanos as nat) + hexadecimal(process as nat),
{
    let mut out = "gh".to_owned();
    out.append(to_hexadecimal(nanos).as_str());
    out.append(to_hexadecimal(process as u128).as_str());
    out
}

/// The line that presents a token on a TCP endpoint.
pub fn auth_line(token: &str) -> (r: String)
    ensures
        r@ == "AUTH "@ + token@,
{
    let mut out = "AUTH ".to_owned();
    out.append(token);
    out
}

/// A line without the line feeds and carriage returns at its end.
pub open spec fn cut_newlines(line: Seq<char>) -> Seq<char>
    decreases line.len(),
{
    if line.len() > 0 && (line.last() == '\n' || line.last() == '\r') {
        cut_newlines(line.drop_last())
    } else {
        line
    }
}

/// Whether the first line on a TCP connection presents the token.
pub fn line_authorizes(line: &str, token: &str) -> (r: bool)
    ensures
        r == presents_token(line@, token@),
        r == (cut_newlines(line@) == "AUTH "@ + token@),
{
    let chars = crate::text::chars_of(line);
    let mut n: usize = chars.len();
    assert(chars@.take(n as int) == chars@);
    while n > 0 && (chars[n - 1] == '\n' || chars[n - 1] == '\r')
        invariant
            n <= chars@.len(),
            cut_newlines(chars@) == cut_newlines(chars@.take(n as int)),
        decreases n,
    {
        assert(chars@.take(n as int).drop_last() == chars@.take(n - 1));
        n -= 1;
    }
    assert(chars@.subrange(0, n as int) == chars@.take(n as int));
    let shown = crate::text::string_of(&chars, 0, n);
    crate::text::same(shown.as_str(), auth_line(token).as_str())
}

}
