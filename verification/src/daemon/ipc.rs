//! The daemon's local endpoints: a Unix socket, or loopback TCP with a token.
use vstd::prelude::*;

use crate::proto::ipc::{
    agent_endpoint_path, ctl_endpoint_path, cut_newlines, line_authorizes, presents_token,
    tcp_endpoint, unix_endpoint, Endpoint, EndpointSpec,
};
use crate::proto::paths::path_join;
use crate::text::texts;

verus! {

/// How an endpoint is bound.
#[derive(Clone, Copy, Debug, PartialEq, Eq, Structural)]
pub enum BindPlan {
    /// At a free TCP port of this machine.
    Tcp,
    /// At a Unix socket, in place of one that is left over.
    Unix,
    /// Not at all: there are no Unix sockets here, and TCP was not asked for.
    Unsupported,
}

/// How an endpoint is bound.
pub open spec fn binding_of(prefer_tcp: bool, unix: bool) -> BindPlan {
    if prefer_tcp {
        BindPlan::Tcp
    } else if unix {
        BindPlan::Unix
    } else {
        BindPlan::Unsupported
    }
}

/// How an endpoint is bound: over TCP where that is preferred, else at a Unix socket where there are
/// any.
pub fn bind_plan(prefer_tcp: bool, unix: bool) -> (r: BindPlan)
    ensures
        r == binding_of(prefer_tcp, unix),
        r == (if prefer_tcp {
            BindPlan::Tcp
        } else if unix {
            BindPlan::Unix
        } else {
            BindPlan::Unsupported
        }),
{
    if prefer_tcp {
        BindPlan::Tcp
    } else if unix {
        BindPlan::Unix
    } else {
        BindPlan::Unsupported
    }
}

/// The endpoint of a TCP port that was bound.
pub fn bound_tcp(port: u16, token: &str) -> (r: Endpoint)
    ensures
        r@ == tcp_endpoint("127.0.0.1"@, port, token@),
{
    Endpoint::tcp("127.0.0.1", port, token)
}

/// The endpoint of a Unix socket that was bound.
pub fn bound_unix(path: &str) -> (r: Endpoint)
    ensures
        r@ == unix_endpoint(path@),
{
    Endpoint::unix(path)
}

/// What a client over TCP is told that did not present the token.
pub const UNAUTHORIZED_LINE: &'static str = "{\"type\":\"error\",\"message\":\"unauthorized\"}\n";

/// The line for a client over TCP that is to be turned away, given its first line; nothing where it
/// presented the token.
pub fn turn_away(first_line: &str, token: &str) -> (r: Option<&'static str>)
    ensures
        r is None == presents_token(first_line@, token@),
        match r {
            None => cut_newlines(first_line@) == "AUTH "@ + token@,
            Some(m) => cut_newlines(first_line@) != "AUTH "@ + token@ && m@ == UNAUTHORIZED_LINE@,
        },
{
    if line_authorizes(first_line, token) {
        None
    } else {
        Some(UNAUTHORIZED_LINE)
    }
}

/// The files to remove when the daemon ends: what advertises the endpoints, and their sockets.
pub open spec fn leftovers(runtime_dir: Seq<char>, agent: EndpointSpec, ctl: EndpointSpec) -> Seq<
    Seq<char>,
> {
    let ads = seq![
        path_join(runtime_dir, "agent.endpoint.json"@),
        path_join(runtime_dir, "ctl.endpoint.json"@),
    ];
    let with_agent = match agent.path {
        Some(p) => ads.push(p),
        None => ads,
    };
    match ctl.path {
        Some(p) => with_agent.push(p),
        None => with_agent,
    }
}

/// The files to remove when the daemon ends.
pub fn cleanup(runtime_dir: &str, agent: &Endpoint, ctl: &Endpoint) -> (r: Vec<String>)
    ensures
        texts(r@) == leftovers(runtime_dir@, agent@, ctl@),
{
    let mut out: Vec<String> = Vec::new();
    out.push(agent_endpoint_path(runtime_dir));
    out.push(ctl_endpoint_path(runtime_dir));
    if let Some(p) = &agent.path {
        out.push(p.clone());
    }
    if let Some(p) = &ctl.path {
        out.push(p.clone());
    }
    assert(texts(out@) =~= leftovers(runtime_dir@, agent@, ctl@));
    out
}

}
