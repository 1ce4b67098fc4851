//! Dialing the daemon's local endpoints.
use vstd::prelude::*;

use crate::proto::ipc::{auth_line, endpoint_text, Endpoint, EndpointSpec, Transport};

verus! {

/// How an endpoint is dialed.
pub enum Dial {
    /// Over TCP, presenting the token in the first line.
    Tcp { host: String, port: u16, first_line: String },
    /// At a Unix socket.
    Unix { path: String },
}

/// How an endpoint is dialed.
#[verifier::ext_equal]
pub enum DialSpec {
    Tcp { host: Seq<char>, port: u16, first_line: Seq<char> },
    Unix { path: Seq<char> },
}

impl View for Dial {
    type V = DialSpec;

    open spec fn view(&self) -> DialSpec {
        match self {
            Dial::Tcp { host, port, first_line } => DialSpec::Tcp {
                host: host@,
                port: *port,
                first_line: first_line@,
            },
            Dial::Unix { path } => DialSpec::Unix { path: path@ },
        }
    }
}

/// How an endpoint is dialed, or why it cannot be. A missing host is this machine, a missing token
/// an empty one.
pub open spec fn dialing(e: EndpointSpec, unix: bool) -> Result<DialSpec, Seq<char>> {
    match e.transport {
        Transport::Tcp => match e.port {
            Some(port) => Ok(
                DialSpec::Tcp {
                    host: match e.host {
                        Some(h) => h,
                        None => "127.0.0.1"@,
                    },
                    port,
                    first_line: "AUTH "@ + (match e.token {
                        Some(t) => t,
                        None => Seq::empty(),
                    }) + "\n"@,
                },
            ),
            None => Err("tcp endpoint missing port"@),
        },
        Transport::Unix => if !unix {
            Err("unix sockets not supported on this platform"@)
        } else {
            match e.path {
                Some(p) => Ok(DialSpec::Unix { path: p }),
                None => Err("unix endpoint missing path"@),
            }
        },
    }
}

/// What the outcome of planning a dial says.
pub open spec fn dialed(r: Result<Dial, String>) -> Result<DialSpec, Seq<char>> {
    match r {
        Ok(d) => Ok(d@),
        Err(m) => Err(m@),
    }
}

/// How an endpoint is dialed, or why it cannot be.
pub fn dial_plan(ep: &Endpoint, unix: bool) -> (r: Result<Dial, String>)
    ensures
        dialed(r) == dialing(ep@, unix),
{
    match ep.transport {
        Transport::Tcp => match ep.port {
            Some(port) => {
                let host = match &ep.host {
                    Some(h) => h.clone(),
                    None => "127.0.0.1".to_owned(),
                };
                let token = match &ep.token {
                    Some(t) => t.clone(),
                    None => String::new(),
                };
                assert(ep.token is None ==> token@ =~= Seq::empty());
                let mut first_line = auth_line(token.as_str());
                first_line.append("\n");
                Ok(Dial::Tcp { host, port, first_line })
            },
            None => Err("tcp endpoint missing port".to_owned()),
        },
        Transport::Unix => {
            if !unix {
                return Err("unix sockets not supported on this platform".to_owned());
            }
            match &ep.path {
                Some(p) => Ok(Dial::Unix { path: p.clone() }),
                None => Err("unix endpoint missing path".to_owned()),
            }
        },
    }
}

/// What is said where the daemon cannot be reached.
pub fn unreachable_message(ep: &Endpoint, ctl: bool) -> (r: String)
    ensures
        r@ == (if ctl {
            "cannot reach gatehoused ctl at "@
        } else {
            "cannot reach gatehoused at "@
        }) + endpoint_text(ep@),
{
    let mut out = if ctl {
        "cannot reach gatehoused ctl at ".to_owned()
    } else {
        "cannot reach gatehoused at ".to_owned()
    };
    out.append(ep.display().as_str());
    out
}

}
