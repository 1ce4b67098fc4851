//! Where things lie and how the two channels are found.
use vstd::prelude::*;
use vstd::string::*;

use crate::daemon::ctx::{page_address, CtxSpec};
use crate::daemon::ipc::leftovers;
use crate::gate::dial::{dialing, DialSpec};
use crate::number::decimal;
use crate::proto::ipc::{
    cut_newlines, endpoint_text, over_tcp, presents_token, resolution, tcp_endpoint, unix_endpoint,
    EndpointSpec, Transport,
};
use crate::proto::paths::{
    agent_sock_place, apns_devices_place, apns_key_place, audit_place, ctl_sock_place,
    device_cred_place, devices_place, http_info_place, own_dir_of, passkeys_place, path_join,
    phone_passkeys_place, policy_place, relay_dir_place, relay_toml_place, runtime_dir_of,
};
use crate::text::uppercased;

verus! {

/// A name lies below a directory with one slash between the two.
pub proof fn law_paths(dir: Seq<char>, name: Seq<char>)
    ensures
        dir.len() > 0 && dir.last() != '/' ==> path_join(dir, name) == dir + seq!['/'] + name,
        dir.len() > 0 && dir.last() == '/' ==> path_join(dir, name) == dir + name,
        path_join(Seq::empty(), name) == name,
{
    assert(Seq::<char>::empty() + name =~= name);
}

/// A directory that is set is taken as it is; the others lie at their places below the user's.
pub proof fn law_directories(set: Seq<char>, base: Seq<char>)
    ensures
        runtime_dir_of(Some(set), base) == set,
        own_dir_of(Some(set), base) == set,
        base.len() > 0 && base.last() != '/' ==> runtime_dir_of(None, base) == base + seq!['/']
            + ".gatehouse"@ + seq!['/'] + "run"@ && own_dir_of(None, base) == base + seq!['/']
            + "gatehouse"@,
{
    reveal_strlit(".gatehouse");
    let inner = path_join(base, ".gatehouse"@);
    if base.len() > 0 && base.last() != '/' {
        assert(inner.last() == 'e');
    }
}

/// An endpoint that is advertised is taken; else the socket, where there are sockets and it is there;
/// else there is none.
pub proof fn law_endpoints_are_found(
    e: EndpointSpec,
    unix: bool,
    socket: bool,
    label: Seq<char>,
    json: Seq<char>,
    sock: Seq<char>,
)
    ensures
        resolution(Some(e), unix, socket, label, json, sock) == Ok::<EndpointSpec, Seq<char>>(e),
        unix && socket ==> (resolution(None, unix, socket, label, json, sock) matches Ok(f)
            && f.transport == Transport::Unix && f.path == Some(sock) && f.port is None
            && f.token is None),
        !unix || !socket ==> resolution(None, unix, socket, label, json, sock) == Err::<
            EndpointSpec,
            Seq<char>,
        >("no "@ + label + " endpoint at "@ + json + " (is gatehoused running?)"@),
{
}

/// A bound endpoint says where it is, and is shown without its token.
pub proof fn law_endpoints(host: Seq<char>, port: u16, token: Seq<char>, path: Seq<char>)
    ensures
        ({
            let e = tcp_endpoint(host, port, token);
            &&& e.transport == Transport::Tcp && e.host == Some(host) && e.port == Some(port)
            &&& e.token == Some(token) && e.path is None
            &&& endpoint_text(e) == "tcp://"@ + host + ":"@ + decimal(port as nat) + "/****"@
        }),
        ({
            let e = unix_endpoint(path);
            &&& e.transport == Transport::Unix && e.path == Some(path)
            &&& e.host is None && e.port is None && e.token is None
            &&& endpoint_text(e) == path
        }),
{
}

/// Line ends are cut off a line, all of them and nothing else.
pub proof fn law_line_ends_are_cut(line: Seq<char>)
    ensures
        cut_newlines(line).is_prefix_of(line),
        cut_newlines(line).len() > 0 ==> cut_newlines(line).last() != '\n' && cut_newlines(
            line,
        ).last() != '\r',
        forall|i: int|
            cut_newlines(line).len() <= i < line.len() ==> #[trigger] line[i] == '\n' || line[i]
                == '\r',
    decreases line.len(),
{
    if line.len() > 0 && (line.last() == '\n' || line.last() == '\r') {
        law_line_ends_are_cut(line.drop_last());
        assert forall|i: int| cut_newlines(line).len() <= i < line.len() implies #[trigger] line[i]
            == '\n' || line[i] == '\r' by {
            if i < line.len() - 1 {
                assert(line.drop_last()[i] == line[i]);
            }
        }
        assert(cut_newlines(line) =~= line.subrange(0, cut_newlines(line).len() as int));
    } else {
        assert(line.subrange(0, line.len() as int) =~= line);
    }
}

/// A client that dials an endpoint on a port presents itself by a line that the daemon takes for the
/// endpoint's token, and for no other token.
pub proof fn law_dialing_authorizes(host: Seq<char>, port: u16, token: Seq<char>, unix: bool)
    requires
        token.len() > 0,
        token.last() != '\n',
        token.last() != '\r',
    ensures
        dialing(tcp_endpoint(host, port, token), unix) matches Ok(DialSpec::Tcp {
            host: h,
            port: p,
            first_line,
        }) && h == host && p == port && cut_newlines(first_line) == "AUTH "@ + token,
        forall|other: Seq<char>| "AUTH "@ + token == #[trigger] ("AUTH "@ + other) ==> other == token,
{
    let line = "AUTH "@ + token;
    reveal_strlit("\n");
    let whole = line + "\n"@;
    assert(whole.drop_last() =~= line);
    assert(line.last() == token.last());
    assert(whole.last() == '\n');
    assert(cut_newlines(line) == line);
    assert(cut_newlines(whole) == line);
    assert forall|other: Seq<char>| line == #[trigger] ("AUTH "@ + other) implies other
        == token by {
        assert(line.skip("AUTH "@.len() as int) =~= token);
        assert(("AUTH "@ + other).skip("AUTH "@.len() as int) =~= other);
    }
}

/// The files that a daemon leaves behind are its two advertisements and its sockets.
pub proof fn law_leftovers(dir: Seq<char>, agent: EndpointSpec, ctl: EndpointSpec)
    ensures
        leftovers(dir, agent, ctl).contains(path_join(dir, "agent.endpoint.json"@)),
        leftovers(dir, agent, ctl).contains(path_join(dir, "ctl.endpoint.json"@)),
        agent.path matches Some(p) ==> leftovers(dir, agent, ctl).contains(p),
        ctl.path matches Some(p) ==> leftovers(dir, agent, ctl).contains(p),
        leftovers(dir, agent, ctl).len() == 2 + (if agent.path is Some {
            1int
        } else {
            0
        }) + (if ctl.path is Some {
            1int
        } else {
            0
        }),
{
    let l = leftovers(dir, agent, ctl);
    assert(l[0] == path_join(dir, "agent.endpoint.json"@));
    assert(l[1] == path_join(dir, "ctl.endpoint.json"@));
    if agent.path is Some {
        assert(l[2] == agent.path->0);
    }
    if ctl.path is Some {
        assert(l[l.len() - 1] == ctl.path->0);
    }
}

/// Strong approvals are given at the phone's page where there is one, else at the local page, with
/// its token.
pub proof fn law_approval_page(c: CtxSpec, port: u16, token: Seq<char>)
    ensures
        c.phone_url is Some ==> c.approval_address() == c.phone_url,
        c.phone_url is None && c.http == Some((port, token)) ==> c.approval_address() == Some(
            "http://localhost:"@ + decimal(port as nat) + "/?t="@ + token,
        ),
        c.phone_url is None && c.http is None ==> c.approval_address() is None,
        page_address(port, token) == "http://localhost:"@ + decimal(port as nat) + "/?t="@ + token,
{
}

/// The channels go over TCP on Windows, and elsewhere where that is asked for in either case.
pub proof fn law_tcp_is_chosen(set: Seq<char>)
    ensures
        over_tcp(None, true) && over_tcp(Some(set), true),
        !over_tcp(None, false),
        over_tcp(Some("tcp"@), false) && over_tcp(Some("TCP"@), false),
        over_tcp(Some(set), false) ==> set.len() == 3 && (set[0] == 't' || set[0] == 'T') && (set[1]
            == 'c' || set[1] == 'C') && (set[2] == 'p' || set[2] == 'P'),
{
    reveal_strlit("tcp");
    reveal_strlit("TCP");
    let u = uppercased("tcp"@);
    assert(u =~= "TCP"@);
    assert(uppercased("TCP"@) =~= "TCP"@);
    if over_tcp(Some(set), false) {
        assert(uppercased(set).len() == 3);
        assert(uppercased(set)[0] == 'T' && uppercased(set)[1] == 'C' && uppercased(set)[2] == 'P');
    }
}

/// A first line presents the token that stands behind the word for it, with any line ends behind it,
/// and no other token.
pub proof fn law_first_lines(token: Seq<char>, other: Seq<char>)
    requires
        token.len() > 0,
        token.last() != '\n',
        token.last() != '\r',
    ensures
        presents_token("AUTH "@ + token, token),
        presents_token(("AUTH "@ + token).push('\n'), token),
        presents_token(("AUTH "@ + token).push('\r').push('\n'), token),
        presents_token("AUTH "@ + token, other) ==> other == token,
{
    let line = "AUTH "@ + token;
    assert(line.last() == token.last());
    assert(line.push('\n').drop_last() =~= line);
    let cr = line.push('\r');
    assert(cr.drop_last() =~= line);
    assert(cr.push('\n').drop_last() =~= cr);
    assert(cut_newlines(line) == line);
    assert(cut_newlines(cr) == line);
    assert(cut_newlines(cr.push('\n')) == cut_newlines(cr));
    if presents_token(line, other) {
        assert(line.skip("AUTH "@.len() as int) =~= token);
        assert(("AUTH "@ + other).skip("AUTH "@.len() as int) =~= other);
    }
}

/// Each thing lies in a file or a directory of its own name.
pub proof fn law_places(dir: Seq<char>)
    ensures
        agent_sock_place(dir) == path_join(dir, "agent.sock"@),
        ctl_sock_place(dir) == path_join(dir, "ctl.sock"@),
        http_info_place(dir) == path_join(dir, "http.json"@),
        policy_place(dir) == path_join(dir, "policy.toml"@),
        relay_toml_place(dir) == path_join(dir, "relay.toml"@),
        audit_place(dir) == path_join(dir, "audit.jsonl"@),
        passkeys_place(dir) == path_join(dir, "passkeys.json"@),
        phone_passkeys_place(dir) == path_join(dir, "passkeys-phone.json"@),
        devices_place(dir) == path_join(dir, "devices.json"@),
        device_cred_place(dir) == path_join(dir, "device.json"@),
        relay_dir_place(dir) == path_join(dir, "relay"@),
        apns_devices_place(dir) == path_join(dir, "apns-devices.json"@),
        apns_key_place(dir) == path_join(dir, "apns.key"@),
{
}

/// The passkeys of phones and those of this machine are kept apart, and so are the two channels.
pub proof fn law_places_are_apart(dir: Seq<char>)
    ensures
        phone_passkeys_place(dir) != passkeys_place(dir),
        agent_sock_place(dir) != ctl_sock_place(dir),
        devices_place(dir) != device_cred_place(dir),
{
    reveal_strlit("passkeys-phone.json");
    reveal_strlit("passkeys.json");
    reveal_strlit("agent.sock");
    reveal_strlit("ctl.sock");
    reveal_strlit("devices.json");
    reveal_strlit("device.json");
    assert(phone_passkeys_place(dir).len() != passkeys_place(dir).len());
    assert(agent_sock_place(dir).len() != ctl_sock_place(dir).len());
    assert(devices_place(dir).len() != device_cred_place(dir).len());
}

/// A channel goes over TCP where that is preferred, and else over a socket where there are any.
pub proof fn law_channels_are_bound(unix: bool)
    ensures
        crate::daemon::ipc::binding_of(true, unix) is Tcp,
        crate::daemon::ipc::binding_of(false, true) is Unix,
        crate::daemon::ipc::binding_of(false, false) is Unsupported,
{
}

}
