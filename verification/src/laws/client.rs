//! The command line client.
use vstd::prelude::*;
use vstd::string::*;

use crate::codec::base64_bytes;
use crate::gate::client::{
    chunk_of, client_step, duration_parts, padded, pending_line, printed, ClientSpec,
};
use crate::gate::dial::{dialing, DialSpec};
use crate::laws::numbers::{law_decimal_digits, law_numbers_are_read_back};
use crate::laws::texts::law_trimmed;
use crate::number::{decimal, unsigned_of};
use crate::proto::ipc::{EndpointSpec, Transport};
use crate::proto::wire::{
    tier_label, CtlRespSpec, DaemonMsgSpec, DecisionStatus, PendingEntrySpec, Tier,
};
use crate::text::{first_chars, is_white, trimmed};

verus! {

/// A decision ends the client with success exactly where it was an approval and no more was asked
/// for; a denial ends it with its own code, on whichever side it is printed, and it goes on while the
/// command is to run or the daemon waits.
pub proof fn law_client_follows_decisions(
    digest: Seq<char>,
    tier: Tier,
    summary: Seq<char>,
    execute: bool,
    json: bool,
    bytes: Result<Seq<u8>, Seq<char>>,
)
    ensures
        client_step(
            DaemonMsgSpec::Decision { digest, tier, status: DecisionStatus::Denied, summary },
            execute,
            true,
            bytes,
        ) == (ClientSpec::End {
            to_stderr: false,
            line: "{\"decision\":\""@ + "denied"@ + "\",\"digest\":\""@ + digest + "\"}"@,
            code: 2,
        }),
        client_step(
            DaemonMsgSpec::Decision { digest, tier, status: DecisionStatus::Denied, summary },
            execute,
            false,
            bytes,
        ) == (ClientSpec::End {
            to_stderr: true,
            line: "gate: denied ("@ + tier_label(tier) + "): "@ + summary,
            code: 2,
        }),
        client_step(
            DaemonMsgSpec::Decision { digest, tier, status: DecisionStatus::Allowed, summary },
            true,
            json,
            bytes,
        ) is Continue,
        client_step(
            DaemonMsgSpec::Decision { digest, tier, status: DecisionStatus::Allowed, summary },
            false,
            true,
            bytes,
        ) == (ClientSpec::End {
            to_stderr: false,
            line: "{\"decision\":\""@ + "allowed"@ + "\",\"digest\":\""@ + digest + "\"}"@,
            code: 0,
        }),
        client_step(
            DaemonMsgSpec::Decision { digest, tier, status: DecisionStatus::Allowed, summary },
            false,
            false,
            bytes,
        ) == (ClientSpec::End { to_stderr: true, line: "gate: allowed: "@ + summary, code: 0 }),
        client_step(
            DaemonMsgSpec::Decision { digest, tier, status: DecisionStatus::Pending, summary },
            execute,
            json,
            bytes,
        ) == ClientSpec::Note(
            "gate: waiting for approval ["@ + first_chars(digest, 8) + "] ("@ + tier_label(tier)
                + "): "@ + summary,
        ),
{
}

/// What a command writes comes out byte for byte on the side it was written to, and the client ends
/// as the command ended.
pub proof fn law_client_passes_output_on(
    b64: Seq<char>,
    b: Seq<u8>,
    code: i32,
    message: Seq<char>,
    execute: bool,
    json: bool,
    bytes: Result<Seq<u8>, Seq<char>>,
)
    ensures
        base64_bytes(b64) == Ok::<Seq<u8>, Seq<char>>(b) ==> {
            &&& client_step(
                DaemonMsgSpec::Stdout { b64 },
                execute,
                json,
                chunk_of(DaemonMsgSpec::Stdout { b64 }),
            ) == (ClientSpec::Output { to_stderr: false, bytes: b })
            &&& client_step(
                DaemonMsgSpec::Stderr { b64 },
                execute,
                json,
                chunk_of(DaemonMsgSpec::Stderr { b64 }),
            ) == (ClientSpec::Output { to_stderr: true, bytes: b })
        },
        bytes matches Err(m) ==> client_step(DaemonMsgSpec::Stdout { b64 }, execute, json, bytes)
            == ClientSpec::Malformed(m) && client_step(
            DaemonMsgSpec::Stderr { b64 },
            execute,
            json,
            bytes,
        ) == ClientSpec::Malformed(m),
        client_step(DaemonMsgSpec::Exit { code }, execute, json, bytes) matches ClientSpec::Exit(c)
            && (0 <= code <= 255 ==> c == code) && (code > 255 ==> c == 255) && (code < 0 ==> c
            == 0),
        client_step(DaemonMsgSpec::Error { message }, execute, json, bytes) == (ClientSpec::End {
            to_stderr: true,
            line: "gate: daemon error: "@ + message,
            code: 125,
        }),
{
}

/// An answer of the daemon is an error on the error side with a failing code, and anything else is
/// printed with a code of success.
pub proof fn law_answers_are_printed(resp: CtlRespSpec)
    ensures
        printed(resp).code == 0 <==> !(resp is Error),
        resp matches CtlRespSpec::Error { message } ==> printed(resp).err == seq![
            "error: "@ + message,
        ] && printed(resp).out.len() == 0 && printed(resp).code == 1,
        !(resp is Error) ==> printed(resp).err.len() == 0,
        resp matches CtlRespSpec::Done { message } ==> printed(resp).out == seq![message],
        resp matches CtlRespSpec::Pending { entries } ==> {
            &&& entries.len() == 0 ==> printed(resp).out == seq!["no pending requests"@]
            &&& entries.len() > 0 ==> printed(resp).out.len() == entries.len() && forall|i: int|
                0 <= i < entries.len() ==> #[trigger] printed(resp).out[i] == pending_line(
                    entries[i],
                )
        },
        resp matches CtlRespSpec::EnrollCode { code, ttl_secs } ==> printed(resp).out == seq![
            "enrollment code: "@ + code + "  (valid "@ + decimal(ttl_secs as nat)
                + "s, single use)"@,
        ],
        resp matches CtlRespSpec::Status { version, pending, grants, uptime_secs } ==> {
            let out = printed(resp).out;
            &&& out.len() == 3 + grants.len()
            &&& out[0] == "gatehoused up "@ + decimal(uptime_secs as nat) + "s (protocol v"@
                + decimal(version as nat) + ")"@
            &&& out[1] == "pending approvals: "@ + decimal(pending as nat)
            &&& grants.len() == 0 ==> out[2] == "active grants: none"@
            &&& grants.len() > 0 ==> out[2] == "active grants:"@
            &&& forall|i: int|
                0 <= i < grants.len() ==> #[trigger] out[i + 3] == "  `"@ + grants[i].0 + "` for "@
                    + decimal(grants[i].1 as nat) + "s more"@
        },
{
}

/// A waiting request is printed with the front of its digest, its tier and age in columns, its
/// summary and its harness.
pub proof fn law_pending_lines(e: PendingEntrySpec, s: Seq<char>, width: int)
    requires
        width >= 0,
    ensures
        pending_line(e) == "["@ + first_chars(e.digest, 8) + "] "@ + padded(
            tier_label(e.tier),
            10,
        ) + " "@ + padded(decimal(e.age_secs as nat), 4) + "s "@ + e.summary + " ("@ + e.harness
            + ")"@,
        s.len() >= width ==> padded(s, width) == s,
        s.len() < width ==> padded(s, width).len() == width && padded(s, width).skip(
            width - s.len(),
        ) == s && forall|i: int| 0 <= i < width - s.len() ==> #[trigger] padded(s, width)[i] == ' ',
{
    if s.len() < width {
        assert(padded(s, width).skip(width - s.len()) =~= s);
    }
}

proof fn lemma_no_white_ends(t: Seq<char>)
    requires
        t.len() > 0,
        !is_white(t[0]),
        !is_white(t.last()),
    ensures
        trimmed(t) == t,
{
    let (a, b) = law_trimmed(t);
    assert(a == 0) by {
        if a > 0 {
            assert(is_white(t[0]));
        }
    }
    assert(b == t.len()) by {
        if b < t.len() {
            assert(is_white(t[t.len() - 1]));
        }
    }
    assert(t.subrange(0, t.len() as int) =~= t);
}

/// A number is a duration in seconds, and the letters `s`, `m`, `h` and `d` behind it make it one in
/// seconds, minutes, hours and days.
pub proof fn law_durations(n: u64)
    ensures
        duration_parts(decimal(n as nat)) == Some((n, 1u64)),
        duration_parts(decimal(n as nat).push('s')) == Some((n, 1u64)),
        duration_parts(decimal(n as nat).push('m')) == Some((n, 60u64)),
        duration_parts(decimal(n as nat).push('h')) == Some((n, 3600u64)),
        duration_parts(decimal(n as nat).push('d')) == Some((n, 86400u64)),
{
    let t = decimal(n as nat);
    law_decimal_digits(n as nat);
    law_numbers_are_read_back(n);
    assert('0' <= t[0] <= '9' && '0' <= t[t.len() - 1] <= '9');
    lemma_no_white_ends(t);
    assert(t.push('s').drop_last() =~= t);
    assert(t.push('m').drop_last() =~= t);
    assert(t.push('h').drop_last() =~= t);
    assert(t.push('d').drop_last() =~= t);
    lemma_no_white_ends(t.push('s'));
    lemma_no_white_ends(t.push('m'));
    lemma_no_white_ends(t.push('h'));
    lemma_no_white_ends(t.push('d'));
}

/// White space around a duration does not count, and a duration is a number with one of the four
/// letters behind it, or with none.
pub proof fn law_only_durations(s: Seq<char>)
    ensures
        duration_parts(s) matches Some((n, mult)) ==> {
            let t = trimmed(s);
            &&& t.len() > 0
            &&& unsigned_of(t) == Some(n) && mult == 1 || (unsigned_of(t.drop_last()) == Some(n) && (
            t.last() == 's' && mult == 1 || t.last() == 'm' && mult == 60 || t.last() == 'h' && mult
                == 3600 || t.last() == 'd' && mult == 86400))
        },
{
}

/// An endpoint on a port is dialed with the token it names as its first line, on this machine where
/// it names no host. A socket is dialed by its path, where there are sockets.
pub proof fn law_endpoints_are_dialed(e: EndpointSpec, unix: bool, port: u16)
    ensures
        e.transport == Transport::Tcp && e.port == Some(port) ==> (dialing(e, unix) matches Ok(
            DialSpec::Tcp { host, port: p, first_line },
        ) && p == port && (e.host is Some ==> host == e.host->0) && (e.host is None ==> host
            == "127.0.0.1"@) && (e.token is Some ==> first_line == "AUTH "@ + e.token->0 + "\n"@)
            && (e.token is None ==> first_line == "AUTH "@ + Seq::empty() + "\n"@)),
        e.transport == Transport::Tcp && e.port is None ==> dialing(e, unix) == Err::<
            DialSpec,
            Seq<char>,
        >("tcp endpoint missing port"@),
        e.transport == Transport::Unix && unix && e.path is Some ==> dialing(e, unix) == Ok::<
            DialSpec,
            Seq<char>,
        >(DialSpec::Unix { path: e.path->0 }),
        e.transport == Transport::Unix && unix && e.path is None ==> dialing(e, unix) == Err::<
            DialSpec,
            Seq<char>,
        >("unix endpoint missing path"@),
        e.transport == Transport::Unix && !unix ==> dialing(e, unix) == Err::<DialSpec, Seq<char>>(
            "unix sockets not supported on this platform"@,
        ),
{
}

}
