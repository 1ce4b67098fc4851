//! What is run for an agent, and what the agent hears of it.
use vstd::prelude::*;
use vstd::string::*;

use crate::codec::{base64_bytes, base64_text};
use crate::daemon::server::{
    base_env, child_of, chunk_message, ended_with, pending_after, TicketSpec, WaitEndSpec,
};
use crate::daemon::state::WaitingSpec;
use crate::gate::client::{chunk_of, client_step, page_of, session_of, ClientSpec};
use crate::gate::hook::asked_end;
use crate::mcp::{chunk_text, collected, lossy_text};
use crate::number::decimal;
use crate::proto::request::{OperationSpec, RequestSpec};
use crate::proto::wire::{DaemonMsgSpec, DecisionStatus, Tier};
use crate::text::cut_end;

verus! {

/// What is run is what was asked for: the program and all its arguments in order, in the directory of
/// the request. Of the daemon's environment it gets the variables that every command needs and those
/// that the request names, and no others.
pub proof fn law_commands_run_as_asked(
    r: RequestSpec,
    argv: Seq<Seq<char>>,
    cwd: Seq<char>,
    v: Seq<char>,
)
    ensures
        r.op == (OperationSpec::Exec { argv, cwd }) && argv.len() > 0 ==> (child_of(r) matches Some(
            c,
        ) && c.program == argv[0] && seq![c.program] + c.args == argv && c.cwd == cwd && (
        c.env.contains(v) <==> r.env_allowlist.contains(v) || v == "PATH"@ || v == "HOME"@ || v
            == "TERM"@ || v == "LANG"@ || v == "USER"@ || v == "SHELL"@ || v == "TMPDIR"@)),
        !(r.op is Exec) ==> child_of(r) is None,
{
    if r.op is Exec && argv.len() > 0 {
        assert(seq![argv[0]] + argv.skip(1) =~= argv);
        let base = base_env();
        let all = base + r.env_allowlist;
        if r.env_allowlist.contains(v) {
            let i = choose|i: int| 0 <= i < r.env_allowlist.len() && r.env_allowlist[i] == v;
            assert(all[base.len() + i] == v);
        }
        if base.contains(v) {
            let i = choose|i: int| 0 <= i < base.len() && base[i] == v;
            assert(all[i] == v);
        }
        assert(base[0] == "PATH"@ && base[1] == "HOME"@ && base[2] == "TERM"@ && base[3] == "LANG"@
            && base[4] == "USER"@ && base[5] == "SHELL"@ && base[6] == "TMPDIR"@);
        if all.contains(v) {
            let i = choose|i: int| 0 <= i < all.len() && all[i] == v;
            if i < base.len() {
                assert(base[i] == v);
            } else {
                assert(r.env_allowlist[i - base.len()] == v);
            }
        }
    }
}

/// What a command writes reaches the client byte for byte, and a tool as text, on the side it was
/// written to.
pub proof fn law_output_arrives(
    chunk: Seq<u8>,
    execute: bool,
    json: bool,
    out: (Seq<char>, Seq<char>),
)
    requires
        base64_bytes(base64_text(chunk)) == Ok::<Seq<u8>, Seq<char>>(chunk),
    ensures
        client_step(
            chunk_message(chunk, false),
            execute,
            json,
            chunk_of(chunk_message(chunk, false)),
        ) == (ClientSpec::Output { to_stderr: false, bytes: chunk }),
        client_step(
            chunk_message(chunk, true),
            execute,
            json,
            chunk_of(chunk_message(chunk, true)),
        ) == (ClientSpec::Output { to_stderr: true, bytes: chunk }),
        collected(out, chunk_message(chunk, false), chunk_text(chunk_message(chunk, false))) == (
            out.0 + lossy_text(chunk),
            out.1,
        ),
        collected(out, chunk_message(chunk, true), chunk_text(chunk_message(chunk, true))) == (
            out.0,
            out.1 + lossy_text(chunk),
        ),
{
}

/// A command that ended hands its code on; one that was killed has none and counts as failed.
pub proof fn law_exit_codes(code: i32)
    ensures
        ended_with(Some(code)) == code,
        ended_with(None) == -1,
{
}

/// A wait that nobody ended takes the request off the list, and no other request; every other end
/// leaves the list to whoever ended it.
pub proof fn law_timed_out_requests_leave(
    pending: Seq<WaitingSpec>,
    t: TicketSpec,
    end: WaitEndSpec,
    at: int,
)
    requires
        forall|i: int, j: int|
            0 <= i < j < pending.len() ==> (#[trigger] pending[i]).digest != (
            #[trigger] pending[j]).digest,
    ensures
        !(end is TimedOut) ==> pending_after(pending, t, end) == pending,
        end is TimedOut && 0 <= at < pending.len() && pending[at].digest == t.digest
            ==> pending_after(pending, t, end) == pending.remove(at),
        end is TimedOut && (forall|k: int|
            0 <= k < pending.len() ==> (#[trigger] pending[k]).digest != t.digest)
            ==> pending_after(pending, t, end) == pending,
    decreases pending.len(),
{
    if end is TimedOut && pending.len() > 0 {
        let front = pending.drop_last();
        assert forall|i: int, j: int| 0 <= i < j < front.len() implies (#[trigger] front[i]).digest
            != (#[trigger] front[j]).digest by {
            assert(front[i] == pending[i] && front[j] == pending[j]);
        }
        law_timed_out_requests_leave(front, t, end, at);
        assert(pending[pending.len() - 1] == pending.last());
        if 0 <= at < pending.len() && pending[at].digest == t.digest {
            if at == pending.len() - 1 {
                assert(pending.remove(at) =~= front);
            } else {
                assert(pending[at].digest != pending[pending.len() - 1].digest);
                assert(front.remove(at).push(pending.last()) =~= pending.remove(at));
            }
        }
        if forall|k: int| 0 <= k < pending.len() ==> (#[trigger] pending[k]).digest != t.digest {
            assert forall|k: int| 0 <= k < front.len() implies (#[trigger] front[k]).digest
                != t.digest by {
                assert(front[k] == pending[k]);
            }
            assert(front.push(pending.last()) =~= pending);
        }
    }
}

/// A harness that asks hears the daemon's decision once it is made, and its failure; it waits while
/// the request does.
pub proof fn law_harness_hears(
    digest: Seq<char>,
    tier: Tier,
    summary: Seq<char>,
    message: Seq<char>,
    b64: Seq<char>,
    code: i32,
)
    ensures
        asked_end(
            DaemonMsgSpec::Decision { digest, tier, status: DecisionStatus::Allowed, summary },
        ) == Some(Ok::<(DecisionStatus, Seq<char>), Seq<char>>((DecisionStatus::Allowed, digest))),
        asked_end(
            DaemonMsgSpec::Decision { digest, tier, status: DecisionStatus::Denied, summary },
        ) == Some(Ok::<(DecisionStatus, Seq<char>), Seq<char>>((DecisionStatus::Denied, digest))),
        asked_end(
            DaemonMsgSpec::Decision { digest, tier, status: DecisionStatus::Pending, summary },
        ) is None,
        asked_end(DaemonMsgSpec::Error { message }) == Some(
            Err::<(DecisionStatus, Seq<char>), Seq<char>>("daemon error: "@ + message),
        ),
        asked_end(DaemonMsgSpec::Stdout { b64 }) is None,
        asked_end(DaemonMsgSpec::Exit { code }) is None,
{
}

/// Requests of the client belong to the session that is set, else to its process.
pub proof fn law_sessions(set: Seq<char>, process: u32)
    ensures
        session_of(Some(set), process) == set,
        session_of(None, process) == "cli-"@ + decimal(process as nat),
{
}

/// The client opens the page of the relay where one is set up, and else the page of the daemon.
pub proof fn law_pages(origin: Seq<char>, token: Seq<char>, port: u16, own: Seq<char>)
    ensures
        page_of(Some((origin, token)), Some((port, own))) == Some(
            cut_end(origin, '/') + "/?t="@ + token,
        ),
        page_of(None, Some((port, own))) == Some(
            "http://localhost:"@ + decimal(port as nat) + "/?t="@ + own,
        ),
        page_of(None, None) is None,
{
}

/// A command that cannot be started is an error and ends with the code for that.
pub proof fn law_commands_that_do_not_start(reason: Seq<char>)
    ensures
        crate::daemon::server::not_started(reason).0 == (DaemonMsgSpec::Error {
            message: "spawn failed: "@ + reason,
        }),
        crate::daemon::server::not_started(reason).1 == (DaemonMsgSpec::Exit { code: 127 }),
{
}

}
