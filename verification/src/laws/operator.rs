//! What the operator does through the control channel.
use vstd::prelude::*;
use vstd::string::*;

use crate::daemon::ctl::{
    after_grant, decided, delivers, delivery_answer, opt_envelope, status_of, CtlStep, Delivery,
};
use crate::daemon::ctx::CtxSpec;
use crate::daemon::state::{granted, live_grants, secs_left, GrantSpec, SharedSpec};
use crate::laws::release::law_grants_add_up;
use crate::daemon::server::{settlement, TicketSpec, WaitEndSpec};
use crate::proto::envelope::{EnvelopeSpec, SigScheme};
use crate::proto::policy::glob_match;
use crate::proto::request::operation_summary;
use crate::proto::wire::{CtlRespSpec, DecisionStatus};
use crate::text::first_chars;

verus! {

/// A verdict of the operator is for the one request whose digest starts with what was typed: that
/// request leaves the list, every other one stays, and an approval is bound to its digest and nonce
/// for two minutes.
pub proof fn law_operator_decides_one(
    before: CtxSpec,
    after: CtxSpec,
    prefix: Seq<char>,
    approve: bool,
    now: i64,
    d: Delivery,
)
    requires
        delivers(before, after, prefix, approve, now, d),
        now <= i64::MAX - 120,
    ensures
        exists|at: int|
            {
                &&& 0 <= at < before.state.pending.len()
                &&& prefix.is_prefix_of((#[trigger] before.state.pending[at]).digest)
                &&& forall|k: int|
                    0 <= k < before.state.pending.len() && k != at ==> !prefix.is_prefix_of(
                        (#[trigger] before.state.pending[k]).digest,
                    )
                &&& d.digest@ == before.state.pending[at].digest
                &&& d.summary@ == operation_summary(before.state.pending[at].request.op)
                &&& !approve ==> d.verdict is None
                &&& approve ==> opt_envelope(d.verdict) == Some(
                    EnvelopeSpec {
                        digest: before.state.pending[at].digest,
                        nonce: before.state.pending[at].nonce,
                        issued_at: now,
                        expires_at: (now + 120) as i64,
                        key_id: "operator-ctl"@,
                        scheme: SigScheme::Unattested,
                        sig: Seq::empty(),
                    },
                )
                &&& after.state.pending == before.state.pending.remove(at)
            },
        after.state.grants == before.state.grants,
        after.state.spent == before.state.spent,
        after == (CtxSpec { state: after.state, ..before }),
{
    let at = choose|at: int|
        {
            &&& #[trigger] crate::daemon::state::only_hit(before.state.pending, prefix, at)
            &&& d.digest@ == before.state.pending[at].digest
            &&& d.summary@ == operation_summary(before.state.pending[at].request.op)
            &&& opt_envelope(d.verdict) == if approve {
                Some(crate::daemon::ctl::operator_envelope(before.state.pending[at], now))
            } else {
                None
            }
            &&& after == (CtxSpec {
                state: SharedSpec { pending: before.state.pending.remove(at), ..before.state },
                ..before
            })
        };
    assert(prefix.is_prefix_of(before.state.pending[at].digest));
}

/// Where exactly one digest starts with what was typed, the operator's verdict is carried out; where
/// none does, or more than one, nothing changes and the operator hears why.
pub proof fn law_operator_is_understood(
    before: CtxSpec,
    after: CtxSpec,
    prefix: Seq<char>,
    approve: bool,
    now: i64,
    r: CtlStep,
    at: int,
)
    requires
        decided(before, after, prefix, approve, now, r),
    ensures
        0 <= at < before.state.pending.len() && prefix.is_prefix_of(before.state.pending[at].digest)
            && (forall|k: int|
            0 <= k < before.state.pending.len() && k != at ==> !prefix.is_prefix_of(
                (#[trigger] before.state.pending[k]).digest,
            )) ==> r is Deliver,
        r is Deliver <==> exists|k: int|
            crate::daemon::state::only_hit(before.state.pending, prefix, k),
        !(r is Deliver) ==> after == before && (r matches CtlStep::Reply(m) && m@ is Error),
{
    if 0 <= at < before.state.pending.len() && prefix.is_prefix_of(before.state.pending[at].digest)
        && (forall|k: int|
        0 <= k < before.state.pending.len() && k != at ==> !prefix.is_prefix_of(
            (#[trigger] before.state.pending[k]).digest,
        )) {
        assert(crate::daemon::state::only_hit(before.state.pending, prefix, at));
    }
}

/// An approval of the operator lets the request it is for run, at any time of the two minutes it
/// lasts.
pub proof fn law_operator_approval_is_good(
    before: CtxSpec,
    after: CtxSpec,
    prefix: Seq<char>,
    issued: i64,
    d: Delivery,
    t: TicketSpec,
    at: int,
    now: i64,
)
    requires
        delivers(before, after, prefix, true, issued, d),
        issued <= now <= issued + 120,
        issued <= i64::MAX - 120,
        0 <= at < before.state.pending.len(),
        before.state.pending[at].digest == d.digest@,
        before.state.wf(),
        t.digest == before.state.pending[at].digest,
        t.nonce == before.state.pending[at].nonce,
        forall|i: int|
            0 <= i < after.state.spent.len() ==> (#[trigger] after.state.spent[i]).nonce != t.nonce,
    ensures
        settlement(
            after.state.spent,
            t,
            WaitEndSpec::Verdict(opt_envelope(d.verdict)),
            now,
        ).run == t.execute,
        settlement(
            after.state.spent,
            t,
            WaitEndSpec::Verdict(opt_envelope(d.verdict)),
            now,
        ).reply->status == DecisionStatus::Allowed,
{
    law_operator_decides_one(before, after, prefix, true, issued, d);
    let p = before.state.pending;
    let k = choose|k: int|
        {
            &&& 0 <= k < p.len()
            &&& prefix.is_prefix_of((#[trigger] p[k]).digest)
            &&& forall|j: int|
                0 <= j < p.len() && j != k ==> !prefix.is_prefix_of((#[trigger] p[j]).digest)
            &&& d.digest@ == p[k].digest
            &&& opt_envelope(d.verdict) == Some(
                EnvelopeSpec {
                    digest: p[k].digest,
                    nonce: p[k].nonce,
                    issued_at: issued,
                    expires_at: (issued + 120) as i64,
                    key_id: "operator-ctl"@,
                    scheme: SigScheme::Unattested,
                    sig: Seq::empty(),
                },
            )
        };
    assert(p[k].digest == p[at].digest);
    assert(k == at) by {
        if k < at {
            assert(p[k].digest != p[at].digest);
        } else if at < k {
            assert(p[at].digest != p[k].digest);
        }
    }
    crate::laws::release::law_approval_releases_exactly(
        after.state.spent,
        t,
        WaitEndSpec::Verdict(opt_envelope(d.verdict)),
        now,
    );
}

/// What the operator grants is granted from then on for as many seconds as they said, and not after,
/// and takes no other grant away.
pub proof fn law_grants_last_as_long_as_said(
    c: CtxSpec,
    glob: Seq<char>,
    ttl_secs: u64,
    now: u64,
    later: u64,
    argv: Seq<char>,
)
    requires
        now <= later,
    ensures
        after_grant(c, glob, ttl_secs, now).state.pending == c.state.pending,
        after_grant(c, glob, ttl_secs, now).state.spent == c.state.spent,
        after_grant(c, glob, ttl_secs, now) == (CtxSpec {
            state: after_grant(c, glob, ttl_secs, now).state,
            ..c
        }),
        granted(live_grants(after_grant(c, glob, ttl_secs, now).state.grants, later), argv) <==> (
        granted(live_grants(c.state.grants, later), argv) || (later < now + ttl_secs * 1_000_000_000
            && glob_match(glob, argv) == Some(true))),
{
    assert(0 <= ttl_secs * 1_000_000_000 <= u64::MAX * 1_000_000_000);
    law_grants_add_up(
        c.state.grants,
        GrantSpec { argv_glob: glob, expires: (now + ttl_secs * 1_000_000_000) as u128 },
        later,
        argv,
    );
}

/// The operator sees how many requests wait, each grant that still holds, and for how many whole
/// seconds the daemon has been up.
pub proof fn law_status_is_true(c: CtxSpec, now: u64, started: u64)
    ensures
        status_of(c, now, started) matches CtlRespSpec::Status {
            version,
            pending,
            grants,
            uptime_secs,
        } && {
            &&& version == 1
            &&& pending == c.state.pending.len()
            &&& grants.len() == live_grants(c.state.grants, now).len()
            &&& forall|i: int|
                0 <= i < grants.len() ==> (#[trigger] grants[i]).0 == live_grants(
                    c.state.grants,
                    now,
                )[i].argv_glob && grants[i].1 == secs_left(
                    live_grants(c.state.grants, now)[i].expires,
                    now,
                )
            &&& now >= started ==> uptime_secs * 1_000_000_000 <= now - started < (uptime_secs + 1)
                * 1_000_000_000
        },
{
}

/// The operator hears that a verdict was handed over, and which it was, only where it was.
pub proof fn law_operator_hears(digest: Seq<char>, summary: Seq<char>)
    ensures
        delivery_answer(digest, summary, true, true) == (CtlRespSpec::Done {
            message: "approved"@ + " ["@ + first_chars(digest, 8) + "] "@ + summary,
        }),
        delivery_answer(digest, summary, false, true) == (CtlRespSpec::Done {
            message: "denied"@ + " ["@ + first_chars(digest, 8) + "] "@ + summary,
        }),
        delivery_answer(digest, summary, true, false) is Error,
        delivery_answer(digest, summary, false, false) is Error,
{
}

}
