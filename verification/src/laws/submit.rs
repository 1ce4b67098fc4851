//! What comes of a request that an agent submits.
use vstd::prelude::*;
use vstd::string::*;

use crate::daemon::ctx::CtxSpec;
use crate::daemon::server::{
    after_submission, approval_notices, page_to_open, submission, NextSpec, NoteSpec,
    SubmittedSpec, TicketSpec,
};
use crate::daemon::state::{
    hit_count, live_grants, pending_entry, pending_entries, shows_pending, take_refusal, waits,
    SharedSpec, WaitingSpec,
};
use crate::laws::release::{covered, law_any_live_grant_counts};
use crate::number::decimal;
use crate::proto::policy::policy_resolution;
use crate::proto::request::{operation_summary, request_digest, OperationSpec, RequestSpec};
use crate::proto::wire::{DaemonMsgSpec, DecisionStatus, PendingEntrySpec, Tier};
use crate::text::{first_chars, joined};

verus! {

/// Whether a grant lifts a request: it is a command, and some grant that has not expired covers its
/// words with a space between them.
pub open spec fn lifted(c: CtxSpec, r: RequestSpec, now: u64) -> bool {
    r.op matches OperationSpec::Exec { argv, .. } && covered(
        c.state.grants,
        now,
        joined(argv, " "@),
    )
}

/// Whether a request of this digest waits already.
pub open spec fn already_waits(c: CtxSpec, r: RequestSpec) -> bool {
    exists|k: int|
        0 <= k < c.state.pending.len() && (#[trigger] c.state.pending[k]).digest == request_digest(
            r,
        )
}

/// The answer about a request.
pub open spec fn answered(r: RequestSpec, tier: Tier, status: DecisionStatus) -> DaemonMsgSpec {
    DaemonMsgSpec::Decision {
        digest: request_digest(r),
        tier,
        status,
        summary: operation_summary(r.op),
    }
}

/// The entry of the log about a request.
pub open spec fn logged(
    r: RequestSpec,
    tier: Tier,
    decision: Seq<char>,
    rule: Seq<char>,
) -> Option<NoteSpec> {
    Some(
        NoteSpec {
            digest: request_digest(r),
            summary: operation_summary(r.op),
            tier,
            decision,
            rule,
        },
    )
}

/// What the policy denies is denied at once, is logged and does not wait, whatever was granted.
pub proof fn law_denied_at_once(c: CtxSpec, r: RequestSpec, execute: bool, now: u64, nonce: Seq<char>)
    requires
        policy_resolution(c.policy, r, c.home).0 == Tier::Deny,
    ensures
        submission(c, r, execute, now, nonce) == (SubmittedSpec {
            note: logged(r, Tier::Deny, "denied"@, policy_resolution(c.policy, r, c.home).1),
            reply: answered(r, Tier::Deny, DecisionStatus::Denied),
            next: NextSpec::Done,
        }),
        after_submission(c, r, now, nonce) == c,
{
}

/// What the policy allows is allowed at once, is logged, and is run exactly where that was asked for.
pub proof fn law_allowed_at_once(
    c: CtxSpec,
    r: RequestSpec,
    execute: bool,
    now: u64,
    nonce: Seq<char>,
)
    requires
        policy_resolution(c.policy, r, c.home).0 == Tier::Allow,
    ensures
        ({
            let s = submission(c, r, execute, now, nonce);
            &&& s.note == logged(
                r,
                Tier::Allow,
                "allowed"@,
                policy_resolution(c.policy, r, c.home).1,
            )
            &&& s.reply == answered(r, Tier::Allow, DecisionStatus::Allowed)
            &&& execute ==> s.next is Run
            &&& !execute ==> s.next is Done
        }),
        after_submission(c, r, now, nonce) == c,
{
}

/// A command that the policy would ask about, weakly or strongly, is allowed at once where a grant
/// covers it, and is run exactly where that was asked for.
pub proof fn law_granted_at_once(
    c: CtxSpec,
    r: RequestSpec,
    execute: bool,
    now: u64,
    nonce: Seq<char>,
)
    requires
        policy_resolution(c.policy, r, c.home).0 == Tier::Ask || policy_resolution(
            c.policy,
            r,
            c.home,
        ).0 == Tier::AskStrong,
        lifted(c, r, now),
    ensures
        ({
            let s = submission(c, r, execute, now, nonce);
            &&& s.note == logged(r, Tier::Allow, "allowed"@, "session grant"@)
            &&& s.reply == answered(r, Tier::Allow, DecisionStatus::Allowed)
            &&& execute ==> s.next is Run
            &&& !execute ==> s.next is Done
        }),
        after_submission(c, r, now, nonce) == (CtxSpec {
            state: SharedSpec { grants: live_grants(c.state.grants, now), ..c.state },
            ..c
        }),
{
    law_any_live_grant_counts(c.state.grants, now, joined(r.op->argv, " "@));
}

/// A request that is to be asked about, and that no grant lifts, waits under its nonce: it is logged,
/// the agent hears so, and nothing is run.
pub proof fn law_asked_about(c: CtxSpec, r: RequestSpec, execute: bool, now: u64, nonce: Seq<char>)
    requires
        policy_resolution(c.policy, r, c.home).0 == Tier::Ask || policy_resolution(
            c.policy,
            r,
            c.home,
        ).0 == Tier::AskStrong,
        !lifted(c, r, now),
        !already_waits(c, r),
    ensures
        ({
            let (tier, rule) = policy_resolution(c.policy, r, c.home);
            let s = submission(c, r, execute, now, nonce);
            let after = after_submission(c, r, now, nonce);
            &&& s.note == logged(r, tier, "pending"@, rule)
            &&& s.reply == answered(r, tier, DecisionStatus::Pending)
            &&& s.next matches NextSpec::Wait { ticket, notices, open }
            &&& ticket == (TicketSpec {
                digest: request_digest(r),
                nonce,
                tier,
                summary: operation_summary(r.op),
                execute,
            })
            &&& notices == approval_notices(c, r, tier)
            &&& open == page_to_open(c, tier)
            &&& after.state.pending == c.state.pending.push(
                WaitingSpec {
                    digest: request_digest(r),
                    request: r,
                    tier,
                    nonce,
                    submitted: now,
                },
            )
            &&& after.state.spent == c.state.spent
            &&& after.state.grants == c.state.grants || after.state.grants == live_grants(
                c.state.grants,
                now,
            )
            &&& after == (CtxSpec { state: after.state, ..c })
        }),
{
    if r.op is Exec {
        law_any_live_grant_counts(c.state.grants, now, joined(r.op->argv, " "@));
    }
    assert(!waits(c.state.pending, request_digest(r)));
}

/// A request that waits already does not wait twice: the agent hears so, and nothing is logged,
/// queued or run.
pub proof fn law_asked_about_once(
    c: CtxSpec,
    r: RequestSpec,
    execute: bool,
    now: u64,
    nonce: Seq<char>,
)
    requires
        policy_resolution(c.policy, r, c.home).0 == Tier::Ask || policy_resolution(
            c.policy,
            r,
            c.home,
        ).0 == Tier::AskStrong,
        !lifted(c, r, now),
        already_waits(c, r),
    ensures
        submission(c, r, execute, now, nonce) == (SubmittedSpec {
            note: None,
            reply: DaemonMsgSpec::Error { message: "identical request already pending approval"@ },
            next: NextSpec::Done,
        }),
        after_submission(c, r, now, nonce).state.pending == c.state.pending,
        after_submission(c, r, now, nonce).state.spent == c.state.spent,
        after_submission(c, r, now, nonce).state.grants == c.state.grants || after_submission(
            c,
            r,
            now,
            nonce,
        ).state.grants == live_grants(c.state.grants, now),
        after_submission(c, r, now, nonce) == (CtxSpec {
            state: after_submission(c, r, now, nonce).state,
            ..c
        }),
{
    if r.op is Exec {
        law_any_live_grant_counts(c.state.grants, now, joined(r.op->argv, " "@));
    }
    let k = choose|k: int|
        0 <= k < c.state.pending.len() && (#[trigger] c.state.pending[k]).digest == request_digest(
            r,
        );
    assert(crate::daemon::state::waits_at(c.state.pending, request_digest(r), k));
}

/// The operator is told of every request that waits, by its summary and the front of its digest: for
/// a passkey where one is enrolled and the request needs it, and else for the command that approves.
pub proof fn law_operator_is_told(c: CtxSpec, r: RequestSpec, tier: Tier)
    ensures
        ({
            let n = approval_notices(c, r, tier);
            let short = first_chars(request_digest(r), 8);
            let head = "APPROVAL NEEDED ["@ + short + "] "@ + operation_summary(r.op);
            let strong = tier == Tier::AskStrong;
            &&& !strong ==> n == seq![head + " — run: gate approve "@ + short]
            &&& strong && c.passkeys.len() == 0 ==> n.len() == 2 && n[0] == head
                + " — run: gate approve "@ + short && n[1] == "["@ + short
                + "] tier is ask-strong but no passkey is enrolled; operator approval will be recorded as unattested (run `gate enroll` to fix)"@
            &&& strong && c.passkeys.len() > 0 ==> (match (c.phone_url, c.http) {
                (Some(url), _) => n == seq![head + " — passkey required: "@ + url],
                (None, Some((port, token))) => n == seq![
                    head + " — passkey required: "@ + ("http://localhost:"@ + decimal(port as nat)
                        + "/?t="@ + token),
                ],
                (None, None) => n == seq![head + " — approval page not up yet"@],
            })
        }),
{
}

/// A page is opened only for a request that needs a passkey, where one is enrolled, a page is up and
/// the operator wants it.
pub proof fn law_page_is_opened(c: CtxSpec, tier: Tier)
    ensures
        page_to_open(c, tier) is Some <==> tier == Tier::AskStrong && c.passkeys.len() > 0
            && c.auto_open && (c.phone_url is Some || c.http is Some),
        page_to_open(c, tier) is Some && c.phone_url is Some ==> page_to_open(c, tier)
            == c.phone_url,
{
}

/// A prefix is counted once for each digest that starts with it.
pub proof fn law_hits(pending: Seq<WaitingSpec>, w: WaitingSpec, prefix: Seq<char>)
    ensures
        hit_count(Seq::empty(), prefix) == 0,
        prefix.is_prefix_of(w.digest) ==> hit_count(pending.push(w), prefix) == hit_count(
            pending,
            prefix,
        ) + 1,
        !prefix.is_prefix_of(w.digest) ==> hit_count(pending.push(w), prefix) == hit_count(
            pending,
            prefix,
        ),
{
    assert(pending.push(w).drop_last() =~= pending);
}

/// Why a prefix names no request: nothing starts with it, or more than one thing.
pub proof fn law_refusal_says_why(pending: Seq<WaitingSpec>, prefix: Seq<char>)
    ensures
        (forall|k: int|
            0 <= k < pending.len() ==> !prefix.is_prefix_of((#[trigger] pending[k]).digest))
            ==> take_refusal(pending, prefix) == "no pending request matches '"@ + prefix + "'"@,
        (exists|k: int|
            0 <= k < pending.len() && prefix.is_prefix_of((#[trigger] pending[k]).digest))
            ==> take_refusal(pending, prefix) == "'"@ + prefix + "' is ambiguous ("@ + decimal(
            hit_count(pending, prefix),
        ) + " matches); use more characters"@,
{
    lemma_hits_positive(pending, prefix);
}

proof fn lemma_hits_positive(pending: Seq<WaitingSpec>, prefix: Seq<char>)
    ensures
        hit_count(pending, prefix) > 0 <==> exists|k: int|
            0 <= k < pending.len() && prefix.is_prefix_of((#[trigger] pending[k]).digest),
    decreases pending.len(),
{
    if pending.len() > 0 {
        let front = pending.drop_last();
        lemma_hits_positive(front, prefix);
        assert(pending[pending.len() - 1] == pending.last());
        if exists|k: int|
            0 <= k < front.len() && prefix.is_prefix_of((#[trigger] front[k]).digest) {
            let k = choose|k: int|
                0 <= k < front.len() && prefix.is_prefix_of((#[trigger] front[k]).digest);
            assert(pending[k] == front[k]);
        }
        if exists|k: int|
            0 <= k < pending.len() && prefix.is_prefix_of((#[trigger] pending[k]).digest) {
            let k = choose|k: int|
                0 <= k < pending.len() && prefix.is_prefix_of((#[trigger] pending[k]).digest);
            if k < front.len() {
                assert(front[k] == pending[k]);
            }
        }
    }
}

/// An approver sees each waiting request by its own digest, summary, tier and harness, and its age in
/// whole seconds.
pub proof fn law_entries_show_their_request(w: WaitingSpec, now: u64)
    ensures
        ({
            let e = pending_entry(w, now);
            &&& e.digest == w.digest && e.tier == w.tier && e.harness == w.request.harness
            &&& e.summary == operation_summary(w.request.op)
            &&& now >= w.submitted ==> e.age_secs * 1_000_000_000 <= now - w.submitted < (
            e.age_secs + 1) * 1_000_000_000
            &&& now < w.submitted ==> e.age_secs == 0
        }),
{
}

/// A list of the waiting requests shows each of them once and nothing else, none before one that has
/// waited for longer.
pub proof fn law_list_is_complete(
    entries: Seq<PendingEntrySpec>,
    pending: Seq<WaitingSpec>,
    now: u64,
)
    requires
        shows_pending(entries, pending, now),
    ensures
        entries.len() == pending.len(),
        forall|k: int|
            0 <= k < pending.len() ==> entries.contains(pending_entry(#[trigger] pending[k], now)),
        forall|i: int, j: int|
            0 <= i < j < entries.len() ==> (#[trigger] entries[i]).age_secs >= (
            #[trigger] entries[j]).age_secs,
{
    let all = pending_entries(pending, now);
    entries.to_multiset_ensures();
    all.to_multiset_ensures();
    assert forall|k: int| 0 <= k < pending.len() implies entries.contains(
        pending_entry(#[trigger] pending[k], now),
    ) by {
        assert(all[k] == pending_entry(pending[k], now));
        assert(all.contains(all[k]));
        assert(all.to_multiset().count(all[k]) > 0);
        assert(entries.to_multiset().count(all[k]) > 0);
    }
}

/// Forgetting the grants that have expired takes away nothing that is granted, then or later.
pub proof fn law_forgetting_grants(
    grants: Seq<crate::daemon::state::GrantSpec>,
    now: u64,
    later: u64,
    argv: Seq<char>,
)
    requires
        now <= later,
    ensures
        crate::daemon::state::granted(live_grants(live_grants(grants, now), later), argv)
            <==> covered(grants, later, argv),
{
    crate::daemon::state::law_grants_only_expire(grants, now, later);
    law_any_live_grant_counts(grants, later, argv);
}

}
