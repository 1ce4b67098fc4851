//! The operator side: the list of waiting requests, approvals and denials, grants, status.
use vstd::prelude::*;
use vstd::string::*;

use crate::daemon::ctx::{Ctx, CtxSpec};
use crate::daemon::enroll::{code_shaped, draw_follows, live_codes, CodeSpec, CODE_TTL};
use crate::daemon::state::{
    grant_lines, live_grants, nonce_spent, only_hit, shows_pending, still_spent, take_refusal,
    with_grant, GrantSpec, SharedSpec, SpentSpec, WaitingSpec, SECOND,
};
use crate::daemon::server::{release, TicketSpec, WaitEndSpec};
use crate::number::{decimal, to_decimal};
use crate::proto::envelope::{ApprovalEnvelope, EnvelopeSpec, SigScheme};
use crate::proto::request::operation_summary;
use crate::proto::wire::{CtlMsg, CtlResp, CtlRespSpec, PROTOCOL_VERSION};
use crate::text::{first_chars, take_chars};

verus! {

/// How many seconds an approval is valid once it is issued. That is generous, because the
/// waiting side takes it at once.
pub const ENVELOPE_TTL_SECS: i64 = 120;

/// A verdict that is to be handed to the waiting side of a request.
pub struct Delivery {
    pub digest: String,
    /// An approval, or a denial.
    pub verdict: Option<ApprovalEnvelope>,
    pub summary: String,
}

/// What an optional approval says.
pub open spec fn opt_envelope(e: Option<ApprovalEnvelope>) -> Option<EnvelopeSpec> {
    match e {
        Some(e) => Some(e@),
        None => None,
    }
}

/// The approval that the operator gives to a waiting request. It carries no attestation, but is
/// bound like one that does.
pub open spec fn operator_envelope(w: WaitingSpec, now: i64) -> EnvelopeSpec {
    EnvelopeSpec {
        digest: w.digest,
        nonce: w.nonce,
        issued_at: now,
        expires_at: (now + ENVELOPE_TTL_SECS) as i64,
        key_id: "operator-ctl"@,
        scheme: SigScheme::Unattested,
        sig: Seq::empty(),
    }
}

/// What to do about a command of the operator.
pub enum CtlStep {
    /// Answer.
    Reply(CtlResp),
    /// Hand a verdict to the waiting side, then answer as [`delivered`] says.
    Deliver(Delivery),
}

/// Whether a verdict is the operator's on the one request that a prefix names, and that request
/// has left the list.
pub open spec fn delivers(
    before: CtxSpec,
    after: CtxSpec,
    prefix: Seq<char>,
    approve: bool,
    now: i64,
    d: Delivery,
) -> bool {
    exists|at: int|
        {
            &&& #[trigger] only_hit(before.state.pending, prefix, at)
            &&& d.digest@ == before.state.pending[at].digest
            &&& d.summary@ == operation_summary(before.state.pending[at].request.op)
            &&& opt_envelope(d.verdict) == if approve {
                Some(operator_envelope(before.state.pending[at], now))
            } else {
                None
            }
            &&& after == (CtxSpec {
                state: SharedSpec { pending: before.state.pending.remove(at), ..before.state },
                ..before
            })
        }
}

/// Whether a prefix names no request or more than one, and nothing has changed.
pub open spec fn refuses(before: CtxSpec, after: CtxSpec, prefix: Seq<char>, message: Seq<char>) -> bool {
    &&& forall|at: int| !#[trigger] only_hit(before.state.pending, prefix, at)
    &&& message == take_refusal(before.state.pending, prefix)
    &&& after == before
}

/// What an approval or a denial of the operator comes to.
pub open spec fn decided(
    before: CtxSpec,
    after: CtxSpec,
    prefix: Seq<char>,
    approve: bool,
    now: i64,
    r: CtlStep,
) -> bool {
    match r {
        CtlStep::Deliver(d) => delivers(before, after, prefix, approve, now, d),
        CtlStep::Reply(resp) => resp@ matches CtlRespSpec::Error { message } && refuses(
            before,
            after,
            prefix,
            message,
        ),
    }
}

/// An approval that the operator gives releases the request it was given for, as long as it is
/// valid and its nonce has not been used.
pub proof fn law_operator_approval_releases(
    w: WaitingSpec,
    t: TicketSpec,
    spent: Seq<SpentSpec>,
    issued: i64,
    now: i64,
)
    requires
        t.digest == w.digest,
        t.nonce == w.nonce,
        issued <= now <= issued + ENVELOPE_TTL_SECS,
        issued <= i64::MAX - ENVELOPE_TTL_SECS,
        !nonce_spent(still_spent(spent, now), w.nonce),
    ensures
        release(spent, t, WaitEndSpec::Verdict(Some(operator_envelope(w, issued))), now) == Some(
            operator_envelope(w, issued),
        ),
{
}

/// Approves or denies the request that a digest prefix names.
pub fn decide(ctx: &mut Ctx, digest_prefix: &str, approve: bool, now: i64) -> (r: Result<
    Delivery,
    String,
>)
    requires
        old(ctx)@.state.wf(),
        now <= i64::MAX - ENVELOPE_TTL_SECS,
    ensures
        final(ctx)@.state.wf(),
        match r {
            Ok(d) => delivers(old(ctx)@, final(ctx)@, digest_prefix@, approve, now, d),
            Err(m) => refuses(old(ctx)@, final(ctx)@, digest_prefix@, m@),
        },
{
    match ctx.state.take_pending(digest_prefix) {
        Ok((digest, pending)) => {
            let summary = pending.request.summary();
            let verdict = if approve {
                Some(
                    ApprovalEnvelope {
                        digest: digest.clone(),
                        nonce: pending.nonce,
                        issued_at: now,
                        expires_at: now + ENVELOPE_TTL_SECS,
                        key_id: "operator-ctl".to_owned(),
                        scheme: SigScheme::Unattested,
                        sig: String::new(),
                    },
                )
            } else {
                None
            };
            Ok(Delivery { digest, verdict, summary })
        },
        Err(m) => Err(m),
    }
}

/// The answer to the operator once a verdict was handed over, or could not be.
pub open spec fn delivery_answer(
    digest: Seq<char>,
    summary: Seq<char>,
    approve: bool,
    taken: bool,
) -> CtlRespSpec {
    if taken {
        CtlRespSpec::Done {
            message: (if approve {
                "approved"@
            } else {
                "denied"@
            }) + " ["@ + first_chars(digest, 8) + "] "@ + summary,
        }
    } else {
        CtlRespSpec::Error { message: "requester is gone (timed out or disconnected)"@ }
    }
}

/// The daemon after a command to grant something.
pub open spec fn after_grant(c: CtxSpec, argv_glob: Seq<char>, ttl_secs: u64, now: u64) -> CtxSpec {
    CtxSpec {
        state: SharedSpec {
            grants: with_grant(c.state.grants, argv_glob, ttl_secs, now),
            ..c.state
        },
        ..c
    }
}

/// What the operator hears of the daemon.
pub open spec fn status_of(c: CtxSpec, now: u64, started: u64) -> CtlRespSpec {
    CtlRespSpec::Status {
        version: PROTOCOL_VERSION,
        pending: c.state.pending.len() as int,
        grants: grant_lines(live_grants(c.state.grants, now), now),
        uptime_secs: (if now >= started {
            (now - started) / SECOND as int
        } else {
            0
        }) as u64,
    }
}

/// The answer to the operator once a verdict was handed over, or could not be.
pub fn delivered(digest: &str, summary: &str, approve: bool, taken: bool) -> (r: CtlResp)
    ensures
        r@ == delivery_answer(digest@, summary@, approve, taken),
        r@ == (if taken {
            CtlRespSpec::Done {
                message: (if approve {
                    "approved"@
                } else {
                    "denied"@
                }) + " ["@ + first_chars(digest@, 8) + "] "@ + summary@,
            }
        } else {
            CtlRespSpec::Error { message: "requester is gone (timed out or disconnected)"@ }
        }),
{
    if !taken {
        return CtlResp::Error {
            message: "requester is gone (timed out or disconnected)".to_owned(),
        };
    }
    let mut message = if approve {
        "approved".to_owned()
    } else {
        "denied".to_owned()
    };
    message.append(" [");
    message.append(take_chars(digest, 8).as_str());
    message.append("] ");
    message.append(summary);
    CtlResp::Done { message }
}

/// Carries out a command of the operator. The times are those of the daemon's clock and, for
/// approvals, the time of day.
pub fn handle(ctx: &mut Ctx, msg: CtlMsg, now: u64, unix: i64, started: u64) -> (r: CtlStep)
    requires
        old(ctx)@.state.wf(),
        unix <= i64::MAX - ENVELOPE_TTL_SECS,
    ensures
        final(ctx)@.state.wf(),
        msg matches CtlMsg::Grant { argv_glob, ttl_secs } ==> final(ctx)@ == after_grant(
            old(ctx)@,
            argv_glob@,
            ttl_secs,
            now,
        ),
        msg is Status ==> (r matches CtlStep::Reply(resp) && resp@ == status_of(
            old(ctx)@,
            now,
            started,
        )),
        match msg {
            CtlMsg::Pending => {
                &&& final(ctx)@ == old(ctx)@
                &&& r matches CtlStep::Reply(resp)
                &&& resp@ matches CtlRespSpec::Pending { entries }
                &&& shows_pending(entries, old(ctx)@.state.pending, now)
            },
            CtlMsg::Approve { digest_prefix } => decided(
                old(ctx)@,
                final(ctx)@,
                digest_prefix@,
                true,
                unix,
                r,
            ),
            CtlMsg::Deny { digest_prefix } => decided(
                old(ctx)@,
                final(ctx)@,
                digest_prefix@,
                false,
                unix,
                r,
            ),
            CtlMsg::Grant { argv_glob, ttl_secs } => {
                &&& final(ctx)@ == (CtxSpec {
                    state: SharedSpec {
                        grants: old(ctx)@.state.grants.push(
                            GrantSpec {
                                argv_glob: argv_glob@,
                                expires: (now + ttl_secs * SECOND) as u128,
                            },
                        ),
                        ..old(ctx)@.state
                    },
                    ..old(ctx)@
                })
                &&& r matches CtlStep::Reply(resp)
                &&& resp@ == (CtlRespSpec::Done {
                    message: "granted `"@ + argv_glob@ + "` for "@ + decimal(ttl_secs as nat) + "s"@,
                })
            },
            CtlMsg::Status => {
                &&& final(ctx)@ == (CtxSpec {
                    state: SharedSpec {
                        grants: live_grants(old(ctx)@.state.grants, now),
                        ..old(ctx)@.state
                    },
                    ..old(ctx)@
                })
                &&& r matches CtlStep::Reply(resp)
                &&& resp@ == (CtlRespSpec::Status {
                    version: PROTOCOL_VERSION,
                    pending: old(ctx)@.state.pending.len() as int,
                    grants: grant_lines(live_grants(old(ctx)@.state.grants, now), now),
                    uptime_secs: (if now >= started {
                        (now - started) / SECOND as int
                    } else {
                        0
                    }) as u64,
                })
            },
            CtlMsg::EnrollCode => {
                &&& r matches CtlStep::Reply(resp)
                &&& match resp@ {
                    CtlRespSpec::EnrollCode { code, ttl_secs } => {
                        &&& code_shaped(code)
                        &&& exists|rounds: Seq<Seq<u8>>| #[trigger] draw_follows(rounds, Some(code))
                        &&& ttl_secs == CODE_TTL
                        &&& final(ctx)@ == (CtxSpec {
                            codes: live_codes(old(ctx)@.codes, now).push(
                                CodeSpec {
                                    value: code,
                                    expires: (now + CODE_TTL * SECOND) as u128,
                                },
                            ),
                            ..old(ctx)@
                        })
                    },
                    CtlRespSpec::Error { message } => {
                        &&& message == "no random source"@
                        &&& exists|rounds: Seq<Seq<u8>>| #[trigger] draw_follows(rounds, None)
                        &&& final(ctx)@ == old(ctx)@
                    },
                    _ => false,
                }
            },
        },
{
    match msg {
        CtlMsg::Pending => CtlStep::Reply(
            CtlResp::Pending { entries: ctx.state.pending_snapshot(now) },
        ),
        CtlMsg::Approve { digest_prefix } => step_of(
            decide(ctx, digest_prefix.as_str(), true, unix),
        ),
        CtlMsg::Deny { digest_prefix } => step_of(
            decide(ctx, digest_prefix.as_str(), false, unix),
        ),
        CtlMsg::Grant { argv_glob, ttl_secs } => {
            let mut message = "granted `".to_owned();
            message.append(argv_glob.as_str());
            message.append("` for ");
            message.append(to_decimal(ttl_secs).as_str());
            message.append("s");
            ctx.state.add_grant(argv_glob, ttl_secs, now);
            CtlStep::Reply(CtlResp::Done { message })
        },
        CtlMsg::Status => {
            let grants = ctx.state.grant_snapshot(now);
            let uptime_secs: u64 = if now >= started {
                (now - started) / SECOND
            } else {
                0
            };
            CtlStep::Reply(
                CtlResp::Status {
                    version: PROTOCOL_VERSION,
                    pending: ctx.state.pending.len(),
                    grants,
                    uptime_secs,
                },
            )
        },
        CtlMsg::EnrollCode => match ctx.enroll_codes.issue(now) {
            Some(code) => CtlStep::Reply(CtlResp::EnrollCode { code, ttl_secs: CODE_TTL }),
            None => CtlStep::Reply(CtlResp::Error { message: "no random source".to_owned() }),
        },
    }
}

fn step_of(r: Result<Delivery, String>) -> (s: CtlStep)
    ensures
        match r {
            Ok(d) => s == CtlStep::Deliver(d),
            Err(m) => s matches CtlStep::Reply(resp) && resp@ == (CtlRespSpec::Error { message: m@ }),
        },
{
    match r {
        Ok(d) => CtlStep::Deliver(d),
        Err(message) => CtlStep::Reply(CtlResp::Error { message }),
    }
}

}
