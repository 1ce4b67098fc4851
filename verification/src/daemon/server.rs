//! The agent side: a submitted request is decided, waits for approval where it has to, and is
//! run where that was asked for.
use vstd::prelude::*;
use vstd::string::*;

use crate::codec::{base64_bytes, base64_encode, base64_text, is_hex, new_token};
use crate::daemon::ctx::{home_of, Ctx, CtxSpec};
use crate::daemon::state::{
    granted, live_grants, nonce_spent, still_spent, waits, Pending, SharedSpec, SpentSpec,
    WaitingSpec,
};
use crate::proto::envelope::{envelope_check, scheme_label, ApprovalEnvelope, EnvelopeSpec};
use crate::proto::policy::policy_resolution;
use crate::proto::request::{
    operation_summary, request_digest, GateRequest, Operation, OperationSpec, RequestSpec,
};
use crate::proto::wire::{DaemonMsg, DaemonMsgSpec, DecisionStatus, Tier};
use crate::text::{first_chars, join, joined, opt_text, same, take_chars, texts};

verus! {

/// What is to be put into the audit log about a decision.
pub struct AuditNote {
    pub digest: String,
    pub summary: String,
    pub tier: Tier,
    pub decision: String,
    pub rule: String,
}

/// What is to be put into the audit log about a decision.
#[verifier::ext_equal]
pub struct NoteSpec {
    pub digest: Seq<char>,
    pub summary: Seq<char>,
    pub tier: Tier,
    pub decision: Seq<char>,
    pub rule: Seq<char>,
}

impl View for AuditNote {
    type V = NoteSpec;

    open spec fn view(&self) -> NoteSpec {
        NoteSpec {
            digest: self.digest@,
            summary: self.summary@,
            tier: self.tier,
            decision: self.decision@,
            rule: self.rule@,
        }
    }
}

/// What is remembered of a request while it waits.
pub struct Ticket {
    pub digest: String,
    pub nonce: String,
    pub tier: Tier,
    pub summary: String,
    pub execute: bool,
}

/// What is remembered of a request while it waits.
#[verifier::ext_equal]
pub struct TicketSpec {
    pub digest: Seq<char>,
    pub nonce: Seq<char>,
    pub tier: Tier,
    pub summary: Seq<char>,
    pub execute: bool,
}

impl View for Ticket {
    type V = TicketSpec;

    open spec fn view(&self) -> TicketSpec {
        TicketSpec {
            digest: self.digest@,
            nonce: self.nonce@,
            tier: self.tier,
            summary: self.summary@,
            execute: self.execute,
        }
    }
}

/// What to do after the agent was answered.
pub enum Next {
    /// Nothing.
    Done,
    /// Run the command.
    Run,
    /// Tell the operator, open a page where one is given, and wait for the verdict.
    Wait { ticket: Ticket, notices: Vec<String>, open: Option<String> },
}

/// What to do after the agent was answered.
#[verifier::ext_equal]
pub enum NextSpec {
    Done,
    Run,
    Wait { ticket: TicketSpec, notices: Seq<Seq<char>>, open: Option<Seq<char>> },
}

impl View for Next {
    type V = NextSpec;

    open spec fn view(&self) -> NextSpec {
        match self {
            Next::Done => NextSpec::Done,
            Next::Run => NextSpec::Run,
            Next::Wait { ticket, notices, open } => NextSpec::Wait {
                ticket: ticket@,
                notices: texts(notices@),
                open: opt_text(*open),
            },
        }
    }
}

/// What comes of a submitted request: first the note for the log is written, then the agent is
/// answered, then the rest is done.
pub struct Submitted {
    pub note: Option<AuditNote>,
    pub reply: DaemonMsg,
    pub next: Next,
}

/// What comes of a submitted request.
#[verifier::ext_equal]
pub struct SubmittedSpec {
    pub note: Option<NoteSpec>,
    pub reply: DaemonMsgSpec,
    pub next: NextSpec,
}

impl View for Submitted {
    type V = SubmittedSpec;

    open spec fn view(&self) -> SubmittedSpec {
        SubmittedSpec {
            note: match self.note {
                Some(n) => Some(n@),
                None => None,
            },
            reply: self.reply@,
            next: self.next@,
        }
    }
}

/// Whether a tier asks a human.
pub open spec fn asks(tier: Tier) -> bool {
    tier == Tier::Ask || tier == Tier::AskStrong
}

/// Whether session grants have a say about a request: it is a command that a human would be
/// asked about.
pub open spec fn grantable(c: CtxSpec, r: RequestSpec) -> bool {
    asks(policy_resolution(c.policy, r, c.home).0) && r.op is Exec
}

/// The tier of a request and what decided it: the policy, or a session grant that lifts a tier
/// that asks. A grant never lifts a denial.
pub open spec fn effective(c: CtxSpec, r: RequestSpec, now: u64) -> (Tier, Seq<char>) {
    if grantable(c, r) && granted(
        live_grants(c.state.grants, now),
        joined(r.op->argv, " "@),
    ) {
        (Tier::Allow, "session grant"@)
    } else {
        policy_resolution(c.policy, r, c.home)
    }
}

/// What the daemon knows after it looked at the grants for a request.
pub open spec fn after_grants(c: CtxSpec, r: RequestSpec, now: u64) -> SharedSpec {
    if grantable(c, r) {
        SharedSpec { grants: live_grants(c.state.grants, now), ..c.state }
    } else {
        c.state
    }
}

/// The answer to an agent about a request.
pub open spec fn decision_of(r: RequestSpec, tier: Tier, status: DecisionStatus) -> DaemonMsgSpec {
    DaemonMsgSpec::Decision {
        digest: request_digest(r),
        tier,
        status,
        summary: operation_summary(r.op),
    }
}

/// The note for the log about a request.
pub open spec fn note_of(
    digest: Seq<char>,
    summary: Seq<char>,
    tier: Tier,
    decision: Seq<char>,
    rule: Seq<char>,
) -> NoteSpec {
    NoteSpec { digest, summary, tier, decision, rule }
}

/// What the operator is told about a request that needs approval.
pub open spec fn approval_notices(c: CtxSpec, r: RequestSpec, tier: Tier) -> Seq<Seq<char>> {
    let short = first_chars(request_digest(r), 8);
    let head = "APPROVAL NEEDED ["@ + short + "] "@ + operation_summary(r.op);
    if tier == Tier::AskStrong && c.passkeys.len() > 0 {
        match c.approval_address() {
            Some(url) => seq![head + " — passkey required: "@ + url],
            None => seq![head + " — approval page not up yet"@],
        }
    } else if tier == Tier::AskStrong {
        seq![
            head + " — run: gate approve "@ + short,
            "["@ + short
                + "] tier is ask-strong but no passkey is enrolled; operator approval will be recorded as unattested (run `gate enroll` to fix)"@,
        ]
    } else {
        seq![head + " — run: gate approve "@ + short]
    }
}

/// The page to open for a request that needs approval, if any.
pub open spec fn page_to_open(c: CtxSpec, tier: Tier) -> Option<Seq<char>> {
    if tier == Tier::AskStrong && c.passkeys.len() > 0 && c.auto_open {
        c.approval_address()
    } else {
        None
    }
}

/// What comes of a submitted request, given the nonce it would wait under.
pub open spec fn submission(
    c: CtxSpec,
    r: RequestSpec,
    execute: bool,
    now: u64,
    nonce: Seq<char>,
) -> SubmittedSpec {
    let (tier, rule) = effective(c, r, now);
    let digest = request_digest(r);
    let summary = operation_summary(r.op);
    match tier {
        Tier::Deny => SubmittedSpec {
            note: Some(note_of(digest, summary, tier, "denied"@, rule)),
            reply: decision_of(r, tier, DecisionStatus::Denied),
            next: NextSpec::Done,
        },
        Tier::Allow => SubmittedSpec {
            note: Some(note_of(digest, summary, tier, "allowed"@, rule)),
            reply: decision_of(r, tier, DecisionStatus::Allowed),
            next: if execute {
                NextSpec::Run
            } else {
                NextSpec::Done
            },
        },
        _ => if waits(c.state.pending, digest) {
            SubmittedSpec {
                note: None,
                reply: DaemonMsgSpec::Error {
                    message: "identical request already pending approval"@,
                },
                next: NextSpec::Done,
            }
        } else {
            SubmittedSpec {
                note: Some(note_of(digest, summary, tier, "pending"@, rule)),
                reply: decision_of(r, tier, DecisionStatus::Pending),
                next: NextSpec::Wait {
                    ticket: TicketSpec { digest, nonce, tier, summary, execute },
                    notices: approval_notices(c, r, tier),
                    open: page_to_open(c, tier),
                },
            }
        },
    }
}

/// What the daemon knows after a request was submitted: it waits where a human is asked and it
/// did not wait before.
pub open spec fn after_submission(c: CtxSpec, r: RequestSpec, now: u64, nonce: Seq<char>) -> CtxSpec {
    let tier = effective(c, r, now).0;
    let state = after_grants(c, r, now);
    if asks(tier) && !waits(c.state.pending, request_digest(r)) {
        CtxSpec {
            state: SharedSpec {
                pending: state.pending.push(
                    WaitingSpec {
                        digest: request_digest(r),
                        request: r,
                        tier,
                        nonce,
                        submitted: now,
                    },
                ),
                ..state
            },
            ..c
        }
    } else {
        CtxSpec { state, ..c }
    }
}

/// A request is run at once only where the policy or a session grant allows it, and what the
/// policy denies is denied whatever was granted.
pub proof fn law_nothing_runs_unasked(
    c: CtxSpec,
    r: RequestSpec,
    execute: bool,
    now: u64,
    nonce: Seq<char>,
)
    ensures
        submission(c, r, execute, now, nonce).next is Run ==> {
            &&& execute
            &&& submission(c, r, execute, now, nonce).reply == decision_of(
                r,
                Tier::Allow,
                DecisionStatus::Allowed,
            )
            &&& policy_resolution(c.policy, r, c.home).0 == Tier::Allow || (asks(
                policy_resolution(c.policy, r, c.home).0,
            ) && granted(live_grants(c.state.grants, now), joined(r.op->argv, " "@)))
        },
        policy_resolution(c.policy, r, c.home).0 == Tier::Deny ==> submission(
            c,
            r,
            execute,
            now,
            nonce,
        ).reply == decision_of(r, Tier::Deny, DecisionStatus::Denied) && submission(
            c,
            r,
            execute,
            now,
            nonce,
        ).next is Done,
{
}

/// A nonce of 32 random bytes, in hexadecimal.
pub fn new_nonce() -> (r: String)
    ensures
        r@.len() == 64,
        is_hex(r@),
{
    new_token()
}

fn decision(digest: &str, tier: Tier, status: DecisionStatus, summary: &str) -> (r: DaemonMsg)
    ensures
        r@ == (DaemonMsgSpec::Decision { digest: digest@, tier, status, summary: summary@ }),
{
    DaemonMsg::Decision { digest: digest.to_owned(), tier, status, summary: summary.to_owned() }
}

fn note(digest: &str, summary: &str, tier: Tier, decision: &str, rule: &str) -> (r: AuditNote)
    ensures
        r@ == note_of(digest@, summary@, tier, decision@, rule@),
{
    AuditNote {
        digest: digest.to_owned(),
        summary: summary.to_owned(),
        tier,
        decision: decision.to_owned(),
        rule: rule.to_owned(),
    }
}

impl Ctx {
    fn notices(&self, digest: &str, summary: &str, tier: Tier, Ghost(r): Ghost<RequestSpec>) -> (res: (
        Vec<String>,
        Option<String>,
    ))
        requires
            digest@ == request_digest(r),
            summary@ == operation_summary(r.op),
        ensures
            texts(res.0@) == approval_notices(self@, r, tier),
            opt_text(res.1) == page_to_open(self@, tier),
    {
        let short = take_chars(digest, 8);
        let mut head = "APPROVAL NEEDED [".to_owned();
        head.append(short.as_str());
        head.append("] ");
        head.append(summary);
        let mut out: Vec<String> = Vec::new();
        let mut open: Option<String> = None;
        if tier == Tier::AskStrong && self.passkeys_enrolled() {
            match self.approval_url() {
                Some(url) => {
                    head.append(" — passkey required: ");
                    head.append(url.as_str());
                    out.push(head);
                    if self.auto_open {
                        open = Some(url);
                    }
                },
                None => {
                    head.append(" — approval page not up yet");
                    out.push(head);
                },
            }
        } else {
            head.append(" — run: gate approve ");
            head.append(short.as_str());
            out.push(head);
            if tier == Tier::AskStrong {
                let mut line = "[".to_owned();
                line.append(short.as_str());
                line.append(
                    "] tier is ask-strong but no passkey is enrolled; operator approval will be recorded as unattested (run `gate enroll` to fix)",
                );
                out.push(line);
            }
        }
        assert(texts(out@) =~= approval_notices(self@, r, tier));
        (out, open)
    }

    /// Decides a submitted request. Where it has to wait, it does so under the given nonce.
    pub fn submit(&mut self, request: GateRequest, execute: bool, now: u64, nonce: String) -> (r:
        Submitted)
        requires
            old(self)@.state.wf(),
        ensures
            r@ == submission(old(self)@, request@, execute, now, nonce@),
            final(self)@ == after_submission(old(self)@, request@, now, nonce@),
            final(self)@.state.wf(),
    {
        let ghost c = self@;
        let ghost q = request@;
        let digest = match request.digest() {
            Ok(d) => d,
            Err(_) => {
                return Submitted {
                    note: None,
                    reply: DaemonMsg::Error { message: "canonicalization failed".to_owned() },
                    next: Next::Done,
                };
            },
        };
        let summary = request.summary();
        let (mut tier, mut rule) = self.policy.resolve(&request, home_of(&self.home));
        if tier == Tier::Ask || tier == Tier::AskStrong {
            if let Operation::Exec { argv, .. } = &request.op {
                assert(texts(argv@).skip(0) =~= texts(argv@));
                let line = join(argv, 0, " ");
                if self.state.grant_matches(line.as_str(), now) {
                    tier = Tier::Allow;
                    rule = "session grant".to_owned();
                }
            }
        }
        assert((tier, rule@) == effective(c, q, now));
        assert(self@ == (CtxSpec { state: after_grants(c, q, now), ..c }));
        match tier {
            Tier::Deny => Submitted {
                note: Some(note(digest.as_str(), summary.as_str(), tier, "denied", rule.as_str())),
                reply: decision(digest.as_str(), tier, DecisionStatus::Denied, summary.as_str()),
                next: Next::Done,
            },
            Tier::Allow => Submitted {
                note: Some(note(digest.as_str(), summary.as_str(), tier, "allowed", rule.as_str())),
                reply: decision(digest.as_str(), tier, DecisionStatus::Allowed, summary.as_str()),
                next: if execute {
                    Next::Run
                } else {
                    Next::Done
                },
            },
            _ => {
                let entry = Pending { request, tier, nonce: nonce.clone(), submitted: now };
                if !self.state.insert_pending(digest.clone(), entry) {
                    return Submitted {
                        note: None,
                        reply: DaemonMsg::Error {
                            message: "identical request already pending approval".to_owned(),
                        },
                        next: Next::Done,
                    };
                }
                let (notices, open) = self.notices(
                    digest.as_str(),
                    summary.as_str(),
                    tier,
                    Ghost(q),
                );
                Submitted {
                    note: Some(
                        note(digest.as_str(), summary.as_str(), tier, "pending", rule.as_str()),
                    ),
                    reply: decision(
                        digest.as_str(),
                        tier,
                        DecisionStatus::Pending,
                        summary.as_str(),
                    ),
                    next: Next::Wait {
                        ticket: Ticket { digest, nonce, tier, summary, execute },
                        notices,
                        open,
                    },
                }
            },
        }
    }

    /// Decides a submitted request. Where it has to wait, it does so under a fresh nonce.
    pub fn handle_submit(&mut self, request: GateRequest, execute: bool, now: u64) -> (r: Submitted)
        requires
            old(self)@.state.wf(),
        ensures
            exists|nonce: Seq<char>|
                {
                    &&& nonce.len() == 64
                    &&& is_hex(nonce)
                    &&& r@ == #[trigger] submission(old(self)@, request@, execute, now, nonce)
                    &&& final(self)@ == after_submission(old(self)@, request@, now, nonce)
                },
            final(self)@.state.wf(),
    {
        let nonce = new_nonce();
        let ghost n = nonce@;
        let r = self.submit(request, execute, now, nonce);
        assert(r@ == submission(old(self)@, request@, execute, now, n));
        r
    }
}

/// How the wait for a verdict ends.
pub enum WaitEnd {
    /// Somebody decided: an approval, or a denial.
    Verdict(Option<ApprovalEnvelope>),
    /// Whoever could have decided is gone.
    Dropped,
    /// Nobody decided in time.
    TimedOut,
}

/// How the wait for a verdict ends.
#[verifier::ext_equal]
pub enum WaitEndSpec {
    Verdict(Option<EnvelopeSpec>),
    Dropped,
    TimedOut,
}

impl View for WaitEnd {
    type V = WaitEndSpec;

    open spec fn view(&self) -> WaitEndSpec {
        match self {
            WaitEnd::Verdict(v) => WaitEndSpec::Verdict(
                match v {
                    Some(e) => Some(e@),
                    None => None,
                },
            ),
            WaitEnd::Dropped => WaitEndSpec::Dropped,
            WaitEnd::TimedOut => WaitEndSpec::TimedOut,
        }
    }
}

/// What comes of the wait: the note for the log, the answer to the agent, what the operator is
/// told, and whether the command is run.
pub struct Settled {
    pub note: AuditNote,
    pub reply: DaemonMsg,
    pub notices: Vec<String>,
    pub run: bool,
}

/// What comes of the wait.
#[verifier::ext_equal]
pub struct SettledSpec {
    pub note: NoteSpec,
    pub reply: DaemonMsgSpec,
    pub notices: Seq<Seq<char>>,
    pub run: bool,
}

impl View for Settled {
    type V = SettledSpec;

    open spec fn view(&self) -> SettledSpec {
        SettledSpec {
            note: self.note@,
            reply: self.reply@,
            notices: texts(self.notices@),
            run: self.run,
        }
    }
}

/// Whether an approval is for a waiting request: for its digest, within its time and under its
/// nonce.
pub open spec fn approval_fits(t: TicketSpec, e: EnvelopeSpec, now: i64) -> bool {
    envelope_check(e, t.digest, now as int) is Ok && e.nonce == t.nonce
}

/// The approval that releases a waiting request, if there is one: it fits, and its nonce has
/// not released a request before.
pub open spec fn release(
    spent: Seq<SpentSpec>,
    t: TicketSpec,
    end: WaitEndSpec,
    now: i64,
) -> Option<EnvelopeSpec> {
    match end {
        WaitEndSpec::Verdict(Some(e)) => if approval_fits(t, e, now) && !nonce_spent(
            still_spent(spent, now),
            e.nonce,
        ) {
            Some(e)
        } else {
            None
        },
        _ => None,
    }
}

/// Who approved, as it stands in the log.
pub open spec fn approved_via(e: EnvelopeSpec) -> Seq<char> {
    scheme_label(e.scheme) + ":"@ + e.key_id
}

/// What the operator is told at the end of a wait.
pub open spec fn settle_notices(
    spent: Seq<SpentSpec>,
    t: TicketSpec,
    end: WaitEndSpec,
    now: i64,
) -> Seq<Seq<char>> {
    let short = first_chars(t.digest, 8);
    match end {
        WaitEndSpec::TimedOut => seq!["["@ + short + "] approval timed out; denying"@],
        WaitEndSpec::Verdict(Some(_)) => if release(spent, t, end, now) is None {
            seq!["["@ + short + "] approval envelope rejected (binding/expiry)"@]
        } else {
            Seq::empty()
        },
        _ => Seq::empty(),
    }
}

/// What comes of the wait.
pub open spec fn settlement(
    spent: Seq<SpentSpec>,
    t: TicketSpec,
    end: WaitEndSpec,
    now: i64,
) -> SettledSpec {
    match release(spent, t, end, now) {
        Some(e) => SettledSpec {
            note: note_of(t.digest, t.summary, t.tier, "approved"@, approved_via(e)),
            reply: DaemonMsgSpec::Decision {
                digest: t.digest,
                tier: t.tier,
                status: DecisionStatus::Allowed,
                summary: t.summary,
            },
            notices: settle_notices(spent, t, end, now),
            run: t.execute,
        },
        None => SettledSpec {
            note: note_of(t.digest, t.summary, t.tier, "denied"@, "operator"@),
            reply: DaemonMsgSpec::Decision {
                digest: t.digest,
                tier: t.tier,
                status: DecisionStatus::Denied,
                summary: t.summary,
            },
            notices: settle_notices(spent, t, end, now),
            run: false,
        },
    }
}

/// The spent nonces after the wait.
pub open spec fn spent_after(
    spent: Seq<SpentSpec>,
    t: TicketSpec,
    end: WaitEndSpec,
    now: i64,
) -> Seq<SpentSpec> {
    match end {
        WaitEndSpec::Verdict(Some(e)) => if approval_fits(t, e, now) {
            if nonce_spent(still_spent(spent, now), e.nonce) {
                still_spent(spent, now)
            } else {
                still_spent(spent, now).push(SpentSpec { nonce: e.nonce, until: e.expires_at })
            }
        } else {
            spent
        },
        _ => spent,
    }
}

/// The waiting requests after a wait: one that nobody decided in time leaves the list.
pub open spec fn pending_after(
    pending: Seq<WaitingSpec>,
    t: TicketSpec,
    end: WaitEndSpec,
) -> Seq<WaitingSpec>
    decreases pending.len(),
{
    if !(end is TimedOut) || pending.len() == 0 {
        pending
    } else if pending.last().digest == t.digest {
        pending.drop_last()
    } else {
        pending_after(pending.drop_last(), t, end).push(pending.last())
    }
}

proof fn lemma_pending_after(pending: Seq<WaitingSpec>, t: TicketSpec, at: int)
    requires
        0 <= at < pending.len(),
        pending[at].digest == t.digest,
        forall|k: int| at < k < pending.len() ==> (#[trigger] pending[k]).digest != t.digest,
    ensures
        pending_after(pending, t, WaitEndSpec::TimedOut) == pending.remove(at),
    decreases pending.len(),
{
    let front = pending.drop_last();
    if at == pending.len() - 1 {
        assert(pending.remove(at) =~= front);
    } else {
        assert(pending[pending.len() - 1].digest != t.digest);
        assert forall|k: int| at < k < front.len() implies (#[trigger] front[k]).digest
            != t.digest by {
            assert(front[k] == pending[k]);
        }
        lemma_pending_after(front, t, at);
        assert(front.remove(at).push(pending.last()) =~= pending.remove(at));
    }
}

proof fn lemma_pending_kept(pending: Seq<WaitingSpec>, t: TicketSpec)
    requires
        forall|k: int| 0 <= k < pending.len() ==> (#[trigger] pending[k]).digest != t.digest,
    ensures
        pending_after(pending, t, WaitEndSpec::TimedOut) == pending,
    decreases pending.len(),
{
    if pending.len() > 0 {
        let front = pending.drop_last();
        assert(pending[pending.len() - 1].digest != t.digest);
        assert forall|k: int| 0 <= k < front.len() implies (#[trigger] front[k]).digest
            != t.digest by {
            assert(front[k] == pending[k]);
        }
        lemma_pending_kept(front, t);
        assert(front.push(pending.last()) =~= pending);
    }
}

/// A waiting request is released only by an approval for its own digest, under its own nonce,
/// while the approval is valid. Silence, a denial and a timeout never release it.
pub proof fn law_release_is_bound(
    spent: Seq<SpentSpec>,
    t: TicketSpec,
    end: WaitEndSpec,
    now: i64,
)
    ensures
        settlement(spent, t, end, now).run ==> t.execute && (end matches WaitEndSpec::Verdict(Some(e))
            && e.digest == t.digest && e.nonce == t.nonce && e.issued_at <= now <= e.expires_at),
        settlement(spent, t, end, now).reply->status == DecisionStatus::Allowed ==> (
        end matches WaitEndSpec::Verdict(Some(e)) && e.digest == t.digest && e.nonce == t.nonce
            && e.issued_at <= now <= e.expires_at),
{
}

/// An approval that released one request releases no other: not while it is valid, because its
/// nonce is spent, and not later, because it has expired.
pub proof fn law_approval_releases_once(
    spent: Seq<SpentSpec>,
    t: TicketSpec,
    t2: TicketSpec,
    e: EnvelopeSpec,
    now: i64,
    later: i64,
)
    requires
        release(spent, t, WaitEndSpec::Verdict(Some(e)), now) is Some,
        now <= later,
    ensures
        release(
            spent_after(spent, t, WaitEndSpec::Verdict(Some(e)), now),
            t2,
            WaitEndSpec::Verdict(Some(e)),
            later,
        ) is None,
{
    let after = spent_after(spent, t, WaitEndSpec::Verdict(Some(e)), now);
    let i = after.len() - 1;
    assert(after[i] == (SpentSpec { nonce: e.nonce, until: e.expires_at }));
    if later <= e.expires_at {
        crate::daemon::state::law_spent_is_remembered(after, e.nonce, later, i);
    }
}

impl Ctx {
    /// Settles a request whose wait has ended.
    pub fn settle(&mut self, ticket: &Ticket, end: WaitEnd, now: i64) -> (r: Settled)
        requires
            old(self)@.state.wf(),
        ensures
            r@ == settlement(old(self)@.state.spent, ticket@, end@, now),
            final(self)@.state.wf(),
            final(self)@.state.spent == spent_after(old(self)@.state.spent, ticket@, end@, now),
            final(self)@.state.grants == old(self)@.state.grants,
            final(self)@ == (CtxSpec { state: final(self)@.state, ..old(self)@ }),
            final(self)@.state.pending == pending_after(old(self)@.state.pending, ticket@, end@),
            !(end is TimedOut) ==> final(self)@.state.pending == old(self)@.state.pending,
            end is TimedOut ==> {
                &&& !waits(final(self)@.state.pending, ticket@.digest)
                &&& !waits(old(self)@.state.pending, ticket@.digest)
                    ==> final(self)@.state.pending == old(self)@.state.pending
                &&& forall|at: int|
                    #[trigger] crate::daemon::state::waits_at(
                        old(self)@.state.pending,
                        ticket@.digest,
                        at,
                    ) ==> final(self)@.state.pending == old(self)@.state.pending.remove(at)
            },
    {
        let ghost spent = self@.state.spent;
        let ghost ending = end@;
        let short = take_chars(ticket.digest.as_str(), 8);
        let mut notices: Vec<String> = Vec::new();
        let mut line = "[".to_owned();
        line.append(short.as_str());
        let approval: Option<ApprovalEnvelope> = match end {
            WaitEnd::Verdict(Some(envelope)) => {
                // Bind the approval to this exact request before it is released.
                let fits = match envelope.check(ticket.digest.as_str(), now) {
                    Ok(()) => same(envelope.nonce.as_str(), ticket.nonce.as_str()),
                    Err(_) => false,
                };
                if fits && self.state.spend_nonce(
                    envelope.nonce.as_str(),
                    envelope.expires_at,
                    now,
                ) {
                    Some(envelope)
                } else {
                    line.append("] approval envelope rejected (binding/expiry)");
                    notices.push(line);
                    None
                }
            },
            WaitEnd::Verdict(None) => None,
            WaitEnd::Dropped => None,
            WaitEnd::TimedOut => {
                self.state.remove_pending(ticket.digest.as_str());
                line.append("] approval timed out; denying");
                notices.push(line);
                None
            },
        };
        assert(texts(notices@) =~= settle_notices(spent, ticket@, ending, now));
        proof {
            let p = old(self)@.state.pending;
            if ending is TimedOut {
                if waits(p, ticket@.digest) {
                    let at = choose|at: int| crate::daemon::state::waits_at(p, ticket@.digest, at);
                    assert forall|k: int| at < k < p.len() implies (#[trigger] p[k]).digest
                        != ticket@.digest by {
                        assert(p[at].digest != p[k].digest);
                    }
                    lemma_pending_after(p, ticket@, at);
                } else {
                    assert forall|k: int| 0 <= k < p.len() implies (#[trigger] p[k]).digest
                        != ticket@.digest by {
                        assert(!crate::daemon::state::waits_at(p, ticket@.digest, k));
                    }
                    lemma_pending_kept(p, ticket@);
                }
            }
        }
        match approval {
            Some(envelope) => {
                let mut via = envelope.scheme.label().to_owned();
                via.append(":");
                via.append(envelope.key_id.as_str());
                Settled {
                    note: note(
                        ticket.digest.as_str(),
                        ticket.summary.as_str(),
                        ticket.tier,
                        "approved",
                        via.as_str(),
                    ),
                    reply: decision(
                        ticket.digest.as_str(),
                        ticket.tier,
                        DecisionStatus::Allowed,
                        ticket.summary.as_str(),
                    ),
                    notices,
                    run: ticket.execute,
                }
            },
            None => Settled {
                note: note(
                    ticket.digest.as_str(),
                    ticket.summary.as_str(),
                    ticket.tier,
                    "denied",
                    "operator",
                ),
                reply: decision(
                    ticket.digest.as_str(),
                    ticket.tier,
                    DecisionStatus::Denied,
                    ticket.summary.as_str(),
                ),
                notices,
                run: false,
            },
        }
    }
}

/// How a child is started: with nothing of the daemon's environment but the named variables.
pub struct ChildPlan {
    pub program: String,
    pub args: Vec<String>,
    pub cwd: String,
    /// The variables that are passed on where they are set.
    pub env: Vec<String>,
}

/// The variables that every child gets.
pub open spec fn base_env() -> Seq<Seq<char>> {
    seq!["PATH"@, "HOME"@, "TERM"@, "LANG"@, "USER"@, "SHELL"@, "TMPDIR"@]
}

/// How a child is started.
#[verifier::ext_equal]
pub struct ChildSpec {
    pub program: Seq<char>,
    pub args: Seq<Seq<char>>,
    pub cwd: Seq<char>,
    pub env: Seq<Seq<char>>,
}

impl View for ChildPlan {
    type V = ChildSpec;

    open spec fn view(&self) -> ChildSpec {
        ChildSpec {
            program: self.program@,
            args: texts(self.args@),
            cwd: self.cwd@,
            env: texts(self.env@),
        }
    }
}

/// How the command of a request is started, if the request is for one.
pub open spec fn child_of(r: RequestSpec) -> Option<ChildSpec> {
    match r.op {
        OperationSpec::Exec { argv, cwd } => Some(
            ChildSpec {
                program: argv[0],
                args: argv.skip(1),
                cwd,
                env: base_env() + r.env_allowlist,
            },
        ),
        _ => None,
    }
}

/// How the command of an approved request is started; nothing where the request is for no
/// command. The child gets the base variables and those that the request names.
pub fn child_plan(request: &GateRequest) -> (r: Option<ChildPlan>)
    requires
        request@.op matches OperationSpec::Exec { argv, .. } ==> argv.len() > 0,
    ensures
        (match r {
            Some(p) => Some(p@),
            None => None,
        }) == child_of(request@),
        match request@.op {
            OperationSpec::Exec { argv, cwd } => {
                &&& r is Some
                &&& r->0.program@ == argv[0]
                &&& texts(r->0.args@) == argv.skip(1)
                &&& r->0.cwd@ == cwd
                &&& texts(r->0.env@) == base_env() + request@.env_allowlist
            },
            _ => r is None,
        },
{
    match &request.op {
        Operation::Exec { argv, cwd } => {
            assert(texts(argv@).len() == argv@.len());
            let mut args: Vec<String> = Vec::new();
            let mut i: usize = 1;
            while i < argv.len()
                invariant
                    1 <= i <= argv@.len(),
                    args@.len() == i - 1,
                    forall|k: int| 0 <= k < i - 1 ==> (#[trigger] args@[k])@ == argv@[k + 1]@,
                decreases argv@.len() - i,
            {
                args.push(argv[i].clone());
                i += 1;
            }
            assert(texts(args@) =~= texts(argv@).skip(1));
            let mut env: Vec<String> = Vec::new();
            env.push("PATH".to_owned());
            env.push("HOME".to_owned());
            env.push("TERM".to_owned());
            env.push("LANG".to_owned());
            env.push("USER".to_owned());
            env.push("SHELL".to_owned());
            env.push("TMPDIR".to_owned());
            assert(texts(env@) =~= base_env());
            let mut k: usize = 0;
            let list = &request.env_allowlist;
            while k < list.len()
                invariant
                    k <= list@.len(),
                    texts(env@) == base_env() + texts(list@).take(k as int),
                decreases list@.len() - k,
            {
                let ghost before = texts(env@);
                env.push(list[k].clone());
                assert(texts(env@) =~= before.push(list@[k as int]@));
                assert(texts(list@).take(k + 1) =~= texts(list@).take(k as int).push(
                    texts(list@)[k as int],
                ));
                k += 1;
            }
            assert(texts(list@).take(list@.len() as int) =~= texts(list@));
            Some(ChildPlan { program: argv[0].clone(), args, cwd: cwd.clone(), env })
        },
        _ => None,
    }
}

/// What the agent is told where the child could not be started.
pub open spec fn not_started(reason: Seq<char>) -> (DaemonMsgSpec, DaemonMsgSpec) {
    (DaemonMsgSpec::Error { message: "spawn failed: "@ + reason }, DaemonMsgSpec::Exit { code: 127 })
}

/// What the agent is told where the child could not be started.
pub fn spawn_failed(reason: &str) -> (r: (DaemonMsg, DaemonMsg))
    ensures
        (r.0@, r.1@) == not_started(reason@),
        r.0@ == (DaemonMsgSpec::Error { message: "spawn failed: "@ + reason@ }),
        r.1@ == (DaemonMsgSpec::Exit { code: 127 }),
{
    let mut message = "spawn failed: ".to_owned();
    message.append(reason);
    (DaemonMsg::Error { message }, DaemonMsg::Exit { code: 127 })
}

/// The code that the agent hears of a child that has ended.
pub open spec fn ended_with(code: Option<i32>) -> i32 {
    match code {
        Some(c) => c,
        None => -1i32,
    }
}

/// What the agent is told when the child has ended. A child without an exit code counts as
/// ended with -1.
pub fn exit_message(code: Option<i32>) -> (r: DaemonMsg)
    ensures
        r@ == (DaemonMsgSpec::Exit { code: ended_with(code) }),
        r@ == (DaemonMsgSpec::Exit {
            code: match code {
                Some(c) => c,
                None => -1i32,
            },
        }),
{
    match code {
        Some(code) => DaemonMsg::Exit { code },
        None => DaemonMsg::Exit { code: -1 },
    }
}

/// The message that carries a chunk of the child's output.
pub open spec fn chunk_message(chunk: Seq<u8>, is_err: bool) -> DaemonMsgSpec {
    if is_err {
        DaemonMsgSpec::Stderr { b64: base64_text(chunk) }
    } else {
        DaemonMsgSpec::Stdout { b64: base64_text(chunk) }
    }
}

/// A chunk of the child's output for the agent, which can be read back from the message.
pub fn output_message(chunk: &[u8], is_err: bool) -> (r: DaemonMsg)
    ensures
        r@ == chunk_message(chunk@, is_err),
        r@ == (if is_err {
            DaemonMsgSpec::Stderr { b64: base64_text(chunk@) }
        } else {
            DaemonMsgSpec::Stdout { b64: base64_text(chunk@) }
        }),
        base64_bytes(base64_text(chunk@)) == Ok::<Seq<u8>, Seq<char>>(chunk@),
{
    let b64 = base64_encode(chunk);
    if is_err {
        DaemonMsg::Stderr { b64 }
    } else {
        DaemonMsg::Stdout { b64 }
    }
}

}
