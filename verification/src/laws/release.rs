//! How a request is decided, and what releases one that waits.
use vstd::prelude::*;
use vstd::string::*;

use crate::daemon::server::{settlement, spent_after, TicketSpec, WaitEndSpec};
use crate::daemon::state::{
    granted, live_grants, nonce_spent, secs_left, still_spent, GrantSpec, SpentSpec,
};
use crate::proto::envelope::{envelope_check, EnvelopeError, EnvelopeSpec, SigScheme};
use crate::proto::policy::glob_match;
use crate::proto::wire::{DaemonMsgSpec, DecisionStatus};

verus! {

/// An envelope passes for a digest exactly from the second it is issued to the second it expires,
/// and where it does not pass, the reason is the first of digest, expiry and issue that is wrong.
pub proof fn law_envelope_window(e: EnvelopeSpec, digest: Seq<char>, now: int)
    ensures
        envelope_check(e, digest, now) is Ok <==> e.digest == digest && e.issued_at <= now
            <= e.expires_at,
        envelope_check(e, digest, now) == Err::<(), EnvelopeError>(EnvelopeError::DigestMismatch)
            <==> e.digest != digest,
        envelope_check(e, digest, now) == Err::<(), EnvelopeError>(EnvelopeError::Expired)
            <==> e.digest == digest && now > e.expires_at,
        envelope_check(e, digest, now) == Err::<(), EnvelopeError>(EnvelopeError::NotYetValid)
            <==> e.digest == digest && now <= e.expires_at && now < e.issued_at,
{
}

/// The grants that hold are those that have not expired, in the order they were given.
pub proof fn law_live_grants(grants: Seq<GrantSpec>, now: u64, g: GrantSpec)
    ensures
        live_grants(grants, now).contains(g) <==> grants.contains(g) && g.expires > now,
        live_grants(grants, now).len() <= grants.len(),
        (forall|i: int| 0 <= i < grants.len() ==> (#[trigger] grants[i]).expires > now)
            ==> live_grants(grants, now) == grants,
    decreases grants.len(),
{
    if grants.len() > 0 {
        let front = grants.drop_last();
        let last = grants.last();
        law_live_grants(front, now, g);
        let rest = live_grants(front, now);
        assert(grants =~= front.push(last));
        assert(front.push(last).contains(g) <==> front.contains(g) || g == last) by {
            lemma_pushed(front, last, g);
        }
        assert(rest.push(last).contains(g) <==> rest.contains(g) || g == last) by {
            lemma_pushed(rest, last, g);
        }
        if forall|i: int| 0 <= i < grants.len() ==> (#[trigger] grants[i]).expires > now {
            assert forall|i: int| 0 <= i < front.len() implies (#[trigger] front[i]).expires
                > now by {
                assert(front[i] == grants[i]);
            }
            assert(grants[grants.len() - 1].expires > now);
        }
    }
}

pub proof fn lemma_pushed<A>(s: Seq<A>, x: A, y: A)
    ensures
        s.push(x).contains(y) <==> s.contains(y) || y == x,
{
    let t = s.push(x);
    if s.contains(y) {
        let i = choose|i: int| 0 <= i < s.len() && s[i] == y;
        assert(t[i] == y);
    }
    if y == x {
        assert(t[s.len() as int] == y);
    }
    if t.contains(y) {
        let i = choose|i: int| 0 <= i < t.len() && t[i] == y;
        if i < s.len() {
            assert(s[i] == y);
        }
    }
}

/// Whether some grant that has not expired covers a command.
pub open spec fn covered(grants: Seq<GrantSpec>, now: u64, argv: Seq<char>) -> bool {
    exists|i: int|
        0 <= i < grants.len() && (#[trigger] grants[i]).expires > now && glob_match(
            grants[i].argv_glob,
            argv,
        ) == Some(true)
}

/// A command is granted exactly where some grant that has not expired covers it, whatever grants
/// stand before and after that one.
pub proof fn law_any_live_grant_counts(grants: Seq<GrantSpec>, now: u64, argv: Seq<char>)
    ensures
        granted(live_grants(grants, now), argv) <==> covered(grants, now, argv),
{
    let live = live_grants(grants, now);
    if granted(live, argv) {
        let i = choose|i: int|
            0 <= i < live.len() && glob_match((#[trigger] live[i]).argv_glob, argv) == Some(true);
        law_live_grants(grants, now, live[i]);
        assert(live.contains(live[i]));
        let k = choose|k: int| 0 <= k < grants.len() && grants[k] == live[i];
        assert(grants[k].expires > now);
    }
    if covered(grants, now, argv) {
        let k = choose|k: int|
            0 <= k < grants.len() && (#[trigger] grants[k]).expires > now && glob_match(
                grants[k].argv_glob,
                argv,
            ) == Some(true);
        law_live_grants(grants, now, grants[k]);
        assert(grants.contains(grants[k]));
        let i = choose|i: int| 0 <= i < live.len() && live[i] == grants[k];
        assert(glob_match(live[i].argv_glob, argv) == Some(true));
    }
}

/// Another grant takes nothing away, and adds what it covers until it expires.
pub proof fn law_grants_add_up(grants: Seq<GrantSpec>, g: GrantSpec, now: u64, argv: Seq<char>)
    ensures
        granted(live_grants(grants.push(g), now), argv) <==> granted(
            live_grants(grants, now),
            argv,
        ) || (g.expires > now && glob_match(g.argv_glob, argv) == Some(true)),
{
    let more = grants.push(g);
    law_any_live_grant_counts(grants, now, argv);
    law_any_live_grant_counts(more, now, argv);
    if covered(grants, now, argv) {
        let k = choose|k: int|
            0 <= k < grants.len() && (#[trigger] grants[k]).expires > now && glob_match(
                grants[k].argv_glob,
                argv,
            ) == Some(true);
        assert(more[k] == grants[k]);
    }
    assert(more[grants.len() as int] == g);
    if covered(more, now, argv) {
        let k = choose|k: int|
            0 <= k < more.len() && (#[trigger] more[k]).expires > now && glob_match(
                more[k].argv_glob,
                argv,
            ) == Some(true);
        if k < grants.len() {
            assert(more[k] == grants[k]);
        }
    }
}

/// The whole seconds that a grant has left are never more than the time it has left, and less than
/// a second short of it.
pub proof fn law_seconds_left(expires: u128, now: u64)
    requires
        expires > now,
        expires - now <= u64::MAX * 1_000_000_000,
    ensures
        secs_left(expires, now) * 1_000_000_000 <= expires - now,
        expires - now < (secs_left(expires, now) + 1) * 1_000_000_000,
{
    let d = expires - now;
    assert(d / 1_000_000_000 <= u64::MAX) by (nonlinear_arith)
        requires
            d <= u64::MAX * 1_000_000_000,
            d >= 0,
    ;
}

/// A nonce counts as spent exactly where it released a request by an approval that would still be
/// valid.
pub proof fn law_spent_while_valid(spent: Seq<SpentSpec>, nonce: Seq<char>, now: i64)
    ensures
        nonce_spent(still_spent(spent, now), nonce) <==> exists|i: int|
            0 <= i < spent.len() && (#[trigger] spent[i]).nonce == nonce && spent[i].until >= now,
    decreases spent.len(),
{
    if exists|i: int|
        0 <= i < spent.len() && (#[trigger] spent[i]).nonce == nonce && spent[i].until >= now {
        let i = choose|i: int|
            0 <= i < spent.len() && (#[trigger] spent[i]).nonce == nonce && spent[i].until >= now;
        crate::daemon::state::law_spent_is_remembered(spent, nonce, now, i);
    }
    if nonce_spent(still_spent(spent, now), nonce) && spent.len() > 0 {
        let front = spent.drop_last();
        law_spent_while_valid(front, nonce, now);
        let all = still_spent(spent, now);
        let rest = still_spent(front, now);
        let k = choose|k: int| 0 <= k < all.len() && (#[trigger] all[k]).nonce == nonce;
        if k < rest.len() {
            assert(rest[k] == all[k]);
            let i = choose|i: int|
                0 <= i < front.len() && (#[trigger] front[i]).nonce == nonce && front[i].until
                    >= now;
            assert(spent[i] == front[i]);
        } else {
            assert(spent[spent.len() - 1].nonce == nonce);
        }
    }
}

/// Whether the end of a wait is an approval for the request that waits: for its digest, under its
/// nonce, within its time, and with a nonce that no valid approval has been spent on.
pub open spec fn approves(
    spent: Seq<SpentSpec>,
    t: TicketSpec,
    end: WaitEndSpec,
    now: i64,
) -> bool {
    &&& end matches WaitEndSpec::Verdict(Some(e))
    &&& e.digest == t.digest
    &&& e.nonce == t.nonce
    &&& e.issued_at <= now <= e.expires_at
    &&& !exists|i: int|
        0 <= i < spent.len() && (#[trigger] spent[i]).nonce == e.nonce && spent[i].until >= now
}

/// A request that waits is allowed exactly by an approval for it, of whatever tier it is, and is then
/// run exactly where that was asked for. Everything else denies it, and nothing that is denied runs.
pub proof fn law_approval_releases_exactly(
    spent: Seq<SpentSpec>,
    t: TicketSpec,
    end: WaitEndSpec,
    now: i64,
)
    ensures
        approves(spent, t, end, now) ==> {
            let s = settlement(spent, t, end, now);
            &&& s.run == t.execute
            &&& s.reply == (DaemonMsgSpec::Decision {
                digest: t.digest,
                tier: t.tier,
                status: DecisionStatus::Allowed,
                summary: t.summary,
            })
        },
        !approves(spent, t, end, now) ==> {
            let s = settlement(spent, t, end, now);
            &&& !s.run
            &&& s.reply == (DaemonMsgSpec::Decision {
                digest: t.digest,
                tier: t.tier,
                status: DecisionStatus::Denied,
                summary: t.summary,
            })
        },
{
    if let WaitEndSpec::Verdict(Some(e)) = end {
        law_envelope_window(e, t.digest, now as int);
        law_spent_while_valid(spent, e.nonce, now);
    }
}

/// The log says of a request that waited what the agent was told, and of an approval who gave it.
pub proof fn law_settlement_is_logged(
    spent: Seq<SpentSpec>,
    t: TicketSpec,
    end: WaitEndSpec,
    now: i64,
)
    ensures
        ({
            let n = settlement(spent, t, end, now).note;
            &&& n.digest == t.digest && n.summary == t.summary && n.tier == t.tier
            &&& approves(spent, t, end, now) ==> n.decision == "approved"@ && (
            end matches WaitEndSpec::Verdict(Some(e)) && n.rule == match e.scheme {
                SigScheme::Unattested => "None:"@ + e.key_id,
                SigScheme::P256 => "P256:"@ + e.key_id,
                SigScheme::Webauthn => "Webauthn:"@ + e.key_id,
            })
            &&& !approves(spent, t, end, now) ==> n.decision == "denied"@ && n.rule == "operator"@
        }),
{
    law_approval_releases_exactly(spent, t, end, now);
    reveal_strlit(":");
    reveal_strlit("None");
    reveal_strlit("None:");
    reveal_strlit("P256");
    reveal_strlit("P256:");
    reveal_strlit("Webauthn");
    reveal_strlit("Webauthn:");
    if let WaitEndSpec::Verdict(Some(e)) = end {
        law_envelope_window(e, t.digest, now as int);
        law_spent_while_valid(spent, e.nonce, now);
        assert("None"@ + ":"@ =~= "None:"@);
        assert("P256"@ + ":"@ =~= "P256:"@);
        assert("Webauthn"@ + ":"@ =~= "Webauthn:"@);
    }
}

/// The operator hears of a wait that nobody ended, and of an approval that is not for the request,
/// and of nothing else.
pub proof fn law_settlement_notices(
    spent: Seq<SpentSpec>,
    t: TicketSpec,
    end: WaitEndSpec,
    now: i64,
)
    ensures
        ({
            let n = settlement(spent, t, end, now).notices;
            let head = "["@ + crate::text::first_chars(t.digest, 8);
            &&& end is TimedOut ==> n == seq![head + "] approval timed out; denying"@]
            &&& end is Verdict && end->Verdict_0 is Some && !approves(spent, t, end, now) ==> n
                == seq![head + "] approval envelope rejected (binding/expiry)"@]
            &&& approves(spent, t, end, now) || end is Dropped || end == WaitEndSpec::Verdict(None)
                ==> n.len() == 0
        }),
{
    if let WaitEndSpec::Verdict(Some(e)) = end {
        law_envelope_window(e, t.digest, now as int);
        law_spent_while_valid(spent, e.nonce, now);
    }
}

/// An approval that releases a request spends its nonce until it expires, and nothing else becomes
/// spent. What was spent on an approval that is still valid stays so.
pub proof fn law_settlement_spends(
    spent: Seq<SpentSpec>,
    t: TicketSpec,
    end: WaitEndSpec,
    now: i64,
    nonce: Seq<char>,
    later: i64,
)
    requires
        now <= later,
    ensures
        nonce_spent(still_spent(spent_after(spent, t, end, now), later), nonce) <==> nonce_spent(
            still_spent(spent, later),
            nonce,
        ) || (approves(spent, t, end, now) && nonce == t.nonce && later <= (
        end->Verdict_0)->0.expires_at),
{
    let after = spent_after(spent, t, end, now);
    law_spent_while_valid(after, nonce, later);
    law_spent_while_valid(spent, nonce, later);
    if let WaitEndSpec::Verdict(Some(e)) = end {
        law_envelope_window(e, t.digest, now as int);
        law_spent_while_valid(spent, e.nonce, now);
        let kept = still_spent(spent, now);
        lemma_kept(spent, now);
        let new = SpentSpec { nonce: e.nonce, until: e.expires_at };
        let more = kept.push(new);
        assert(more[kept.len() as int] == new);
        if exists|i: int|
            0 <= i < spent.len() && (#[trigger] spent[i]).nonce == nonce && spent[i].until
                >= later {
            let i = choose|i: int|
                0 <= i < spent.len() && (#[trigger] spent[i]).nonce == nonce && spent[i].until
                    >= later;
            assert(kept.contains(spent[i]));
            let k = choose|k: int| 0 <= k < kept.len() && kept[k] == spent[i];
            assert(more[k] == kept[k]);
            if after == kept {
                assert(after[k].nonce == nonce);
            } else if after == more {
                assert(after[k].nonce == nonce);
            }
        }
        if exists|i: int|
            0 <= i < after.len() && (#[trigger] after[i]).nonce == nonce && after[i].until
                >= later {
            let i = choose|i: int|
                0 <= i < after.len() && (#[trigger] after[i]).nonce == nonce && after[i].until
                    >= later;
            if after != spent && i < kept.len() {
                assert(after[i] == kept[i]);
                assert(spent.contains(kept[i]));
                let k = choose|k: int| 0 <= k < spent.len() && spent[k] == kept[i];
                assert(spent[k].nonce == nonce);
            }
        }
    }
}

proof fn lemma_kept(spent: Seq<SpentSpec>, now: i64)
    ensures
        forall|s: SpentSpec|
            #![trigger still_spent(spent, now).contains(s)]
            #![trigger spent.contains(s)]
            still_spent(spent, now).contains(s) <==> spent.contains(s) && s.until >= now,
        forall|i: int|
            0 <= i < spent.len() && (#[trigger] spent[i]).until >= now ==> still_spent(
                spent,
                now,
            ).contains(spent[i]),
        forall|i: int|
            0 <= i < still_spent(spent, now).len() ==> spent.contains(
                #[trigger] still_spent(spent, now)[i],
            ),
    decreases spent.len(),
{
    if spent.len() > 0 {
        let front = spent.drop_last();
        let last = spent.last();
        lemma_kept(front, now);
        let rest = still_spent(front, now);
        assert(spent =~= front.push(last));
        assert forall|s: SpentSpec|
            #![trigger still_spent(spent, now).contains(s)]
            #![trigger spent.contains(s)]
            still_spent(spent, now).contains(s) <==> spent.contains(s) && s.until >= now by {
            lemma_pushed(front, last, s);
            lemma_pushed(rest, last, s);
            assert(rest.contains(s) <==> front.contains(s) && s.until >= now);
        }
        assert forall|i: int| 0 <= i < spent.len() && (#[trigger] spent[i]).until
            >= now implies still_spent(spent, now).contains(spent[i]) by {
            assert(spent.contains(spent[i]));
        }
        assert forall|i: int| 0 <= i < still_spent(spent, now).len() implies spent.contains(
            #[trigger] still_spent(spent, now)[i],
        ) by {
            assert(still_spent(spent, now).contains(still_spent(spent, now)[i]));
        }
    }
}

}
