//! The approval page.
use vstd::prelude::*;
use vstd::string::*;

use crate::daemon::ceremony::{Ceremonies, CeremonyError};
use crate::daemon::ctl::Delivery;
use crate::daemon::ctx::CtxSpec;
use crate::daemon::enroll::{live_codes, typed_code, CodeSpec};
use crate::daemon::passkey::{assertion_key, made_for, passkey_ids};
use crate::daemon::state::{only_hit, waits, waits_at, SharedSpec};
use crate::daemon::web::{
    as_status, auth_finish_follows, auth_start_follows, deny_follows, reg_start_follows, WebCtx,
};
use crate::codec::{base64url_text, hex_of};
use crate::daemon::binding::{bound, challenge_of, options_bound};
use crate::daemon::ctl::opt_envelope;
use crate::json::{Json, JsonSpec};
use crate::laws::approval::{law_approval_replies, law_challenges_are_replaced, law_passkeys_release};
use crate::laws::enroll::{holds_at, law_live_codes_are_taken};
use crate::proto::envelope::{EnvelopeSpec, SigScheme};
use crate::proto::request::operation_summary;
use crate::text::first_chars;

verus! {

/// The page enrolls only with a code that holds. Without one the call is unauthorized and nothing is
/// started; with one, the code is used up.
pub proof fn law_page_enrolls_by_code(
    before: WebCtx,
    after: WebCtx,
    passkeys: Seq<JsonSpec>,
    codes: Seq<CodeSpec>,
    codes_after: Seq<CodeSpec>,
    code: Seq<char>,
    now: u64,
    r: Result<Json, u16>,
)
    requires
        reg_start_follows(before, after, passkeys, codes, codes_after, code, now, r),
    ensures
        !holds_at(codes, typed_code(code), now) ==> r == Err::<Json, u16>(401)
            && after.ceremonies.registrations@ == before.ceremonies.registrations@,
        holds_at(codes, typed_code(code), now) ==> (r is Ok <==> passkey_ids(passkeys) is Some)
            && codes_after.len() == live_codes(codes, now).len() - 1,
{
    law_live_codes_are_taken(codes, typed_code(code), now);
    let live = live_codes(codes, now);
    if holds_at(codes, typed_code(code), now) {
        let at = choose|at: int| #[trigger]
            crate::daemon::enroll::last_code_at(live, typed_code(code), at) && codes_after
                == live.remove(at);
        assert(codes_after.len() == live.len() - 1);
    }
}

/// The page starts an approval only for a request that waits, and only where passkeys are enrolled.
/// It is then asked for an assertion over the challenge of that request.
pub proof fn law_page_approvals_start(
    before: WebCtx,
    after: WebCtx,
    c: CtxSpec,
    digest: Seq<char>,
    r: Result<Json, u16>,
)
    requires
        auth_start_follows(before, after, c, digest, r),
    ensures
        (forall|k: int|
            0 <= k < c.state.pending.len() ==> (#[trigger] c.state.pending[k]).digest != digest)
            ==> r == Err::<Json, u16>(404) && after.ceremonies.authentications@
            == before.ceremonies.authentications@,
        waits(c.state.pending, digest) && c.passkeys.len() == 0 ==> r == Err::<Json, u16>(412),
        waits(c.state.pending, digest) && c.passkeys.len() > 0 ==> (r is Ok <==> passkey_ids(
            c.passkeys,
        ) is Some),
        r matches Ok(j) ==> {
            &&& j@.text_member("code"@) == Some(first_chars(digest, 8))
            &&& exists|at: int|
                {
                    &&& #[trigger] waits_at(c.state.pending, digest, at)
                    &&& j@.member("options"@) matches Some(o)
                    &&& o.member("publicKey"@) matches Some(k)
                    &&& k.text_member("challenge"@) == Some(
                        base64url_text(challenge_of(digest, c.state.pending[at].nonce)),
                    )
                }
        },
{
    assert forall|k: int| waits_at(c.state.pending, digest, k) implies c.state.pending[k].digest
        == digest by {}
    if r is Ok {
        let (at, id, outcome, step) = choose|
            at: int,
            id: u128,
            outcome: Result<crate::daemon::passkey::Ceremony, String>,
            step: Result<Json, CeremonyError>,
        |
            waits_at(c.state.pending, digest, at) && crate::daemon::ceremony::approval_begun(
                before.ceremonies.webauthn,
                c.passkeys,
                outcome,
            ) && #[trigger] crate::daemon::ceremony::approval_follows(
                before.ceremonies.authentications@,
                after.ceremonies.authentications@,
                digest,
                c.state.pending[at].nonce,
                id,
                outcome,
                step,
            ) && as_status(step, r);
        let challenge = challenge_of(digest, c.state.pending[at].nonce);
        let options = outcome->Ok_0.options@;
        law_challenges_are_replaced(options, challenge);
        law_approval_replies(id, options_bound(options, challenge)->0, digest);
        assert(waits_at(c.state.pending, digest, at));
    }
}

/// The page releases a request exactly where a passkey's assertion answers the ceremony that was
/// started for it and was signed for it; the approval names the request and the passkey and lasts two
/// minutes. Everything else has its status and releases nothing.
pub proof fn law_page_approvals_release(
    c: Ceremonies,
    before: SharedSpec,
    after: SharedSpec,
    id: u128,
    cred: JsonSpec,
    client_data: Seq<u8>,
    now: i64,
    r: Result<Delivery, u16>,
    key: Seq<u8>,
    at: int,
)
    requires
        before.wf(),
        now <= i64::MAX - 120,
        auth_finish_follows(c, before, after, id, cred, client_data, now, r),
    ensures
        !c.authentications@.contains_key(id) ==> r == Err::<Delivery, u16>(400) && after == before,
        c.authentications@.contains_key(id) && assertion_key(
            made_for(c.webauthn).0,
            made_for(c.webauthn).1,
            cred,
            c.authentications@[id].state@,
        ) is None ==> r == Err::<Delivery, u16>(401) && after == before,
        c.authentications@.contains_key(id) && assertion_key(
            made_for(c.webauthn).0,
            made_for(c.webauthn).1,
            cred,
            c.authentications@[id].state@,
        ) == Some(key) && 0 <= at < before.pending.len() && before.pending[at].digest
            == c.authentications@[id].digest@ ==> {
            let w = before.pending[at];
            &&& bound(client_data, w.digest, w.nonce) is Ok ==> {
                &&& r is Ok
                &&& r->Ok_0.digest@ == w.digest
                &&& opt_envelope(r->Ok_0.verdict) == Some(
                    EnvelopeSpec {
                        digest: w.digest,
                        nonce: w.nonce,
                        issued_at: now,
                        expires_at: (now + 120) as i64,
                        key_id: hex_of(key),
                        scheme: SigScheme::Webauthn,
                        sig: Seq::empty(),
                    },
                )
                &&& after.pending == before.pending.remove(at)
            }
            &&& bound(client_data, w.digest, w.nonce) is Err ==> r == Err::<Delivery, u16>(401)
                && after == before
        },
{
    if c.authentications@.contains_key(id) {
        let kept = c.authentications@[id];
        if let Some(k) = assertion_key(
            made_for(c.webauthn).0,
            made_for(c.webauthn).1,
            cred,
            kept.state@,
        ) {
            let step = choose|step: Result<Delivery, CeremonyError>| #[trigger]
                crate::daemon::ceremony::release_follows(
                    before,
                    after,
                    kept.digest@,
                    client_data,
                    k,
                    Seq::empty(),
                    now,
                    step,
                ) && as_status(step, r);
            law_passkeys_release(
                before,
                after,
                kept.digest@,
                client_data,
                k,
                Seq::empty(),
                now,
                step,
                at,
            );
            if 0 <= at < before.pending.len() && before.pending[at].digest == kept.digest@ {
                assert(waits_at(before.pending, kept.digest@, at));
            }
        }
    }
}

/// The page denies the one request whose digest starts with what it names; where there is none, or
/// more than one, it is not found and nothing changes.
pub proof fn law_page_denies(
    before: SharedSpec,
    after: SharedSpec,
    prefix: Seq<char>,
    r: Result<Delivery, u16>,
    at: int,
)
    requires
        deny_follows(before, after, prefix, r),
    ensures
        0 <= at < before.pending.len() && prefix.is_prefix_of(before.pending[at].digest) && (forall|
            k: int,
        |
            0 <= k < before.pending.len() && k != at ==> !prefix.is_prefix_of(
                (#[trigger] before.pending[k]).digest,
            )) ==> {
            &&& r is Ok
            &&& r->Ok_0.verdict is None
            &&& r->Ok_0.digest@ == before.pending[at].digest
            &&& after.pending == before.pending.remove(at)
            &&& after.grants == before.grants && after.spent == before.spent
        },
        r is Err ==> r == Err::<Delivery, u16>(404) && after == before,
{
    let p = before.pending;
    if 0 <= at < p.len() && prefix.is_prefix_of(p[at].digest) && (forall|k: int|
        0 <= k < p.len() && k != at ==> !prefix.is_prefix_of((#[trigger] p[k]).digest)) {
        assert(only_hit(p, prefix, at));
        if let Ok(d) = r {
            let x = choose|x: int|
                {
                    &&& #[trigger] only_hit(p, prefix, x)
                    &&& d.digest@ == p[x].digest
                    &&& d.summary@ == operation_summary(p[x].request.op)
                    &&& d.verdict is None
                    &&& after == (SharedSpec { pending: p.remove(x), ..before })
                };
            if x != at {
                assert(!prefix.is_prefix_of(p[x].digest));
            }
        }
    }
}

/// The result of a step is its status, and a result that is there is handed on as it is.
pub proof fn law_steps_have_statuses(
    r: Result<Delivery, CeremonyError>,
    w: Result<Delivery, u16>,
)
    requires
        as_status(r, w),
    ensures
        r is Ok <==> w is Ok,
        r is Ok ==> w->Ok_0 == r->Ok_0,
        r is Err ==> w->Err_0 == (r->Err_0).status_spec(),
{
}

/// A call that does not present the page's token gets nothing: it is unauthorized, or not understood.
/// One that presents it and is understood is carried out.
pub proof fn law_page_turns_away(understood: bool, header: Option<Seq<char>>, token: Seq<char>)
    requires
        token.len() > 0,
    ensures
        understood && header == Some(token) <==> crate::daemon::web::turned_away(
            understood,
            header,
            token,
        ) is None,
        understood && header != Some(token) ==> crate::daemon::web::turned_away(
            understood,
            header,
            token,
        ) == Some(401u16),
        !understood ==> crate::daemon::web::turned_away(understood, header, token) == Some(422u16),
{
}

}
