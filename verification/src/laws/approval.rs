//! Approvals and enrollments by passkey.
use vstd::prelude::*;
use vstd::string::*;
use vstd::utf8::*;

use crate::codec::{base64url_bytes, base64url_text, hex_of, sha256_of};
use crate::daemon::binding::{bound, challenge_of, options_bound, state_bound, BindFault};
use crate::daemon::ceremony::{
    approval_reply, key_of_ceremony, passkeys_stored, registration_reply, release_follows,
    CeremonyError,
};
use crate::daemon::ctl::{opt_envelope, Delivery};
use crate::daemon::ctx::CtxSpec;
use crate::daemon::passkey::{is_registration, passkey_ids};
use crate::daemon::phone::{
    approve_finish_follows, approve_start_follows, deny_follows, entry_model, pending_model,
    register_finish_follows, register_start_follows, PhoneAuth,
};
use crate::daemon::relay_client::{dispatch_follows, PhoneStep};
use crate::daemon::state::{waits, waits_at, SharedSpec, WaitingSpec};
use crate::daemon::body::{code_body, digest_body, finish_body};
use crate::daemon::web::{page_origin, presents};
use crate::codec::uuid_in;
use crate::json::{canonical_text, json_parse, json_read_bytes, Json, JsonSpec};
use crate::laws::enroll::{holds_at, law_live_codes_are_taken};
use crate::number::decimal;
use crate::proto::envelope::{EnvelopeSpec, SigScheme};
use crate::proto::relay::RelayMethod;
use crate::proto::request::operation_summary;
use crate::proto::wire::{tier_name, PendingEntrySpec};
use crate::text::first_chars;

verus! {

/// The challenge for a request is the SHA-256 hash of the canonical text of its digest, its nonce and
/// what it is for.
pub proof fn law_challenges(digest: Seq<char>, nonce: Seq<char>)
    ensures
        challenge_of(digest, nonce) == sha256_of(
            encode_utf8(
                canonical_text(
                    JsonSpec::Object(
                        seq![
                            ("digest"@, JsonSpec::Text(digest)),
                            ("nonce"@, JsonSpec::Text(nonce)),
                            ("purpose"@, JsonSpec::Text("gatehouse-approval-v1"@)),
                        ],
                    ),
                ),
            ),
        ),
{
}

/// An assertion is for a request exactly where the client data that was signed is JSON whose
/// challenge is, in base64url, the challenge of the request.
pub proof fn law_assertions_are_bound(
    client_data: Seq<u8>,
    m: JsonSpec,
    t: Seq<char>,
    b: Seq<u8>,
    digest: Seq<char>,
    nonce: Seq<char>,
)
    ensures
        json_read_bytes(client_data) == Ok::<JsonSpec, Seq<char>>(m) && m.text_member("challenge"@)
            == Some(t) && base64url_bytes(t) == Ok::<Seq<u8>, Seq<char>>(b) ==> (bound(
            client_data,
            digest,
            nonce,
        ) is Ok <==> b == challenge_of(digest, nonce)),
        json_read_bytes(client_data) is Err ==> bound(client_data, digest, nonce) == Err::<
            (),
            BindFault,
        >(BindFault::NotJson(json_read_bytes(client_data)->Err_0)),
        json_read_bytes(client_data) == Ok::<JsonSpec, Seq<char>>(m) && m.text_member("challenge"@)
            is None ==> bound(client_data, digest, nonce) == Err::<(), BindFault>(
            BindFault::NoChallenge,
        ),
        json_read_bytes(client_data) == Ok::<JsonSpec, Seq<char>>(m) && m.text_member("challenge"@)
            == Some(t) && base64url_bytes(t) is Err ==> bound(client_data, digest, nonce) == Err::<
            (),
            BindFault,
        >(BindFault::NotBase64(base64url_bytes(t)->Err_0)),
{
}

/// Whatever challenge a ceremony was started with, the client is asked for the one that is put in its
/// place, and the daemon goes by the same.
pub proof fn law_challenges_are_replaced(m: JsonSpec, challenge: Seq<u8>)
    ensures
        options_bound(m, challenge) matches Some(o) ==> (o.member("publicKey"@) matches Some(k)
            && k.text_member("challenge"@) == Some(base64url_text(challenge))),
        state_bound(m, challenge) matches Some(s) ==> (s.member("ast"@) matches Some(k)
            && k.text_member("challenge"@) == Some(base64url_text(challenge))),
{
    if options_bound(m, challenge) is Some {
        crate::daemon::binding::law_bound_challenge_is_found(
            m,
            "publicKey"@,
            "challenge"@,
            base64url_text(challenge),
        );
    }
    if state_bound(m, challenge) is Some {
        crate::daemon::binding::law_bound_challenge_is_found(
            m,
            "ast"@,
            "challenge"@,
            base64url_text(challenge),
        );
    }
}

/// An assertion for a request that waits releases it, with an approval that names it and the passkey
/// and lasts two minutes. One for a request that does not wait, or for another request, releases
/// nothing.
pub proof fn law_passkeys_release(
    before: SharedSpec,
    after: SharedSpec,
    digest: Seq<char>,
    client_data: Seq<u8>,
    key: Seq<u8>,
    sig: Seq<char>,
    now: i64,
    r: Result<Delivery, CeremonyError>,
    at: int,
)
    requires
        before.wf(),
        release_follows(before, after, digest, client_data, key, sig, now, r),
        now <= i64::MAX - 120,
    ensures
        0 <= at < before.pending.len() && before.pending[at].digest == digest && bound(
            client_data,
            digest,
            before.pending[at].nonce,
        ) is Ok ==> {
            &&& r is Ok
            &&& r->Ok_0.digest@ == digest
            &&& r->Ok_0.summary@ == operation_summary(before.pending[at].request.op)
            &&& opt_envelope(r->Ok_0.verdict) == Some(
                EnvelopeSpec {
                    digest,
                    nonce: before.pending[at].nonce,
                    issued_at: now,
                    expires_at: (now + 120) as i64,
                    key_id: hex_of(key),
                    scheme: SigScheme::Webauthn,
                    sig,
                },
            )
            &&& after.pending == before.pending.remove(at)
            &&& after.grants == before.grants && after.spent == before.spent
        },
        0 <= at < before.pending.len() && before.pending[at].digest == digest && bound(
            client_data,
            digest,
            before.pending[at].nonce,
        ) is Err ==> r is Err && after == before,
        (forall|k: int| 0 <= k < before.pending.len() ==> (#[trigger] before.pending[k]).digest
            != digest) ==> r == Err::<Delivery, CeremonyError>(CeremonyError::NotPending) && after
            == before,
{
    let p = before.pending;
    if 0 <= at < p.len() && p[at].digest == digest {
        assert(waits_at(p, digest, at));
        assert forall|k: int| #[trigger] waits_at(p, digest, k) implies k == at by {
            if k < at {
                assert(p[k].digest != p[at].digest);
            } else if k > at {
                assert(p[at].digest != p[k].digest);
            }
        }
    }
}

/// Errors of ceremonies have the statuses of HTTP that say what they are.
pub proof fn law_ceremony_statuses(e: String, f: crate::daemon::binding::BindError)
    ensures
        CeremonyError::BadCode.status_spec() == 401,
        CeremonyError::Rejected(e).status_spec() == 401,
        CeremonyError::NotBound(f).status_spec() == 401,
        CeremonyError::UnknownRegistration.status_spec() == 400,
        CeremonyError::RegisterFinish(e).status_spec() == 400,
        CeremonyError::UnknownAuth.status_spec() == 400,
        CeremonyError::NotPending.status_spec() == 404,
        CeremonyError::Take(e).status_spec() == 404,
        CeremonyError::Gone.status_spec() == 410,
        CeremonyError::NoPasskeys.status_spec() == 412,
        CeremonyError::RegisterStart(e).status_spec() == 500,
        CeremonyError::AuthStart(e).status_spec() == 500,
        CeremonyError::Rebind(e).status_spec() == 500,
{
}

/// Errors of ceremonies are put in words.
pub proof fn law_ceremony_reasons(e: String, f: crate::daemon::binding::BindError)
    ensures
        CeremonyError::BadCode.reason()
            == "enrollment code invalid or expired (run `gate enroll-code`)"@,
        CeremonyError::Rejected(e).reason() == "assertion rejected: "@ + e@,
        CeremonyError::UnknownRegistration.reason() == "unknown registration ceremony"@,
        CeremonyError::RegisterStart(e).reason() == "register start: "@ + e@,
        CeremonyError::RegisterFinish(e).reason() == "register finish: "@ + e@,
        CeremonyError::UnknownAuth.reason() == "unknown auth ceremony"@,
        CeremonyError::NotPending.reason() == "no such pending request"@,
        CeremonyError::NoPasskeys.reason() == "no phone passkeys enrolled"@,
        CeremonyError::AuthStart(e).reason() == "auth start: "@ + e@,
        CeremonyError::Gone.reason() == "request no longer waiting"@,
        CeremonyError::Take(e).reason() == e@,
        f is NotBound ==> CeremonyError::NotBound(f).reason()
            == "assertion is not bound to this request"@,
        f is NoChallenge ==> CeremonyError::NotBound(f).reason()
            == "clientDataJSON has no challenge"@,
        f matches crate::daemon::binding::BindError::NotJson(m) ==> CeremonyError::NotBound(
            f,
        ).reason() == "clientDataJSON not JSON: "@ + m@,
        f matches crate::daemon::binding::BindError::NotBase64(m) ==> CeremonyError::NotBound(
            f,
        ).reason() == "clientDataJSON challenge not base64url: "@ + m@,
{
}

/// A phone enrolls only with a code that holds. With none nothing is started; with one, the code is
/// used up and no other is, and the enrollment starts where the stored passkeys can be read.
pub proof fn law_phones_enroll_by_code(
    before: PhoneAuth,
    after: PhoneAuth,
    c: CtxSpec,
    c_after: CtxSpec,
    body: JsonSpec,
    now: u64,
    r: Result<Json, String>,
    code: Seq<char>,
)
    requires
        register_start_follows(before, after, c, c_after, body, now, r),
        code == crate::daemon::enroll::typed_code(
            match body.text_member("code"@) {
                Some(t) => t,
                None => Seq::empty(),
            },
        ),
    ensures
        !holds_at(c.codes, code, now) ==> {
            &&& r is Err
            &&& r->Err_0@ == "enrollment code invalid or expired (run `gate enroll-code`)"@
            &&& after.ceremonies.registrations@ == before.ceremonies.registrations@
        },
        holds_at(c.codes, code, now) ==> {
            &&& r is Ok <==> passkey_ids(c.phone_passkeys) is Some
            &&& c_after.codes.len() == crate::daemon::enroll::live_codes(c.codes, now).len() - 1
        },
        c_after.phone_passkeys == c.phone_passkeys,
        c_after.state == c.state,
        after.ceremonies.authentications@ == before.ceremonies.authentications@,
{
    law_live_codes_are_taken(c.codes, code, now);
    let live = crate::daemon::enroll::live_codes(c.codes, now);
    if holds_at(c.codes, code, now) {
        let at = choose|at: int| #[trigger]
            crate::daemon::enroll::last_code_at(live, code, at) && c_after.codes == live.remove(at);
        assert(c_after.codes.len() == live.len() - 1);
    }
}

/// A passkey is added exactly where a credential answers an enrollment that was started: that
/// passkey, behind the others. The enrollment is then over.
pub proof fn law_phone_passkeys_are_added(
    before: PhoneAuth,
    after: PhoneAuth,
    c: CtxSpec,
    c_after: CtxSpec,
    body: JsonSpec,
    r: Result<Json, String>,
    id: u128,
    cred: JsonSpec,
    key: JsonSpec,
)
    requires
        register_finish_follows(before, after, c, c_after, body, r),
        finish_body(body) == Some((id, cred)),
        is_registration(cred),
    ensures
        !before.ceremonies.registrations@.contains_key(id) ==> r is Err && r->Err_0@
            == "unknown registration ceremony"@ && c_after.phone_passkeys == c.phone_passkeys,
        key_of_ceremony(before.ceremonies, id, cred) == Some(key) ==> {
            &&& r is Ok
            &&& r->Ok_0@.member("enrolled"@) == Some(
                JsonSpec::Integer(c.phone_passkeys.len() as int + 1),
            )
            &&& c_after.phone_passkeys == c.phone_passkeys.push(key)
        },
        key_of_ceremony(before.ceremonies, id, cred) is None ==> r is Err && c_after == c,
        !after.ceremonies.registrations@.contains_key(id),
        c_after.state == c.state,
{
    reveal_with_fuel(crate::json::first_member, 2);
}

/// An approval starts only for a request that waits, and only where passkeys are enrolled. The phone
/// is then asked for an assertion over the challenge of that request, and shown the front of its
/// digest; nothing is released yet.
pub proof fn law_phone_approvals_start(
    before: PhoneAuth,
    after: PhoneAuth,
    c: CtxSpec,
    body: JsonSpec,
    r: Result<Json, String>,
    digest: Seq<char>,
)
    requires
        approve_start_follows(before, after, c, body, r),
        body.text_member("digest"@) == Some(digest),
    ensures
        (forall|k: int|
            0 <= k < c.state.pending.len() ==> (#[trigger] c.state.pending[k]).digest != digest)
            ==> r is Err && r->Err_0@ == "no such pending request"@
            && after.ceremonies.authentications@ == before.ceremonies.authentications@,
        waits(c.state.pending, digest) && c.phone_passkeys.len() == 0 ==> r is Err && r->Err_0@
            == "no phone passkeys enrolled"@ && after.ceremonies.authentications@
            == before.ceremonies.authentications@,
        waits(c.state.pending, digest) && c.phone_passkeys.len() > 0 ==> (r is Ok <==> passkey_ids(
            c.phone_passkeys,
        ) is Some),
        r matches Ok(j) ==> {
            &&& j@.text_member("code"@) == Some(first_chars(digest, 8))
            &&& exists|at: int|
                {
                    &&& #[trigger] waits_at(c.state.pending, digest, at)
                    &&& j@.member("options"@) matches Some(o)
                    &&& o.member("publicKey"@) matches Some(k)
                    &&& k.text_member("challenge"@) == Some(
                        base64url_text(challenge_of(digest, c.state.pending[at].nonce)),
                    )
                }
        },
{
    assert forall|k: int| waits_at(c.state.pending, digest, k) implies c.state.pending[k].digest
        == digest by {}
    if r is Ok {
        let j = r->Ok_0;
        let (at, id, outcome, step) = choose|
            at: int,
            id: u128,
            outcome: Result<crate::daemon::passkey::Ceremony, String>,
            step: Result<Json, CeremonyError>,
        |
            waits_at(c.state.pending, digest, at) && crate::daemon::ceremony::approval_begun(
                before.ceremonies.webauthn,
                c.phone_passkeys,
                outcome,
            ) && #[trigger] crate::daemon::ceremony::approval_follows(
                before.ceremonies.authentications@,
                after.ceremonies.authentications@,
                digest,
                c.state.pending[at].nonce,
                id,
                outcome,
                step,
            ) && crate::daemon::phone::in_words(step, r);
        let challenge = challenge_of(digest, c.state.pending[at].nonce);
        let options = outcome->Ok_0.options@;
        law_challenges_are_replaced(options, challenge);
        law_approval_replies(id, options_bound(options, challenge)->0, digest);
        assert(waits_at(c.state.pending, digest, at));
    }
}

/// What a phone gets at the start of a ceremony: the ceremony's id, the options for its authenticator
/// and, for an approval, the code that a human compares.
pub proof fn law_approval_replies(id: u128, options: JsonSpec, digest: Seq<char>)
    ensures
        approval_reply(id, options, digest).text_member("id"@) == Some(crate::codec::uuid_text(id)),
        approval_reply(id, options, digest).member("options"@) == Some(options),
        approval_reply(id, options, digest).text_member("code"@) == Some(first_chars(digest, 8)),
        registration_reply(id, options).text_member("id"@) == Some(crate::codec::uuid_text(id)),
        registration_reply(id, options).member("options"@) == Some(options),
{
    reveal_with_fuel(crate::json::first_member, 4);
    reveal_strlit("id");
    reveal_strlit("options");
    reveal_strlit("code");
    assert("id"@.len() == 2 && "options"@.len() == 7 && "code"@.len() == 4);
    let v = approval_reply(id, options, digest)->Object_0;
    assert(v.drop_first() =~= seq![v[1], v[2]]);
    assert(v.drop_first().drop_first() =~= seq![v[2]]);
    let w = registration_reply(id, options)->Object_0;
    assert(w.drop_first() =~= seq![w[1]]);
}

/// A phone denies the one request whose digest starts with what it names: that request leaves the
/// list with a denial. Where it names none, or more than one, nothing changes.
pub proof fn law_phones_deny(
    c: CtxSpec,
    c_after: CtxSpec,
    body: JsonSpec,
    r: Result<Delivery, String>,
    prefix: Seq<char>,
    at: int,
)
    requires
        deny_follows(c, c_after, body, r),
        body.text_member("digest"@) == Some(prefix),
    ensures
        0 <= at < c.state.pending.len() && prefix.is_prefix_of(c.state.pending[at].digest) && (
        forall|k: int|
            0 <= k < c.state.pending.len() && k != at ==> !prefix.is_prefix_of(
                (#[trigger] c.state.pending[k]).digest,
            )) ==> {
            &&& r is Ok
            &&& r->Ok_0.verdict is None
            &&& r->Ok_0.digest@ == c.state.pending[at].digest
            &&& c_after.state.pending == c.state.pending.remove(at)
            &&& c_after.state.grants == c.state.grants && c_after.state.spent == c.state.spent
        },
        r is Err ==> c_after == c,
        r is Ok ==> r->Ok_0.verdict is None && c_after.state.pending.len() == c.state.pending.len()
            - 1,
{
    let p = c.state.pending;
    if 0 <= at < p.len() && prefix.is_prefix_of(p[at].digest) && (forall|k: int|
        0 <= k < p.len() && k != at ==> !prefix.is_prefix_of((#[trigger] p[k]).digest)) {
        assert(crate::daemon::state::only_hit(p, prefix, at));
        if let Ok(d) = r {
            let x = choose|x: int|
                {
                    &&& #[trigger] crate::daemon::state::only_hit(p, prefix, x)
                    &&& d.digest@ == p[x].digest
                    &&& d.summary@ == operation_summary(p[x].request.op)
                    &&& d.verdict is None
                    &&& c_after.state == (SharedSpec { pending: p.remove(x), ..c.state })
                };
            if x != at {
                assert(!prefix.is_prefix_of(p[x].digest));
            }
        }
    }
}

/// A call that claims an approval without an assertion is turned away, whatever else it says, and
/// touches nothing.
pub proof fn law_forged_approvals_fail(
    before: PhoneAuth,
    after: PhoneAuth,
    c: CtxSpec,
    c_after: CtxSpec,
    body: JsonSpec,
    now: u64,
    unix: i64,
    step: PhoneStep,
)
    requires
        dispatch_follows(
            before,
            after,
            c,
            c_after,
            RelayMethod::ApproveFinish,
            body,
            now,
            unix,
            step,
        ),
        body.member("cred"@) is None || body.member("id"@) is None,
    ensures
        step matches PhoneStep::Reply(Err(m)) && m@
            == "forged approval: missing WebAuthn assertion"@,
        after == before,
        c_after == c,
{
}

/// Each call of the relay does what its method says and nothing else: only an approval that is
/// finished and a denial touch what waits, only a finished enrollment the passkeys.
pub proof fn law_calls_keep_to_their_method(
    before: PhoneAuth,
    after: PhoneAuth,
    c: CtxSpec,
    c_after: CtxSpec,
    method: RelayMethod,
    body: JsonSpec,
    now: u64,
    unix: i64,
    step: PhoneStep,
)
    requires
        dispatch_follows(before, after, c, c_after, method, body, now, unix, step),
    ensures
        !(method is ApproveFinish) && !(method is Deny) ==> c_after.state.pending
            == c.state.pending,
        !(method is RegisterFinish) ==> c_after.phone_passkeys == c.phone_passkeys,
        !(method is RegisterStart) ==> c_after.codes == c.codes,
        c_after.passkeys == c.passkeys && c_after.policy == c.policy && c_after.state.grants
            == c.state.grants,
        step is Approve ==> method is ApproveFinish,
        step is Deny ==> method is Deny,
        method is ApproveStart || method is RegisterStart || method is RegisterFinish
            || method is Pending ==> step is Reply,
{
    if method is ApproveFinish && body.member("cred"@) is Some && body.member("id"@) is Some {
        if let PhoneStep::Approve(d) = step {
            lemma_finish_keeps(before, after, c, c_after, body, unix, Ok::<Delivery, String>(d));
        }
        if let PhoneStep::Reply(Err(m)) = step {
            lemma_finish_keeps(before, after, c, c_after, body, unix, Err::<Delivery, String>(m));
        }
    }
    if method is Deny {
        if let PhoneStep::Deny(d) = step {
            lemma_deny_keeps(c, c_after, body, Ok::<Delivery, String>(d));
        }
    }
}

proof fn lemma_finish_keeps(
    before: PhoneAuth,
    after: PhoneAuth,
    c: CtxSpec,
    c_after: CtxSpec,
    body: JsonSpec,
    now: i64,
    r: Result<Delivery, String>,
)
    requires
        approve_finish_follows(before, after, c, c_after, body, now, r),
    ensures
        c_after.state.grants == c.state.grants,
{
    if let Some((id, cred)) = finish_body(body) {
        if crate::daemon::passkey::assertion_parts(cred) is Ok
            && before.ceremonies.authentications@.contains_key(id) {
            let kept = before.ceremonies.authentications@[id];
            let w = before.ceremonies.webauthn;
            let parts = crate::daemon::passkey::assertion_parts(cred)->Ok_0;
            if let Some(key) = crate::daemon::passkey::assertion_key(
                crate::daemon::passkey::made_for(w).0,
                crate::daemon::passkey::made_for(w).1,
                cred,
                kept.state@,
            ) {
                let step = choose|step: Result<Delivery, CeremonyError>| #[trigger]
                    release_follows(
                        c.state,
                        c_after.state,
                        kept.digest@,
                        parts.0,
                        key,
                        parts.1,
                        now,
                        step,
                    ) && crate::daemon::phone::in_words(step, r);
                assert(c_after.state.grants == c.state.grants);
            }
        }
    }
}

proof fn lemma_deny_keeps(c: CtxSpec, c_after: CtxSpec, body: JsonSpec, r: Result<Delivery, String>)
    requires
        deny_follows(c, c_after, body, r),
    ensures
        c_after.state.grants == c.state.grants,
{
}

/// The bodies of calls: a code, a digest and the end of a ceremony are read by their names, or in
/// order.
pub proof fn law_bodies(m: JsonSpec, t: Seq<char>, id: JsonSpec, cred: JsonSpec, n: u128)
    ensures
        code_body(None) == Some(Seq::<char>::empty()),
        m is Object && m.member("code"@) == Some(JsonSpec::Text(t)) ==> code_body(Some(m)) == Some(
            t,
        ),
        m is Object && m.member("code"@) is None ==> code_body(Some(m)) == Some(
            Seq::<char>::empty(),
        ),
        code_body(Some(JsonSpec::Array(seq![JsonSpec::Text(t)]))) == Some(t),
        code_body(Some(JsonSpec::Array(Seq::empty()))) == Some(Seq::<char>::empty()),
        m matches JsonSpec::Array(v) ==> {
            &&& v.len() > 1 ==> code_body(Some(m)) is None && digest_body(m) is None
            &&& v.len() == 0 ==> digest_body(m) is None
            &&& v.len() != 2 ==> finish_body(m) is None
        },
        m is Object && m.member("code"@) is Some && !(m.member("code"@)->0 is Text) ==> code_body(
            Some(m),
        ) is None,
        !(m is Object) && !(m is Array) ==> code_body(Some(m)) is None && digest_body(m) is None
            && finish_body(m) is None,
        m is Object && m.text_member("digest"@) == Some(t) ==> digest_body(m) == Some(t),
        digest_body(JsonSpec::Array(seq![JsonSpec::Text(t)])) == Some(t),
        m is Object && m.text_member("digest"@) is None ==> digest_body(m) is None,
        uuid_in(id) == Ok::<u128, Seq<char>>(n) ==> {
            &&& m is Object && m.member("id"@) == Some(id) && m.member("cred"@) == Some(cred)
                ==> finish_body(m) == Some((n, cred))
            &&& finish_body(JsonSpec::Array(seq![id, cred])) == Some((n, cred))
        },
        m is Object && (m.member("id"@) is None || m.member("cred"@) is None) ==> finish_body(m)
            is None,
        uuid_in(id) is Err && m is Object && m.member("id"@) == Some(id) ==> finish_body(m) is None,
{
}

/// The page is opened by its token and by nothing else.
pub proof fn law_page_token(header: Seq<char>, token: Seq<char>, port: u16)
    ensures
        presents(Some(header), token) <==> header == token,
        token.len() > 0 ==> !presents(None, token),
        page_origin(port) == "http://localhost:"@ + decimal(port as nat),
{
}

/// Stored passkeys are those of an array that holds nothing else.
pub proof fn law_stored_passkeys(text: Seq<char>, v: Seq<JsonSpec>)
    ensures
        json_parse(text) == Some(JsonSpec::Array(v)) && passkey_ids(v) is Some ==> passkeys_stored(
            text,
        ) == v,
        json_parse(text) == Some(JsonSpec::Array(v)) && passkey_ids(v) is None ==> passkeys_stored(
            text,
        ).len() == 0,
        json_parse(text) is None ==> passkeys_stored(text).len() == 0,
{
}

/// A phone sees each request that waits under the names of its parts, and how many passkeys there
/// are.
pub proof fn law_lists_for_phones(entries: Seq<PendingEntrySpec>, enrolled: int, i: int)
    requires
        0 <= i < entries.len(),
    ensures
        pending_model(entries, enrolled).member("enrolled"@) == Some(JsonSpec::Integer(enrolled)),
        pending_model(entries, enrolled).member("entries"@) matches Some(JsonSpec::Array(v))
            && v.len() == entries.len() && v[i] == entry_model(entries[i]),
        ({
            let m = entry_model(entries[i]);
            &&& m.text_member("digest"@) == Some(entries[i].digest)
            &&& m.text_member("summary"@) == Some(entries[i].summary)
            &&& m.text_member("tier"@) == Some(tier_name(entries[i].tier))
            &&& m.text_member("harness"@) == Some(entries[i].harness)
            &&& m.member("age_secs"@) == Some(JsonSpec::Integer(entries[i].age_secs as int))
        }),
{
    reveal_with_fuel(crate::json::first_member, 6);
    reveal_strlit("entries");
    reveal_strlit("enrolled");
    reveal_strlit("digest");
    reveal_strlit("summary");
    reveal_strlit("tier");
    reveal_strlit("harness");
    reveal_strlit("age_secs");
    assert("entries"@.len() == 7 && "enrolled"@.len() == 8);
    let p = pending_model(entries, enrolled)->Object_0;
    assert(p.drop_first() =~= seq![p[1]]);
    let v = entry_model(entries[i])->Object_0;
    assert("digest"@[0] == 'd' && "summary"@[0] == 's' && "tier"@[0] == 't' && "harness"@[0] == 'h'
        && "age_secs"@[0] == 'a');
    assert(v.drop_first() =~= seq![v[1], v[2], v[3], v[4]]);
    assert(v.drop_first().drop_first() =~= seq![v[2], v[3], v[4]]);
    assert(v.drop_first().drop_first().drop_first() =~= seq![v[3], v[4]]);
    assert(v.drop_first().drop_first().drop_first().drop_first() =~= seq![v[4]]);
}

/// What a phone is shown of the requests that wait: each of them, and how many passkeys there are.
pub proof fn law_phones_see_all(j: JsonSpec, pending: Seq<WaitingSpec>, now: u64, enrolled: int)
    requires
        crate::daemon::phone::shows_all(j, pending, now, enrolled),
    ensures
        j.member("enrolled"@) == Some(JsonSpec::Integer(enrolled)),
        j.member("entries"@) matches Some(JsonSpec::Array(v)) && v.len() == pending.len() && forall|
            k: int,
        |
            0 <= k < pending.len() ==> v.contains(
                entry_model(
                    crate::daemon::state::pending_entry(#[trigger] pending[k], now),
                ),
            ),
{
    let entries = choose|entries: Seq<PendingEntrySpec>|
        crate::daemon::state::shows_pending(entries, pending, now) && j == #[trigger] pending_model(
            entries,
            enrolled,
        );
    crate::laws::submit::law_list_is_complete(entries, pending, now);
    reveal_with_fuel(crate::json::first_member, 3);
    reveal_strlit("entries");
    reveal_strlit("enrolled");
    assert("entries"@.len() == 7 && "enrolled"@.len() == 8);
    let p = j->Object_0;
    assert(p.drop_first() =~= seq![p[1]]);
    let v = j.member("entries"@)->0->Array_0;
    assert forall|k: int| 0 <= k < pending.len() implies v.contains(
        entry_model(crate::daemon::state::pending_entry(#[trigger] pending[k], now)),
    ) by {
        let e = crate::daemon::state::pending_entry(pending[k], now);
        assert(entries.contains(e));
        let i = choose|i: int| 0 <= i < entries.len() && entries[i] == e;
        assert(v[i] == entry_model(e));
    }
}

/// An enrollment that was started is kept under the id that the client gets, beside those that were
/// started before; one that was not changes nothing.
pub proof fn law_enrollments_are_kept(
    before: Map<u128, Json>,
    after: Map<u128, Json>,
    user: u128,
    ceremony: crate::daemon::passkey::Ceremony,
    why: String,
    r: Result<Json, CeremonyError>,
    other: u128,
)
    ensures
        crate::daemon::ceremony::registration_follows(before, after, user, Ok(ceremony), r) ==> {
            &&& r is Ok
            &&& r->Ok_0@.text_member("id"@) == Some(crate::codec::uuid_text(user))
            &&& r->Ok_0@.member("options"@) == Some(ceremony.options@)
            &&& after.contains_key(user) && after[user] == ceremony.state
            &&& other != user ==> after.contains_key(other) == before.contains_key(other) && (
            before.contains_key(other) ==> after[other] == before[other])
        },
        crate::daemon::ceremony::registration_follows(before, after, user, Err(why), r) ==> after
            == before && r is Err,
{
    law_approval_replies(user, ceremony.options@, Seq::empty());
}

/// An approval that was started is kept under the id that the client gets, for the request it was
/// started for, beside those that were started before.
pub proof fn law_approvals_are_kept(
    before: Map<u128, crate::daemon::ceremony::AuthState>,
    after: Map<u128, crate::daemon::ceremony::AuthState>,
    digest: Seq<char>,
    nonce: Seq<char>,
    id: u128,
    outcome: Result<crate::daemon::passkey::Ceremony, String>,
    r: Result<Json, CeremonyError>,
    other: u128,
)
    requires
        crate::daemon::ceremony::approval_follows(before, after, digest, nonce, id, outcome, r),
    ensures
        r is Ok ==> {
            &&& outcome is Ok
            &&& after.contains_key(id)
            &&& after[id].digest@ == digest
            &&& Some(after[id].state@) == state_bound(
                outcome->Ok_0.state@,
                challenge_of(digest, nonce),
            ) || state_bound(outcome->Ok_0.state@, challenge_of(digest, nonce)) is None
            &&& r->Ok_0@.text_member("id"@) == Some(crate::codec::uuid_text(id))
            &&& other != id ==> after.contains_key(other) == before.contains_key(other) && (
            before.contains_key(other) ==> after[other] == before[other])
        },
        r is Err ==> after == before,
{
    if r is Ok {
        law_approval_replies(
            id,
            options_bound(outcome->Ok_0.options@, challenge_of(digest, nonce))->0,
            digest,
        );
        assert(after.dom().contains(id));
        assert(after.dom().contains(other) == (before.dom().contains(other) || other == id));
    }
}

/// A step that failed is put in its words, and a result that is there is handed on as it is.
pub proof fn law_steps_have_words(r: Result<Delivery, CeremonyError>, w: Result<Delivery, String>)
    requires
        crate::daemon::phone::in_words(r, w),
    ensures
        r is Ok <==> w is Ok,
        r is Ok ==> w->Ok_0 == r->Ok_0,
        r is Err ==> w->Err_0@ == (r->Err_0).reason(),
{
}

}
