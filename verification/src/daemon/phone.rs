//! What a phone can ask of the daemon through a relay.
//!
//! Requests are released the same way as from the approval page, but the relying party comes from
//! the relay's settings, so that a phone's authenticator can enroll. The relay only carries
//! messages: the challenge is derived from the request and derived again at release, so a relay
//! that shows one request while it starts a ceremony for another gets an assertion that
//! releases nothing.
use vstd::prelude::*;
use vstd::string::*;

use crate::codec::uuid_in;
use crate::daemon::binding::bound;
use crate::daemon::body::{
    finish_body, finish_fault, finish_fields, law_faultless_bodies_finish, parse_finish,
    split_finish,
};
use crate::daemon::ceremony::{
    approval_begun, approval_follows, deny_with, enrollment_begun, kept_text, key_of_ceremony,
    law_assertion_releases_its_request, registration_follows, release_follows, released_at,
    AuthState, Ceremonies, CeremonyError,
};
use crate::daemon::ctl::{Delivery, ENVELOPE_TTL_SECS};
use crate::daemon::ctx::{Ctx, CtxSpec};
use crate::daemon::enroll::{has_code, last_code_at, live_codes, typed_code, CodeSpec};
use crate::daemon::passkey::{
    assertion_fault, assertion_key, assertion_parts, check_registration, is_registration, made_for,
    origin_read, passkey_ids, registration_fault, rp_accepted, Assertion, Ceremony,
};
use crate::daemon::state::{
    only_hit, shows_pending, take_refusal, waits, waits_at, SharedSpec, WaitingSpec,
};
use crate::json::{
    items_view, lemma_array_view, lemma_object_view, member, members_view, text, Json, JsonSpec,
    Member,
};
use crate::proto::relay::RelayConfig;
use crate::proto::request::operation_summary;
use crate::proto::wire::{entries_view, tier_name, PendingEntry, PendingEntrySpec};

verus! {

/// The ceremonies of phones.
pub struct PhoneAuth {
    pub ceremonies: Ceremonies,
}

impl PhoneAuth {
    /// The ceremonies for the relay's settings; nothing where the origin does not belong to the
    /// relying party.
    pub fn new(cfg: &RelayConfig) -> (r: Option<PhoneAuth>)
        ensures
            r is Some == rp_accepted(cfg@.rp_id, cfg@.origin),
            r matches Some(p) ==> {
                &&& made_for(p.ceremonies.webauthn) == (
                    cfg@.rp_id,
                    origin_read(cfg@.origin),
                    "Gatehouse"@,
                )
                &&& p.ceremonies.registrations@ == Map::<u128, Json>::empty()
                &&& p.ceremonies.authentications@ == Map::<u128, AuthState>::empty()
            },
    {
        match Ceremonies::new(cfg.rp_id.as_str(), cfg.origin.as_str()) {
            Some(ceremonies) => Some(PhoneAuth { ceremonies }),
            None => None,
        }
    }
}

/// An entry of the list of waiting requests, as JSON.
pub open spec fn entry_model(e: PendingEntrySpec) -> JsonSpec {
    JsonSpec::Object(
        seq![
            ("digest"@, JsonSpec::Text(e.digest)),
            ("summary"@, JsonSpec::Text(e.summary)),
            ("tier"@, JsonSpec::Text(tier_name(e.tier))),
            ("harness"@, JsonSpec::Text(e.harness)),
            ("age_secs"@, JsonSpec::Integer(e.age_secs as int)),
        ],
    )
}

/// The list of waiting requests and the number of passkeys, as JSON.
pub open spec fn pending_model(entries: Seq<PendingEntrySpec>, enrolled: int) -> JsonSpec {
    JsonSpec::Object(
        seq![
            (
                "entries"@,
                JsonSpec::Array(entries.map_values(|e: PendingEntrySpec| entry_model(e))),
            ),
            ("enrolled"@, JsonSpec::Integer(enrolled)),
        ],
    )
}

fn entry_json(e: &PendingEntry) -> (r: Json)
    ensures
        r@ == entry_model(e@),
{
    let mut out: Vec<Member> = Vec::new();
    out.push(member("digest", text(e.digest.as_str())));
    out.push(member("summary", text(e.summary.as_str())));
    out.push(member("tier", text(e.tier.name())));
    out.push(member("harness", text(e.harness.as_str())));
    out.push(member("age_secs", Json::Integer(e.age_secs as i128)));
    proof {
        lemma_object_view(out);
        assert(members_view(out@) =~= entry_model(e@)->Object_0);
    }
    Json::Object(out)
}

/// The list of waiting requests and the number of passkeys, as JSON.
pub fn pending_reply(entries: &Vec<PendingEntry>, enrolled: usize) -> (r: Json)
    ensures
        r@ == pending_model(entries_view(entries@), enrolled as int),
{
    let mut items: Vec<Json> = Vec::new();
    let mut i: usize = 0;
    while i < entries.len()
        invariant
            i <= entries@.len(),
            items@.len() == i,
            forall|k: int| 0 <= k < i ==> (#[trigger] items@[k])@ == entry_model(entries@[k]@),
        decreases entries@.len() - i,
    {
        items.push(entry_json(&entries[i]));
        i += 1;
    }
    let ghost listed = entries_view(entries@).map_values(|e: PendingEntrySpec| entry_model(e));
    proof {
        lemma_array_view(items);
        assert(items_view(items@) =~= listed);
    }
    let mut out: Vec<Member> = Vec::new();
    out.push(member("entries", Json::Array(items)));
    out.push(member("enrolled", Json::Integer(enrolled as i128)));
    proof {
        lemma_object_view(out);
        assert(members_view(out@) =~= pending_model(
            entries_view(entries@),
            enrolled as int,
        )->Object_0);
    }
    Json::Object(out)
}

/// Whether a value shows exactly the waiting requests, from the oldest to the youngest, and a
/// number of passkeys.
pub open spec fn shows_all(
    j: JsonSpec,
    pending: Seq<WaitingSpec>,
    now: u64,
    enrolled: int,
) -> bool {
    exists|entries: Seq<PendingEntrySpec>|
        shows_pending(entries, pending, now) && j == #[trigger] pending_model(entries, enrolled)
}

/// The waiting requests and the number of enrolled phone passkeys.
pub fn pending_json(ctx: &Ctx, now: u64) -> (r: Json)
    ensures
        shows_all(r@, ctx@.state.pending, now, ctx@.phone_passkeys.len() as int),
{
    let entries = ctx.state.pending_snapshot(now);
    let r = pending_reply(&entries, ctx.phone_passkeys.len());
    assert(r@ == pending_model(entries_view(entries@), ctx@.phone_passkeys.len() as int));
    r
}

/// The enrollment code in a body; empty where there is none.
pub open spec fn code_in(body: JsonSpec) -> Seq<char> {
    match body.text_member("code"@) {
        Some(c) => c,
        None => Seq::empty(),
    }
}

/// The result of a step in words.
pub open spec fn in_words<T>(r: Result<T, CeremonyError>, w: Result<T, String>) -> bool {
    match r {
        Ok(v) => w == Ok::<T, String>(v),
        Err(e) => w matches Err(m) && m@ == e.reason(),
    }
}

fn put_in_words<T>(r: Result<T, CeremonyError>) -> (w: Result<T, String>)
    ensures
        in_words(r, w),
{
    match r {
        Ok(v) => Ok(v),
        Err(e) => Err(e.message()),
    }
}

/// Whether the start of an enrollment comes to what it has to. A bad code starts nothing; a good
/// one is used up.
pub open spec fn register_start_follows(
    before: PhoneAuth,
    after: PhoneAuth,
    c: CtxSpec,
    c_after: CtxSpec,
    body: JsonSpec,
    now: u64,
    r: Result<Json, String>,
) -> bool {
    let live = live_codes(c.codes, now);
    let code = typed_code(code_in(body));
    &&& c_after == (CtxSpec { codes: c_after.codes, ..c })
    &&& after.ceremonies.webauthn == before.ceremonies.webauthn
    &&& after.ceremonies.authentications@ == before.ceremonies.authentications@
    &&& if !has_code(live, code) {
        &&& r matches Err(m)
        &&& m@ == CeremonyError::BadCode.reason()
        &&& c_after.codes == live
        &&& after.ceremonies.registrations@ == before.ceremonies.registrations@
    } else {
        &&& code_used(live, c_after.codes, code)
        &&& r is Ok == (passkey_ids(c.phone_passkeys) is Some)
        &&& started_somehow(
            before.ceremonies.webauthn,
            c.phone_passkeys,
            before.ceremonies.registrations@,
            after.ceremonies.registrations@,
            r,
        )
    }
}

/// Whether a code was taken out of some codes.
pub open spec fn code_used(codes: Seq<CodeSpec>, after: Seq<CodeSpec>, code: Seq<char>) -> bool {
    exists|at: int| #[trigger] last_code_at(codes, code, at) && after == codes.remove(at)
}

/// Whether an enrollment goes on as some outcome of starting it says.
pub open spec fn started_somehow(
    w: webauthn_rs::Webauthn,
    passkeys: Seq<JsonSpec>,
    before: Map<u128, Json>,
    after: Map<u128, Json>,
    r: Result<Json, String>,
) -> bool {
    exists|user: u128, outcome: Result<Ceremony, String>, step: Result<Json, CeremonyError>|
        enrollment_begun(w, user, "phone-operator"@, "Gatehouse Phone"@, passkeys, outcome)
            && #[trigger] registration_follows(before, after, user, outcome, step) && in_words(
            step,
            r,
        )
}

/// Starts the enrollment of a phone passkey.
pub fn register_start(phone: &mut PhoneAuth, ctx: &mut Ctx, body: &Json, now: u64) -> (r: Result<
    Json,
    String,
>)
    ensures
        register_start_follows(
            *old(phone),
            *final(phone),
            old(ctx)@,
            final(ctx)@,
            body@,
            now,
            r,
        ),
{
    let empty = String::new();
    let code = match body.get_text("code") {
        Some(c) => c,
        None => &empty,
    };
    assert(code@ =~= code_in(body@));
    let step = phone.ceremonies.start_registration(
        &mut ctx.enroll_codes,
        code.as_str(),
        &ctx.phone_passkeys,
        "phone-operator",
        "Gatehouse Phone",
        now,
    );
    let ghost given = step;
    let r = put_in_words(step);
    proof {
        reveal_strlit("phone-operator");
        reveal_strlit("Gatehouse Phone");
        assert(in_words(given, r));
        if has_code(live_codes(old(ctx)@.codes, now), typed_code(code@)) {
            let (user, outcome) = choose|user: u128, outcome: Result<Ceremony, String>|
                enrollment_begun(
                    old(phone).ceremonies.webauthn,
                    user,
                    "phone-operator"@,
                    "Gatehouse Phone"@,
                    old(ctx)@.phone_passkeys,
                    outcome,
                ) && #[trigger] registration_follows(
                    old(phone).ceremonies.registrations@,
                    phone.ceremonies.registrations@,
                    user,
                    outcome,
                    given,
                );
            assert(registration_follows(
                old(phone).ceremonies.registrations@,
                phone.ceremonies.registrations@,
                user,
                outcome,
                given,
            ) && in_words(given, r));
            assert(started_somehow(
                old(phone).ceremonies.webauthn,
                old(ctx)@.phone_passkeys,
                old(phone).ceremonies.registrations@,
                phone.ceremonies.registrations@,
                r,
            ));
            assert(code_used(
                live_codes(old(ctx)@.codes, now),
                ctx@.codes,
                typed_code(code_in(body@)),
            ));
        }
    }
    r
}

/// The reply when a passkey was enrolled: how many there are now.
pub open spec fn enrolled_reply(count: int) -> JsonSpec {
    JsonSpec::Object(seq![("enrolled"@, JsonSpec::Integer(count))])
}

/// The reply when a passkey was enrolled: how many there are now.
pub fn enrolled_json(count: usize) -> (r: Json)
    ensures
        r@ == enrolled_reply(count as int),
{
    let mut out: Vec<Member> = Vec::new();
    out.push(member("enrolled", Json::Integer(count as i128)));
    proof {
        lemma_object_view(out);
        assert(members_view(out@) =~= enrolled_reply(count as int)->Object_0);
    }
    Json::Object(out)
}

/// Adds a passkey that was registered, and says how many there are.
pub fn passkey_registered(passkeys: &mut Vec<Json>, key: Json) -> (r: Json)
    ensures
        items_view(final(passkeys)@) == items_view(old(passkeys)@).push(key@),
        r@ == enrolled_reply(old(passkeys)@.len() as int + 1),
{
    passkeys.push(key);
    assert(items_view(passkeys@) =~= items_view(old(passkeys)@).push(key@));
    enrolled_json(passkeys.len())
}

/// What a phone is told about a body with a fault.
pub open spec fn bad_body(fault: Option<Seq<char>>) -> Option<Seq<char>> {
    match fault {
        Some(m) => Some("bad body: "@ + m),
        None => None,
    }
}

/// The fault of a value, if there is one.
pub open spec fn fault_of(
    m: Option<JsonSpec>,
    fault: spec_fn(JsonSpec) -> Option<Seq<char>>,
) -> Option<Seq<char>> {
    match m {
        Some(m) => fault(m),
        None => None,
    }
}

fn reject_body(fault: &str) -> (r: String)
    ensures
        r@ == "bad body: "@ + fault@,
{
    let mut out = "bad body: ".to_owned();
    out.append(fault);
    out
}

/// Whether the end of an enrollment comes to what it has to: a malformed body changes nothing, an
/// unknown ceremony fails, and a passkey that was registered is added to the others.
pub open spec fn register_finish_follows(
    before: PhoneAuth,
    after: PhoneAuth,
    c: CtxSpec,
    c_after: CtxSpec,
    body: JsonSpec,
    r: Result<Json, String>,
) -> bool {
    &&& c_after == (CtxSpec { phone_passkeys: c_after.phone_passkeys, ..c })
    &&& after.ceremonies.webauthn == before.ceremonies.webauthn
    &&& after.ceremonies.authentications@ == before.ceremonies.authentications@
    &&& match finish_body(body) {
        Some((id, cred)) if is_registration(cred) => {
            &&& after.ceremonies.registrations@ == before.ceremonies.registrations@.remove(id)
            &&& match key_of_ceremony(before.ceremonies, id, cred) {
                Some(key) => {
                    &&& r matches Ok(j)
                    &&& j@ == enrolled_reply(c.phone_passkeys.len() as int + 1)
                    &&& c_after.phone_passkeys == c.phone_passkeys.push(key)
                },
                None => {
                    &&& r is Err
                    &&& c_after == c
                    &&& if before.ceremonies.registrations@.contains_key(id) {
                        "register finish: "@.is_prefix_of(r->Err_0@)
                    } else {
                        r->Err_0@ == CeremonyError::UnknownRegistration.reason()
                    }
                },
            }
        },
        _ => {
            &&& r matches Err(m)
            &&& Some(m@) == bad_body(
                finish_fault(
                    body,
                    "RegFinishBody"@,
                    fault_of(finish_fields(body).1, |cred: JsonSpec| registration_fault(cred)),
                ),
            )
            &&& after.ceremonies.registrations@ == before.ceremonies.registrations@
            &&& c_after == c
        },
    }
}

/// Finishes the enrollment of a phone passkey.
pub fn register_finish(phone: &mut PhoneAuth, ctx: &mut Ctx, body: &Json) -> (r: Result<Json, String>)
    ensures
        register_finish_follows(*old(phone), *final(phone), old(ctx)@, final(ctx)@, body@, r),
{
    let read = match split_finish(body).1 {
        Some(cred) => match check_registration(cred) {
            Some(m) => Some(Err(m)),
            None => Some(Ok(cred)),
        },
        None => None,
    };
    proof {
        law_faultless_bodies_finish(body@, "RegFinishBody"@);
    }
    let (id, cred) = match parse_finish(body, "RegFinishBody", read) {
        Ok(parts) => parts,
        Err(fault) => {
            return Err(reject_body(fault.as_str()));
        },
    };
    match phone.ceremonies.finish_registration(id, cred) {
        Ok(key) => {
            let reply = passkey_registered(&mut ctx.phone_passkeys, key);
            Ok(reply)
        },
        Err(e) => Err(e.message()),
    }
}

/// Whether the start of an approval comes to what it has to.
pub open spec fn approve_start_follows(
    before: PhoneAuth,
    after: PhoneAuth,
    c: CtxSpec,
    body: JsonSpec,
    r: Result<Json, String>,
) -> bool {
    &&& after.ceremonies.webauthn == before.ceremonies.webauthn
    &&& after.ceremonies.registrations@ == before.ceremonies.registrations@
    &&& match body.text_member("digest"@) {
        None => {
            &&& r matches Err(m)
            &&& m@ == "missing digest"@
            &&& after.ceremonies.authentications@ == before.ceremonies.authentications@
        },
        Some(digest) => if !waits(c.state.pending, digest) {
            &&& r matches Err(m)
            &&& m@ == CeremonyError::NotPending.reason()
            &&& after.ceremonies.authentications@ == before.ceremonies.authentications@
        } else if c.phone_passkeys.len() == 0 {
            &&& r matches Err(m)
            &&& m@ == CeremonyError::NoPasskeys.reason()
            &&& after.ceremonies.authentications@ == before.ceremonies.authentications@
        } else {
            &&& r is Ok == (passkey_ids(c.phone_passkeys) is Some)
            &&& approval_started_somehow(
                before.ceremonies.webauthn,
                c.phone_passkeys,
                before.ceremonies.authentications@,
                after.ceremonies.authentications@,
                c.state.pending,
                digest,
                r,
            )
        },
    }
}

/// Whether the approval of a waiting request goes on as some outcome of starting it says.
pub open spec fn approval_started_somehow(
    w: webauthn_rs::Webauthn,
    passkeys: Seq<JsonSpec>,
    before: Map<u128, AuthState>,
    after: Map<u128, AuthState>,
    pending: Seq<WaitingSpec>,
    digest: Seq<char>,
    r: Result<Json, String>,
) -> bool {
    exists|
        at: int,
        id: u128,
        outcome: Result<Ceremony, String>,
        step: Result<Json, CeremonyError>,
    |
        waits_at(pending, digest, at) && approval_begun(w, passkeys, outcome)
            && #[trigger] approval_follows(
            before,
            after,
            digest,
            pending[at].nonce,
            id,
            outcome,
            step,
        ) && in_words(step, r)
}

/// Starts the approval of a waiting request.
pub fn approve_start(phone: &mut PhoneAuth, ctx: &Ctx, body: &Json) -> (r: Result<Json, String>)
    ensures
        approve_start_follows(*old(phone), *final(phone), ctx@, body@, r),
{
    let digest = match body.get_text("digest") {
        Some(d) => d,
        None => {
            return Err("missing digest".to_owned());
        },
    };
    let step = phone.ceremonies.start_approval(&ctx.state, digest.as_str(), &ctx.phone_passkeys);
    let ghost given = step;
    let r = put_in_words(step);
    proof {
        assert(in_words(given, r));
        if waits(ctx@.state.pending, digest@) && ctx@.phone_passkeys.len() > 0 {
            let (at, id, outcome) = choose|at: int, id: u128, outcome: Result<Ceremony, String>|
                waits_at(ctx@.state.pending, digest@, at) && approval_begun(
                    old(phone).ceremonies.webauthn,
                    ctx@.phone_passkeys,
                    outcome,
                ) && #[trigger] approval_follows(
                    old(phone).ceremonies.authentications@,
                    phone.ceremonies.authentications@,
                    digest@,
                    ctx@.state.pending[at].nonce,
                    id,
                    outcome,
                    given,
                );
            assert(waits_at(ctx@.state.pending, digest@, at) && approval_follows(
                old(phone).ceremonies.authentications@,
                phone.ceremonies.authentications@,
                digest@,
                ctx@.state.pending[at].nonce,
                id,
                outcome,
                given,
            ) && in_words(given, r));
            assert(approval_started_somehow(
                old(phone).ceremonies.webauthn,
                ctx@.phone_passkeys,
                old(phone).ceremonies.authentications@,
                phone.ceremonies.authentications@,
                ctx@.state.pending,
                digest@,
                r,
            ));
        }
    }
    r
}

/// Whether the end of an approval comes to what it has to: nothing for an unknown ceremony or an
/// assertion that does not answer it, and else what the release of the request comes to.
pub open spec fn finish_follows(
    c: Ceremonies,
    before: SharedSpec,
    after: SharedSpec,
    id: u128,
    cred: JsonSpec,
    client_data: Seq<u8>,
    sig: Seq<char>,
    now: i64,
    r: Result<Delivery, String>,
) -> bool {
    let kept = c.authentications@;
    if !kept.contains_key(id) {
        &&& r matches Err(m)
        &&& m@ == CeremonyError::UnknownAuth.reason()
        &&& after == before
    } else {
        match assertion_key(
            made_for(c.webauthn).0,
            made_for(c.webauthn).1,
            cred,
            kept[id].state@,
        ) {
            None => {
                &&& r matches Err(m)
                &&& "assertion rejected: "@.is_prefix_of(m@)
                &&& after == before
            },
            Some(key) => exists|step: Result<Delivery, CeremonyError>| #[trigger]
                release_follows(
                    before,
                    after,
                    kept[id].digest@,
                    client_data,
                    key,
                    sig,
                    now,
                    step,
                ) && in_words(step, r),
        }
    }
}

/// Whether a body that finishes an approval comes to what it has to.
pub open spec fn approve_finish_follows(
    before: PhoneAuth,
    after: PhoneAuth,
    c: CtxSpec,
    c_after: CtxSpec,
    body: JsonSpec,
    now: i64,
    r: Result<Delivery, String>,
) -> bool {
    &&& c_after == (CtxSpec { state: c_after.state, ..c })
    &&& after.ceremonies.webauthn == before.ceremonies.webauthn
    &&& after.ceremonies.registrations@ == before.ceremonies.registrations@
    &&& match finish_body(body) {
        Some((id, cred)) if assertion_parts(cred) is Ok => {
            &&& after.ceremonies.authentications@ == before.ceremonies.authentications@.remove(id)
            &&& finish_follows(
                before.ceremonies,
                c.state,
                c_after.state,
                id,
                cred,
                (assertion_parts(cred)->Ok_0).0,
                (assertion_parts(cred)->Ok_0).1,
                now,
                r,
            )
        },
        _ => {
            &&& r matches Err(m)
            &&& Some(m@) == bad_body(
                finish_fault(
                    body,
                    "AuthFinishBody"@,
                    fault_of(finish_fields(body).1, |cred: JsonSpec| assertion_fault(cred)),
                ),
            )
            &&& after.ceremonies.authentications@ == before.ceremonies.authentications@
            &&& c_after == c
        },
    }
}

/// Finishes the approval of a waiting request. The verdict is to be handed to the waiting side;
/// [`approved_reply`] then answers the phone.
pub fn approve_finish(phone: &mut PhoneAuth, ctx: &mut Ctx, body: &Json, now: i64) -> (r: Result<
    Delivery,
    String,
>)
    requires
        old(ctx)@.state.wf(),
        now <= i64::MAX - ENVELOPE_TTL_SECS,
    ensures
        final(ctx)@.state.wf(),
        approve_finish_follows(
            *old(phone),
            *final(phone),
            old(ctx)@,
            final(ctx)@,
            body@,
            now,
            r,
        ),
{
    let read = match split_finish(body).1 {
        Some(cred) => Some(Assertion::read(cred)),
        None => None,
    };
    proof {
        law_faultless_bodies_finish(body@, "AuthFinishBody"@);
    }
    let (id, assertion) = match parse_finish(body, "AuthFinishBody", read) {
        Ok(parts) => parts,
        Err(fault) => {
            return Err(reject_body(fault.as_str()));
        },
    };
    let ghost cred = assertion.json;
    let ghost c = phone.ceremonies;
    let step = phone.ceremonies.finish_approval(&mut ctx.state, id, &assertion, true, now);
    let ghost given = step;
    let r = put_in_words(step);
    proof {
        assert(in_words(given, r));
        assert(kept_text(assertion, true) == assertion.text@);
        assert(finish_follows(
            c,
            old(ctx)@.state,
            ctx@.state,
            id,
            cred@,
            assertion.client_data@,
            assertion.text@,
            now,
            r,
        ));
    }
    r
}

/// A phone releases a request only by an assertion of a passkey that was enrolled when the approval
/// was started, that answers that ceremony, and that was signed for the digest and nonce of the
/// request, and it releases that request alone: the approval that is handed over names the digest,
/// the nonce and the passkey, and lasts as long as approvals do. Whatever comes of it, the ceremony
/// is over.
pub proof fn law_phone_approval_is_bound(
    before: PhoneAuth,
    started: PhoneAuth,
    c: CtxSpec,
    ask: JsonSpec,
    reply: Json,
    id: u128,
    held: PhoneAuth,
    after: PhoneAuth,
    c_held: CtxSpec,
    c_after: CtxSpec,
    answer: JsonSpec,
    now: i64,
    r: Result<Delivery, String>,
)
    requires
        approve_start_follows(before, started, c, ask, Ok::<Json, String>(reply)),
        reply@.text_member("id"@) matches Some(t) && uuid_in(JsonSpec::Text(t)) == Ok::<
            u128,
            Seq<char>,
        >(id),
        held.ceremonies.webauthn == started.ceremonies.webauthn,
        held.ceremonies.authentications@.contains_key(id),
        held.ceremonies.authentications@[id] == started.ceremonies.authentications@[id],
        c_held.state.wf(),
        finish_body(answer) matches Some((of, cred)) && of == id && assertion_parts(cred) is Ok,
        approve_finish_follows(held, after, c_held, c_after, answer, now, r),
    ensures
        !after.ceremonies.authentications@.contains_key(id),
        r is Err ==> c_after == c_held,
        r matches Ok(d) ==> {
            let digest = ask.text_member("digest"@)->0;
            let (client_data, sig) = assertion_parts((finish_body(answer)->0).1)->Ok_0;
            &&& !waits(c_after.state.pending, digest)
            &&& exists|key: Seq<u8>, at: int|
                {
                    &&& passkey_ids(c.phone_passkeys) is Some
                    &&& passkey_ids(c.phone_passkeys)->0.contains(key)
                    &&& waits_at(c_held.state.pending, digest, at)
                    &&& bound(client_data, digest, c_held.state.pending[at].nonce) is Ok
                    &&& #[trigger] released_at(c_held.state, c_after.state, at, key, sig, now, d)
                }
        },
{
    let digest = ask.text_member("digest"@)->0;
    let w = before.ceremonies.webauthn;
    let kept = held.ceremonies.authentications@;
    let (at0, begun, outcome, step0) = choose|
        at: int,
        id: u128,
        outcome: Result<Ceremony, String>,
        step: Result<Json, CeremonyError>,
    |
        waits_at(c.state.pending, digest, at) && approval_begun(
            w,
            c.phone_passkeys,
            outcome,
        ) && #[trigger] approval_follows(
            before.ceremonies.authentications@,
            started.ceremonies.authentications@,
            digest,
            c.state.pending[at].nonce,
            id,
            outcome,
            step,
        ) && in_words(step, Ok::<Json, String>(reply));
    let v = reply@->Object_0;
    assert(crate::json::first_member(v, "id"@) == Some(v[0].1)) by {
        reveal_with_fuel(crate::json::first_member, 2);
    }
    assert(begun == id);
    if r is Ok {
        let d = r->Ok_0;
        let cred = (finish_body(answer)->0).1;
        let (client_data, sig) = assertion_parts(cred)->Ok_0;
        let key = assertion_key(made_for(w).0, made_for(w).1, cred, kept[id].state@)->0;
        let step = choose|step: Result<Delivery, CeremonyError>| #[trigger]
            release_follows(
                c_held.state,
                c_after.state,
                digest,
                client_data,
                key,
                sig,
                now,
                step,
            ) && in_words(step, r);
        law_assertion_releases_its_request(
            c_held.state,
            c_after.state,
            digest,
            client_data,
            key,
            sig,
            now,
            d,
        );
        let at = choose|at: int|
            {
                &&& #[trigger] waits_at(c_held.state.pending, digest, at)
                &&& bound(client_data, digest, c_held.state.pending[at].nonce) is Ok
                &&& released_at(c_held.state, c_after.state, at, key, sig, now, d)
            };
        assert(passkey_ids(c.phone_passkeys)->0.contains(key));
        assert(released_at(c_held.state, c_after.state, at, key, sig, now, d));
    }
}

/// A ceremony that is over, or never was, releases nothing.
pub proof fn law_unknown_ceremony_releases_nothing(
    before: PhoneAuth,
    after: PhoneAuth,
    c: CtxSpec,
    c_after: CtxSpec,
    body: JsonSpec,
    now: i64,
    r: Result<Delivery, String>,
)
    requires
        finish_body(body) matches Some((id, cred)) && assertion_parts(cred) is Ok
            && !before.ceremonies.authentications@.contains_key(id),
        approve_finish_follows(before, after, c, c_after, body, now, r),
    ensures
        r is Err && r->Err_0@ == "unknown auth ceremony"@,
        c_after == c,
{
}

/// The reply of an object with one text.
pub open spec fn one_text(key: Seq<char>, value: Seq<char>) -> JsonSpec {
    JsonSpec::Object(seq![(key, JsonSpec::Text(value))])
}

fn one_text_json(key: &str, value: &str) -> (r: Json)
    ensures
        r@ == one_text(key@, value@),
{
    let mut out: Vec<Member> = Vec::new();
    out.push(member(key, text(value)));
    proof {
        lemma_object_view(out);
        assert(members_view(out@) =~= one_text(key@, value@)->Object_0);
    }
    Json::Object(out)
}

/// The answer to an approval, once the verdict was handed over or could not be.
pub fn approved_reply(digest: &str, taken: bool) -> (r: Result<Json, CeremonyError>)
    ensures
        match r {
            Ok(j) => taken && j@ == one_text("approved"@, digest@),
            Err(e) => !taken && e is Gone,
        },
{
    if taken {
        Ok(one_text_json("approved", digest))
    } else {
        Err(CeremonyError::Gone)
    }
}

/// The answer to a denial.
pub fn denied_reply(digest: &str) -> (r: Json)
    ensures
        r@ == one_text("denied"@, digest@),
{
    one_text_json("denied", digest)
}

/// Whether a denial comes to what it has to: the one request that a prefix names leaves the list
/// with a denial, or nothing changes and the reason is given.
pub open spec fn denial_follows(
    before: SharedSpec,
    after: SharedSpec,
    prefix: Seq<char>,
    r: Result<Delivery, String>,
) -> bool {
    match r {
        Ok(d) => exists|at: int|
            {
                &&& #[trigger] only_hit(before.pending, prefix, at)
                &&& d.digest@ == before.pending[at].digest
                &&& d.summary@ == operation_summary(before.pending[at].request.op)
                &&& d.verdict is None
                &&& after == (SharedSpec { pending: before.pending.remove(at), ..before })
            },
        Err(m) => {
            &&& forall|at: int| !#[trigger] only_hit(before.pending, prefix, at)
            &&& m@ == take_refusal(before.pending, prefix)
            &&& after == before
        },
    }
}

/// Whether a body that denies a request comes to what it has to.
pub open spec fn deny_follows(
    c: CtxSpec,
    c_after: CtxSpec,
    body: JsonSpec,
    r: Result<Delivery, String>,
) -> bool {
    &&& c_after == (CtxSpec { state: c_after.state, ..c })
    &&& match body.text_member("digest"@) {
        None => {
            &&& r matches Err(m)
            &&& m@ == "missing digest"@
            &&& c_after == c
        },
        Some(digest) => denial_follows(c.state, c_after.state, digest, r),
    }
}

/// Denies a waiting request. The verdict is to be handed to the waiting side;
/// [`denied_reply`] then answers the phone.
pub fn deny(ctx: &mut Ctx, body: &Json) -> (r: Result<Delivery, String>)
    requires
        old(ctx)@.state.wf(),
    ensures
        final(ctx)@.state.wf(),
        deny_follows(old(ctx)@, final(ctx)@, body@, r),
{
    let digest = match body.get_text("digest") {
        Some(d) => d,
        None => {
            return Err("missing digest".to_owned());
        },
    };
    let step = deny_with(&mut ctx.state, digest.as_str());
    let ghost given = step;
    let r = put_in_words(step);
    proof {
        if let Ok(d) = given {
            let at = choose|at: int|
                {
                    &&& #[trigger] only_hit(old(ctx)@.state.pending, digest@, at)
                    &&& d.digest@ == old(ctx)@.state.pending[at].digest
                    &&& d.summary@ == operation_summary(old(ctx)@.state.pending[at].request.op)
                    &&& d.verdict is None
                    &&& ctx@.state == (SharedSpec {
                        pending: old(ctx)@.state.pending.remove(at),
                        ..old(ctx)@.state
                    })
                };
            assert(only_hit(old(ctx)@.state.pending, digest@, at));
        }
        assert(denial_follows(old(ctx)@.state, ctx@.state, digest@, r));
    }
    r
}

/// Whether a body that claims to finish an approval carries no assertion. Such a body is turned
/// away before it touches anything that waits.
pub fn reject_unauthenticated_release(body: &Json) -> (r: bool)
    ensures
        r == (body@.member("cred"@) is None || body@.member("id"@) is None),
{
    body.get("cred").is_none() || body.get("id").is_none()
}

}
