//! Passkey ceremonies that have been started and not finished: enrollments of new approvers, and
//! approvals of waiting requests. The approval page and the phone share them.
use std::collections::HashMap;
use vstd::prelude::*;
use vstd::std_specs::hash::*;
use vstd::string::*;

use crate::codec::{hex_encode, hex_of, new_uuid, uuid_in, uuid_text, uuid_to_text};
use crate::daemon::binding::{
    bind_challenge, bound, challenge_of, check_bound, derive_challenge, options_bound, rebind_failure,
    state_bound, verification_code, BindError, BindFault,
};
use crate::daemon::ctl::{opt_envelope, Delivery, ENVELOPE_TTL_SECS};
use crate::daemon::ctx::CtxSpec;
use crate::daemon::enroll::{has_code, live_codes, typed_code, EnrollCodes};
use crate::daemon::passkey::{
    asks_to_assert, asks_to_enroll, assertion_key, byte_lists, finish_authentication,
    finish_registration, keeps_assertion, keeps_enrollment, made_for, origin_read, passkey_id,
    passkey_ids, read_passkey_id, registered_key, relying_party, rp_accepted, start_authentication,
    start_registration, Assertion, Ceremony,
};
use crate::daemon::server::approval_notices;
use crate::daemon::state::{
    law_full_digest_is_unique, only_hit, waits, waits_at, Shared, SharedSpec, WaitingSpec,
};
use crate::json::{
    items_view, json_parse, lemma_array_view, lemma_object_view, member, members_view, parse, text,
    Json, JsonSpec, Member,
};
use crate::proto::envelope::{ApprovalEnvelope, EnvelopeSpec, SigScheme};
use crate::proto::request::{operation_summary, request_digest, RequestSpec};
use crate::proto::wire::Tier;
use crate::text::first_chars;

verus! {

/// An approval ceremony: the request it is for, and what is kept to verify it.
pub struct AuthState {
    pub digest: String,
    pub state: Json,
}

/// The ceremonies of one relying party.
pub struct Ceremonies {
    pub webauthn: webauthn_rs::Webauthn,
    pub registrations: HashMap<u128, Json>,
    pub authentications: HashMap<u128, AuthState>,
}

/// Why a ceremony did not succeed.
pub enum CeremonyError {
    BadCode,
    RegisterStart(String),
    UnknownRegistration,
    RegisterFinish(String),
    NotPending,
    NoPasskeys,
    AuthStart(String),
    Rebind(String),
    UnknownAuth,
    Rejected(String),
    NotBound(BindError),
    Take(String),
    Gone,
}

impl CeremonyError {
    /// The HTTP status of the error.
    pub open spec fn status_spec(self) -> u16 {
        match self {
            CeremonyError::BadCode => 401,
            CeremonyError::RegisterStart(_) => 500,
            CeremonyError::UnknownRegistration => 400,
            CeremonyError::RegisterFinish(_) => 400,
            CeremonyError::NotPending => 404,
            CeremonyError::NoPasskeys => 412,
            CeremonyError::AuthStart(_) => 500,
            CeremonyError::Rebind(_) => 500,
            CeremonyError::UnknownAuth => 400,
            CeremonyError::Rejected(_) => 401,
            CeremonyError::NotBound(_) => 401,
            CeremonyError::Take(_) => 404,
            CeremonyError::Gone => 410,
        }
    }

    /// The error in words.
    pub open spec fn reason(self) -> Seq<char> {
        match self {
            CeremonyError::BadCode =>
                "enrollment code invalid or expired (run `gate enroll-code`)"@,
            CeremonyError::RegisterStart(e) => "register start: "@ + e@,
            CeremonyError::UnknownRegistration => "unknown registration ceremony"@,
            CeremonyError::RegisterFinish(e) => "register finish: "@ + e@,
            CeremonyError::NotPending => "no such pending request"@,
            CeremonyError::NoPasskeys => "no phone passkeys enrolled"@,
            CeremonyError::AuthStart(e) => "auth start: "@ + e@,
            CeremonyError::Rebind(e) => e@,
            CeremonyError::UnknownAuth => "unknown auth ceremony"@,
            CeremonyError::Rejected(e) => "assertion rejected: "@ + e@,
            CeremonyError::NotBound(e) => e@.reason(),
            CeremonyError::Take(e) => e@,
            CeremonyError::Gone => "request no longer waiting"@,
        }
    }

    /// The HTTP status of the error.
    pub fn status(&self) -> (r: u16)
        ensures
            r == self.status_spec(),
    {
        match self {
            CeremonyError::BadCode => 401,
            CeremonyError::RegisterStart(_) => 500,
            CeremonyError::UnknownRegistration => 400,
            CeremonyError::RegisterFinish(_) => 400,
            CeremonyError::NotPending => 404,
            CeremonyError::NoPasskeys => 412,
            CeremonyError::AuthStart(_) => 500,
            CeremonyError::Rebind(_) => 500,
            CeremonyError::UnknownAuth => 400,
            CeremonyError::Rejected(_) => 401,
            CeremonyError::NotBound(_) => 401,
            CeremonyError::Take(_) => 404,
            CeremonyError::Gone => 410,
        }
    }

    /// The error in words.
    pub fn message(&self) -> (r: String)
        ensures
            r@ == self.reason(),
    {
        match self {
            CeremonyError::BadCode =>
                "enrollment code invalid or expired (run `gate enroll-code`)".to_owned(),
            CeremonyError::RegisterStart(e) => prefixed("register start: ", e.as_str()),
            CeremonyError::UnknownRegistration => "unknown registration ceremony".to_owned(),
            CeremonyError::RegisterFinish(e) => prefixed("register finish: ", e.as_str()),
            CeremonyError::NotPending => "no such pending request".to_owned(),
            CeremonyError::NoPasskeys => "no phone passkeys enrolled".to_owned(),
            CeremonyError::AuthStart(e) => prefixed("auth start: ", e.as_str()),
            CeremonyError::Rebind(e) => e.clone(),
            CeremonyError::UnknownAuth => "unknown auth ceremony".to_owned(),
            CeremonyError::Rejected(e) => prefixed("assertion rejected: ", e.as_str()),
            CeremonyError::NotBound(e) => e.message(),
            CeremonyError::Take(e) => e.clone(),
            CeremonyError::Gone => "request no longer waiting".to_owned(),
        }
    }
}

fn prefixed(head: &str, tail: &str) -> (r: String)
    ensures
        r@ == head@ + tail@,
{
    let mut out = head.to_owned();
    out.append(tail);
    out
}

/// What the client gets when an enrollment was started.
pub open spec fn registration_reply(user: u128, options: JsonSpec) -> JsonSpec {
    JsonSpec::Object(seq![("id"@, JsonSpec::Text(uuid_text(user))), ("options"@, options)])
}

/// What the client gets when an approval was started. The code is computed from the request
/// that the daemon bound, so a human sees when another request was put in its place.
pub open spec fn approval_reply(id: u128, options: JsonSpec, digest: Seq<char>) -> JsonSpec {
    JsonSpec::Object(
        seq![
            ("id"@, JsonSpec::Text(uuid_text(id))),
            ("options"@, options),
            ("code"@, JsonSpec::Text(first_chars(digest, 8))),
        ],
    )
}

/// The code that the client gets for a request is the one that stands on the terminal behind the
/// call for its approval.
pub proof fn law_code_is_on_the_terminal(
    c: CtxSpec,
    r: RequestSpec,
    tier: Tier,
    id: u128,
    options: JsonSpec,
)
    ensures
        approval_reply(id, options, request_digest(r)).text_member("code"@) matches Some(code)
            && approval_notices(c, r, tier).len() > 0 && ("APPROVAL NEEDED ["@ + code
            + "] "@).is_prefix_of(approval_notices(c, r, tier)[0]),
{
    reveal_strlit("id");
    reveal_strlit("options");
    reveal_strlit("code");
    let reply = approval_reply(id, options, request_digest(r));
    let code = first_chars(request_digest(r), 8);
    let v = reply->Object_0;
    reveal_with_fuel(crate::json::first_member, 4);
    assert("id"@.len() != "code"@.len());
    assert("options"@.len() != "code"@.len());
    assert(v.drop_first() =~= seq![v[1], v[2]]);
    assert(v.drop_first().drop_first() =~= seq![v[2]]);
    let head = "APPROVAL NEEDED ["@ + code + "] "@;
    let first = approval_notices(c, r, tier)[0];
    assert(first.subrange(0, head.len() as int) =~= head);
}

/// Whether an enrollment goes on as the outcome of starting it says: what is kept is kept under
/// the user's id, and the client gets the rest.
pub open spec fn registration_follows(
    before: Map<u128, Json>,
    after: Map<u128, Json>,
    user: u128,
    outcome: Result<Ceremony, String>,
    r: Result<Json, CeremonyError>,
) -> bool {
    match outcome {
        Ok(c) => {
            &&& after == before.insert(user, c.state)
            &&& r matches Ok(j)
            &&& j@ == registration_reply(user, c.options@)
        },
        Err(e) => {
            &&& after == before
            &&& r matches Err(CeremonyError::RegisterStart(m))
            &&& m == e
        },
    }
}

/// What an enrollment fails with where a stored passkey cannot be read.
pub open spec fn unreadable() -> Seq<char> {
    "stored passkey is unreadable"@
}

/// Whether an outcome is one of starting an enrollment for a user, under a name that is shown and
/// one that is not, where some passkeys are enrolled already.
pub open spec fn enrollment_begun(
    w: webauthn_rs::Webauthn,
    user: u128,
    name: Seq<char>,
    display: Seq<char>,
    passkeys: Seq<JsonSpec>,
    outcome: Result<Ceremony, String>,
) -> bool {
    match passkey_ids(passkeys) {
        Some(ids) => match outcome {
            Ok(c) => {
                &&& asks_to_enroll(c.options@, made_for(w), user, name, display, ids)
                &&& keeps_enrollment(c.options@, c.state@, ids)
            },
            Err(_) => name.len() == 0 || display.len() == 0,
        },
        None => outcome matches Err(m) && m@ == unreadable(),
    }
}

/// Whether an outcome is one of starting an approval with one of some passkeys.
pub open spec fn approval_begun(
    w: webauthn_rs::Webauthn,
    passkeys: Seq<JsonSpec>,
    outcome: Result<Ceremony, String>,
) -> bool {
    match passkey_ids(passkeys) {
        Some(ids) => match outcome {
            Ok(c) => {
                &&& asks_to_assert(c.options@, made_for(w).0, ids)
                &&& keeps_assertion(c.options@, c.state@, ids)
            },
            Err(_) => false,
        },
        None => outcome is Err,
    }
}

/// The passkey that a credential enrolls in a ceremony that was started, if it answers it.
pub open spec fn key_of_ceremony(c: Ceremonies, id: u128, cred: JsonSpec) -> Option<JsonSpec> {
    if c.registrations@.contains_key(id) {
        registered_key(made_for(c.webauthn).0, made_for(c.webauthn).1, cred, c.registrations@[id]@)
    } else {
        None
    }
}

/// The ids of some passkeys; nothing where one of the values is no passkey.
fn ids_of(passkeys: &Vec<Json>) -> (r: Option<Vec<Vec<u8>>>)
    ensures
        match r {
            Some(ids) => passkey_ids(items_view(passkeys@)) == Some(byte_lists(ids@)),
            None => passkey_ids(items_view(passkeys@)) is None,
        },
{
    let ghost m = items_view(passkeys@);
    let mut ids: Vec<Vec<u8>> = Vec::new();
    let mut i: usize = 0;
    while i < passkeys.len()
        invariant
            m == items_view(passkeys@),
            i <= passkeys.len(),
            ids.len() == i,
            forall|k: int|
                0 <= k < i ==> passkey_id(#[trigger] m[k]) == Some(ids@[k]@),
        decreases passkeys.len() - i,
    {
        match read_passkey_id(&passkeys[i]) {
            Some(id) => ids.push(id),
            None => {
                assert(passkey_id(m[i as int]) is None);
                return None;
            },
        }
        i += 1;
    }
    assert(passkey_ids(m) is Some);
    assert(passkey_ids(m)->0 =~= byte_lists(ids@));
    Some(ids)
}

/// Whether an approval goes on as the outcome of starting it says: the challenge of the request
/// is put in place of the random one, what is kept is kept under the ceremony's id together with
/// the request, and the client gets the rest.
pub open spec fn approval_follows(
    before: Map<u128, AuthState>,
    after: Map<u128, AuthState>,
    digest: Seq<char>,
    nonce: Seq<char>,
    id: u128,
    outcome: Result<Ceremony, String>,
    r: Result<Json, CeremonyError>,
) -> bool {
    match outcome {
        Ok(c) => {
            let challenge = challenge_of(digest, nonce);
            match r {
                Ok(j) => {
                    &&& rebind_failure(c.options@, c.state@, challenge) is None
                    &&& j@ == approval_reply(id, options_bound(c.options@, challenge)->0, digest)
                    &&& uuid_in(JsonSpec::Text(uuid_text(id))) == Ok::<u128, Seq<char>>(id)
                    &&& after.dom() == before.dom().insert(id)
                    &&& after[id].digest@ == digest
                    &&& after[id].state@ == state_bound(c.state@, challenge)->0
                    &&& forall|k: u128|
                        k != id && #[trigger] before.contains_key(k) ==> after[k] == before[k]
                },
                Err(CeremonyError::Rebind(m)) => {
                    &&& after == before
                    &&& rebind_failure(c.options@, c.state@, challenge) == Some(m@)
                },
                _ => false,
            }
        },
        Err(e) => {
            &&& after == before
            &&& r matches Err(CeremonyError::AuthStart(m))
            &&& m == e
        },
    }
}

/// The passkeys in a stored text: those of an array that holds nothing else, and none where the text
/// is anything else.
pub open spec fn passkeys_stored(stored: Seq<char>) -> Seq<JsonSpec> {
    match json_parse(stored) {
        Some(JsonSpec::Array(v)) if passkey_ids(v) is Some => v,
        _ => Seq::empty(),
    }
}

/// Reads stored passkeys.
pub fn passkeys_in(stored: &str) -> (r: Vec<Json>)
    ensures
        items_view(r@) == passkeys_stored(stored@),
{
    if let Ok(Json::Array(list)) = parse(stored) {
        proof {
            lemma_array_view(list);
        }
        if ids_of(&list).is_some() {
            return list;
        }
    }
    let none: Vec<Json> = Vec::new();
    assert(items_view(none@) =~= Seq::empty());
    none
}

/// The approval that a passkey gives to a waiting request.
pub open spec fn passkey_envelope(w: WaitingSpec, key: Seq<u8>, sig: Seq<char>, now: i64) -> EnvelopeSpec {
    EnvelopeSpec {
        digest: w.digest,
        nonce: w.nonce,
        issued_at: now,
        expires_at: (now + ENVELOPE_TTL_SECS) as i64,
        key_id: hex_of(key),
        scheme: SigScheme::Webauthn,
        sig,
    }
}

/// Whether the outcome is the release of the request at a position of the list.
pub open spec fn released_at(
    before: SharedSpec,
    after: SharedSpec,
    at: int,
    key: Seq<u8>,
    sig: Seq<char>,
    now: i64,
    d: Delivery,
) -> bool {
    &&& 0 <= at < before.pending.len()
    &&& d.digest@ == before.pending[at].digest
    &&& d.summary@ == operation_summary(before.pending[at].request.op)
    &&& opt_envelope(d.verdict) == Some(passkey_envelope(before.pending[at], key, sig, now))
    &&& after == (SharedSpec { pending: before.pending.remove(at), ..before })
}

/// Whether a passkey's assertion releases a request as it has to: only a request that waits, and
/// only where the assertion was signed for it.
pub open spec fn release_follows(
    before: SharedSpec,
    after: SharedSpec,
    digest: Seq<char>,
    client_data: Seq<u8>,
    key: Seq<u8>,
    sig: Seq<char>,
    now: i64,
    r: Result<Delivery, CeremonyError>,
) -> bool {
    match r {
        Ok(d) => exists|at: int|
            {
                &&& #[trigger] waits_at(before.pending, digest, at)
                &&& bound(client_data, digest, before.pending[at].nonce) is Ok
                &&& released_at(before, after, at, key, sig, now, d)
            },
        Err(CeremonyError::NotPending) => !waits(before.pending, digest) && after == before,
        Err(CeremonyError::NotBound(e)) => after == before && exists|at: int|
            #[trigger] waits_at(before.pending, digest, at) && bound(
                client_data,
                digest,
                before.pending[at].nonce,
            ) == Err::<(), BindFault>(e@),
        _ => false,
    }
}

/// The text to keep with an approval: the assertion, or nothing.
pub open spec fn kept_text(cred: Assertion, keep: bool) -> Seq<char> {
    if keep {
        cred.text@
    } else {
        Seq::empty()
    }
}

/// Releases the waiting request that an approval ceremony was for, given the id of the passkey
/// whose assertion answered it. The challenge is derived again from the request that is about to
/// be released and compared with the one that was signed, so the release does not rest on
/// the pairing of ceremony and request alone.
pub fn release_with(
    state: &mut Shared,
    digest: &str,
    key: &[u8],
    cred: &Assertion,
    keep: bool,
    now: i64,
) -> (r: Result<Delivery, CeremonyError>)
    requires
        old(state)@.wf(),
        now <= i64::MAX - ENVELOPE_TTL_SECS,
    ensures
        final(state)@.wf(),
        release_follows(
            old(state)@,
            final(state)@,
            digest@,
            cred.client_data@,
            key@,
            kept_text(*cred, keep),
            now,
            r,
        ),
{
    let ghost p = state@.pending;
    let nonce = match state.pending_nonce(digest) {
        Some(n) => n,
        None => {
            return Err(CeremonyError::NotPending);
        },
    };
    let ghost at = choose|at: int| #[trigger] waits_at(p, digest@, at) && p[at].nonce == nonce@;
    if let Err(e) = check_bound(cred, digest, nonce.as_str()) {
        assert(waits_at(p, digest@, at));
        return Err(CeremonyError::NotBound(e));
    }
    proof {
        law_full_digest_is_unique(state@, at);
    }
    match state.take_pending(digest) {
        Ok((digest, pending)) => {
            let summary = pending.request.summary();
            let sig = if keep {
                cred.text.clone()
            } else {
                String::new()
            };
            let envelope = ApprovalEnvelope {
                digest: digest.clone(),
                nonce: pending.nonce,
                issued_at: now,
                expires_at: now + ENVELOPE_TTL_SECS,
                key_id: hex_encode(key),
                scheme: SigScheme::Webauthn,
                sig,
            };
            assert(envelope.sig@ =~= kept_text(*cred, keep));
            let d = Delivery { digest, verdict: Some(envelope), summary };
            assert(waits_at(p, p[at].digest, at));
            assert(released_at(
                old(state)@,
                state@,
                at,
                key@,
                kept_text(*cred, keep),
                now,
                d,
            ));
            Ok(d)
        },
        Err(e) => Err(CeremonyError::Take(e)),
    }
}

/// Takes a waiting request off the list to deny it.
pub fn deny_with(state: &mut Shared, digest_prefix: &str) -> (r: Result<Delivery, CeremonyError>)
    requires
        old(state)@.wf(),
    ensures
        final(state)@.wf(),
        match r {
            Ok(d) => exists|at: int|
                {
                    &&& #[trigger] only_hit(old(state)@.pending, digest_prefix@, at)
                    &&& d.digest@ == old(state)@.pending[at].digest
                    &&& d.summary@ == operation_summary(old(state)@.pending[at].request.op)
                    &&& d.verdict is None
                    &&& final(state)@ == (SharedSpec {
                        pending: old(state)@.pending.remove(at),
                        ..old(state)@
                    })
                },
            Err(CeremonyError::Take(m)) => {
                &&& forall|at: int| !#[trigger] only_hit(old(state)@.pending, digest_prefix@, at)
                &&& m@ == crate::daemon::state::take_refusal(old(state)@.pending, digest_prefix@)
                &&& final(state)@ == old(state)@
            },
            Err(_) => false,
        },
{
    match state.take_pending(digest_prefix) {
        Ok((digest, pending)) => {
            let summary = pending.request.summary();
            Ok(Delivery { digest, verdict: None, summary })
        },
        Err(m) => Err(CeremonyError::Take(m)),
    }
}

impl Ceremonies {
    /// The ceremonies of a relying party; nothing where it cannot have that origin.
    pub fn new(rp_id: &str, origin: &str) -> (r: Option<Ceremonies>)
        ensures
            r is Some == rp_accepted(rp_id@, origin@),
            r matches Some(c) ==> {
                &&& made_for(c.webauthn) == (rp_id@, origin_read(origin@), "Gatehouse"@)
                &&& c.registrations@ == Map::<u128, Json>::empty()
                &&& c.authentications@ == Map::<u128, AuthState>::empty()
            },
    {
        match relying_party(rp_id, origin, "Gatehouse") {
            Some(webauthn) => Some(
                Ceremonies {
                    webauthn,
                    registrations: HashMap::new(),
                    authentications: HashMap::new(),
                },
            ),
            None => None,
        }
    }

    /// Goes on with an enrollment as the outcome of starting it says.
    pub fn registration_started(&mut self, user: u128, outcome: Result<Ceremony, String>) -> (r:
        Result<Json, CeremonyError>)
        ensures
            registration_follows(
                old(self).registrations@,
                final(self).registrations@,
                user,
                outcome,
                r,
            ),
            final(self).webauthn == old(self).webauthn,
            final(self).authentications@ == old(self).authentications@,
    {
        broadcast use group_hash_axioms;

        match outcome {
            Ok(c) => {
                let ghost options = c.options@;
                self.registrations.insert(user, c.state);
                let mut out: Vec<Member> = Vec::new();
                out.push(member("id", text(uuid_to_text(user).as_str())));
                out.push(member("options", c.options));
                proof {
                    lemma_object_view(out);
                    assert(members_view(out@) =~= registration_reply(user, options)->Object_0);
                }
                Ok(Json::Object(out))
            },
            Err(e) => Err(CeremonyError::RegisterStart(e)),
        }
    }

    /// Starts the enrollment of a new approver. The token that got the client here is not
    /// enough: it takes a one-time code that the operator read off their own terminal. A bad code
    /// starts nothing.
    pub fn start_registration(
        &mut self,
        codes: &mut EnrollCodes,
        code: &str,
        passkeys: &Vec<Json>,
        name: &str,
        display: &str,
        now: u64,
    ) -> (r: Result<Json, CeremonyError>)
        ensures
            final(self).webauthn == old(self).webauthn,
            final(self).authentications@ == old(self).authentications@,
            r is Err && r->Err_0 is BadCode <==> !has_code(
                live_codes(old(codes)@, now),
                typed_code(code@),
            ),
            r is Err && r->Err_0 is BadCode ==> {
                &&& final(self).registrations@ == old(self).registrations@
                &&& final(codes)@ == live_codes(old(codes)@, now)
            },
            !(r is Err && r->Err_0 is BadCode) ==> {
                &&& exists|at: int|
                    #[trigger] crate::daemon::enroll::last_code_at(
                        live_codes(old(codes)@, now),
                        typed_code(code@),
                        at,
                    ) && final(codes)@ == live_codes(old(codes)@, now).remove(at)
                &&& exists|user: u128, outcome: Result<Ceremony, String>|
                    enrollment_begun(
                        old(self).webauthn,
                        user,
                        name@,
                        display@,
                        items_view(passkeys@),
                        outcome,
                    ) && #[trigger] registration_follows(
                        old(self).registrations@,
                        final(self).registrations@,
                        user,
                        outcome,
                        r,
                    )
            },
            has_code(live_codes(old(codes)@, now), typed_code(code@)) && name@.len() > 0
                && display@.len() > 0 ==> r is Ok == (passkey_ids(items_view(passkeys@)) is Some),
    {
        if !codes.redeem(code, now) {
            return Err(CeremonyError::BadCode);
        }
        let user = new_uuid();
        let outcome = match ids_of(passkeys) {
            Some(ids) => start_registration(&self.webauthn, user, name, display, &ids),
            None => Err("stored passkey is unreadable".to_owned()),
        };
        let ghost given = outcome;
        assert(enrollment_begun(
            self.webauthn,
            user,
            name@,
            display@,
            items_view(passkeys@),
            given,
        ));
        let r = self.registration_started(user, outcome);
        assert(registration_follows(
            old(self).registrations@,
            self.registrations@,
            user,
            given,
            r,
        ));
        r
    }

    /// Finishes the enrollment of a new approver: the passkey that was registered.
    pub fn finish_registration(&mut self, id: u128, cred: &Json) -> (r: Result<Json, CeremonyError>)
        ensures
            final(self).webauthn == old(self).webauthn,
            final(self).authentications@ == old(self).authentications@,
            final(self).registrations@ == old(self).registrations@.remove(id),
            match key_of_ceremony(*old(self), id, cred@) {
                Some(key) => r matches Ok(k) && k@ == key,
                None => r is Err && if old(self).registrations@.contains_key(id) {
                    r->Err_0 is RegisterFinish
                } else {
                    r->Err_0 is UnknownRegistration
                },
            },
    {
        broadcast use group_hash_axioms;

        match self.registrations.remove(&id) {
            Some(state) => match finish_registration(&self.webauthn, cred, &state) {
                Ok(key) => Ok(key),
                Err(e) => Err(CeremonyError::RegisterFinish(e)),
            },
            None => {
                assert(self.registrations@ =~= old(self).registrations@.remove(id));
                Err(CeremonyError::UnknownRegistration)
            },
        }
    }

    /// Goes on with an approval of a request as the outcome of starting it says.
    pub fn approval_started(
        &mut self,
        digest: &str,
        nonce: &str,
        id: u128,
        outcome: Result<Ceremony, String>,
    ) -> (r: Result<Json, CeremonyError>)
        ensures
            approval_follows(
                old(self).authentications@,
                final(self).authentications@,
                digest@,
                nonce@,
                id,
                outcome,
                r,
            ),
            final(self).webauthn == old(self).webauthn,
            final(self).registrations@ == old(self).registrations@,
    {
        broadcast use group_hash_axioms;

        match outcome {
            Ok(c) => {
                let challenge = derive_challenge(digest, nonce);
                let mut options = c.options;
                match bind_challenge(&mut options, c.state, &challenge) {
                    Ok(state) => {
                        let ghost shown = options@;
                        self.authentications.insert(
                            id,
                            AuthState { digest: digest.to_owned(), state },
                        );
                        let mut out: Vec<Member> = Vec::new();
                        out.push(member("id", text(uuid_to_text(id).as_str())));
                        out.push(member("options", options));
                        out.push(member("code", text(verification_code(digest).as_str())));
                        proof {
                            lemma_object_view(out);
                            assert(members_view(out@) =~= approval_reply(
                                id,
                                shown,
                                digest@,
                            )->Object_0);
                        }
                        Ok(Json::Object(out))
                    },
                    Err(e) => Err(CeremonyError::Rebind(e)),
                }
            },
            Err(e) => Err(CeremonyError::AuthStart(e)),
        }
    }

    /// Starts the approval of a waiting request with one of the enrolled passkeys.
    pub fn start_approval(&mut self, state: &Shared, digest: &str, passkeys: &Vec<Json>) -> (r: Result<
        Json,
        CeremonyError,
    >)
        ensures
            final(self).webauthn == old(self).webauthn,
            final(self).registrations@ == old(self).registrations@,
            r is Err && r->Err_0 is NotPending <==> !waits(state@.pending, digest@),
            r is Err && r->Err_0 is NoPasskeys <==> waits(state@.pending, digest@)
                && passkeys@.len() == 0,
            r is Err && (r->Err_0 is NotPending || r->Err_0 is NoPasskeys)
                ==> final(self).authentications@ == old(self).authentications@,
            !(r is Err && (r->Err_0 is NotPending || r->Err_0 is NoPasskeys)) ==> exists|
                at: int,
                id: u128,
                outcome: Result<Ceremony, String>,
            |
                waits_at(state@.pending, digest@, at) && approval_begun(
                    old(self).webauthn,
                    items_view(passkeys@),
                    outcome,
                ) && #[trigger] approval_follows(
                    old(self).authentications@,
                    final(self).authentications@,
                    digest@,
                    state@.pending[at].nonce,
                    id,
                    outcome,
                    r,
                ),
            r is Ok <==> waits(state@.pending, digest@) && passkeys@.len() > 0 && passkey_ids(
                items_view(passkeys@),
            ) is Some,
    {
        let nonce = match state.pending_nonce(digest) {
            Some(n) => n,
            None => {
                return Err(CeremonyError::NotPending);
            },
        };
        let ghost at = choose|at: int|
            #[trigger] waits_at(state@.pending, digest@, at) && state@.pending[at].nonce == nonce@;
        assert(waits_at(state@.pending, digest@, at));
        if passkeys.len() == 0 {
            return Err(CeremonyError::NoPasskeys);
        }
        let outcome = start_authentication(&self.webauthn, passkeys);
        let ghost given = outcome;
        assert(approval_begun(self.webauthn, items_view(passkeys@), given));
        let id = new_uuid();
        let r = self.approval_started(digest, nonce.as_str(), id, outcome);
        assert(approval_follows(
            old(self).authentications@,
            self.authentications@,
            digest@,
            state@.pending[at].nonce,
            id,
            given,
            r,
        ));
        r
    }

    /// Finishes the approval of a request with an assertion. The ceremony is over whatever comes
    /// of it.
    pub fn finish_approval(
        &mut self,
        state: &mut Shared,
        id: u128,
        cred: &Assertion,
        keep: bool,
        now: i64,
    ) -> (r: Result<Delivery, CeremonyError>)
        requires
            old(state)@.wf(),
            now <= i64::MAX - ENVELOPE_TTL_SECS,
        ensures
            final(state)@.wf(),
            final(self).webauthn == old(self).webauthn,
            final(self).registrations@ == old(self).registrations@,
            final(self).authentications@ == old(self).authentications@.remove(id),
            !old(self).authentications@.contains_key(id) ==> {
                &&& r is Err && r->Err_0 is UnknownAuth
                &&& final(state)@ == old(state)@
            },
            old(self).authentications@.contains_key(id) ==> {
                let kept = old(self).authentications@[id];
                match assertion_key(
                    made_for(old(self).webauthn).0,
                    made_for(old(self).webauthn).1,
                    cred.json@,
                    kept.state@,
                ) {
                    None => {
                        &&& r is Err && r->Err_0 is Rejected
                        &&& final(state)@ == old(state)@
                    },
                    Some(key) => release_follows(
                        old(state)@,
                        final(state)@,
                        kept.digest@,
                        cred.client_data@,
                        key,
                        kept_text(*cred, keep),
                        now,
                        r,
                    ),
                }
            },
    {
        broadcast use group_hash_axioms;

        match self.authentications.remove(&id) {
            Some(kept) => match finish_authentication(&self.webauthn, &cred.json, &kept.state) {
                Ok(key) => release_with(
                    state,
                    kept.digest.as_str(),
                    key.as_slice(),
                    cred,
                    keep,
                    now,
                ),
                Err(e) => Err(CeremonyError::Rejected(e)),
            },
            None => {
                assert(self.authentications@ =~= old(self).authentications@.remove(id));
                Err(CeremonyError::UnknownAuth)
            },
        }
    }
}

/// An assertion that was signed for one waiting request releases no other: what it releases waits
/// under the digest and nonce it was signed for, short of a SHA-256 collision.
pub proof fn law_assertion_releases_its_request(
    before: SharedSpec,
    after: SharedSpec,
    digest: Seq<char>,
    client_data: Seq<u8>,
    key: Seq<u8>,
    sig: Seq<char>,
    now: i64,
    d: Delivery,
)
    requires
        before.wf(),
        release_follows(
            before,
            after,
            digest,
            client_data,
            key,
            sig,
            now,
            Ok::<Delivery, CeremonyError>(d),
        ),
    ensures
        d.digest@ == digest,
        opt_envelope(d.verdict) matches Some(e) && e.digest == digest && bound(
            client_data,
            digest,
            e.nonce,
        ) is Ok && crate::daemon::binding::signed_challenge(client_data) == Ok::<Seq<u8>, BindFault>(
            challenge_of(digest, e.nonce),
        ),
        !waits(after.pending, digest),
{
    let at = choose|at: int|
        {
            &&& #[trigger] waits_at(before.pending, digest, at)
            &&& bound(client_data, digest, before.pending[at].nonce) is Ok
            &&& released_at(before, after, at, key, sig, now, d)
        };
    let p = before.pending;
    let q = p.remove(at);
    assert forall|k: int| !waits_at(q, digest, k) by {
        if waits_at(q, digest, k) {
            if k < at {
                assert(q[k] == p[k]);
                assert(p[k].digest != p[at].digest);
            } else {
                assert(q[k] == p[k + 1]);
                assert(p[at].digest != p[k + 1].digest);
            }
        }
    }
}

}
