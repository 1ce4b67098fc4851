//! The approval page: passkey enrollment, and approvals that a passkey attests.
//!
//! Every call is turned away with a status unless it presents the page's token. The challenge of
//! an approval is derived from the waiting request, as it is for phones.
use vstd::prelude::*;
use vstd::string::*;

use crate::codec::secret_equal;
use crate::daemon::body::{
    code_body, digest_body, finish_body, read_code_body, read_digest_body, read_finish_body,
};
use crate::daemon::ceremony::{
    approval_begun, approval_follows, deny_with, enrollment_begun, key_of_ceremony,
    registration_follows, release_follows, AuthState, Ceremonies, CeremonyError,
};
use crate::daemon::ctl::{Delivery, ENVELOPE_TTL_SECS};
use crate::daemon::ctx::{Ctx, CtxSpec};
use crate::daemon::enroll::{has_code, live_codes, typed_code};
use crate::daemon::passkey::{
    assertion_key, assertion_parts, check_registration, is_registration, made_for, origin_read,
    passkey_ids, rp_accepted, Assertion, Ceremony,
};
use crate::daemon::phone::{
    enrolled_reply, passkey_registered, pending_model, pending_reply, shows_all,
};
use crate::daemon::state::{only_hit, waits, waits_at, SharedSpec};
use crate::json::{Json, JsonSpec};
use crate::number::{decimal, to_decimal};
use crate::proto::request::operation_summary;
use crate::proto::wire::entries_view;
use crate::text::opt_str;

verus! {

/// The status of a call that does not present the token.
pub const UNAUTHORIZED: u16 = 401;

/// The status of a call whose body does not say what it has to.
pub const UNPROCESSABLE: u16 = 422;

/// The approval page.
pub struct WebCtx {
    pub token: String,
    pub ceremonies: Ceremonies,
}

/// The origin of the approval page.
pub open spec fn page_origin(port: u16) -> Seq<char> {
    "http://localhost:"@ + decimal(port as nat)
}

/// Whether a call presents a token. A call without one presents an empty one.
pub open spec fn presents(header: Option<Seq<char>>, token: Seq<char>) -> bool {
    match header {
        Some(h) => h == token,
        None => token.len() == 0,
    }
}

/// The status with which a call is turned away, if it is: its body does not say what it has to, or it
/// does not present the token.
pub open spec fn turned_away(
    understood: bool,
    header: Option<Seq<char>>,
    token: Seq<char>,
) -> Option<u16> {
    if !understood {
        Some(UNPROCESSABLE)
    } else if !presents(header, token) {
        Some(UNAUTHORIZED)
    } else {
        None
    }
}

/// The result of a step as a status.
pub open spec fn as_status<T>(r: Result<T, CeremonyError>, w: Result<T, u16>) -> bool {
    match r {
        Ok(v) => w == Ok::<T, u16>(v),
        Err(e) => w == Err::<T, u16>(e.status_spec()),
    }
}

fn to_status<T>(r: Result<T, CeremonyError>) -> (w: Result<T, u16>)
    ensures
        as_status(r, w),
{
    match r {
        Ok(v) => Ok(v),
        Err(e) => Err(e.status()),
    }
}

/// Whether an enrollment starts as it has to.
pub open spec fn reg_start_follows(
    before: WebCtx,
    after: WebCtx,
    passkeys: Seq<JsonSpec>,
    codes: Seq<crate::daemon::enroll::CodeSpec>,
    codes_after: Seq<crate::daemon::enroll::CodeSpec>,
    code: Seq<char>,
    now: u64,
    r: Result<Json, u16>,
) -> bool {
    if !has_code(live_codes(codes, now), typed_code(code)) {
        &&& r == Err::<Json, u16>(401)
        &&& codes_after == live_codes(codes, now)
        &&& after.ceremonies.registrations@ == before.ceremonies.registrations@
    } else {
        &&& exists|at: int|
            #[trigger] crate::daemon::enroll::last_code_at(
                live_codes(codes, now),
                typed_code(code),
                at,
            ) && codes_after == live_codes(codes, now).remove(at)
        &&& r is Ok == (passkey_ids(passkeys) is Some)
        &&& exists|user: u128, outcome: Result<Ceremony, String>, step: Result<Json, CeremonyError>|
            enrollment_begun(
                before.ceremonies.webauthn,
                user,
                "operator"@,
                "Gatehouse Operator"@,
                passkeys,
                outcome,
            ) && #[trigger] registration_follows(
                before.ceremonies.registrations@,
                after.ceremonies.registrations@,
                user,
                outcome,
                step,
            ) && as_status(step, r)
    }
}

/// Whether an approval starts as it has to.
pub open spec fn auth_start_follows(
    before: WebCtx,
    after: WebCtx,
    ctx: CtxSpec,
    digest: Seq<char>,
    r: Result<Json, u16>,
) -> bool {
    if !waits(ctx.state.pending, digest) {
        &&& r == Err::<Json, u16>(404)
        &&& after.ceremonies.authentications@ == before.ceremonies.authentications@
    } else if ctx.passkeys.len() == 0 {
        &&& r == Err::<Json, u16>(412)
        &&& after.ceremonies.authentications@ == before.ceremonies.authentications@
    } else {
        &&& r is Ok == (passkey_ids(ctx.passkeys) is Some)
        &&& exists|
            at: int,
            id: u128,
            outcome: Result<Ceremony, String>,
            step: Result<Json, CeremonyError>,
        |
            waits_at(ctx.state.pending, digest, at) && approval_begun(
                before.ceremonies.webauthn,
                ctx.passkeys,
                outcome,
            ) && #[trigger] approval_follows(
                before.ceremonies.authentications@,
                after.ceremonies.authentications@,
                digest,
                ctx.state.pending[at].nonce,
                id,
                outcome,
                step,
            ) && as_status(step, r)
    }
}

/// Whether the end of an approval comes to what it has to: a bad request for an unknown ceremony,
/// unauthorized for an assertion that does not answer it, and else what the release of the
/// request comes to.
pub open spec fn auth_finish_follows(
    c: Ceremonies,
    before: SharedSpec,
    after: SharedSpec,
    id: u128,
    cred: JsonSpec,
    client_data: Seq<u8>,
    now: i64,
    r: Result<Delivery, u16>,
) -> bool {
    let kept = c.authentications@;
    if !kept.contains_key(id) {
        r == Err::<Delivery, u16>(400) && after == before
    } else {
        match assertion_key(
            made_for(c.webauthn).0,
            made_for(c.webauthn).1,
            cred,
            kept[id].state@,
        ) {
            None => r == Err::<Delivery, u16>(401) && after == before,
            Some(key) => exists|step: Result<Delivery, CeremonyError>| #[trigger]
                release_follows(
                    before,
                    after,
                    kept[id].digest@,
                    client_data,
                    key,
                    Seq::empty(),
                    now,
                    step,
                ) && as_status(step, r),
        }
    }
}

/// Whether a denial comes to what it has to.
pub open spec fn deny_follows(
    before: SharedSpec,
    after: SharedSpec,
    prefix: Seq<char>,
    r: Result<Delivery, u16>,
) -> bool {
    match r {
        Ok(d) => exists|at: int|
            {
                &&& #[trigger] only_hit(before.pending, prefix, at)
                &&& d.digest@ == before.pending[at].digest
                &&& d.summary@ == operation_summary(before.pending[at].request.op)
                &&& d.verdict is None
                &&& after == (SharedSpec { pending: before.pending.remove(at), ..before })
            },
        Err(status) => {
            &&& forall|at: int| !#[trigger] only_hit(before.pending, prefix, at)
            &&& status == 404
            &&& after == before
        },
    }
}

impl WebCtx {
    /// The approval page at a port, under a token; nothing where the origin is refused.
    pub fn new(port: u16, token: String) -> (r: Option<WebCtx>)
        ensures
            r is Some == rp_accepted("localhost"@, page_origin(port)),
            r matches Some(w) ==> {
                &&& w.token == token
                &&& made_for(w.ceremonies.webauthn) == (
                    "localhost"@,
                    origin_read(page_origin(port)),
                    "Gatehouse"@,
                )
                &&& w.ceremonies.registrations@ == Map::<u128, Json>::empty()
                &&& w.ceremonies.authentications@ == Map::<u128, AuthState>::empty()
            },
    {
        let mut origin = "http://localhost:".to_owned();
        origin.append(to_decimal(port as u64).as_str());
        match Ceremonies::new("localhost", origin.as_str()) {
            Some(ceremonies) => Some(WebCtx { token, ceremonies }),
            None => None,
        }
    }

    /// Whether a call presents the page's token. Every call is asked this first.
    pub fn authed(&self, header: Option<&str>) -> (r: bool)
        ensures
            r == presents(opt_str(header), self.token@),
    {
        let presented = match header {
            Some(h) => h,
            None => "",
        };
        proof {
            reveal_strlit("");
            assert(""@ =~= Seq::empty());
            if self.token@.len() == 0 {
                assert(self.token@ =~= Seq::empty());
            }
        }
        secret_equal(presented, self.token.as_str())
    }

    /// The waiting requests and the number of enrolled passkeys.
    pub fn api_pending(&self, ctx: &Ctx, header: Option<&str>, now: u64) -> (r: Result<Json, u16>)
        ensures
            turned_away(true, opt_str(header), self.token@) == (match r {
                Ok(_) => None,
                Err(s) => Some(s),
            }),
            match r {
                Ok(j) => presents(opt_str(header), self.token@) && shows_all(
                    j@,
                    ctx@.state.pending,
                    now,
                    ctx@.passkeys.len() as int,
                ),
                Err(s) => !presents(opt_str(header), self.token@) && s == UNAUTHORIZED,
            },
    {
        if !self.authed(header) {
            return Err(UNAUTHORIZED);
        }
        let entries = ctx.state.pending_snapshot(now);
        let r = pending_reply(&entries, ctx.passkeys.len());
        assert(r@ == pending_model(entries_view(entries@), ctx@.passkeys.len() as int));
        Ok(r)
    }

    /// Starts the enrollment of a passkey.
    pub fn reg_start(
        &mut self,
        ctx: &mut Ctx,
        header: Option<&str>,
        body: Option<&Json>,
        now: u64,
    ) -> (r: Result<Json, u16>)
        ensures
            final(self).token == old(self).token,
            final(ctx)@ == (CtxSpec { codes: final(ctx)@.codes, ..old(ctx)@ }),
            final(self).ceremonies.webauthn == old(self).ceremonies.webauthn,
            final(self).ceremonies.authentications@ == old(self).ceremonies.authentications@,
            turned_away(code_body(crate::json::opt_json(body)) is Some, opt_str(header), old(self).token@) matches Some(s) ==> {
                &&& r == Err::<Json, u16>(s)
                &&& *final(self) == *old(self)
                &&& final(ctx)@ == old(ctx)@
            },
            match code_body(crate::json::opt_json(body)) {
                None => {
                    &&& r == Err::<Json, u16>(UNPROCESSABLE)
                    &&& *final(self) == *old(self)
                    &&& final(ctx)@ == old(ctx)@
                },
                Some(code) => if !presents(opt_str(header), old(self).token@) {
                    &&& r == Err::<Json, u16>(UNAUTHORIZED)
                    &&& *final(self) == *old(self)
                    &&& final(ctx)@ == old(ctx)@
                } else {
                    reg_start_follows(
                        *old(self),
                        *final(self),
                        old(ctx)@.passkeys,
                        old(ctx)@.codes,
                        final(ctx)@.codes,
                        code,
                        now,
                        r,
                    )
                },
            },
    {
        let code = match read_code_body(body) {
            Some(c) => c,
            None => {
                return Err(UNPROCESSABLE);
            },
        };
        if !self.authed(header) {
            return Err(UNAUTHORIZED);
        }
        let step = self.ceremonies.start_registration(
            &mut ctx.enroll_codes,
            code.as_str(),
            &ctx.passkeys,
            "operator",
            "Gatehouse Operator",
            now,
        );
        let ghost given = step;
        let r = to_status(step);
        proof {
            reveal_strlit("operator");
            reveal_strlit("Gatehouse Operator");
            assert(as_status(given, r));
            if has_code(live_codes(old(ctx)@.codes, now), typed_code(code@)) {
                let (user, outcome) = choose|user: u128, outcome: Result<Ceremony, String>|
                    enrollment_begun(
                        old(self).ceremonies.webauthn,
                        user,
                        "operator"@,
                        "Gatehouse Operator"@,
                        old(ctx)@.passkeys,
                        outcome,
                    ) && #[trigger] registration_follows(
                        old(self).ceremonies.registrations@,
                        self.ceremonies.registrations@,
                        user,
                        outcome,
                        given,
                    );
                assert(registration_follows(
                    old(self).ceremonies.registrations@,
                    self.ceremonies.registrations@,
                    user,
                    outcome,
                    given,
                ) && as_status(given, r));
            }
            assert(reg_start_follows(
                *old(self),
                *self,
                old(ctx)@.passkeys,
                old(ctx)@.codes,
                ctx@.codes,
                code@,
                now,
                r,
            ));
        }
        r
    }

    /// Finishes the enrollment of a passkey.
    pub fn reg_finish(&mut self, ctx: &mut Ctx, header: Option<&str>, body: &Json) -> (r: Result<
        Json,
        u16,
    >)
        ensures
            final(self).token == old(self).token,
            final(ctx)@ == (CtxSpec { passkeys: final(ctx)@.passkeys, ..old(ctx)@ }),
            final(self).ceremonies.webauthn == old(self).ceremonies.webauthn,
            final(self).ceremonies.authentications@ == old(self).ceremonies.authentications@,
            turned_away(finish_body(body@) is Some && is_registration((finish_body(body@)->0).1), opt_str(header), old(self).token@) matches Some(s) ==> {
                &&& r == Err::<Json, u16>(s)
                &&& *final(self) == *old(self)
                &&& final(ctx)@ == old(ctx)@
            },
            match finish_body(body@) {
                Some((id, cred)) if is_registration(cred) => if !presents(
                    opt_str(header),
                    old(self).token@,
                ) {
                    &&& r == Err::<Json, u16>(UNAUTHORIZED)
                    &&& *final(self) == *old(self)
                    &&& final(ctx)@ == old(ctx)@
                } else {
                    &&& final(self).ceremonies.registrations@ == old(
                        self,
                    ).ceremonies.registrations@.remove(id)
                    &&& match key_of_ceremony(old(self).ceremonies, id, cred) {
                        Some(key) => {
                            &&& r matches Ok(j)
                            &&& j@ == enrolled_reply(old(ctx)@.passkeys.len() as int + 1)
                            &&& final(ctx)@.passkeys == old(ctx)@.passkeys.push(key)
                        },
                        None => r == Err::<Json, u16>(400) && final(ctx)@ == old(ctx)@,
                    }
                },
                _ => {
                    &&& r == Err::<Json, u16>(UNPROCESSABLE)
                    &&& *final(self) == *old(self)
                    &&& final(ctx)@ == old(ctx)@
                },
            },
    {
        let (id, cred) = match read_finish_body(body) {
            Some(parts) => parts,
            None => {
                return Err(UNPROCESSABLE);
            },
        };
        if check_registration(cred).is_some() {
            return Err(UNPROCESSABLE);
        }
        if !self.authed(header) {
            return Err(UNAUTHORIZED);
        }
        match self.ceremonies.finish_registration(id, cred) {
            Ok(key) => {
                let reply = passkey_registered(&mut ctx.passkeys, key);
                Ok(reply)
            },
            Err(e) => Err(e.status()),
        }
    }

    /// Starts the approval of a waiting request.
    pub fn auth_start(&mut self, ctx: &Ctx, header: Option<&str>, body: &Json) -> (r: Result<Json, u16>)
        ensures
            final(self).token == old(self).token,
            final(self).ceremonies.webauthn == old(self).ceremonies.webauthn,
            final(self).ceremonies.registrations@ == old(self).ceremonies.registrations@,
            turned_away(digest_body(body@) is Some, opt_str(header), old(self).token@) matches Some(s) ==> {
                &&& r == Err::<Json, u16>(s)
                &&& *final(self) == *old(self)
            },
            match digest_body(body@) {
                None => r == Err::<Json, u16>(UNPROCESSABLE) && *final(self) == *old(self),
                Some(digest) => if !presents(opt_str(header), old(self).token@) {
                    r == Err::<Json, u16>(UNAUTHORIZED) && *final(self) == *old(self)
                } else {
                    auth_start_follows(*old(self), *final(self), ctx@, digest, r)
                },
            },
    {
        let digest = match read_digest_body(body) {
            Some(d) => d,
            None => {
                return Err(UNPROCESSABLE);
            },
        };
        if !self.authed(header) {
            return Err(UNAUTHORIZED);
        }
        let step = self.ceremonies.start_approval(&ctx.state, digest.as_str(), &ctx.passkeys);
        let ghost given = step;
        let r = to_status(step);
        proof {
            assert(as_status(given, r));
            if waits(ctx@.state.pending, digest@) && ctx@.passkeys.len() > 0 {
                let (at, id, outcome) = choose|
                    at: int,
                    id: u128,
                    outcome: Result<Ceremony, String>,
                |
                    waits_at(ctx@.state.pending, digest@, at) && approval_begun(
                        old(self).ceremonies.webauthn,
                        ctx@.passkeys,
                        outcome,
                    ) && #[trigger] approval_follows(
                        old(self).ceremonies.authentications@,
                        self.ceremonies.authentications@,
                        digest@,
                        ctx@.state.pending[at].nonce,
                        id,
                        outcome,
                        given,
                    );
                assert(waits_at(ctx@.state.pending, digest@, at) && approval_follows(
                    old(self).ceremonies.authentications@,
                    self.ceremonies.authentications@,
                    digest@,
                    ctx@.state.pending[at].nonce,
                    id,
                    outcome,
                    given,
                ) && as_status(given, r));
            }
            assert(auth_start_follows(*old(self), *self, ctx@, digest@, r));
        }
        r
    }

    /// Finishes the approval of a waiting request. The verdict is to be handed to the waiting
    /// side.
    pub fn auth_finish(&mut self, ctx: &mut Ctx, header: Option<&str>, body: &Json, now: i64) -> (r:
        Result<Delivery, u16>)
        requires
            old(ctx)@.state.wf(),
            now <= i64::MAX - ENVELOPE_TTL_SECS,
        ensures
            final(ctx)@.state.wf(),
            final(self).token == old(self).token,
            final(ctx)@ == (CtxSpec { state: final(ctx)@.state, ..old(ctx)@ }),
            final(self).ceremonies.webauthn == old(self).ceremonies.webauthn,
            final(self).ceremonies.registrations@ == old(self).ceremonies.registrations@,
            turned_away(finish_body(body@) is Some && assertion_parts((finish_body(body@)->0).1) is Ok, opt_str(header), old(self).token@) matches Some(s) ==> {
                &&& r == Err::<Delivery, u16>(s)
                &&& *final(self) == *old(self)
                &&& final(ctx)@ == old(ctx)@
            },
            match finish_body(body@) {
                Some((id, cred)) if assertion_parts(cred) is Ok => if !presents(
                    opt_str(header),
                    old(self).token@,
                ) {
                    &&& r == Err::<Delivery, u16>(UNAUTHORIZED)
                    &&& *final(self) == *old(self)
                    &&& final(ctx)@ == old(ctx)@
                } else {
                    &&& final(self).ceremonies.authentications@ == old(
                        self,
                    ).ceremonies.authentications@.remove(id)
                    &&& auth_finish_follows(
                        old(self).ceremonies,
                        old(ctx)@.state,
                        final(ctx)@.state,
                        id,
                        cred,
                        (assertion_parts(cred)->Ok_0).0,
                        now,
                        r,
                    )
                },
                _ => {
                    &&& r == Err::<Delivery, u16>(UNPROCESSABLE)
                    &&& *final(self) == *old(self)
                    &&& final(ctx)@ == old(ctx)@
                },
            },
    {
        let (id, cred) = match read_finish_body(body) {
            Some(parts) => parts,
            None => {
                return Err(UNPROCESSABLE);
            },
        };
        let assertion = match Assertion::read(cred) {
            Ok(a) => a,
            Err(_) => {
                return Err(UNPROCESSABLE);
            },
        };
        if !self.authed(header) {
            return Err(UNAUTHORIZED);
        }
        let ghost c = self.ceremonies;
        let step = self.ceremonies.finish_approval(&mut ctx.state, id, &assertion, false, now);
        let ghost given = step;
        let r = to_status(step);
        proof {
            assert(as_status(given, r));
            assert(auth_finish_follows(
                c,
                old(ctx)@.state,
                ctx@.state,
                id,
                cred@,
                assertion.client_data@,
                now,
                r,
            ));
        }
        r
    }

    /// Denies a waiting request. The verdict is to be handed to the waiting side.
    pub fn api_deny(&self, ctx: &mut Ctx, header: Option<&str>, body: &Json) -> (r: Result<
        Delivery,
        u16,
    >)
        requires
            old(ctx)@.state.wf(),
        ensures
            final(ctx)@.state.wf(),
            final(ctx)@ == (CtxSpec { state: final(ctx)@.state, ..old(ctx)@ }),
            turned_away(digest_body(body@) is Some, opt_str(header), self.token@) matches Some(s) ==> {
                &&& r == Err::<Delivery, u16>(s)
                &&& final(ctx)@ == old(ctx)@
            },
            match digest_body(body@) {
                None => r == Err::<Delivery, u16>(UNPROCESSABLE) && final(ctx)@ == old(ctx)@,
                Some(digest) => if !presents(opt_str(header), self.token@) {
                    r == Err::<Delivery, u16>(UNAUTHORIZED) && final(ctx)@ == old(ctx)@
                } else {
                    deny_follows(old(ctx)@.state, final(ctx)@.state, digest, r)
                },
            },
    {
        let digest = match read_digest_body(body) {
            Some(d) => d,
            None => {
                return Err(UNPROCESSABLE);
            },
        };
        if !self.authed(header) {
            return Err(UNAUTHORIZED);
        }
        let step = deny_with(&mut ctx.state, digest.as_str());
        let ghost given = step;
        let r = to_status(step);
        proof {
            if let Ok(d) = given {
                let at = choose|at: int|
                    {
                        &&& #[trigger] only_hit(old(ctx)@.state.pending, digest@, at)
                        &&& d.digest@ == old(ctx)@.state.pending[at].digest
                        &&& d.summary@ == operation_summary(old(ctx)@.state.pending[at].request.op)
                        &&& d.verdict is None
                        &&& ctx@.state == (SharedSpec {
                            pending: old(ctx)@.state.pending.remove(at),
                            ..old(ctx)@.state
                        })
                    };
                assert(only_hit(old(ctx)@.state.pending, digest@, at));
            }
            assert(deny_follows(old(ctx)@.state, ctx@.state, digest@, r));
        }
        r
    }
}

}
