//! The daemon's side of the link to a relay.
use vstd::prelude::*;
use vstd::string::*;

use crate::daemon::ctl::{Delivery, ENVELOPE_TTL_SECS};
use crate::daemon::ctx::{Ctx, CtxSpec};
use crate::daemon::phone::{
    approve_finish, approve_finish_follows, approve_start, approve_start_follows, deny,
    deny_follows, pending_json, register_finish, register_finish_follows, register_start,
    register_start_follows, reject_unauthenticated_release, shows_all, PhoneAuth,
};
use crate::json::{Json, JsonSpec};
use crate::proto::relay::{DaemonToRelay, DeviceCred, RelayMethod, RelayToml};
use crate::text::{
    after_prefix, cut_end, ends_with, opt_str, opt_text, owned, strip_prefix, trim_end_matches,
};

verus! {

/// An address with the scheme of a web socket in place of that of a web page.
pub open spec fn ws_scheme(url: Seq<char>) -> Seq<char> {
    match after_prefix(url, "https://"@) {
        Some(rest) => "wss://"@ + rest,
        None => match after_prefix(url, "http://"@) {
            Some(rest) => "ws://"@ + rest,
            None => url,
        },
    }
}

/// The address of the daemon link below the address of a relay.
pub open spec fn ws_address(relay_url: Seq<char>) -> Seq<char> {
    let base = cut_end(relay_url, '/');
    ws_scheme(
        if "/ws"@.is_suffix_of(base) {
            base
        } else {
            base + "/ws"@
        },
    )
}

/// The address of the daemon link below the address of a relay.
pub fn ws_url(relay_url: &str) -> (r: String)
    ensures
        r@ == ws_address(relay_url@),
{
    let mut url = trim_end_matches(relay_url, '/');
    if !ends_with(url.as_str(), "/ws") {
        url.append("/ws");
    }
    if let Some(rest) = strip_prefix(url.as_str(), "https://") {
        let mut out = "wss://".to_owned();
        out.append(rest.as_str());
        return out;
    }
    if let Some(rest) = strip_prefix(url.as_str(), "http://") {
        let mut out = "ws://".to_owned();
        out.append(rest.as_str());
        return out;
    }
    url
}

/// How the daemon dials a relay.
pub enum RelayDial {
    /// Not at all.
    Offline,
    /// With the client certificate.
    Certificate { url: String },
    /// With the token of a device.
    Token { url: String, token: String, device_id: Option<String> },
}

/// How the daemon dials a relay.
#[verifier::ext_equal]
pub enum RelayDialSpec {
    Offline,
    Certificate { url: Seq<char> },
    Token { url: Seq<char>, token: Seq<char>, device_id: Option<Seq<char>> },
}

impl View for RelayDial {
    type V = RelayDialSpec;

    open spec fn view(&self) -> RelayDialSpec {
        match self {
            RelayDial::Offline => RelayDialSpec::Offline,
            RelayDial::Certificate { url } => RelayDialSpec::Certificate { url: url@ },
            RelayDial::Token { url, token, device_id } => RelayDialSpec::Token {
                url: url@,
                token: token@,
                device_id: opt_text(*device_id),
            },
        }
    }
}

/// The first of two texts that is there.
pub open spec fn first_text(a: Option<Seq<char>>, b: Option<Seq<char>>) -> Option<Seq<char>> {
    if a is Some {
        a
    } else {
        b
    }
}

/// How the daemon dials a relay, by what it is started with, else by its settings, else by the
/// credentials of its device. With a token it dials by token, without one by certificate.
pub open spec fn dial_of(
    url: Option<Seq<char>>,
    token: Option<Seq<char>>,
    settings: Option<RelayToml>,
    cred: Option<DeviceCred>,
) -> RelayDialSpec {
    let set_url = match settings {
        Some(s) => opt_text(s.endpoint),
        None => None,
    };
    let set_token = match settings {
        Some(s) => opt_text(s.token),
        None => None,
    };
    let set_device = match settings {
        Some(s) => opt_text(s.device_id),
        None => None,
    };
    let own_url = match cred {
        Some(c) => Some(c@.endpoint),
        None => None,
    };
    match first_text(first_text(url, set_url), own_url) {
        None => RelayDialSpec::Offline,
        Some(url) => match (first_text(token, set_token), cred) {
            (Some(token), _) => RelayDialSpec::Token { url, token, device_id: set_device },
            (None, Some(c)) => RelayDialSpec::Token {
                url,
                token: c@.token,
                device_id: Some(c@.device_id),
            },
            (None, None) => RelayDialSpec::Certificate { url },
        },
    }
}

fn text_of(s: &Option<String>) -> (r: Option<String>)
    ensures
        opt_text(r) == opt_text(*s),
{
    match s {
        Some(t) => Some(t.clone()),
        None => None,
    }
}

/// How the daemon dials a relay.
pub fn relay_dial(
    url: Option<&str>,
    token: Option<&str>,
    settings: Option<&RelayToml>,
    cred: Option<&DeviceCred>,
) -> (r: RelayDial)
    ensures
        r@ == dial_of(
            opt_str(url),
            opt_str(token),
            match settings {
                Some(s) => Some(*s),
                None => None,
            },
            match cred {
                Some(c) => Some(*c),
                None => None,
            },
        ),
{
    let (set_url, set_token, set_device) = match settings {
        Some(s) => (text_of(&s.endpoint), text_of(&s.token), text_of(&s.device_id)),
        None => (None, None, None),
    };
    let own_url = match cred {
        Some(c) => Some(c.endpoint.clone()),
        None => None,
    };
    let url = match (url, set_url, own_url) {
        (Some(u), _, _) => u.to_owned(),
        (None, Some(u), _) => u,
        (None, None, Some(u)) => u,
        (None, None, None) => return RelayDial::Offline,
    };
    match (token, set_token, cred) {
        (Some(t), _, _) => RelayDial::Token { url, token: t.to_owned(), device_id: set_device },
        (None, Some(t), _) => RelayDial::Token { url, token: t, device_id: set_device },
        (None, None, Some(c)) => RelayDial::Token {
            url,
            token: c.token.clone(),
            device_id: Some(c.device_id.clone()),
        },
        (None, None, None) => RelayDial::Certificate { url },
    }
}

/// What the daemon says first on the link.
pub fn hello(ctx: &Ctx, device_id: Option<&str>) -> (r: DaemonToRelay)
    ensures
        r matches DaemonToRelay::Hello { enrolled, device_id: d } && enrolled
            == ctx@.phone_passkeys.len() && opt_text(d) == opt_str(device_id),
{
    DaemonToRelay::Hello { enrolled: ctx.phone_passkeys.len(), device_id: owned(device_id) }
}

/// What to do about a call of the relay.
pub enum PhoneStep {
    /// Answer.
    Reply(Result<Json, String>),
    /// Hand an approval to the waiting side, then answer.
    Approve(Delivery),
    /// Hand a denial to the waiting side, then answer.
    Deny(Delivery),
}

/// Whether a call of the relay comes to what it has to.
pub open spec fn dispatch_follows(
    before: PhoneAuth,
    after: PhoneAuth,
    c: CtxSpec,
    c_after: CtxSpec,
    method: RelayMethod,
    body: JsonSpec,
    now: u64,
    unix: i64,
    step: PhoneStep,
) -> bool {
    match method {
        RelayMethod::Pending => {
            &&& step matches PhoneStep::Reply(Ok(j))
            &&& shows_all(j@, c.state.pending, now, c.phone_passkeys.len() as int)
            &&& after == before
            &&& c_after == c
        },
        RelayMethod::RegisterStart => step matches PhoneStep::Reply(r) && register_start_follows(
            before,
            after,
            c,
            c_after,
            body,
            now,
            r,
        ),
        RelayMethod::RegisterFinish => step matches PhoneStep::Reply(r) && register_finish_follows(
            before,
            after,
            c,
            c_after,
            body,
            r,
        ),
        RelayMethod::ApproveStart => step matches PhoneStep::Reply(r) && approve_start_follows(
            before,
            after,
            c,
            body,
            r,
        ) && c_after == c,
        RelayMethod::ApproveFinish => if body.member("cred"@) is None || body.member("id"@)
            is None {
            &&& step matches PhoneStep::Reply(Err(m))
            &&& m@ == "forged approval: missing WebAuthn assertion"@
            &&& after == before
            &&& c_after == c
        } else {
            match step {
                PhoneStep::Approve(d) => approve_finish_follows(
                    before,
                    after,
                    c,
                    c_after,
                    body,
                    unix,
                    Ok::<Delivery, String>(d),
                ),
                PhoneStep::Reply(Err(m)) => approve_finish_follows(
                    before,
                    after,
                    c,
                    c_after,
                    body,
                    unix,
                    Err::<Delivery, String>(m),
                ),
                _ => false,
            }
        },
        RelayMethod::Deny => after == before && match step {
            PhoneStep::Deny(d) => deny_follows(c, c_after, body, Ok::<Delivery, String>(d)),
            PhoneStep::Reply(Err(m)) => deny_follows(
                c,
                c_after,
                body,
                Err::<Delivery, String>(m),
            ),
            _ => false,
        },
    }
}

/// Carries out a call of the relay. A claim that something was approved is not enough: the call
/// must carry an assertion.
pub fn dispatch(
    ctx: &mut Ctx,
    phone: &mut PhoneAuth,
    method: RelayMethod,
    body: &Json,
    now: u64,
    unix: i64,
) -> (r: PhoneStep)
    requires
        old(ctx)@.state.wf(),
        unix <= i64::MAX - ENVELOPE_TTL_SECS,
    ensures
        final(ctx)@.state.wf(),
        dispatch_follows(
            *old(phone),
            *final(phone),
            old(ctx)@,
            final(ctx)@,
            method,
            body@,
            now,
            unix,
            r,
        ),
{
    match method {
        RelayMethod::Pending => PhoneStep::Reply(Ok(pending_json(ctx, now))),
        RelayMethod::RegisterStart => PhoneStep::Reply(register_start(phone, ctx, body, now)),
        RelayMethod::RegisterFinish => PhoneStep::Reply(register_finish(phone, ctx, body)),
        RelayMethod::ApproveStart => PhoneStep::Reply(approve_start(phone, ctx, body)),
        RelayMethod::ApproveFinish => {
            if reject_unauthenticated_release(body) {
                return PhoneStep::Reply(
                    Err("forged approval: missing WebAuthn assertion".to_owned()),
                );
            }
            match approve_finish(phone, ctx, body, unix) {
                Ok(d) => PhoneStep::Approve(d),
                Err(m) => PhoneStep::Reply(Err(m)),
            }
        },
        RelayMethod::Deny => match deny(ctx, body) {
            Ok(d) => PhoneStep::Deny(d),
            Err(m) => PhoneStep::Reply(Err(m)),
        },
    }
}

/// The answer to a call of the relay.
pub open spec fn reply_to(id: String, reply: Result<Json, String>) -> DaemonToRelay {
    match reply {
        Ok(body) => DaemonToRelay::RpcOk { id, body },
        Err(message) => DaemonToRelay::RpcErr { id, message },
    }
}

/// The answer to a call of the relay.
pub fn rpc_reply(id: String, reply: Result<Json, String>) -> (r: DaemonToRelay)
    ensures
        r == reply_to(id, reply),
        r == (match reply {
            Ok(body) => DaemonToRelay::RpcOk { id, body },
            Err(message) => DaemonToRelay::RpcErr { id, message },
        }),
{
    match reply {
        Ok(body) => DaemonToRelay::RpcOk { id, body },
        Err(message) => DaemonToRelay::RpcErr { id, message },
    }
}

}
