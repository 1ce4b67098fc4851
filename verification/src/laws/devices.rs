//! Devices, and what goes through a relay.
use vstd::prelude::*;
use vstd::string::*;

use crate::codec::{hex_digits, uuid_text};
use crate::daemon::devices::{
    cred_of, device_lines, enrolled_device, first_named, last_with, selected, Secret,
};
use crate::daemon::relay::{bearer_in, call_outcome, daemon_route, phone_route, CallEnd};
use crate::daemon::relay_client::{dial_of, ws_address, RelayDialSpec};
use crate::laws::texts::{law_after_prefix, law_cut_end};
use crate::number::signed_decimal;
use crate::proto::relay::{
    device_url, DeviceCred, DeviceSpec, RelayConfigSpec, RelayToml,
};
use crate::text::opt_text;

verus! {

/// Whether a device is the last one that has a secret as its link token.
pub open spec fn last_link(devices: Seq<DeviceSpec>, i: int, secret: Seq<char>) -> bool {
    &&& 0 <= i < devices.len()
    &&& devices[i].token == secret
    &&& forall|k: int| i < k < devices.len() ==> (#[trigger] devices[k]).token != secret
}

/// Whether a device is the last one that has a secret as its phone token.
pub open spec fn last_phone(devices: Seq<DeviceSpec>, i: int, secret: Seq<char>) -> bool {
    &&& 0 <= i < devices.len()
    &&& devices[i].phone_token == secret
    &&& forall|k: int| i < k < devices.len() ==> (#[trigger] devices[k]).phone_token != secret
}

proof fn lemma_last_link(devices: Seq<DeviceSpec>, i: int, secret: Seq<char>)
    requires
        last_link(devices, i, secret),
    ensures
        last_with(devices, secret, Secret::Link) == Some(devices[i]),
    decreases devices.len(),
{
    if i < devices.len() - 1 {
        let front = devices.drop_last();
        assert(devices[devices.len() - 1].token != secret);
        assert forall|k: int| i < k < front.len() implies (#[trigger] front[k]).token != secret by {
            assert(front[k] == devices[k]);
        }
        lemma_last_link(front, i, secret);
    }
}

proof fn lemma_last_phone(devices: Seq<DeviceSpec>, i: int, secret: Seq<char>)
    requires
        last_phone(devices, i, secret),
    ensures
        last_with(devices, secret, Secret::Phone) == Some(devices[i]),
    decreases devices.len(),
{
    if i < devices.len() - 1 {
        let front = devices.drop_last();
        assert(devices[devices.len() - 1].phone_token != secret);
        assert forall|k: int| i < k < front.len() implies (#[trigger] front[k]).phone_token
            != secret by {
            assert(front[k] == devices[k]);
        }
        lemma_last_phone(front, i, secret);
    }
}

/// A secret selects the last device that has it, as a link token or as a phone token, whichever it is
/// presented as. An empty one, and one that no device has, selects none.
pub proof fn law_secrets_select(devices: Seq<DeviceSpec>, secret: Seq<char>, i: int)
    ensures
        secret.len() > 0 && last_link(devices, i, secret) ==> selected(devices, secret, Secret::Link)
            == Some(devices[i]),
        secret.len() > 0 && last_phone(devices, i, secret) ==> selected(
            devices,
            secret,
            Secret::Phone,
        ) == Some(devices[i]),
        secret.len() == 0 ==> selected(devices, secret, Secret::Link) is None && selected(
            devices,
            secret,
            Secret::Phone,
        ) is None,
        (forall|k: int| 0 <= k < devices.len() ==> (#[trigger] devices[k]).token != secret)
            ==> selected(devices, secret, Secret::Link) is None,
        (forall|k: int| 0 <= k < devices.len() ==> (#[trigger] devices[k]).phone_token != secret)
            ==> selected(devices, secret, Secret::Phone) is None,
{
    if last_link(devices, i, secret) {
        lemma_last_link(devices, i, secret);
    }
    if last_phone(devices, i, secret) {
        lemma_last_phone(devices, i, secret);
    }
    crate::daemon::devices::lemma_last_with(devices, secret, Secret::Link);
    crate::daemon::devices::lemma_last_with(devices, secret, Secret::Phone);
    if forall|k: int| 0 <= k < devices.len() ==> (#[trigger] devices[k]).token != secret {
        if let Some(d) = last_with(devices, secret, Secret::Link) {
            let k = choose|k: int| 0 <= k < devices.len() && devices[k] == d;
            assert(devices[k].token != secret);
        }
    }
    if forall|k: int| 0 <= k < devices.len() ==> (#[trigger] devices[k]).phone_token != secret {
        if let Some(d) = last_with(devices, secret, Secret::Phone) {
            let k = choose|k: int| 0 <= k < devices.len() && devices[k] == d;
            assert(devices[k].phone_token != secret);
        }
    }
}

/// A phone that presents a device's phone token reaches that device, and is turned away where it asks
/// for another one. The relay's own token reaches the link by certificate, on the same terms.
pub proof fn law_phones_are_routed(
    devices: Seq<DeviceSpec>,
    relay_token: Seq<char>,
    token: Seq<char>,
    query: Option<Seq<char>>,
    header: Option<Seq<char>>,
    i: int,
)
    requires
        token.len() > 0,
    ensures
        ({
            let asked = if query is Some && query->0.len() > 0 {
                query->0
            } else if header is Some {
                header->0
            } else {
                Seq::empty()
            };
            let route = phone_route(devices, relay_token, Some(token), query, header);
            &&& last_phone(devices, i, token) && (asked.len() == 0 || asked
                == devices[i].device_id) ==> route == Ok::<Seq<char>, u16>(devices[i].device_id)
            &&& last_phone(devices, i, token) && asked.len() > 0 && asked != devices[i].device_id
                ==> route == Err::<Seq<char>, u16>(403)
            &&& (forall|k: int|
                0 <= k < devices.len() ==> (#[trigger] devices[k]).phone_token != token) ==> {
                &&& token == relay_token && (asked.len() == 0 || asked == "_mtls"@) ==> route
                    == Ok::<Seq<char>, u16>("_mtls"@)
                &&& token == relay_token && asked.len() > 0 && asked != "_mtls"@ ==> route == Err::<
                    Seq<char>,
                    u16,
                >(403)
                &&& token != relay_token ==> route == Err::<Seq<char>, u16>(401)
            }
        }),
{
    law_secrets_select(devices, token, i);
}

/// A phone that presents no token, or an empty one, is turned away as unauthenticated.
pub proof fn law_phones_need_a_token(
    devices: Seq<DeviceSpec>,
    relay_token: Seq<char>,
    query: Option<Seq<char>>,
    header: Option<Seq<char>>,
)
    ensures
        phone_route(devices, relay_token, None, query, header) == Err::<Seq<char>, u16>(401),
        phone_route(devices, relay_token, Some(Seq::empty()), query, header) == Err::<
            Seq<char>,
            u16,
        >(401),
{
    law_secrets_select(devices, Seq::empty(), 0);
}

/// A daemon that presents a device's link token as a bearer gets that device, where the relay takes
/// tokens; where it does not there is nothing to dial.
pub proof fn law_daemons_are_routed(
    auth: Seq<char>,
    devices: Seq<DeviceSpec>,
    token: Seq<char>,
    header: Option<Seq<char>>,
    i: int,
)
    ensures
        auth != "token"@ && auth != "both"@ ==> daemon_route(auth, header, devices) == Err::<
            Seq<char>,
            u16,
        >(404),
        (auth == "token"@ || auth == "both"@) && token.len() > 0 ==> {
            &&& last_link(devices, i, token) ==> daemon_route(
                auth,
                Some("Bearer "@ + token),
                devices,
            ) == Ok::<Seq<char>, u16>(devices[i].device_id) && daemon_route(
                auth,
                Some("bearer "@ + token),
                devices,
            ) == Ok::<Seq<char>, u16>(devices[i].device_id)
            &&& (forall|k: int| 0 <= k < devices.len() ==> (#[trigger] devices[k]).token != token)
                ==> daemon_route(auth, Some("Bearer "@ + token), devices) == Err::<Seq<char>, u16>(
                401,
            )
        },
        (auth == "token"@ || auth == "both"@) && (header is None || header == Some("Bearer "@)
            || !("Bearer "@.is_prefix_of(header->0) || "bearer "@.is_prefix_of(header->0)))
            ==> daemon_route(auth, header, devices) == Err::<Seq<char>, u16>(401),
{
    law_bearer(token, header);
    law_secrets_select(devices, token, i);
}

/// A bearer token is what stands behind the word for it in a header, if anything does.
pub proof fn law_bearer(token: Seq<char>, header: Option<Seq<char>>)
    ensures
        token.len() > 0 ==> bearer_in(Some("Bearer "@ + token)) == Some(token) && bearer_in(
            Some("bearer "@ + token),
        ) == Some(token),
        bearer_in(None) is None,
        bearer_in(Some("Bearer "@)) is None,
        header is Some && !"Bearer "@.is_prefix_of(header->0) && !"bearer "@.is_prefix_of(header->0)
            ==> bearer_in(header) is None,
{
    reveal_strlit("Bearer ");
    reveal_strlit("bearer ");
    law_after_prefix("Bearer "@, token, "bearer "@ + token);
    law_after_prefix("bearer "@, token, "Bearer "@);
    law_after_prefix("Bearer "@, Seq::empty(), "Bearer "@);
    assert("Bearer "@ + Seq::<char>::empty() =~= "Bearer "@);
    assert(("bearer "@ + token)[0] == 'b');
    assert(!"Bearer "@.is_prefix_of("bearer "@ + token)) by {
        assert("Bearer "@[0] == 'B');
        if "Bearer "@.is_prefix_of("bearer "@ + token) {
            assert(("bearer "@ + token).subrange(0, 7)[0] == 'b');
        }
    }
}

/// A phone gets the daemon's answer as it is, and a status of its own for each way a call can fail.
pub proof fn law_calls_end(reply: crate::json::Json, message: String)
    ensures
        call_outcome(CallEnd::Reply(Ok(reply))) == Ok::<crate::json::Json, u16>(reply),
        call_outcome(CallEnd::Reply(Err(message))) == Err::<crate::json::Json, u16>(400),
        call_outcome(CallEnd::Dropped) == Err::<crate::json::Json, u16>(502),
        call_outcome(CallEnd::TimedOut) == Err::<crate::json::Json, u16>(504),
{
}

/// A device is found by its id: the first of that id, and none where there is none.
pub proof fn law_devices_are_found(devices: Seq<DeviceSpec>, id: Seq<char>, i: int)
    ensures
        0 <= i < devices.len() && devices[i].device_id == id && (forall|k: int|
            0 <= k < i ==> (#[trigger] devices[k]).device_id != id) ==> first_named(devices, id)
            == Some(devices[i]),
        (forall|k: int| 0 <= k < devices.len() ==> (#[trigger] devices[k]).device_id != id)
            ==> first_named(devices, id) is None,
    decreases devices.len(),
{
    if devices.len() > 0 {
        let rest = devices.drop_first();
        law_devices_are_found(rest, id, i - 1);
        assert forall|k: int| 0 <= k < rest.len() implies (#[trigger] rest[k]) == devices[k + 1] by {}
        assert forall|k: int| #![trigger rest[k]] 0 <= k < rest.len() && k + 1 < i && (forall|j: int|
            0 <= j < i ==> (#[trigger] devices[j]).device_id != id) implies rest[k].device_id
            != id by {
            assert(devices[k + 1].device_id != id);
        }
        if forall|k: int| 0 <= k < devices.len() ==> (#[trigger] devices[k]).device_id != id {
            assert(devices[0].device_id != id);
            assert forall|k: int| 0 <= k < rest.len() implies (#[trigger] rest[k]).device_id
                != id by {
                assert(devices[k + 1].device_id != id);
            }
        }
    }
}

/// A device is listed by its id, its label and when it was enrolled, one line for each.
pub proof fn law_devices_are_listed(devices: Seq<DeviceSpec>, i: int)
    ensures
        devices.len() == 0 ==> device_lines(devices) == seq!["(no devices enrolled)"@],
        0 <= i < devices.len() ==> {
            let d = devices[i];
            &&& device_lines(devices).len() == devices.len()
            &&& d.label.len() > 0 ==> device_lines(devices)[i] == d.device_id + "  "@ + d.label
                + "  created="@ + signed_decimal(d.created_at as int)
            &&& d.label.len() == 0 ==> device_lines(devices)[i] == d.device_id + "  "@ + "-"@
                + "  created="@ + signed_decimal(d.created_at as int)
        },
{
}

/// A new device has an id of its own making and the secrets, label and time it is given.
pub proof fn law_enrolled_devices(
    id: u128,
    token: Seq<char>,
    phone_token: Seq<char>,
    label: Seq<char>,
    created_at: i64,
)
    ensures
        ({
            let d = enrolled_device(id, token, phone_token, label, created_at);
            &&& d.device_id == "dev_"@ + hex_digits(id as nat, 32).take(8)
            &&& d.token == token && d.phone_token == phone_token
            &&& d.label == label && d.created_at == created_at
        }),
{
    crate::codec::lemma_hex_digits(id as nat, 32);
    assert(uuid_text(id).take(8) =~= hex_digits(id as nat, 32).take(8));
}

/// The credential of a device carries its own secrets and the relay's names, and the endpoint
/// without slashes at its end.
pub proof fn law_credentials(d: DeviceSpec, endpoint: Seq<char>, c: RelayConfigSpec)
    ensures
        ({
            let cred = cred_of(d, endpoint, c);
            &&& cred.device_id == d.device_id && cred.token == d.token
            &&& cred.phone_token == Some(d.phone_token)
            &&& cred.rp_id == c.rp_id && cred.origin == c.origin
            &&& cred.endpoint.is_prefix_of(endpoint)
            &&& cred.endpoint.len() > 0 ==> cred.endpoint.last() != '/'
            &&& forall|i: int| cred.endpoint.len() <= i < endpoint.len() ==> #[trigger] endpoint[i]
                == '/'
        }),
{
    law_cut_end(endpoint, '/');
}

/// The page of a device carries its token and its id.
pub proof fn law_device_pages(origin: Seq<char>, token: Seq<char>, device: Seq<char>)
    ensures
        device_url(origin, token, device) == origin + "/?t="@ + token + "&d="@ + device,
{
}

/// The link of a relay is the address of the relay with `/ws` behind it, once, and with the scheme of
/// sockets that is as secure as its own.
pub proof fn law_link_addresses(rest: Seq<char>)
    requires
        rest.len() > 0,
        rest.last() != '/',
        !"/ws"@.is_suffix_of("https://"@ + rest),
        !"/ws"@.is_suffix_of("http://"@ + rest),
    ensures
        ws_address("https://"@ + rest) == "wss://"@ + (rest + "/ws"@),
        ws_address("http://"@ + rest) == "ws://"@ + (rest + "/ws"@),
        ws_address(("https://"@ + rest).push('/')) == "wss://"@ + (rest + "/ws"@),
        ws_address("https://"@ + (rest + "/ws"@)) == "wss://"@ + (rest + "/ws"@),
{
    reveal_strlit("/ws");
    reveal_strlit("https://");
    reveal_strlit("http://");
    let a = "https://"@ + rest;
    let b = "http://"@ + rest;
    assert(a.last() == rest.last());
    assert(b.last() == rest.last());
    assert(a.push('/').drop_last() =~= a);
    assert(a + "/ws"@ =~= "https://"@ + (rest + "/ws"@));
    assert(b + "/ws"@ =~= "http://"@ + (rest + "/ws"@));
    law_after_prefix("https://"@, rest + "/ws"@, b + "/ws"@);
    law_after_prefix("http://"@, rest + "/ws"@, b + "/ws"@);
    assert((b + "/ws"@)[4] == ':' && "https://"@[4] == 's');
    assert(!"https://"@.is_prefix_of(b + "/ws"@)) by {
        if "https://"@.is_prefix_of(b + "/ws"@) {
            assert((b + "/ws"@).subrange(0, 8)[4] == ':');
        }
    }
    let w = a + "/ws"@;
    assert(w.last() == 's');
    assert("/ws"@.is_suffix_of(w)) by {
        assert(w.subrange(w.len() - 3, w.len() as int) =~= "/ws"@);
    }
}

/// A daemon dials the relay it is told of on its command line, else in its settings, else in its
/// credential, and none where it is told of none. It presents the token of the first two, else that
/// of its credential under its own id, else its certificate.
pub proof fn law_daemons_dial(
    url: Option<Seq<char>>,
    token: Option<Seq<char>>,
    settings: Option<RelayToml>,
    cred: Option<DeviceCred>,
)
    ensures
        ({
            let set = settings is Some;
            let set_url = if set {
                opt_text(settings->0.endpoint)
            } else {
                None
            };
            let set_token = if set {
                opt_text(settings->0.token)
            } else {
                None
            };
            let d = dial_of(url, token, settings, cred);
            &&& url is None && set_url is None && cred is None <==> d is Offline
            &&& url is Some && !(d is Offline) ==> (d matches RelayDialSpec::Token { url: u, .. }
                && u == url->0) || d == (RelayDialSpec::Certificate { url: url->0 })
            &&& url is None && set_url is Some ==> (d matches RelayDialSpec::Token { url: u, .. }
                && u == set_url->0) || d == (RelayDialSpec::Certificate { url: set_url->0 })
            &&& url is None && set_url is None && cred is Some ==> (d matches RelayDialSpec::Token {
                url: u,
                ..
            } && u == cred->0@.endpoint)
            &&& token is Some && !(d is Offline) ==> (d matches RelayDialSpec::Token { token: t, .. }
                && t == token->0)
            &&& token is None && set_token is Some && !(d is Offline) ==> (d matches
                RelayDialSpec::Token { token: t, .. } && t == set_token->0)
            &&& token is None && set_token is None && cred is Some ==> (d matches
                RelayDialSpec::Token { token: t, device_id, .. } && t == cred->0@.token && device_id
                == Some(cred->0@.device_id))
            &&& token is None && set_token is None && cred is None ==> d is Offline
                || d is Certificate
            &&& d matches RelayDialSpec::Token { device_id, .. } ==> (token is Some || set_token
                is Some) ==> device_id == if set {
                opt_text(settings->0.device_id)
            } else {
                None
            }
        }),
{
}

}
