//! The relay's hub: which calls wait for which daemon.
use vstd::prelude::*;
use vstd::string::*;

use crate::daemon::relay::{
    after_begin, after_connect, after_end, answered_by, call_waits, claim_warning, finish_status,
    takes_certificates, Waits,
};
use crate::json::Json;
use crate::proto::relay::DaemonToRelay;

verus! {

/// A device connects once: a second connection of it changes nothing, so that the calls of the first
/// one stay, and it touches no other device.
pub proof fn law_devices_connect_once(h: Waits, device: Seq<char>, other: Seq<char>, id: Seq<char>)
    ensures
        after_connect(h, device).contains_key(device),
        h.contains_key(device) ==> after_connect(h, device) == h,
        !h.contains_key(device) ==> !call_waits(after_connect(h, device), device, id),
        other != device ==> (call_waits(after_connect(h, device), other, id) <==> call_waits(
            h,
            other,
            id,
        )) && after_connect(h, device).contains_key(other) == h.contains_key(other),
{
}

/// A call that was begun waits for its device, if that is connected, and for no other; every other
/// call waits as before.
pub proof fn law_calls_begin(
    h: Waits,
    device: Seq<char>,
    id: Seq<char>,
    d: Seq<char>,
    i: Seq<char>,
)
    ensures
        call_waits(after_begin(h, device, id), d, i) <==> call_waits(h, d, i) || (h.contains_key(
            device,
        ) && d == device && i == id),
        after_begin(h, device, id).contains_key(d) == h.contains_key(d),
{
}

/// A call that was ended waits no more; every other call waits as before.
pub proof fn law_calls_end_once(
    h: Waits,
    device: Seq<char>,
    id: Seq<char>,
    d: Seq<char>,
    i: Seq<char>,
)
    ensures
        call_waits(after_end(h, device, id), d, i) <==> call_waits(h, d, i) && !(d == device && i
            == id),
        after_end(h, device, id).contains_key(d) == h.contains_key(d),
{
}

/// An answer counts exactly where its call waits for the device it came from, and is handed on as it
/// is; a greeting answers nothing.
pub proof fn law_answers_count_on_their_link(
    h: Waits,
    device: Seq<char>,
    id: String,
    body: Json,
    message: String,
    enrolled: usize,
    claimed: Option<String>,
)
    ensures
        answered_by(h, device, DaemonToRelay::RpcOk { id, body }) == (if h.contains_key(device)
            && h[device].contains(id@) {
            Some((id@, Ok::<Json, String>(body)))
        } else {
            None
        }),
        answered_by(h, device, DaemonToRelay::RpcErr { id, message }) == (if h.contains_key(device)
            && h[device].contains(id@) {
            Some((id@, Err::<Json, String>(message)))
        } else {
            None
        }),
        answered_by(h, device, DaemonToRelay::Hello { enrolled, device_id: claimed }) is None,
{
}

/// A call that was begun is answered once: by its own device, and not again.
pub proof fn law_calls_are_answered_once(h: Waits, device: Seq<char>, id: String, body: Json)
    requires
        h.contains_key(device),
    ensures
        ({
            let begun = after_begin(h, device, id@);
            let msg = DaemonToRelay::RpcOk { id, body };
            &&& answered_by(begun, device, msg) == Some((id@, Ok::<Json, String>(body)))
            &&& answered_by(after_end(begun, device, id@), device, msg) is None
            &&& forall|other: Seq<char>|
                other != device && !call_waits(h, other, id@) ==> #[trigger] answered_by(
                    begun,
                    other,
                    msg,
                ) is None
        }),
{
}

/// An approval that the daemon refuses is unauthorized; every other status stays.
pub proof fn law_refused_approvals(status: u16)
    ensures
        finish_status(400) == 401,
        status != 400 ==> finish_status(status) == status,
{
}

/// A claim to be another device than the channel is for is noted, and nothing else is.
pub proof fn law_claims(authenticated: Seq<char>, claimed: Seq<char>)
    ensures
        claim_warning(authenticated, None) is None,
        claim_warning(authenticated, Some(authenticated)) is None,
        claimed.len() == 0 ==> claim_warning(authenticated, Some(claimed)) is None,
        claimed.len() > 0 && claimed != authenticated ==> claim_warning(
            authenticated,
            Some(claimed),
        ) == Some(
            "ignoring hello device_id "@ + claimed + ": channel is authenticated as "@
                + authenticated,
        ),
{
}

/// Daemons come by certificate, by token, or by either, as the relay is set.
pub proof fn law_ways_in(auth: Seq<char>)
    ensures
        takes_certificates("mtls"@) && takes_certificates("both"@),
        takes_certificates(auth) ==> auth == "mtls"@ || auth == "both"@,
        !takes_certificates("token"@),
{
    reveal_strlit("mtls");
    reveal_strlit("both");
    reveal_strlit("token");
    assert("token"@.len() == 5 && "mtls"@.len() == 4 && "both"@.len() == 4);
}

/// A device that is gone has no calls, and every other device keeps its own.
pub proof fn law_devices_go(h: Waits, device: Seq<char>, other: Seq<char>, id: Seq<char>)
    ensures
        !crate::daemon::relay::after_disconnect(h, device).contains_key(device),
        other != device ==> (call_waits(
            crate::daemon::relay::after_disconnect(h, device),
            other,
            id,
        ) <==> call_waits(h, other, id)),
{
}

/// What a daemon answers to a call reaches whoever called, as it was answered.
pub proof fn law_answers_arrive(h: Waits, device: Seq<char>, id: String, reply: Result<Json, String>)
    requires
        h.contains_key(device),
    ensures
        answered_by(
            after_begin(h, device, id@),
            device,
            crate::daemon::relay_client::reply_to(id, reply),
        ) == Some((id@, reply)),
{
}

}
