//! Devices that are enrolled at a relay.
//!
//! Each enrolled device has two secrets of its own: `token` for the daemon's link and
//! `phone_token` for that device's phone. Nothing is shared between devices.
//!
//! The phone token *is* the device selector: [`authorize_phone`] derives the device from the
//! presented token and only then checks that a device that was asked for agrees. Comparisons
//! look at every record without an early exit.
use vstd::prelude::*;
use vstd::string::*;

use crate::codec::{
    hex_digits, is_hex, lemma_hex_digits, new_token, new_uuid, secret_equal, uuid_text,
    uuid_to_text,
};
use crate::number::{signed_decimal, to_signed_decimal};
use crate::proto::relay::{
    device_url, device_url_text, DeviceCred, DeviceCredSpec, DeviceRecord, DeviceSpec, RelayConfig,
    RelayConfigSpec,
};
use crate::text::{cut_end, first_chars, opt_str, same, take_chars, texts, trim_end_matches};

verus! {

/// The key of the one link that is authenticated by certificate. It cannot be enrolled: no
/// record may claim it.
pub const MTLS_DEVICE: &'static str = "_mtls";

/// What a list of devices says.
pub open spec fn devices_view(devices: Seq<DeviceRecord>) -> Seq<DeviceSpec> {
    devices.map_values(|d: DeviceRecord| d@)
}

/// The two kinds of secrets of a device.
#[derive(Clone, Copy, Debug, PartialEq, Eq, Structural)]
pub enum Secret {
    Link,
    Phone,
}

/// A secret of a device.
pub open spec fn secret_of(d: DeviceSpec, kind: Secret) -> Seq<char> {
    match kind {
        Secret::Link => d.token,
        Secret::Phone => d.phone_token,
    }
}

/// The last device that has a secret.
pub open spec fn last_with(devices: Seq<DeviceSpec>, presented: Seq<char>, kind: Secret) -> Option<
    DeviceSpec,
>
    decreases devices.len(),
{
    if devices.len() == 0 {
        None
    } else if secret_of(devices.last(), kind) == presented {
        Some(devices.last())
    } else {
        last_with(devices.drop_last(), presented, kind)
    }
}

/// The device whose secret is presented. An empty secret is nobody's.
pub open spec fn selected(devices: Seq<DeviceSpec>, presented: Seq<char>, kind: Secret) -> Option<
    DeviceSpec,
> {
    if presented.len() == 0 {
        None
    } else {
        last_with(devices, presented, kind)
    }
}

/// What an optional device says.
pub open spec fn opt_device(d: Option<DeviceRecord>) -> Option<DeviceSpec> {
    match d {
        Some(d) => Some(d@),
        None => None,
    }
}

/// Whom a phone may talk to.
#[derive(Debug, PartialEq, Eq)]
pub enum Authz {
    /// The token belongs to this enrolled device.
    Device(String),
    /// The token is the one of the whole relay: the link by certificate.
    LegacyMtls,
    /// The token matches nothing.
    Unauthenticated,
    /// The token is valid but asks for a device it does not own.
    WrongDevice,
}

/// Whom a phone may talk to.
#[verifier::ext_equal]
pub enum AuthzSpec {
    Device(Seq<char>),
    LegacyMtls,
    Unauthenticated,
    WrongDevice,
}

impl View for Authz {
    type V = AuthzSpec;

    open spec fn view(&self) -> AuthzSpec {
        match self {
            Authz::Device(d) => AuthzSpec::Device(d@),
            Authz::LegacyMtls => AuthzSpec::LegacyMtls,
            Authz::Unauthenticated => AuthzSpec::Unauthenticated,
            Authz::WrongDevice => AuthzSpec::WrongDevice,
        }
    }
}

/// Whether a phone asks for another device than a given one. Asking for none, or for an
/// empty name, is no such request.
pub open spec fn asks_for_other(requested: Option<Seq<char>>, device: Seq<char>) -> bool {
    requested matches Some(d) && d.len() > 0 && d != device
}

/// Whom a phone may talk to: the device whose phone token it presents, or the link by
/// certificate where it presents the relay's own token.
pub open spec fn authorization(
    devices: Seq<DeviceSpec>,
    relay_phone_token: Seq<char>,
    presented: Seq<char>,
    requested: Option<Seq<char>>,
) -> AuthzSpec {
    match selected(devices, presented, Secret::Phone) {
        Some(d) => if asks_for_other(requested, d.device_id) {
            AuthzSpec::WrongDevice
        } else {
            AuthzSpec::Device(d.device_id)
        },
        None => if relay_phone_token.len() > 0 && presented == relay_phone_token {
            if asks_for_other(requested, MTLS_DEVICE@) {
                AuthzSpec::WrongDevice
            } else {
                AuthzSpec::LegacyMtls
            }
        } else {
            AuthzSpec::Unauthenticated
        },
    }
}

/// The device of a presented secret has that secret, and no device has it if none is found.
pub proof fn lemma_last_with(devices: Seq<DeviceSpec>, presented: Seq<char>, kind: Secret)
    ensures
        match last_with(devices, presented, kind) {
            Some(d) => devices.contains(d) && secret_of(d, kind) == presented,
            None => forall|i: int|
                0 <= i < devices.len() ==> secret_of(#[trigger] devices[i], kind) != presented,
        },
    decreases devices.len(),
{
    if devices.len() > 0 {
        let front = devices.drop_last();
        lemma_last_with(front, presented, kind);
        if secret_of(devices.last(), kind) == presented {
            assert(devices[devices.len() - 1] == devices.last());
        } else {
            match last_with(front, presented, kind) {
                Some(d) => {
                    let k = choose|k: int| 0 <= k < front.len() && front[k] == d;
                    assert(devices[k] == d);
                },
                None => {
                    assert forall|i: int| 0 <= i < devices.len() implies secret_of(
                        #[trigger] devices[i],
                        kind,
                    ) != presented by {
                        if i < front.len() {
                            assert(front[i] == devices[i]);
                        }
                    }
                },
            }
        }
    }
}

/// A phone reaches a device only with that device's own phone token and never when it asks
/// for another one. The relay's own token reaches the link by certificate and nothing else,
/// and an empty or unknown token reaches nothing.
pub proof fn law_phones_reach_only_their_device(
    devices: Seq<DeviceSpec>,
    relay_phone_token: Seq<char>,
    presented: Seq<char>,
    requested: Option<Seq<char>>,
)
    ensures
        authorization(devices, relay_phone_token, presented, requested) matches AuthzSpec::Device(d)
            ==> {
            &&& presented.len() > 0
            &&& !asks_for_other(requested, d)
            &&& exists|i: int|
                0 <= i < devices.len() && (#[trigger] devices[i]).device_id == d
                    && devices[i].phone_token == presented
        },
        authorization(devices, relay_phone_token, presented, requested) is LegacyMtls ==> {
            &&& presented == relay_phone_token
            &&& presented.len() > 0
            &&& !asks_for_other(requested, MTLS_DEVICE@)
            &&& forall|i: int|
                0 <= i < devices.len() ==> (#[trigger] devices[i]).phone_token != presented
        },
        presented.len() == 0 ==> authorization(devices, relay_phone_token, presented, requested)
            is Unauthenticated,
        presented != relay_phone_token && (forall|i: int|
            0 <= i < devices.len() ==> (#[trigger] devices[i]).phone_token != presented)
            ==> authorization(devices, relay_phone_token, presented, requested) is Unauthenticated,
{
    lemma_last_with(devices, presented, Secret::Phone);
    match last_with(devices, presented, Secret::Phone) {
        Some(d) => {
            let k = choose|k: int| 0 <= k < devices.len() && devices[k] == d;
            assert(devices[k].phone_token == presented);
        },
        None => {
            assert forall|i: int| 0 <= i < devices.len() implies (
            #[trigger] devices[i]).phone_token != presented by {
                assert(secret_of(devices[i], Secret::Phone) != presented);
            }
        },
    }
}

/// The secrets of the two kinds do not cross: a link secret selects a device by its link
/// token alone, and a phone secret by its phone token alone.
pub proof fn law_secrets_do_not_cross(devices: Seq<DeviceSpec>, presented: Seq<char>, kind: Secret)
    requires
        forall|i: int| 0 <= i < devices.len() ==> secret_of(#[trigger] devices[i], kind) != presented,
    ensures
        selected(devices, presented, kind) is None,
{
    lemma_last_with(devices, presented, kind);
    if let Some(d) = last_with(devices, presented, kind) {
        let k = choose|k: int| 0 <= k < devices.len() && devices[k] == d;
        assert(secret_of(devices[k], kind) != presented);
    }
}

fn select(devices: &Vec<DeviceRecord>, presented: &str, kind: Secret) -> (r: Option<DeviceRecord>)
    ensures
        opt_device(r) == selected(devices_view(devices@), presented@, kind),
{
    if presented.is_empty() {
        return None;
    }
    let ghost all = devices_view(devices@);
    let mut hit: Option<usize> = None;
    let mut i: usize = 0;
    while i < devices.len()
        invariant
            all == devices_view(devices@),
            i <= devices@.len(),
            match hit {
                Some(at) => at < i && last_with(all.take(i as int), presented@, kind) == Some(
                    all[at as int],
                ),
                None => last_with(all.take(i as int), presented@, kind) is None,
            },
        decreases devices@.len() - i,
    {
        assert(all.take(i + 1).drop_last() =~= all.take(i as int));
        assert(all.take(i + 1).last() == devices@[i as int]@);
        let secret = match kind {
            Secret::Link => devices[i].token.as_str(),
            Secret::Phone => devices[i].phone_token.as_str(),
        };
        if secret_equal(secret, presented) {
            hit = Some(i);
        }
        i += 1;
    }
    assert(all.take(devices@.len() as int) =~= all);
    match hit {
        Some(at) => Some(devices[at].copy()),
        None => None,
    }
}

/// The device whose link token this is.
pub fn select_by_token(devices: &Vec<DeviceRecord>, token: &str) -> (r: Option<DeviceRecord>)
    ensures
        opt_device(r) == selected(devices_view(devices@), token@, Secret::Link),
{
    select(devices, token, Secret::Link)
}

/// The device whose phone token this is.
pub fn select_by_phone_token(devices: &Vec<DeviceRecord>, token: &str) -> (r: Option<DeviceRecord>)
    ensures
        opt_device(r) == selected(devices_view(devices@), token@, Secret::Phone),
{
    select(devices, token, Secret::Phone)
}

/// Whom one call of a phone may reach.
///
/// The token names the device; a device that is asked for is only ever a cross-check, so
/// holding the token of one device can never address another.
pub fn authorize_phone(
    devices: &Vec<DeviceRecord>,
    relay_phone_token: &str,
    presented: &str,
    requested: Option<&str>,
) -> (r: Authz)
    ensures
        r@ == authorization(
            devices_view(devices@),
            relay_phone_token@,
            presented@,
            opt_str(requested),
        ),
{
    if let Some(rec) = select_by_phone_token(devices, presented) {
        if let Some(d) = requested {
            if !d.is_empty() && !same(d, rec.device_id.as_str()) {
                return Authz::WrongDevice;
            }
        }
        return Authz::Device(rec.device_id);
    }
    if !relay_phone_token.is_empty() && secret_equal(presented, relay_phone_token) {
        if let Some(d) = requested {
            if !d.is_empty() && !same(d, MTLS_DEVICE) {
                return Authz::WrongDevice;
            }
        }
        return Authz::LegacyMtls;
    }
    Authz::Unauthenticated
}

/// The first device with a given id.
pub open spec fn first_named(devices: Seq<DeviceSpec>, device_id: Seq<char>) -> Option<DeviceSpec>
    decreases devices.len(),
{
    if devices.len() == 0 {
        None
    } else if devices[0].device_id == device_id {
        Some(devices[0])
    } else {
        first_named(devices.drop_first(), device_id)
    }
}

/// The first device with a given id, or why there is none.
pub fn find(devices: &Vec<DeviceRecord>, device_id: &str) -> (r: Result<DeviceRecord, String>)
    ensures
        match r {
            Ok(d) => first_named(devices_view(devices@), device_id@) == Some(d@),
            Err(m) => first_named(devices_view(devices@), device_id@) is None && m@
                == "unknown device_id "@ + device_id@,
        },
{
    let ghost all = devices_view(devices@);
    let mut i: usize = 0;
    assert(all.skip(0) =~= all);
    while i < devices.len()
        invariant
            all == devices_view(devices@),
            i <= devices@.len(),
            first_named(all, device_id@) == first_named(all.skip(i as int), device_id@),
        decreases devices@.len() - i,
    {
        assert(all.skip(i as int)[0] == devices@[i as int]@);
        if same(devices[i].device_id.as_str(), device_id) {
            return Ok(devices[i].copy());
        }
        assert(all.skip(i as int).drop_first() =~= all.skip(i + 1));
        i += 1;
    }
    let mut out = "unknown device_id ".to_owned();
    out.append(device_id);
    Err(out)
}

/// The device whose link token this is, among the enrolled ones.
pub fn lookup_token(devices: &Vec<DeviceRecord>, token: &str) -> (r: Option<DeviceRecord>)
    ensures
        opt_device(r) == selected(devices_view(devices@), token@, Secret::Link),
{
    select_by_token(devices, token)
}

/// The record of a new device.
pub open spec fn enrolled_device(
    id: u128,
    token: Seq<char>,
    phone_token: Seq<char>,
    label: Seq<char>,
    created_at: i64,
) -> DeviceSpec {
    DeviceSpec {
        device_id: "dev_"@ + first_chars(uuid_text(id), 8),
        token,
        phone_token,
        label,
        created_at,
    }
}

/// Whether an id has the shape of an enrolled one: `dev_` and eight hexadecimal digits.
pub open spec fn enrolled_id(id: Seq<char>) -> bool {
    &&& id.len() == 12
    &&& id.take(4) == "dev_"@
    &&& is_hex(id.skip(4))
}

/// The record of a new device, from its random parts.
pub fn record_for(id: u128, token: &str, phone_token: &str, label: &str, created_at: i64) -> (r:
    DeviceRecord)
    ensures
        r@ == enrolled_device(id, token@, phone_token@, label@, created_at),
        enrolled_id(r@.device_id),
        r@.device_id != MTLS_DEVICE@,
{
    let text = uuid_to_text(id);
    let mut device_id = "dev_".to_owned();
    device_id.append(take_chars(text.as_str(), 8).as_str());
    proof {
        lemma_hex_digits(id as nat, 32);
        reveal_strlit("dev_");
        reveal_strlit("_mtls");
        let d = hex_digits(id as nat, 32);
        assert(text@.take(8) =~= d.take(8));
        assert(device_id@.take(4) =~= "dev_"@);
        assert(device_id@.skip(4) =~= d.take(8));
        assert(device_id@[0] == 'd');
        assert(MTLS_DEVICE@[0] == '_');
    }
    DeviceRecord {
        device_id,
        token: token.to_owned(),
        phone_token: phone_token.to_owned(),
        label: label.to_owned(),
        created_at,
    }
}

/// Whether the enrollment of a device comes to what its random parts say. Were its two secrets the
/// same, a phone could pass for the device, so nothing is enrolled then.
pub open spec fn enroll_follows(
    before: Seq<DeviceSpec>,
    after: Seq<DeviceSpec>,
    label: Seq<char>,
    created_at: i64,
    id: u128,
    token: Seq<char>,
    phone_token: Seq<char>,
    r: Result<DeviceRecord, String>,
) -> bool {
    if token == phone_token {
        &&& r is Err
        &&& r->Err_0@ == "the secrets of a device have to differ"@
        &&& after == before
    } else {
        &&& r is Ok
        &&& r->Ok_0@ == enrolled_device(id, token, phone_token, label, created_at)
        &&& after == before.push(r->Ok_0@)
    }
}

/// Enrolls a new device under a label, given its random parts.
pub fn enroll_given(
    devices: &mut Vec<DeviceRecord>,
    label: &str,
    created_at: i64,
    id: u128,
    token: &str,
    phone_token: &str,
) -> (r: Result<DeviceRecord, String>)
    ensures
        enroll_follows(
            devices_view(old(devices)@),
            devices_view(final(devices)@),
            label@,
            created_at,
            id,
            token@,
            phone_token@,
            r,
        ),
        r matches Ok(d) ==> enrolled_id(d@.device_id) && d@.device_id != MTLS_DEVICE@,
{
    if secret_equal(token, phone_token) {
        return Err("the secrets of a device have to differ".to_owned());
    }
    let rec = record_for(id, token, phone_token, label, created_at);
    devices.push(rec.copy());
    assert(devices_view(devices@) =~= devices_view(old(devices)@).push(rec@));
    Ok(rec)
}

/// Enrolls a new device under a label, with two random secrets of its own, which differ. It fails
/// only where the same secret was drawn twice, and then enrolls nothing.
pub fn enroll(devices: &mut Vec<DeviceRecord>, label: &str, created_at: i64) -> (r: Result<
    DeviceRecord,
    String,
>)
    ensures
        r matches Ok(d) ==> {
            &&& devices_view(final(devices)@) == devices_view(old(devices)@).push(d@)
            &&& enrolled_id(d@.device_id)
            &&& d@.device_id != MTLS_DEVICE@
            &&& d@.label == label@
            &&& d@.created_at == created_at
            &&& d@.token != d@.phone_token
            &&& d@.token.len() == 64 && is_hex(d@.token)
            &&& d@.phone_token.len() == 64 && is_hex(d@.phone_token)
        },
        exists|id: u128, token: Seq<char>, phone_token: Seq<char>|
            {
                &&& token.len() == 64 && is_hex(token)
                &&& phone_token.len() == 64 && is_hex(phone_token)
                &&& #[trigger] enroll_follows(
                    devices_view(old(devices)@),
                    devices_view(final(devices)@),
                    label@,
                    created_at,
                    id,
                    token,
                    phone_token,
                    r,
                )
            },
{
    let token = new_token();
    let phone_token = new_token();
    enroll_given(devices, label, created_at, new_uuid(), token.as_str(), phone_token.as_str())
}

/// The line about one device in the list of devices.
pub open spec fn device_line(d: DeviceSpec) -> Seq<char> {
    d.device_id + "  "@ + (if d.label.len() == 0 {
        "-"@
    } else {
        d.label
    }) + "  created="@ + signed_decimal(d.created_at as int)
}

/// The lines of the list of devices.
pub open spec fn device_lines(devices: Seq<DeviceSpec>) -> Seq<Seq<char>> {
    if devices.len() == 0 {
        seq!["(no devices enrolled)"@]
    } else {
        devices.map_values(|d: DeviceSpec| device_line(d))
    }
}

/// The lines of the list of devices.
pub fn list(devices: &Vec<DeviceRecord>) -> (r: Vec<String>)
    ensures
        texts(r@) == device_lines(devices_view(devices@)),
{
    let mut out: Vec<String> = Vec::new();
    if devices.len() == 0 {
        out.push("(no devices enrolled)".to_owned());
        assert(texts(out@) =~= device_lines(devices_view(devices@)));
        return out;
    }
    let mut i: usize = 0;
    while i < devices.len()
        invariant
            i <= devices@.len(),
            out@.len() == i,
            forall|k: int| 0 <= k < i ==> (#[trigger] out@[k])@ == device_line(devices@[k]@),
        decreases devices@.len() - i,
    {
        let d = &devices[i];
        let mut line = d.device_id.clone();
        line.append("  ");
        if d.label.as_str().is_empty() {
            line.append("-");
        } else {
            line.append(d.label.as_str());
        }
        line.append("  created=");
        line.append(to_signed_decimal(d.created_at).as_str());
        out.push(line);
        i += 1;
    }
    assert(texts(out@) =~= device_lines(devices_view(devices@)));
    out
}

/// The credential with which a device's daemon dials the relay.
pub open spec fn cred_of(d: DeviceSpec, endpoint: Seq<char>, config: RelayConfigSpec) -> DeviceCredSpec {
    DeviceCredSpec {
        device_id: d.device_id,
        token: d.token,
        endpoint: cut_end(endpoint, '/'),
        rp_id: config.rp_id,
        origin: config.origin,
        phone_token: Some(d.phone_token),
    }
}

/// The credential with which a device's daemon dials the relay.
pub fn daemon_cred(rec: &DeviceRecord, endpoint: &str, config: &RelayConfig) -> (r: DeviceCred)
    ensures
        r@ == cred_of(rec@, endpoint@, config@),
{
    DeviceCred {
        device_id: rec.device_id.clone(),
        token: rec.token.clone(),
        endpoint: trim_end_matches(endpoint, '/'),
        rp_id: config.rp_id.clone(),
        origin: config.origin.clone(),
        phone_token: Some(rec.phone_token.clone()),
    }
}

/// What to tell the operator after a credential was written to a file.
pub open spec fn cred_lines(cred: DeviceCredSpec, path: Seq<char>) -> Seq<Seq<char>> {
    let wrote = "wrote daemon credential: "@ + path;
    match cred.phone_token {
        Some(t) => seq![
            wrote,
            "phone URL (device-scoped): "@ + device_url(cut_end(cred.origin, '/'), t, cred.device_id),
        ],
        None => seq![wrote],
    }
}

/// What to tell the operator after a credential was written to a file.
pub fn cred_report(cred: &DeviceCred, path: &str) -> (r: Vec<String>)
    ensures
        texts(r@) == cred_lines(cred@, path@),
{
    let mut out: Vec<String> = Vec::new();
    let mut wrote = "wrote daemon credential: ".to_owned();
    wrote.append(path);
    out.push(wrote);
    if let Some(url) = cred.phone_url() {
        let mut line = "phone URL (device-scoped): ".to_owned();
        line.append(url.as_str());
        out.push(line);
    }
    assert(texts(out@) =~= cred_lines(cred@, path@));
    out
}

/// What to tell the operator who pairs a device.
pub open spec fn pair_lines(
    d: DeviceSpec,
    endpoint: Seq<char>,
    config: Option<RelayConfigSpec>,
) -> Seq<Seq<char>> {
    let first = seq![
        Seq::<char>::empty(),
        "Device enrolled: "@ + d.device_id + " ("@ + d.label + ")"@,
        "On the machine running gatehoused:"@,
        "  gatehoused device-cred --device-id "@ + d.device_id + " --endpoint "@ + endpoint
            + " --write"@,
        "  # copies device.json, then: gatehoused --no-open"@,
        "Or without a file:"@,
        "  gatehoused --relay-url "@ + endpoint + " --relay-token "@ + d.token + " --no-open"@,
    ];
    match config {
        Some(c) => first.push(Seq::empty()).push(
            "Phone URL (bind to this device): "@ + device_url(c.origin, d.phone_token, d.device_id),
        ).push("rp_id="@ + c.rp_id + " — enroll passkeys against that host on the phone."@),
        None => first,
    }
}

/// What an optional configuration says.
pub open spec fn opt_config(c: Option<&RelayConfig>) -> Option<RelayConfigSpec> {
    match c {
        Some(c) => Some(c@),
        None => None,
    }
}

/// What to tell the operator who pairs a device.
pub fn pair_instructions(rec: &DeviceRecord, endpoint: &str, config: Option<&RelayConfig>) -> (r:
    Vec<String>)
    ensures
        texts(r@) == pair_lines(rec@, endpoint@, opt_config(config)),
{
    let mut out: Vec<String> = Vec::new();
    out.push(String::new());
    let mut line = "Device enrolled: ".to_owned();
    line.append(rec.device_id.as_str());
    line.append(" (");
    line.append(rec.label.as_str());
    line.append(")");
    out.push(line);
    out.push("On the machine running gatehoused:".to_owned());
    let mut line = "  gatehoused device-cred --device-id ".to_owned();
    line.append(rec.device_id.as_str());
    line.append(" --endpoint ");
    line.append(endpoint);
    line.append(" --write");
    out.push(line);
    out.push("  # copies device.json, then: gatehoused --no-open".to_owned());
    out.push("Or without a file:".to_owned());
    let mut line = "  gatehoused --relay-url ".to_owned();
    line.append(endpoint);
    line.append(" --relay-token ");
    line.append(rec.token.as_str());
    line.append(" --no-open");
    out.push(line);
    if let Some(c) = config {
        out.push(String::new());
        let mut line = "Phone URL (bind to this device): ".to_owned();
        line.append(
            device_url_text(
                c.origin.as_str(),
                rec.phone_token.as_str(),
                rec.device_id.as_str(),
            ).as_str(),
        );
        out.push(line);
        let mut line = "rp_id=".to_owned();
        line.append(c.rp_id.as_str());
        line.append(" — enroll passkeys against that host on the phone.");
        out.push(line);
    }
    assert(texts(out@) =~= pair_lines(rec@, endpoint@, opt_config(config)));
    out
}

}
