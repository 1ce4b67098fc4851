//! The calls into `webauthn_rs`. Passkeys, ceremony states and credentials go in and out as the
//! JSON values in which they are stored and sent.
use vstd::prelude::*;

use crate::codec::{base64url_text, uuid_bytes};
use crate::daemon::binding::{options_challenge, state_bound, state_challenge};
use crate::json::{items_view, of_value, to_value, Json, JsonSpec};
use crate::text::opt_text;

verus! {

#[verifier::external_type_specification]
#[verifier::external_body]
pub struct ExWebauthn(webauthn_rs::Webauthn);

/// The origin that `url::Url` reads from a text, as it writes it.
pub uninterp spec fn origin_read(text: Seq<char>) -> Seq<char>;

/// What a `Webauthn` was made for: the relying party's id, its origin as `url::Url` writes it, and
/// its name.
pub uninterp spec fn made_for(w: webauthn_rs::Webauthn) -> (Seq<char>, Seq<char>, Seq<char>);

/// Whether an origin is one that a relying party can have.
pub uninterp spec fn rp_accepted(rp_id: Seq<char>, origin: Seq<char>) -> bool;

/// The id of the passkey that a value stands for, if it is one.
pub uninterp spec fn passkey_id(m: JsonSpec) -> Option<Seq<u8>>;

/// The passkey that a credential enrolls, if the credential answers the ceremony.
pub uninterp spec fn registered_key(
    rp_id: Seq<char>,
    origin: Seq<char>,
    cred: JsonSpec,
    state: JsonSpec,
) -> Option<JsonSpec>;

/// The id of the passkey that made an assertion, if the assertion answers the ceremony.
pub uninterp spec fn assertion_key(
    rp_id: Seq<char>,
    origin: Seq<char>,
    cred: JsonSpec,
    state: JsonSpec,
) -> Option<Seq<u8>>;

/// What is wrong with a value as the state of an authentication ceremony, if anything is.
pub uninterp spec fn auth_state_fault(m: JsonSpec) -> Option<Seq<char>>;

/// What is wrong with a value as the credential that finishes an enrollment, if anything is.
pub uninterp spec fn registration_fault(m: JsonSpec) -> Option<Seq<char>>;

/// Whether a value can be read as the credential that finishes an enrollment.
pub open spec fn is_registration(m: JsonSpec) -> bool {
    registration_fault(m) is None
}

/// The signed client data and the text of an assertion, or what is wrong with the value as one.
pub uninterp spec fn assertion_parts(m: JsonSpec) -> Result<(Seq<u8>, Seq<char>), Seq<char>>;

/// What is wrong with a value as an assertion, if anything is.
pub open spec fn assertion_fault(m: JsonSpec) -> Option<Seq<char>> {
    match assertion_parts(m) {
        Ok(_) => None,
        Err(e) => Some(e),
    }
}

/// The two sides of a ceremony that was started: what the client gets, and what the daemon
/// keeps.
pub struct Ceremony {
    pub options: Json,
    pub state: Json,
}

/// An assertion as the client sent it.
pub struct Assertion {
    /// The client data that the authenticator signed.
    pub client_data: Vec<u8>,
    /// The assertion as text, to be kept with the approval.
    pub text: String,
    /// The assertion itself.
    pub json: Json,
}

/// `url::Url::parse` and `webauthn_rs::WebauthnBuilder`: nothing where the origin is no URL or
/// does not belong to the relying party, which depends on the id and the origin alone. The origin
/// is kept as the URL that was read.
#[verifier::external_body]
pub(crate) fn relying_party(rp_id: &str, origin: &str, name: &str) -> (r: Option<
    webauthn_rs::Webauthn,
>)
    ensures
        r is Some == rp_accepted(rp_id@, origin@),
        r matches Some(w) ==> made_for(w) == (rp_id@, origin_read(origin@), name@),
{
    let url = url::Url::parse(origin).ok()?;
    let builder = webauthn_rs::WebauthnBuilder::new(rp_id, &url).ok()?;
    builder.rp_name(name).build().ok()
}

/// The bytes that a list of byte lists holds.
pub open spec fn byte_lists(list: Seq<Vec<u8>>) -> Seq<Seq<u8>> {
    list.map_values(|v: Vec<u8>| v@)
}

/// The ids of some passkeys; nothing where one of the values is no passkey.
pub open spec fn passkey_ids(passkeys: Seq<JsonSpec>) -> Option<Seq<Seq<u8>>> {
    if forall|i: int| 0 <= i < passkeys.len() ==> passkey_id(#[trigger] passkeys[i]) is Some {
        Some(passkeys.map_values(|m: JsonSpec| passkey_id(m)->0))
    } else {
        None
    }
}

/// Passkeys by their ids, as a client is told about them.
pub open spec fn described(ids: Seq<Seq<u8>>) -> Seq<JsonSpec> {
    ids.map_values(
        |id: Seq<u8>|
            JsonSpec::Object(
                seq![
                    ("type"@, JsonSpec::Text("public-key"@)),
                    ("id"@, JsonSpec::Text(base64url_text(id))),
                ],
            ),
    )
}

/// Whether options ask a client to enroll a passkey for a user of a relying party, but none of
/// those that are enrolled already.
pub open spec fn asks_to_enroll(
    options: JsonSpec,
    rp: (Seq<char>, Seq<char>, Seq<char>),
    user: u128,
    name: Seq<char>,
    display: Seq<char>,
    enrolled: Seq<Seq<u8>>,
) -> bool {
    match options.member("publicKey"@) {
        Some(key) => {
            &&& key.member("rp"@) == Some(
                JsonSpec::Object(
                    seq![("name"@, JsonSpec::Text(rp.2)), ("id"@, JsonSpec::Text(rp.0))],
                ),
            )
            &&& key.member("user"@) == Some(
                JsonSpec::Object(
                    seq![
                        ("id"@, JsonSpec::Text(base64url_text(uuid_bytes(user)))),
                        ("name"@, JsonSpec::Text(name)),
                        ("displayName"@, JsonSpec::Text(display)),
                    ],
                ),
            )
            &&& key.member("excludeCredentials"@) == Some(JsonSpec::Array(described(enrolled)))
        },
        None => false,
    }
}

/// Whether a state and options of an enrollment are for the same challenge, and the state leaves
/// out the same passkeys.
pub open spec fn keeps_enrollment(options: JsonSpec, state: JsonSpec, enrolled: Seq<Seq<u8>>) -> bool {
    match state.member("rs"@) {
        Some(rs) => {
            &&& options_challenge(options) is Some
            &&& rs.text_member("challenge"@) == options_challenge(options)
            &&& rs.member("exclude_credentials"@) == Some(
                JsonSpec::Array(
                    enrolled.map_values(|id: Seq<u8>| JsonSpec::Text(base64url_text(id))),
                ),
            )
        },
        None => false,
    }
}

/// Whether each value of a list holds the id at its place under a key.
pub open spec fn lists_ids(list: JsonSpec, key: Seq<char>, ids: Seq<Seq<u8>>) -> bool {
    match list {
        JsonSpec::Array(v) => {
            &&& v.len() == ids.len()
            &&& forall|i: int|
                0 <= i < v.len() ==> (#[trigger] v[i]).text_member(key) == Some(
                    base64url_text(ids[i]),
                )
        },
        _ => false,
    }
}

/// Whether options ask a client for an assertion of one of some passkeys of a relying party.
pub open spec fn asks_to_assert(options: JsonSpec, rp_id: Seq<char>, ids: Seq<Seq<u8>>) -> bool {
    match options.member("publicKey"@) {
        Some(key) => {
            &&& key.text_member("rpId"@) == Some(rp_id)
            &&& key.member("allowCredentials"@) matches Some(list) && lists_ids(list, "id"@, ids)
        },
        None => false,
    }
}

/// Whether a state and options of an authentication are for the same challenge, and the state goes
/// by the same passkeys: with any other challenge in it, the state can still be read, and an
/// assertion that answers it is one of those passkeys.
pub open spec fn keeps_assertion(options: JsonSpec, state: JsonSpec, ids: Seq<Seq<u8>>) -> bool {
    match state.member("ast"@) {
        Some(ast) => {
            &&& options_challenge(options) is Some
            &&& state_challenge(state) == options_challenge(options)
            &&& ast.member("credentials"@) matches Some(list) && lists_ids(list, "cred_id"@, ids)
            &&& forall|challenge: Seq<u8>|
                auth_state_fault((#[trigger] state_bound(state, challenge))->0) is None
            &&& forall|
                rp_id: Seq<char>,
                origin: Seq<char>,
                cred: JsonSpec,
                challenge: Seq<u8>,
                id: Seq<u8>,
            |
                #[trigger] assertion_key(rp_id, origin, cred, state_bound(state, challenge)->0)
                    == Some(id) ==> #[trigger] ids.contains(id)
        },
        None => false,
    }
}

/// `serde_json::from_value` on a `Passkey`, and `cred_id` of what it returns, which depends on the
/// value alone; nothing where the value is no passkey.
#[verifier::external_body]
pub(crate) fn read_passkey_id(j: &Json) -> (r: Option<Vec<u8>>)
    ensures
        match r {
            Some(id) => passkey_id(j@) == Some(id@),
            None => passkey_id(j@) is None,
        },
{
    let key = serde_json::from_value::<webauthn_rs::prelude::Passkey>(to_value(j)).ok()?;
    Some(key.cred_id().as_ref().to_vec())
}

/// `Webauthn::start_passkey_registration`: it fails on an empty name, and else asks for what it is
/// given, with a random challenge of which nothing is claimed.
#[verifier::external_body]
pub(crate) fn start_registration(
    w: &webauthn_rs::Webauthn,
    user: u128,
    name: &str,
    display: &str,
    enrolled: &Vec<Vec<u8>>,
) -> (r: Result<Ceremony, String>)
    ensures
        r is Ok == (name@.len() > 0 && display@.len() > 0),
        r matches Ok(c) ==> asks_to_enroll(
            c.options@,
            made_for(*w),
            user,
            name@,
            display@,
            byte_lists(enrolled@),
        ),
        r matches Ok(c) ==> keeps_enrollment(c.options@, c.state@, byte_lists(enrolled@)),
{
    let ids = enrolled.iter().map(|id| id.clone().into()).collect();
    let (ccr, state) = w.start_passkey_registration(
        uuid::Uuid::from_u128(user), name, display, Some(ids)).map_err(|e| e.to_string())?;
    let options = serde_json::to_value(&ccr).map_err(|e| e.to_string())?;
    let state = serde_json::to_value(&state).map_err(|e| e.to_string())?;
    Ok(Ceremony { options: of_value(&options), state: of_value(&state) })
}

/// `Webauthn::finish_passkey_registration`: the passkey that was registered. It fails where the
/// credential does not answer the ceremony. Both depend on the relying party, the credential and
/// the state alone; of the text of a failure nothing is claimed.
#[verifier::external_body]
pub(crate) fn finish_registration(w: &webauthn_rs::Webauthn, cred: &Json, state: &Json) -> (r: Result<
    Json,
    String,
>)
    ensures
        match r {
            Ok(key) => registered_key(made_for(*w).0, made_for(*w).1, cred@, state@) == Some(key@),
            Err(_) => registered_key(made_for(*w).0, made_for(*w).1, cred@, state@) is None,
        },
{
    let cred = serde_json::from_value(to_value(cred)).map_err(|e| e.to_string())?;
    let state = serde_json::from_value(to_value(state)).map_err(|e| e.to_string())?;
    let key = w.finish_passkey_registration(&cred, &state).map_err(|e| e.to_string())?;
    serde_json::to_value(&key).map(|v| of_value(&v)).map_err(|e| e.to_string())
}

/// `Webauthn::start_passkey_authentication`, on passkeys that `serde_json::from_value` reads: it
/// fails where one of them is no passkey, and else asks for an assertion of one of them, with a
/// random challenge of which nothing is claimed.
#[verifier::external_body]
pub(crate) fn start_authentication(w: &webauthn_rs::Webauthn, passkeys: &Vec<Json>) -> (r: Result<
    Ceremony,
    String,
>)
    ensures
        r is Ok == (passkey_ids(items_view(passkeys@)) is Some),
        r matches Ok(c) ==> asks_to_assert(
            c.options@,
            made_for(*w).0,
            passkey_ids(items_view(passkeys@))->0,
        ),
        r matches Ok(c) ==> keeps_assertion(
            c.options@,
            c.state@,
            passkey_ids(items_view(passkeys@))->0,
        ),
{
    let keys = passkeys.iter().map(|p| serde_json::from_value(to_value(p))).collect::<
        Result<Vec<webauthn_rs::prelude::Passkey>, _>,
    >().map_err(|e| e.to_string())?;
    let (rcr, state) = w.start_passkey_authentication(&keys).map_err(|e| e.to_string())?;
    let options = serde_json::to_value(&rcr).map_err(|e| e.to_string())?;
    let state = serde_json::to_value(&state).map_err(|e| e.to_string())?;
    Ok(Ceremony { options: of_value(&options), state: of_value(&state) })
}

/// `Webauthn::finish_passkey_authentication`: the id of the passkey that made the assertion. It
/// fails where the assertion does not answer the ceremony. Both depend on the relying
/// party, the assertion and the state alone; of the text of a failure nothing is claimed.
#[verifier::external_body]
pub(crate) fn finish_authentication(w: &webauthn_rs::Webauthn, cred: &Json, state: &Json) -> (r:
    Result<Vec<u8>, String>)
    ensures
        match r {
            Ok(id) => assertion_key(made_for(*w).0, made_for(*w).1, cred@, state@) == Some(id@),
            Err(_) => assertion_key(made_for(*w).0, made_for(*w).1, cred@, state@) is None,
        },
{
    let cred = serde_json::from_value(to_value(cred)).map_err(|e| e.to_string())?;
    let state = serde_json::from_value(to_value(state)).map_err(|e| e.to_string())?;
    let result = w.finish_passkey_authentication(&cred, &state).map_err(|e| e.to_string())?;
    Ok(result.cred_id().as_ref().to_vec())
}

/// `serde_json::from_value` on a `PasskeyAuthentication`: what is wrong with the value as one, if
/// anything is, which depends on the value alone.
#[verifier::external_body]
pub(crate) fn check_auth_state(j: &Json) -> (r: Option<String>)
    ensures
        opt_text(r) == auth_state_fault(j@),
{
    let state = serde_json::from_value::<webauthn_rs::prelude::PasskeyAuthentication>(to_value(j));
    state.err().map(|e| e.to_string())
}

/// `serde_json::from_value` on a `RegisterPublicKeyCredential`: what is wrong with the value as one,
/// if anything is, which depends on the value alone.
#[verifier::external_body]
pub(crate) fn check_registration(j: &Json) -> (r: Option<String>)
    ensures
        opt_text(r) == registration_fault(j@),
{
    let cred = serde_json::from_value::<webauthn_rs::prelude::RegisterPublicKeyCredential>(
        to_value(j),
    );
    cred.err().map(|e| e.to_string())
}

/// `serde_json::from_value` on a `PublicKeyCredential`: the signed client data and the text of
/// the credential, or what is wrong with the value as one, which depend on the value alone.
#[verifier::external_body]
fn read_assertion(j: &Json) -> (r: Result<(Vec<u8>, String), String>)
    ensures
        match r {
            Ok((data, text)) => assertion_parts(j@) == Ok::<(Seq<u8>, Seq<char>), Seq<char>>(
                (data@, text@),
            ),
            Err(m) => assertion_parts(j@) == Err::<(Seq<u8>, Seq<char>), Seq<char>>(m@),
        },
{
    let cred = serde_json::from_value::<webauthn_rs::prelude::PublicKeyCredential>(
        to_value(j),
    ).map_err(|e| e.to_string())?;
    let text = serde_json::to_string(&cred).unwrap_or_default();
    Ok((cred.response.client_data_json.as_ref().to_vec(), text))
}

impl Assertion {
    /// The assertion that a value stands for, or what is wrong with the value as one.
    pub fn read(j: &Json) -> (r: Result<Assertion, String>)
        ensures
            match r {
                Ok(a) => {
                    &&& assertion_parts(j@) == Ok::<(Seq<u8>, Seq<char>), Seq<char>>(
                        (a.client_data@, a.text@),
                    )
                    &&& a.json@ == j@
                },
                Err(m) => assertion_parts(j@) == Err::<(Seq<u8>, Seq<char>), Seq<char>>(m@),
            },
    {
        match read_assertion(j) {
            Ok((client_data, text)) => Ok(Assertion { client_data, text, json: j.copy() }),
            Err(m) => Err(m),
        }
    }
}

}
