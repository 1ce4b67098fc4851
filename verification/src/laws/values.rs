//! JSON values, lines of texts, and what devices are told.
use vstd::prelude::*;
use vstd::string::*;

use crate::codec::{hex_of, unhex};
use crate::daemon::body::{comes_first, finish_fault, unexpected};
use crate::daemon::devices::{cred_lines, pair_lines};
use crate::daemon::setup::configured_lines;
use crate::json::{first_member, JsonSpec};
use crate::proto::envelope::{payload_json, scheme_label, scheme_name, EnvelopeSpec, SigScheme};
use crate::proto::relay::{DeviceCredSpec, DeviceSpec, RelayConfigSpec};
use crate::number::signed_decimal;
use crate::text::{cut_end, debug_text, has_any, has_part, lines_of, stands_at, without_cr};
use crate::codec::uuid_in;

verus! {

/// A member of an object is the first one of its name, and values that are no objects have none.
pub proof fn law_members(v: Seq<(Seq<char>, JsonSpec)>, key: Seq<char>, i: int)
    ensures
        0 <= i < v.len() && v[i].0 == key && (forall|k: int| 0 <= k < i ==> (#[trigger] v[k]).0 != key)
            ==> JsonSpec::Object(v).member(key) == Some(v[i].1),
        (forall|k: int| 0 <= k < v.len() ==> (#[trigger] v[k]).0 != key) ==> JsonSpec::Object(
            v,
        ).member(key) is None,
        JsonSpec::Null.member(key) is None,
        JsonSpec::Array(seq![]).member(key) is None,
    decreases v.len(),
{
    if v.len() > 0 {
        let rest = v.drop_first();
        law_members(rest, key, i - 1);
        assert(JsonSpec::Object(rest).member(key) == first_member(rest, key));
        if 0 < i < v.len() && v[i].0 == key && (forall|k: int|
            0 <= k < i ==> (#[trigger] v[k]).0 != key) {
            assert(v[0].0 != key);
            assert(rest[i - 1] == v[i]);
            assert forall|k: int| 0 <= k < i - 1 implies (#[trigger] rest[k]).0 != key by {
                assert(rest[k] == v[k + 1]);
            }
        }
        if forall|k: int| 0 <= k < v.len() ==> (#[trigger] v[k]).0 != key {
            assert(v[0].0 != key);
            assert forall|k: int| 0 <= k < rest.len() implies (#[trigger] rest[k]).0 != key by {
                assert(rest[k] == v[k + 1]);
            }
        }
    }
}

/// A text is read from a text and from nothing else.
pub proof fn law_texts(m: JsonSpec, t: Seq<char>)
    ensures
        JsonSpec::Text(t).text() == Some(t),
        !(m is Text) ==> m.text() is None,
{
}

/// A line ends in a line feed, or in a carriage return and a line feed, and the last one may lack
/// either. An empty text has no lines.
pub proof fn law_lines(s: Seq<char>, line: Seq<char>)
    requires
        s.len() == 0 || s.last() == '\n',
        !line.contains('\n'),
        !line.contains('\r'),
    ensures
        lines_of(Seq::empty()).len() == 0,
        lines_of(s + line + seq!['\n']) == lines_of(s).push(line),
        without_cr(line.push('\r')) == line,
        without_cr(line) == line,
{
    crate::text::lemma_lines_append(s, line);
    assert(line.push('\r').drop_last() =~= line);
    if line.len() > 0 && line.last() == '\r' {
        assert(line.contains(line[line.len() - 1]));
    }
}

/// A part stands in a text exactly where the text is something, the part, and something.
pub proof fn law_parts(a: Seq<char>, part: Seq<char>, b: Seq<char>, s: Seq<char>)
    ensures
        has_part(a + part + b, part),
        has_part(s, part) ==> exists|x: Seq<char>, y: Seq<char>| s == #[trigger] (x + part + y),
{
    let whole = a + part + b;
    assert(whole.subrange(a.len() as int, (a.len() + part.len()) as int) =~= part);
    assert(stands_at(whole, part, a.len() as int));
    if has_part(s, part) {
        let at = choose|at: int| #[trigger] stands_at(s, part, at);
        let x = s.take(at);
        let y = s.skip(at + part.len());
        assert(s =~= x + part + y);
    }
}

/// A text has a character of a set exactly where it has one at some place.
pub proof fn law_characters(s: Seq<char>, set: Seq<char>, c: char)
    ensures
        s.contains(c) && set.contains(c) ==> has_any(s, set),
        has_any(s, set) ==> exists|x: char| #[trigger] s.contains(x) && set.contains(x),
{
    if s.contains(c) && set.contains(c) {
        let i = choose|i: int| 0 <= i < s.len() && s[i] == c;
        assert(set.contains(s[i]));
    }
    if has_any(s, set) {
        let i = choose|i: int| 0 <= i < s.len() && set.contains(#[trigger] s[i]);
        assert(s.contains(s[i]));
    }
}

/// Bytes are written in two digits each, and whatever is of odd length or holds another character is
/// no bytes.
pub proof fn law_hex(bytes: Seq<u8>, s: Seq<char>)
    ensures
        hex_of(bytes).len() == 2 * bytes.len(),
        unhex(hex_of(bytes)) == Some(bytes),
        unhex(s) matches Some(b) ==> s.len() == 2 * b.len(),
        s.len() % 2 == 1 ==> unhex(s) is None,
{
    crate::codec::law_hex_round_trip(bytes);
}

/// What is signed of an envelope: all of it but the signature, each part under its name.
pub proof fn law_signed_parts(e: EnvelopeSpec)
    ensures
        payload_json(e) == JsonSpec::Object(
            seq![
                ("digest"@, JsonSpec::Text(e.digest)),
                ("expires_at"@, JsonSpec::Integer(e.expires_at as int)),
                ("issued_at"@, JsonSpec::Integer(e.issued_at as int)),
                ("key_id"@, JsonSpec::Text(e.key_id)),
                ("nonce"@, JsonSpec::Text(e.nonce)),
                ("scheme"@, JsonSpec::Text(scheme_name(e.scheme))),
            ],
        ),
        scheme_name(SigScheme::Unattested) == "none"@ && scheme_label(SigScheme::Unattested)
            == "None"@,
        scheme_name(SigScheme::P256) == "p256"@ && scheme_label(SigScheme::P256) == "P256"@,
        scheme_name(SigScheme::Webauthn) == "webauthn"@ && scheme_label(SigScheme::Webauthn)
            == "Webauthn"@,
{
}

/// The operator of a new device is told how to bring its credential to it, or to do without one, and
/// where its phone goes.
pub proof fn law_pairing(d: DeviceSpec, endpoint: Seq<char>, c: RelayConfigSpec)
    ensures
        ({
            let l = pair_lines(d, endpoint, None);
            &&& l.len() == 7
            &&& l[1] == "Device enrolled: "@ + d.device_id + " ("@ + d.label + ")"@
            &&& l[3] == "  gatehoused device-cred --device-id "@ + d.device_id + " --endpoint "@
                + endpoint + " --write"@
            &&& l[6] == "  gatehoused --relay-url "@ + endpoint + " --relay-token "@ + d.token
                + " --no-open"@
        }),
        ({
            let l = pair_lines(d, endpoint, Some(c));
            &&& l.len() == 10
            &&& l.take(7) == pair_lines(d, endpoint, None)
            &&& l[8] == "Phone URL (bind to this device): "@ + (c.origin + "/?t="@ + d.phone_token
                + "&d="@ + d.device_id)
            &&& l[9] == "rp_id="@ + c.rp_id + " — enroll passkeys against that host on the phone."@
        }),
{
    assert(pair_lines(d, endpoint, Some(c)).take(7) =~= pair_lines(d, endpoint, None));
}

/// Who wrote a credential hears where it lies, and where the phone of its device goes.
pub proof fn law_credential_reports(cred: DeviceCredSpec, path: Seq<char>, token: Seq<char>)
    ensures
        cred_lines(cred, path)[0] == "wrote daemon credential: "@ + path,
        cred.phone_token == Some(token) ==> cred_lines(cred, path).len() == 2 && cred_lines(
            cred,
            path,
        )[1] == "phone URL (device-scoped): "@ + (cut_end(cred.origin, '/') + "/?t="@ + token
            + "&d="@ + cred.device_id),
        cred.phone_token is None ==> cred_lines(cred, path).len() == 1,
{
}

/// Who sets up a relay that is set up hears its name, its origin and where phones go.
pub proof fn law_configured_relays(c: RelayConfigSpec)
    ensures
        ({
            let l = configured_lines(c);
            &&& l.len() == 8
            &&& l[1] == "  rp_id:  "@ + c.rp_id && l[2] == "  origin: "@ + c.origin
            &&& l[3] == "  phone:  "@ + (c.origin + "/?t="@ + c.phone_token)
        }),
{
}

/// A body that lacks a field is told which, and one with a bad id what is wrong with it.
pub proof fn law_body_faults(m: JsonSpec, kind: Seq<char>, id: JsonSpec, why: Seq<char>, n: u128)
    requires
        m is Object,
    ensures
        m.member("id"@) is None && m.member("cred"@) is None ==> finish_fault(m, kind, None) == Some(
            "missing field `id`"@,
        ),
        m.member("id"@) == Some(id) && uuid_in(id) == Ok::<u128, Seq<char>>(n) && m.member("cred"@)
            is None ==> finish_fault(m, kind, None) == Some("missing field `cred`"@),
        m.member("id"@) == Some(id) && uuid_in(id) == Err::<u128, Seq<char>>(why)
            ==> finish_fault(m, kind, None) == Some(why),
        m.member("id"@) == Some(id) && uuid_in(id) == Ok::<u128, Seq<char>>(n) && m.member("cred"@)
            is Some ==> finish_fault(m, kind, Some(why)) == Some(why) && finish_fault(m, kind, None)
            is None,
        finish_fault(JsonSpec::Null, kind, None) == Some(
            "invalid type: "@ + "null"@ + ", expected struct "@ + kind,
        ),
{
}

/// What a value is called where something else was expected.
pub proof fn law_unexpected_values(n: int, t: Seq<char>)
    ensures
        unexpected(JsonSpec::Null) == "null"@,
        unexpected(JsonSpec::Bool(true)) == "boolean `true`"@,
        unexpected(JsonSpec::Bool(false)) == "boolean `false`"@,
        unexpected(JsonSpec::Integer(n)) == "integer `"@ + signed_decimal(n) + "`"@,
        unexpected(JsonSpec::Float(t)) == "floating point `"@ + t + "`"@,
        unexpected(JsonSpec::Text(t)) == "string "@ + debug_text(t),
{
}

/// Of two keys the one that stands first in an object comes first.
pub proof fn law_first_keys(
    v: Seq<(Seq<char>, JsonSpec)>,
    a: Seq<char>,
    b: Seq<char>,
    m: JsonSpec,
    other: Seq<char>,
)
    requires
        a != b,
        other != a && other != b,
    ensures
        comes_first(seq![(a, m)] + v, a, b),
        !comes_first(seq![(b, m)] + v, a, b),
        comes_first(seq![(other, m)] + v, a, b) == comes_first(v, a, b),
{
    assert((seq![(other, m)] + v).drop_first() =~= v);
}

/// A tier may stand in a log as the only key of an object with nothing under it.
pub proof fn law_tiers_as_keys(name: Seq<char>, m: JsonSpec)
    ensures
        crate::proto::wire::tier_of(JsonSpec::Object(seq![(name, JsonSpec::Null)]))
            == crate::proto::wire::tier_named(name),
        !(m is Text) && !(m is Object) ==> crate::proto::wire::tier_of(m) is None,
{
}

/// An entry of the log may stand as an array of its parts in order, the hash last and left out where
/// it is empty.
pub proof fn law_entries_in_order(e: crate::proto::audit_log::EntrySpec)
    ensures
        ({
            let parts = seq![
                JsonSpec::Integer(e.ts as int),
                JsonSpec::Text(e.digest),
                JsonSpec::Text(e.summary),
                JsonSpec::Text(crate::proto::wire::tier_name(e.tier)),
                JsonSpec::Text(e.decision),
                JsonSpec::Text(e.rule),
                JsonSpec::Text(e.prev),
            ];
            &&& crate::proto::audit_log::entry_of(
                JsonSpec::Array(parts.push(JsonSpec::Text(e.hash))),
            ) == Some(e)
            &&& e.hash.len() == 0 ==> crate::proto::audit_log::entry_of(JsonSpec::Array(parts))
                == Some(e)
        }),
{
    crate::proto::wire::law_tier_round_trip(e.tier);
    if e.hash.len() == 0 {
        assert(e.hash =~= Seq::empty());
    }
}

}
