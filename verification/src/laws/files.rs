//! Files: the policy, and the devices that take push messages.
use vstd::prelude::*;
use vstd::string::*;
use vstd::utf8::*;

use crate::codec::unhex;
use crate::daemon::apns::{aes_opened, token_of_record, wake_lines, ApnsError, ApnsSpec};
use crate::json::JsonSpec;
use crate::number::decimal;
use crate::proto::policy::RuleSpec;
use crate::proto::policy_file::{policy_of, rule_of, rules_fault, texts_of, toml_tier};
use crate::proto::wire::{tier_named, Tier};
use crate::text::first_chars;

verus! {

/// The texts of an array of texts, in order.
pub open spec fn list(v: Seq<Seq<char>>) -> JsonSpec {
    JsonSpec::Array(v.map_values(|t: Seq<char>| JsonSpec::Text(t)))
}

/// A list of texts is read as those texts, and one that holds anything else is none.
pub proof fn law_text_lists(v: Seq<Seq<char>>, mixed: Seq<JsonSpec>, i: int)
    ensures
        texts_of(list(v)) == Some(v),
        0 <= i < mixed.len() && !(mixed[i] is Text) ==> texts_of(JsonSpec::Array(mixed)) is None,
{
    let m = list(v)->Array_0;
    assert(m.map_values(|m: JsonSpec| m->Text_0) =~= v);
}

/// A table is read as a rule by the names of its parts: it needs a name and a tier, and has the
/// matchers that it names.
pub proof fn law_rules_are_read(
    m: JsonSpec,
    name: Seq<char>,
    tier: Tier,
    word: Seq<char>,
    argv0: Seq<Seq<char>>,
    args: Seq<Seq<char>>,
    path: Seq<char>,
    host: Seq<char>,
)
    requires
        m is Object,
        m.member("name"@) == Some(JsonSpec::Text(name)),
        m.member("tier"@) == Some(JsonSpec::Text(word)),
        tier_named(word) == Some(tier),
        m.member("argv0"@) is None || m.member("argv0"@) == Some(list(argv0)),
        m.member("args_glob"@) is None || m.member("args_glob"@) == Some(list(args)),
        m.member("path_prefix"@) is None || m.member("path_prefix"@) == Some(JsonSpec::Text(path)),
        m.member("host_glob"@) is None || m.member("host_glob"@) == Some(JsonSpec::Text(host)),
    ensures
        rule_of(m) matches Some(r) && {
            &&& r.name == name && r.tier == tier
            &&& m.member("argv0"@) is Some ==> r.argv0 == Some(argv0)
            &&& m.member("argv0"@) is None ==> r.argv0 is None
            &&& m.member("args_glob"@) is Some ==> r.args_glob == Some(args)
            &&& m.member("args_glob"@) is None ==> r.args_glob is None
            &&& m.member("path_prefix"@) is Some ==> r.path_prefix == Some(path)
            &&& m.member("path_prefix"@) is None ==> r.path_prefix is None
            &&& m.member("host_glob"@) is Some ==> r.host_glob == Some(host)
            &&& m.member("host_glob"@) is None ==> r.host_glob is None
        },
{
    law_text_lists(argv0, Seq::empty(), 0);
    law_text_lists(args, Seq::empty(), 0);
}

/// An array is read as a rule by position.
pub proof fn law_rules_are_read_in_order(
    name: Seq<char>,
    tier: Tier,
    word: Seq<char>,
    argv0: Seq<Seq<char>>,
    args: Seq<Seq<char>>,
    path: Seq<char>,
    host: Seq<char>,
)
    requires
        tier_named(word) == Some(tier),
    ensures
        rule_of(JsonSpec::Array(seq![JsonSpec::Text(name), JsonSpec::Text(word)])) == Some(
            RuleSpec {
                name,
                tier,
                argv0: None,
                args_glob: None,
                path_prefix: None,
                host_glob: None,
            },
        ),
        rule_of(
            JsonSpec::Array(
                seq![
                    JsonSpec::Text(name),
                    JsonSpec::Text(word),
                    list(argv0),
                    list(args),
                    JsonSpec::Text(path),
                    JsonSpec::Text(host),
                ],
            ),
        ) == Some(
            RuleSpec {
                name,
                tier,
                argv0: Some(argv0),
                args_glob: Some(args),
                path_prefix: Some(path),
                host_glob: Some(host),
            },
        ),
{
    law_text_lists(argv0, Seq::empty(), 0);
    law_text_lists(args, Seq::empty(), 0);
}

/// What has no name or no tier, or a part of the wrong type, is no rule.
pub proof fn law_no_rules(m: JsonSpec)
    requires
        m is Object,
        m.text_member("name"@) is None || m.member("tier"@) is None || (m.member("tier"@)->0 is Text
            && tier_named(m.member("tier"@)->0->Text_0) is None) || (m.member("path_prefix"@)
            is Some && m.text_member("path_prefix"@) is None) || (m.member("host_glob"@) is Some
            && m.text_member("host_glob"@) is None) || (m.member("argv0"@) is Some && !(m.member(
            "argv0"@,
        )->0 is Array)) || (m.member("args_glob"@) is Some && !(m.member("args_glob"@)->0
            is Array)),
    ensures
        rule_of(m) is None,
{
}

/// A policy file holds a default tier, which is `ask` where it says none, the workspace and the
/// rules, in order.
pub proof fn law_policies_are_read(
    m: JsonSpec,
    word: Seq<char>,
    tier: Tier,
    workspace: Seq<Seq<char>>,
    v: Seq<JsonSpec>,
)
    requires
        m is Object,
        m.member("default_tier"@) is None && tier == Tier::Ask || (m.member("default_tier"@) == Some(
            JsonSpec::Text(word),
        ) && tier_named(word) == Some(tier)),
        m.member("workspace"@) is None && workspace.len() == 0 || m.member("workspace"@) == Some(
            list(workspace),
        ),
        m.member("rules"@) is None && v.len() == 0 || m.member("rules"@) == Some(JsonSpec::Array(v)),
        forall|i: int| 0 <= i < v.len() ==> rule_of(#[trigger] v[i]) is Some,
    ensures
        policy_of(m) matches Ok(p) && p.default_tier == tier && p.workspace == workspace
            && p.rules.len() == v.len() && forall|i: int|
            0 <= i < v.len() ==> Some(#[trigger] p.rules[i]) == rule_of(v[i]),
{
    law_text_lists(workspace, Seq::empty(), 0);
    crate::proto::policy_file::law_rules_are_faultless(v);
    if workspace.len() == 0 {
        assert(workspace =~= Seq::empty());
    }
}

/// A policy with a rule that is none is refused, whatever else it holds.
pub proof fn law_bad_rules_refuse(m: JsonSpec, v: Seq<JsonSpec>, i: int)
    requires
        m.member("rules"@) == Some(JsonSpec::Array(v)),
        0 <= i < v.len(),
        rule_of(v[i]) is None,
    ensures
        policy_of(m) is Err,
{
    crate::proto::policy_file::law_rules_are_faultless(v);
}

/// A push token is what decrypts from a record under the key, as text; anything else is an error.
pub proof fn law_push_tokens(key: Seq<u8>, rec: ApnsSpec, n: Seq<u8>, c: Seq<u8>, p: Seq<u8>)
    ensures
        unhex(rec.nonce) == Some(n) && unhex(rec.token_ct) == Some(c) ==> {
            &&& aes_opened(key, n, c) == Some(p) && valid_utf8(p) ==> token_of_record(key, rec)
                == Ok::<Seq<char>, ApnsError>(decode_utf8(p))
            &&& aes_opened(key, n, c) == Some(p) && !valid_utf8(p) ==> token_of_record(key, rec)
                == Err::<Seq<char>, ApnsError>(ApnsError::NotText)
            &&& aes_opened(key, n, c) is None ==> token_of_record(key, rec) == Err::<
                Seq<char>,
                ApnsError,
            >(ApnsError::Decrypt)
        },
        unhex(rec.nonce) is None || unhex(rec.token_ct) is None ==> token_of_record(key, rec)
            == Err::<Seq<char>, ApnsError>(ApnsError::NotHex),
{
}

/// Waking the devices is logged once, and once for each device where there are credentials, and not
/// at all where there are no devices. A token is never part of it.
pub proof fn law_wakes(
    key: Seq<u8>,
    store: Seq<ApnsSpec>,
    prefix: Seq<char>,
    creds: bool,
    i: int,
)
    ensures
        store.len() == 0 ==> wake_lines(key, store, prefix, creds).len() == 0,
        store.len() > 0 && !creds ==> wake_lines(key, store, prefix, creds).len() == 1,
        store.len() > 0 && creds ==> wake_lines(key, store, prefix, creds).len() == 1 + store.len(),
        store.len() > 0 ==> ("apns wake digest_prefix="@ + prefix + " devices="@ + decimal(
            store.len(),
        )).is_prefix_of(wake_lines(key, store, prefix, creds)[0]),
        0 <= i < store.len() && creds ==> wake_lines(key, store, prefix, creds)[i + 1] == (
        match token_of_record(key, store[i]) {
            Ok(_) => "apns send not configured beyond env presence; token hash "@ + first_chars(
                store[i].token_hash,
                8,
            ) + " for "@ + store[i].device_id,
            Err(_) => "apns decrypt failed for "@ + store[i].device_id,
        }),
{
    if store.len() > 0 {
        let head = "apns wake digest_prefix="@ + prefix + " devices="@ + decimal(store.len());
        let line = wake_lines(key, store, prefix, creds)[0];
        assert(line.subrange(0, head.len() as int) =~= head);
    }
}

/// A file with certificates gives all of them in order; one without, or with a broken section, gives
/// none. So with keys, of which it gives the first.
pub proof fn law_certificate_files(
    v: Seq<Seq<u8>>,
    key: (crate::daemon::pem::KeyKind, Seq<u8>),
    path: Seq<char>,
)
    ensures
        v.len() > 0 ==> crate::daemon::pem::certs_or(Some(v), path) == Ok::<
            Seq<Seq<u8>>,
            Seq<char>,
        >(v),
        crate::daemon::pem::certs_or(Some(Seq::empty()), path) == Err::<Seq<Seq<u8>>, Seq<char>>(
            "no certificates in "@ + path,
        ),
        crate::daemon::pem::certs_or(None, path) == Err::<Seq<Seq<u8>>, Seq<char>>(
            "parse certs "@ + path,
        ),
        crate::daemon::pem::key_or(Some(Some(key)), path) == Ok::<
            (crate::daemon::pem::KeyKind, Seq<u8>),
            Seq<char>,
        >(key),
        crate::daemon::pem::key_or(Some(None), path) == Err::<
            (crate::daemon::pem::KeyKind, Seq<u8>),
            Seq<char>,
        >("no private key in "@ + path),
        crate::daemon::pem::key_or(None, path) == Err::<
            (crate::daemon::pem::KeyKind, Seq<u8>),
            Seq<char>,
        >("parse key "@ + path),
{
}

/// A tier in a policy file is a word, or a table of that one word with nothing under it.
pub proof fn law_tiers_in_files(word: Seq<char>, other: JsonSpec)
    ensures
        toml_tier(JsonSpec::Text(word)) == tier_named(word),
        toml_tier(JsonSpec::Object(seq![(word, JsonSpec::Object(Seq::empty()))])) == tier_named(
            word,
        ),
        !(other is Text) && !(other is Object) ==> toml_tier(other) is None,
{
}

/// A policy is refused for the first value among its rules that is none, by its number.
pub proof fn law_first_bad_rule(v: Seq<JsonSpec>, m: JsonSpec)
    requires
        forall|i: int| 0 <= i < v.len() ==> rule_of(#[trigger] v[i]) is Some,
        rule_of(m) is None,
    ensures
        rules_fault(v) is None,
        rules_fault(v.push(m)) == Some(
            "rule "@ + decimal(v.len() + 1) + ": "@ + crate::proto::policy_file::rule_fault(m),
        ),
{
    crate::proto::policy_file::law_rules_are_faultless(v);
    assert(v.push(m).drop_last() =~= v);
}

/// What is wrong with a table that is no rule is said by the name of its first part that is.
pub proof fn law_rule_faults(m: JsonSpec)
    requires
        m is Object,
    ensures
        m.member("name"@) is None ==> crate::proto::policy_file::rule_fault(m)
            == "missing field `name`"@,
        m.text_member("name"@) is Some && m.member("tier"@) is None
            ==> crate::proto::policy_file::rule_fault(m) == "missing field `tier`"@,
        m.text_member("name"@) is Some && m.member("tier"@) is Some && toml_tier(
            m.member("tier"@)->0,
        ) is None ==> crate::proto::policy_file::rule_fault(m) == "`tier` is not a tier"@,
{
}

}
