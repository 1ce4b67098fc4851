//! The bodies of requests. A body with fields is an object with members of their names, or an array
//! of their values in order.
use vstd::prelude::*;
use vstd::string::*;

use crate::codec::{read_uuid, uuid_in};
use crate::json::{
    items_view, lemma_array_view, lemma_object_view, members_view, opt_json, Json, JsonSpec, Member,
};
use crate::number::{decimal, signed_decimal, to_decimal, wide_signed_decimal};
use crate::text::{debug_text, opt_text, quoted, same};

verus! {

/// The enrollment code in a body: empty where there is no body or no code in it, and nothing
/// where the body has another shape or its code is no text.
pub open spec fn code_body(body: Option<JsonSpec>) -> Option<Seq<char>> {
    match body {
        None => Some(Seq::empty()),
        Some(JsonSpec::Object(v)) => match body->0.member("code"@) {
            None => Some(Seq::empty()),
            Some(c) => c.text(),
        },
        Some(JsonSpec::Array(v)) => if v.len() == 0 {
            Some(Seq::empty())
        } else if v.len() == 1 {
            v[0].text()
        } else {
            None
        },
        _ => None,
    }
}

fn copy_text(j: &Json) -> (r: Option<String>)
    ensures
        opt_text(r) == j@.text(),
{
    match j.as_text() {
        Some(t) => Some(t.clone()),
        None => None,
    }
}

pub fn read_code_body(body: Option<&Json>) -> (r: Option<String>)
    ensures
        opt_text(r) == code_body(opt_json(body)),
{
    let j = match body {
        None => {
            let none = String::new();
            assert(none@ =~= Seq::empty());
            return Some(none);
        },
        Some(j) => j,
    };
    match j {
        Json::Object(v) => {
            proof {
                lemma_object_view(*v);
            }
            match j.get("code") {
                None => {
                    let none = String::new();
                    assert(none@ =~= Seq::empty());
                    Some(none)
                },
                Some(c) => copy_text(c),
            }
        },
        Json::Array(v) => {
            proof {
                lemma_array_view(*v);
            }
            if v.len() == 0 {
                let none = String::new();
                assert(none@ =~= Seq::empty());
                Some(none)
            } else if v.len() == 1 {
                assert(items_view(v@)[0] == v@[0]@);
                copy_text(&v[0])
            } else {
                None
            }
        },
        _ => None,
    }
}

/// The digest in a body that names a request; nothing where the body has another shape or the
/// digest is no text.
pub open spec fn digest_body(body: JsonSpec) -> Option<Seq<char>> {
    match body {
        JsonSpec::Array(v) => if v.len() == 1 {
            v[0].text()
        } else {
            None
        },
        _ => body.text_member("digest"@),
    }
}

pub fn read_digest_body(body: &Json) -> (r: Option<String>)
    ensures
        opt_text(r) == digest_body(body@),
{
    match body {
        Json::Array(v) => {
            proof {
                lemma_array_view(*v);
            }
            if v.len() == 1 {
                assert(items_view(v@)[0] == v@[0]@);
                copy_text(&v[0])
            } else {
                None
            }
        },
        _ => {
            assert(!(body@ is Array));
            match body.get_text("digest") {
                Some(t) => Some(t.clone()),
                None => None,
            }
        },
    }
}

/// The values of a body that finishes a ceremony: the ceremony's id and a credential, as far as it
/// holds them.
pub open spec fn finish_fields(body: JsonSpec) -> (Option<JsonSpec>, Option<JsonSpec>) {
    match body {
        JsonSpec::Array(v) => (
            if v.len() > 0 {
                Some(v[0])
            } else {
                None
            },
            if v.len() > 1 {
                Some(v[1])
            } else {
                None
            },
        ),
        _ => (body.member("id"@), body.member("cred"@)),
    }
}

/// A body that finishes a ceremony: the ceremony's id and a credential.
pub open spec fn finish_body(body: JsonSpec) -> Option<(u128, JsonSpec)> {
    match finish_fields(body) {
        (Some(id), Some(cred)) => match uuid_in(id) {
            Ok(id) => if body matches JsonSpec::Array(v) && v.len() > 2 {
                None
            } else {
                Some((id, cred))
            },
            Err(_) => None,
        },
        _ => None,
    }
}

/// What a value that has neither members nor items is called where something else was expected.
pub open spec fn unexpected(m: JsonSpec) -> Seq<char> {
    match m {
        JsonSpec::Null => "null"@,
        JsonSpec::Bool(b) => if b {
            "boolean `true`"@
        } else {
            "boolean `false`"@
        },
        JsonSpec::Integer(n) => "integer `"@ + signed_decimal(n) + "`"@,
        JsonSpec::Float(t) => "floating point `"@ + t + "`"@,
        JsonSpec::Text(t) => "string "@ + debug_text(t),
        JsonSpec::Array(_) => "sequence"@,
        JsonSpec::Object(_) => "map"@,
    }
}

/// Whether the first member with one of two keys has the first of them.
pub open spec fn comes_first(
    v: Seq<(Seq<char>, JsonSpec)>,
    a: Seq<char>,
    b: Seq<char>,
) -> bool
    decreases v.len(),
{
    if v.len() == 0 {
        false
    } else if v[0].0 == a {
        true
    } else if v[0].0 == b {
        false
    } else {
        comes_first(v.drop_first(), a, b)
    }
}

/// What is wrong with the id of a ceremony, if there is one and anything is.
pub open spec fn id_fault(id: Option<JsonSpec>) -> Option<Seq<char>> {
    match id {
        Some(id) => match uuid_in(id) {
            Ok(_) => None,
            Err(m) => Some(m),
        },
        None => None,
    }
}

/// What is wrong with a body that is to finish a ceremony, if anything is, given what is wrong with
/// the credential in it. The fields are looked at in the order in which they stand, and only then
/// whether one is missing or one is too many.
pub open spec fn finish_fault(
    body: JsonSpec,
    kind: Seq<char>,
    cred_fault: Option<Seq<char>>,
) -> Option<Seq<char>> {
    let (id, cred) = finish_fields(body);
    match body {
        JsonSpec::Object(v) => if id_fault(id) is Some && (cred is None || cred_fault is None
            || comes_first(v, "id"@, "cred"@)) {
            id_fault(id)
        } else if cred is Some && cred_fault is Some {
            cred_fault
        } else if id is None {
            Some("missing field `id`"@)
        } else if cred is None {
            Some("missing field `cred`"@)
        } else {
            None
        },
        JsonSpec::Array(v) => if id_fault(id) is Some {
            id_fault(id)
        } else if v.len() < 2 {
            Some(
                "invalid length "@ + decimal(v.len()) + ", expected struct "@ + kind
                    + " with 2 elements"@,
            )
        } else if cred_fault is Some {
            cred_fault
        } else if v.len() > 2 {
            Some("invalid length "@ + decimal(v.len()) + ", expected fewer elements in array"@)
        } else {
            None
        },
        _ => Some("invalid type: "@ + unexpected(body) + ", expected struct "@ + kind),
    }
}

/// A body finishes a ceremony exactly where nothing is wrong with it and its credential.
pub proof fn law_faultless_bodies_finish(body: JsonSpec, kind: Seq<char>)
    ensures
        finish_fault(body, kind, None) is None <==> finish_body(body) is Some,
        finish_body(body) matches Some((id, cred)) ==> forall|fault: Option<Seq<char>>|
            #[trigger] finish_fault(body, kind, fault) == fault,
{
}

fn name_unexpected(j: &Json) -> (r: String)
    ensures
        r@ == unexpected(j@),
{
    match j {
        Json::Null => "null".to_owned(),
        Json::Bool(true) => "boolean `true`".to_owned(),
        Json::Bool(false) => "boolean `false`".to_owned(),
        Json::Integer(n) => {
            let mut out = "integer `".to_owned();
            out.append(wide_signed_decimal(*n).as_str());
            out.append("`");
            out
        },
        Json::Float(t) => {
            let mut out = "floating point `".to_owned();
            out.append(t.as_str());
            out.append("`");
            out
        },
        Json::Text(t) => {
            let mut out = "string ".to_owned();
            out.append(quoted(t.as_str()).as_str());
            out
        },
        Json::Array(_) => "sequence".to_owned(),
        Json::Object(_) => "map".to_owned(),
    }
}

fn stands_first(v: &Vec<Member>, a: &str, b: &str) -> (r: bool)
    ensures
        r == comes_first(members_view(v@), a@, b@),
{
    let ghost all = members_view(v@);
    let mut i: usize = 0;
    assert(all.skip(0) =~= all);
    while i < v.len()
        invariant
            i <= v@.len(),
            all == members_view(v@),
            comes_first(all, a@, b@) == comes_first(all.skip(i as int), a@, b@),
        decreases v@.len() - i,
    {
        assert(all.skip(i as int)[0] == all[i as int]);
        assert(all.skip(i as int).drop_first() =~= all.skip(i + 1));
        if same(v[i].key.as_str(), a) {
            return true;
        }
        if same(v[i].key.as_str(), b) {
            return false;
        }
        i += 1;
    }
    false
}

/// The values of a body that finishes a ceremony, as far as it holds them.
pub fn split_finish(body: &Json) -> (r: (Option<&Json>, Option<&Json>))
    ensures
        (opt_json(r.0), opt_json(r.1)) == finish_fields(body@),
{
    match body {
        Json::Array(v) => {
            proof {
                lemma_array_view(*v);
            }
            let id = if v.len() > 0 {
                assert(items_view(v@)[0] == v@[0]@);
                Some(&v[0])
            } else {
                None
            };
            let cred = if v.len() > 1 {
                assert(items_view(v@)[1] == v@[1]@);
                Some(&v[1])
            } else {
                None
            };
            (id, cred)
        },
        _ => {
            assert(!(body@ is Array));
            (body.get("id"), body.get("cred"))
        },
    }
}

/// What is wrong with a credential that was read, if there is one and anything is.
pub open spec fn read_fault<T>(cred: Option<Result<T, String>>) -> Option<Seq<char>> {
    match cred {
        Some(Err(m)) => Some(m@),
        _ => None,
    }
}

fn wrong_length(len: usize, expected: &str, kind: &str, rest: &str) -> (r: String)
    ensures
        r@ == "invalid length "@ + decimal(len as nat) + expected@ + kind@ + rest@,
{
    let mut out = "invalid length ".to_owned();
    out.append(to_decimal(len as u64).as_str());
    out.append(expected);
    out.append(kind);
    out.append(rest);
    out
}

/// Reads a body that is to finish a ceremony, given what came of reading the credential in it: the
/// ceremony's id and the credential, or what is wrong with the body.
pub fn parse_finish<T>(body: &Json, kind: &str, cred: Option<Result<T, String>>) -> (r: Result<
    (u128, T),
    String,
>)
    requires
        cred is Some == (finish_fields(body@).1 is Some),
    ensures
        match finish_fault(body@, kind@, read_fault(cred)) {
            Some(m) => r is Err && r->Err_0@ == m,
            None => {
                &&& r is Ok
                &&& finish_body(body@) is Some
                &&& r->Ok_0.0 == (finish_body(body@)->0).0
                &&& cred == Some(Ok::<T, String>(r->Ok_0.1))
            },
        },
{
    let (id, _) = split_finish(body);
    match body {
        Json::Object(v) => {
            proof {
                lemma_object_view(*v);
            }
            match (id, cred) {
                (Some(id), Some(cred)) => match (read_uuid(id), cred) {
                    (Ok(id), Ok(cred)) => Ok((id, cred)),
                    (Ok(_), Err(m)) => Err(m),
                    (Err(m), Ok(_)) => Err(m),
                    (Err(of_id), Err(of_cred)) => if stands_first(v, "id", "cred") {
                        Err(of_id)
                    } else {
                        Err(of_cred)
                    },
                },
                (Some(id), None) => match read_uuid(id) {
                    Ok(_) => Err("missing field `cred`".to_owned()),
                    Err(m) => Err(m),
                },
                (None, Some(Err(m))) => Err(m),
                (None, _) => Err("missing field `id`".to_owned()),
            }
        },
        Json::Array(v) => {
            proof {
                lemma_array_view(*v);
            }
            match (id, cred) {
                (Some(id), Some(cred)) => match (read_uuid(id), cred) {
                    (Err(m), _) => Err(m),
                    (Ok(_), Err(m)) => Err(m),
                    (Ok(id), Ok(cred)) => if v.len() > 2 {
                        let fault = wrong_length(
                            v.len(),
                            ", expected fewer elements in array",
                            "",
                            "",
                        );
                        proof {
                            reveal_strlit("");
                            assert(fault@ =~= "invalid length "@ + decimal(v@.len())
                                + ", expected fewer elements in array"@);
                        }
                        Err(fault)
                    } else {
                        Ok((id, cred))
                    },
                },
                (Some(id), None) => match read_uuid(id) {
                    Ok(_) => Err(
                        wrong_length(v.len(), ", expected struct ", kind, " with 2 elements"),
                    ),
                    Err(m) => Err(m),
                },
                (None, _) => Err(
                    wrong_length(v.len(), ", expected struct ", kind, " with 2 elements"),
                ),
            }
        },
        _ => {
            let mut out = "invalid type: ".to_owned();
            out.append(name_unexpected(body).as_str());
            out.append(", expected struct ");
            out.append(kind);
            Err(out)
        },
    }
}

/// The ceremony's id and the credential in a body.
pub fn read_finish_body(body: &Json) -> (r: Option<(u128, &Json)>)
    ensures
        match r {
            Some((id, cred)) => finish_body(body@) == Some((id, cred@)),
            None => finish_body(body@) is None,
        },
{
    let cred: Option<Result<&Json, String>> = match split_finish(body).1 {
        Some(cred) => Some(Ok(cred)),
        None => None,
    };
    proof {
        law_faultless_bodies_finish(body@, "a body"@);
    }
    match parse_finish(body, "a body", cred) {
        Ok(parts) => Some(parts),
        Err(_) => None,
    }
}

}
