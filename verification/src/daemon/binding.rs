//! Challenges that are bound to a request.
//!
//! The challenge of a ceremony is *derived* from the request rather than random, so the assertion
//! that the authenticator signs covers the identity of the request it releases:
//!
//! ```text
//! challenge = SHA-256( canonical { "digest":  <digest of the request>,
//!                                  "nonce":   <nonce of the waiting request>,
//!                                  "purpose": "gatehouse-approval-v1" } )
//! ```
//!
//! The purpose keeps this hash apart from the digest of a request.
//!
//! A ceremony is started with a random challenge; [`bind_challenge`] replaces it in what the
//! client gets and in what the daemon keeps. At release [`assertion_challenge`] reads the
//! challenge back out of the signed client data, and it is compared with a *fresh* derivation
//! from the request that is about to be released.
use vstd::prelude::*;
use vstd::string::*;
use vstd::utf8::*;

use crate::codec::{
    base64url_bytes, base64url_decode, base64url_encode, base64url_text, bytes_equal, sha256,
    sha256_collision, sha256_of,
};
use crate::daemon::passkey::{auth_state_fault, check_auth_state, Assertion};
use crate::json::{
    canonical, canonical_form, canonical_text, json_read_bytes, key_before,
    lemma_key_order_first, lemma_object_view, lemma_ordered_distinct, member, members_view,
    parse_bytes, plain, simple_key, sorted, text, Json, JsonSpec, Member,
};
use crate::proto::request::{request_json, request_text, RequestSpec};
use crate::text::{first_chars, take_chars};

verus! {

/// Keeps this hash apart from the digest of a request.
pub const PURPOSE: &'static str = "gatehouse-approval-v1";

/// What a challenge is derived from, as JSON, its members in the order of their names.
pub open spec fn challenge_json(digest: Seq<char>, nonce: Seq<char>) -> JsonSpec {
    JsonSpec::Object(
        seq![
            ("digest"@, JsonSpec::Text(digest)),
            ("nonce"@, JsonSpec::Text(nonce)),
            ("purpose"@, JsonSpec::Text(PURPOSE@)),
        ],
    )
}

/// The canonical text that a challenge is the hash of.
pub open spec fn challenge_text(digest: Seq<char>, nonce: Seq<char>) -> Seq<char> {
    canonical_text(challenge_json(digest, nonce))
}

/// The challenge for one waiting request.
pub open spec fn challenge_of(digest: Seq<char>, nonce: Seq<char>) -> Seq<u8> {
    sha256_of(encode_utf8(challenge_text(digest, nonce)))
}

/// Why an assertion does not release a request.
#[derive(Clone, Debug)]
pub enum BindError {
    /// The client data is not JSON, with what is wrong with it.
    NotJson(String),
    /// The client data holds no challenge.
    NoChallenge,
    /// The challenge is not base64url, with what is wrong with it.
    NotBase64(String),
    /// The challenge is not that of the request.
    NotBound,
}

/// Why an assertion does not release a request.
#[verifier::ext_equal]
pub enum BindFault {
    NotJson(Seq<char>),
    NoChallenge,
    NotBase64(Seq<char>),
    NotBound,
}

impl View for BindError {
    type V = BindFault;

    open spec fn view(&self) -> BindFault {
        match self {
            BindError::NotJson(m) => BindFault::NotJson(m@),
            BindError::NoChallenge => BindFault::NoChallenge,
            BindError::NotBase64(m) => BindFault::NotBase64(m@),
            BindError::NotBound => BindFault::NotBound,
        }
    }
}

/// The challenge that is signed with some client data.
pub open spec fn signed_challenge(client_data: Seq<u8>) -> Result<Seq<u8>, BindFault> {
    match json_read_bytes(client_data) {
        Err(e) => Err(BindFault::NotJson(e)),
        Ok(m) => match m.text_member("challenge"@) {
            None => Err(BindFault::NoChallenge),
            Some(t) => match base64url_bytes(t) {
                Err(e) => Err(BindFault::NotBase64(e)),
                Ok(b) => Ok(b),
            },
        },
    }
}

/// Whether some client data was signed for one waiting request, and why not.
pub open spec fn bound(client_data: Seq<u8>, digest: Seq<char>, nonce: Seq<char>) -> Result<
    (),
    BindFault,
> {
    match signed_challenge(client_data) {
        Err(e) => Err(e),
        Ok(b) => if b == challenge_of(digest, nonce) {
            Ok(())
        } else {
            Err(BindFault::NotBound)
        },
    }
}

impl BindFault {
    /// The reason in words.
    pub open spec fn reason(self) -> Seq<char> {
        match self {
            BindFault::NotJson(e) => "clientDataJSON not JSON: "@ + e,
            BindFault::NoChallenge => "clientDataJSON has no challenge"@,
            BindFault::NotBase64(e) => "clientDataJSON challenge not base64url: "@ + e,
            BindFault::NotBound => "assertion is not bound to this request"@,
        }
    }
}

impl BindError {
    /// The reason in words.
    pub fn message(&self) -> (r: String)
        ensures
            r@ == self@.reason(),
    {
        match self {
            BindError::NotJson(e) => {
                let mut out = "clientDataJSON not JSON: ".to_owned();
                out.append(e.as_str());
                out
            },
            BindError::NoChallenge => "clientDataJSON has no challenge".to_owned(),
            BindError::NotBase64(e) => {
                let mut out = "clientDataJSON challenge not base64url: ".to_owned();
                out.append(e.as_str());
                out
            },
            BindError::NotBound => "assertion is not bound to this request".to_owned(),
        }
    }
}

proof fn lemma_challenge_canonical(digest: Seq<char>, nonce: Seq<char>)
    ensures
        canonical_form(challenge_json(digest, nonce)),
{
    reveal_with_fuel(plain, 2);
    reveal_with_fuel(sorted, 2);
    reveal_strlit("digest");
    reveal_strlit("nonce");
    reveal_strlit("purpose");
    assert("digest"@ =~= seq!['d', 'i', 'g', 'e', 's', 't']);
    assert("nonce"@ =~= seq!['n', 'o', 'n', 'c', 'e']);
    assert("purpose"@ =~= seq!['p', 'u', 'r', 'p', 'o', 's', 'e']);
    let v = challenge_json(digest, nonce)->Object_0;
    assert forall|i: int| 0 <= i < v.len() implies simple_key((#[trigger] v[i]).0) by {}
    assert forall|i: int, j: int| 0 <= i < j < v.len() implies exists|at: int|
        key_before((#[trigger] v[i]).0, (#[trigger] v[j]).0, at) by {
        lemma_key_order_first(v[i].0, v[j].0);
    }
    lemma_ordered_distinct(v);
}

proof fn lemma_challenge_injective(d: Seq<char>, n: Seq<char>, d2: Seq<char>, n2: Seq<char>)
    requires
        challenge_json(d, n) == challenge_json(d2, n2),
    ensures
        d == d2,
        n == n2,
{
    let x = challenge_json(d, n)->Object_0;
    let y = challenge_json(d2, n2)->Object_0;
    assert(x == y);
    assert(x[0] == y[0] && x[1] == y[1]);
}

proof fn lemma_challenge_is_no_request(digest: Seq<char>, nonce: Seq<char>, r: RequestSpec)
    ensures
        challenge_json(digest, nonce) != request_json(r),
{
    let x = challenge_json(digest, nonce)->Object_0;
    let y = request_json(r)->Object_0;
    assert(x.len() != y.len());
}

/// The challenge for one waiting request. Another request or another nonce with the same
/// challenge, or a request whose digest equals it, would be a SHA-256 collision.
pub fn derive_challenge(digest: &str, nonce: &str) -> (r: [u8; 32])
    ensures
        r@ == challenge_of(digest@, nonce@),
        forall|d: Seq<char>, n: Seq<char>| #[trigger]
            challenge_of(d, n) == r@ ==> (d == digest@ && n == nonce@) || sha256_collision(
                challenge_text(d, n),
                challenge_text(digest@, nonce@),
            ),
        forall|q: RequestSpec|
            sha256_of(encode_utf8(#[trigger] request_text(q))) == r@ ==> sha256_collision(
                request_text(q),
                challenge_text(digest@, nonce@),
            ),
{
    let mut out: Vec<Member> = Vec::new();
    out.push(member("digest", text(digest)));
    out.push(member("nonce", text(nonce)));
    out.push(member("purpose", text(PURPOSE)));
    proof {
        lemma_object_view(out);
        assert(members_view(out@) =~= challenge_json(digest@, nonce@)->Object_0);
        lemma_challenge_canonical(digest@, nonce@);
    }
    let input = match canonical(&Json::Object(out)) {
        Ok(t) => t,
        Err(_) => String::new(),
    };
    proof {
        assert forall|d: Seq<char>, n: Seq<char>| #[trigger]
            challenge_of(d, n) == sha256_of(encode_utf8(input@)) implies (d == digest@ && n
            == nonce@) || sha256_collision(
            challenge_text(d, n),
            challenge_text(digest@, nonce@),
        ) by {
            if challenge_text(d, n) == input@ {
                lemma_challenge_canonical(d, n);
                lemma_challenge_injective(d, n, digest@, nonce@);
            }
        }
        assert forall|q: RequestSpec|
            sha256_of(encode_utf8(#[trigger] request_text(q))) == sha256_of(
                encode_utf8(input@),
            ) implies sha256_collision(request_text(q), challenge_text(digest@, nonce@)) by {
            if request_text(q) == input@ {
                crate::proto::request::lemma_request_canonical(q);
                lemma_challenge_is_no_request(digest@, nonce@, q);
                assert(canonical_text(request_json(q)) == input@);
            }
        }
    }
    sha256(input.as_str().as_bytes())
}

/// The short code that a human compares between the daemon's terminal and the approval page.
pub fn verification_code(digest: &str) -> (r: String)
    ensures
        r@ == first_chars(digest@, 8),
{
    take_chars(digest, 8)
}

/// Where the challenge stands in the ceremony state that the daemon keeps, the given bytes in
/// its place.
pub open spec fn state_bound(state: JsonSpec, challenge: Seq<u8>) -> Option<JsonSpec> {
    state.with_inner("ast"@, "challenge"@, JsonSpec::Text(base64url_text(challenge)))
}

/// Where the challenge stands in the options that the client gets, the given bytes in its
/// place.
pub open spec fn options_bound(options: JsonSpec, challenge: Seq<u8>) -> Option<JsonSpec> {
    options.with_inner("publicKey"@, "challenge"@, JsonSpec::Text(base64url_text(challenge)))
}

/// Why the challenge of a ceremony cannot be replaced, if it cannot.
pub open spec fn rebind_failure(options: JsonSpec, state: JsonSpec, challenge: Seq<u8>) -> Option<
    Seq<char>,
> {
    if options_bound(options, challenge) is None {
        Some("challenge options have no challenge field"@)
    } else if state_bound(state, challenge) is None {
        Some("ceremony state has no challenge field"@)
    } else {
        match auth_state_fault(state_bound(state, challenge)->0) {
            Some(e) => Some("ceremony state rejected rebind: "@ + e),
            None => None,
        }
    }
}

/// The challenge that a ceremony state holds.
pub open spec fn state_challenge(state: JsonSpec) -> Option<Seq<char>> {
    match state.member("ast"@) {
        Some(ast) => ast.text_member("challenge"@),
        None => None,
    }
}

/// The challenge that the options for a client hold.
pub open spec fn options_challenge(options: JsonSpec) -> Option<Seq<char>> {
    match options.member("publicKey"@) {
        Some(key) => key.text_member("challenge"@),
        None => None,
    }
}

/// What was put in place of a challenge is the challenge.
pub proof fn law_bound_challenge_is_found(m: JsonSpec, outer: Seq<char>, inner: Seq<char>, t: Seq<char>)
    requires
        m.with_inner(outer, inner, JsonSpec::Text(t)) is Some,
    ensures
        (m.with_inner(outer, inner, JsonSpec::Text(t))->0).member(outer) is Some,
        ((m.with_inner(outer, inner, JsonSpec::Text(t))->0).member(outer)->0).text_member(inner)
            == Some(t),
{
    let changed = m.member(outer)->0.with(inner, JsonSpec::Text(t))->0;
    crate::json::law_replaced_is_found(m->Object_0, outer, changed, outer);
    crate::json::law_replaced_is_found(m.member(outer)->0->Object_0, inner, JsonSpec::Text(t), inner);
}

/// Replaces the random challenge of a ceremony, in the options for the client and in the state
/// that the daemon keeps.
pub fn bind_challenge(rcr: &mut Json, state: Json, challenge: &[u8; 32]) -> (r: Result<
    Json,
    String,
>)
    ensures
        match options_bound(old(rcr)@, challenge@) {
            Some(o) => final(rcr)@ == o && options_challenge(o) == Some(base64url_text(challenge@)),
            None => final(rcr)@ == old(rcr)@,
        },
        match r {
            Ok(s) => {
                &&& rebind_failure(old(rcr)@, state@, challenge@) is None
                &&& state_bound(state@, challenge@) == Some(s@)
                &&& state_challenge(s@) == Some(base64url_text(challenge@))
                &&& base64url_bytes(base64url_text(challenge@)) == Ok::<Seq<u8>, Seq<char>>(challenge@)
            },
            Err(m) => rebind_failure(old(rcr)@, state@, challenge@) == Some(m@),
        },
{
    let encoded = base64url_encode(challenge.as_slice());
    proof {
        if options_bound(rcr@, challenge@) is Some {
            law_bound_challenge_is_found(rcr@, "publicKey"@, "challenge"@, encoded@);
        }
        if state_bound(state@, challenge@) is Some {
            law_bound_challenge_is_found(state@, "ast"@, "challenge"@, encoded@);
        }
    }
    match rcr.with_inner("publicKey", "challenge", text(encoded.as_str())) {
        Some(o) => {
            *rcr = o;
        },
        None => {
            return Err("challenge options have no challenge field".to_owned());
        },
    }
    let s = match state.with_inner("ast", "challenge", text(encoded.as_str())) {
        Some(s) => s,
        None => {
            return Err("ceremony state has no challenge field".to_owned());
        },
    };
    match check_auth_state(&s) {
        Some(e) => {
            let mut out = "ceremony state rejected rebind: ".to_owned();
            out.append(e.as_str());
            Err(out)
        },
        None => Ok(s),
    }
}

/// The challenge that the authenticator signed, read back out of the client data.
pub fn assertion_challenge(cred: &Assertion) -> (r: Result<Vec<u8>, BindError>)
    ensures
        match r {
            Ok(b) => signed_challenge(cred.client_data@) == Ok::<Seq<u8>, BindFault>(b@),
            Err(e) => signed_challenge(cred.client_data@) == Err::<Seq<u8>, BindFault>(e@),
        },
{
    let client_data = match parse_bytes(cred.client_data.as_slice()) {
        Ok(j) => j,
        Err(e) => {
            return Err(BindError::NotJson(e.message));
        },
    };
    match client_data.get_text("challenge") {
        Some(t) => match base64url_decode(t.as_str()) {
            Ok(b) => Ok(b),
            Err(e) => Err(BindError::NotBase64(e)),
        },
        None => Err(BindError::NoChallenge),
    }
}

/// Fails unless the signed challenge is exactly the one derived from the request that is being
/// released. An assertion that passes for one request passes for no other and under no other
/// nonce, short of a SHA-256 collision.
pub fn check_bound(cred: &Assertion, digest: &str, nonce: &str) -> (r: Result<(), BindError>)
    ensures
        match r {
            Ok(_) => bound(cred.client_data@, digest@, nonce@) is Ok,
            Err(e) => bound(cred.client_data@, digest@, nonce@) == Err::<(), BindFault>(e@),
        },
        r is Ok ==> forall|d: Seq<char>, n: Seq<char>|
            (#[trigger] bound(cred.client_data@, d, n)) is Ok ==> (d == digest@ && n == nonce@)
                || sha256_collision(challenge_text(d, n), challenge_text(digest@, nonce@)),
{
    let signed = match assertion_challenge(cred) {
        Ok(b) => b,
        Err(e) => {
            return Err(e);
        },
    };
    let expected = derive_challenge(digest, nonce);
    if bytes_equal(signed.as_slice(), expected.as_slice()) {
        proof {
            assert forall|d: Seq<char>, n: Seq<char>|
                (#[trigger] bound(cred.client_data@, d, n)) is Ok implies (d == digest@ && n
                == nonce@) || sha256_collision(
                challenge_text(d, n),
                challenge_text(digest@, nonce@),
            ) by {
                assert(challenge_of(d, n) == expected@);
            }
        }
        Ok(())
    } else {
        Err(BindError::NotBound)
    }
}

}
