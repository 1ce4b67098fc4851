//! Approvals, bound to one request each.
use vstd::prelude::*;

use crate::json::{
    canonical, canonical_form, canonical_text, key_before, lemma_key_order_first,
    lemma_object_view, lemma_ordered_distinct, member, members_view, plain, simple_key, sorted,
    text, Json, JsonSpec, Member,
};
use crate::proto::request::ProtoError;
use crate::text::same;

verus! {

/// How an approval was attested.
#[derive(Clone, Copy, Debug, PartialEq, Eq, Structural)]
pub enum SigScheme {
    /// The operator approved through the control channel, with no cryptographic
    /// attestation.
    Unattested,
    /// A P-256 signature from a Secure Enclave key.
    P256,
    /// A WebAuthn assertion from an enrolled passkey.
    Webauthn,
}

/// A decision bound to one specific request digest.
///
/// The signature, where there is one, covers [`ApprovalEnvelope::signing_payload`]:
/// digest, nonce, validity window and key. So an approval can neither be replayed
/// after it has expired nor moved onto a different request.
#[derive(Debug)]
pub struct ApprovalEnvelope {
    pub digest: String,
    /// Made by the daemon, for one use.
    pub nonce: String,
    pub issued_at: i64,
    pub expires_at: i64,
    pub key_id: String,
    pub scheme: SigScheme,
    /// The signature over the signing payload. Empty for `SigScheme::Unattested`.
    pub sig: String,
}

/// Why an envelope does not release a request.
#[derive(Clone, Copy, Debug, PartialEq, Eq, Structural)]
pub enum EnvelopeError {
    DigestMismatch,
    Expired,
    NotYetValid,
}

impl EnvelopeError {
    /// The error in words.
    pub open spec fn words(self) -> Seq<char> {
        match self {
            EnvelopeError::DigestMismatch => "envelope digest does not match request digest"@,
            EnvelopeError::Expired => "envelope expired"@,
            EnvelopeError::NotYetValid => "envelope issued in the future"@,
        }
    }

    /// The error in words.
    pub fn message(self) -> (r: &'static str)
        ensures
            r@ == self.words(),
    {
        match self {
            EnvelopeError::DigestMismatch => "envelope digest does not match request digest",
            EnvelopeError::Expired => "envelope expired",
            EnvelopeError::NotYetValid => "envelope issued in the future",
        }
    }
}

/// What an envelope says.
#[verifier::ext_equal]
pub struct EnvelopeSpec {
    pub digest: Seq<char>,
    pub nonce: Seq<char>,
    pub issued_at: i64,
    pub expires_at: i64,
    pub key_id: Seq<char>,
    pub scheme: SigScheme,
    pub sig: Seq<char>,
}

impl View for ApprovalEnvelope {
    type V = EnvelopeSpec;

    open spec fn view(&self) -> EnvelopeSpec {
        EnvelopeSpec {
            digest: self.digest@,
            nonce: self.nonce@,
            issued_at: self.issued_at,
            expires_at: self.expires_at,
            key_id: self.key_id@,
            scheme: self.scheme,
            sig: self.sig@,
        }
    }
}

/// The name of a scheme in messages.
pub open spec fn scheme_name(s: SigScheme) -> Seq<char> {
    match s {
        SigScheme::Unattested => "none"@,
        SigScheme::P256 => "p256"@,
        SigScheme::Webauthn => "webauthn"@,
    }
}

/// The name of a scheme in the audit log.
pub open spec fn scheme_label(s: SigScheme) -> Seq<char> {
    match s {
        SigScheme::Unattested => "None"@,
        SigScheme::P256 => "P256"@,
        SigScheme::Webauthn => "Webauthn"@,
    }
}

/// Everything in an envelope but the signature, as JSON, its members in the order of
/// their names.
pub open spec fn payload_json(e: EnvelopeSpec) -> JsonSpec {
    JsonSpec::Object(
        seq![
            ("digest"@, JsonSpec::Text(e.digest)),
            ("expires_at"@, JsonSpec::Integer(e.expires_at as int)),
            ("issued_at"@, JsonSpec::Integer(e.issued_at as int)),
            ("key_id"@, JsonSpec::Text(e.key_id)),
            ("nonce"@, JsonSpec::Text(e.nonce)),
            ("scheme"@, JsonSpec::Text(scheme_name(e.scheme))),
        ],
    )
}

/// The text that a signer signs.
pub open spec fn payload_text(e: EnvelopeSpec) -> Seq<char> {
    canonical_text(payload_json(e))
}

/// Whether two envelopes agree in everything but the signature.
pub open spec fn same_payload(a: EnvelopeSpec, b: EnvelopeSpec) -> bool {
    a == (EnvelopeSpec { sig: a.sig, ..b })
}

/// Whether an envelope releases the request of a given digest at a given time, and
/// why not.
pub open spec fn envelope_check(e: EnvelopeSpec, digest: Seq<char>, now: int) -> Result<
    (),
    EnvelopeError,
> {
    if e.digest != digest {
        Err(EnvelopeError::DigestMismatch)
    } else if now > e.expires_at {
        Err(EnvelopeError::Expired)
    } else if e.issued_at > now {
        Err(EnvelopeError::NotYetValid)
    } else {
        Ok(())
    }
}

/// An approval releases at most one request, and only within its validity window.
pub proof fn law_envelope_binds(e: EnvelopeSpec, a: Seq<char>, b: Seq<char>, s: int, t: int)
    requires
        envelope_check(e, a, s) is Ok,
        envelope_check(e, b, t) is Ok,
    ensures
        a == b,
        e.issued_at <= s <= e.expires_at,
{
}

/// An approval that has expired never releases anything again.
pub proof fn law_expired_stays_expired(e: EnvelopeSpec, digest: Seq<char>, now: int, later: int)
    requires
        now > e.expires_at,
        later >= now,
    ensures
        envelope_check(e, digest, later) is Err,
{
}

proof fn lemma_payload_canonical(e: EnvelopeSpec)
    ensures
        canonical_form(payload_json(e)),
{
    reveal_with_fuel(plain, 2);
    reveal_with_fuel(sorted, 2);
    reveal_strlit("digest");
    reveal_strlit("expires_at");
    reveal_strlit("issued_at");
    reveal_strlit("key_id");
    reveal_strlit("nonce");
    reveal_strlit("scheme");
    assert("digest"@ =~= seq!['d', 'i', 'g', 'e', 's', 't']);
    assert("expires_at"@ =~= seq!['e', 'x', 'p', 'i', 'r', 'e', 's', '_', 'a', 't']);
    assert("issued_at"@ =~= seq!['i', 's', 's', 'u', 'e', 'd', '_', 'a', 't']);
    assert("key_id"@ =~= seq!['k', 'e', 'y', '_', 'i', 'd']);
    assert("nonce"@ =~= seq!['n', 'o', 'n', 'c', 'e']);
    assert("scheme"@ =~= seq!['s', 'c', 'h', 'e', 'm', 'e']);
    let v = payload_json(e)->Object_0;
    assert forall|i: int| 0 <= i < v.len() implies simple_key((#[trigger] v[i]).0) by {}
    assert forall|i: int, j: int| 0 <= i < j < v.len() implies exists|at: int|
        key_before((#[trigger] v[i]).0, (#[trigger] v[j]).0, at) by {
        lemma_key_order_first(v[i].0, v[j].0);
    }
    lemma_ordered_distinct(v);
}

proof fn lemma_payload_injective(a: EnvelopeSpec, b: EnvelopeSpec)
    requires
        payload_json(a) == payload_json(b),
    ensures
        same_payload(a, b),
{
    let x = payload_json(a)->Object_0;
    let y = payload_json(b)->Object_0;
    assert(x == y);
    assert(x[0] == y[0] && x[1] == y[1] && x[2] == y[2] && x[3] == y[3] && x[4] == y[4] && x[5]
        == y[5]);
    reveal_strlit("none");
    reveal_strlit("p256");
    reveal_strlit("webauthn");
    assert("none"@[0] == 'n' && "p256"@[0] == 'p' && "webauthn"@[0] == 'w');
}

impl SigScheme {
    /// The name of the scheme in messages.
    pub fn name(self) -> (r: &'static str)
        ensures
            r@ == scheme_name(self),
    {
        match self {
            SigScheme::Unattested => "none",
            SigScheme::P256 => "p256",
            SigScheme::Webauthn => "webauthn",
        }
    }

    /// The name of the scheme in the audit log.
    pub fn label(self) -> (r: &'static str)
        ensures
            r@ == scheme_label(self),
    {
        match self {
            SigScheme::Unattested => "None",
            SigScheme::P256 => "P256",
            SigScheme::Webauthn => "Webauthn",
        }
    }
}

impl ApprovalEnvelope {
    /// The exact text a signer must sign: everything but the signature, in canonical
    /// form. It determines all of that.
    pub fn signing_payload(&self) -> (r: Result<String, ProtoError>)
        ensures
            r is Ok,
            r->Ok_0@ == payload_text(self@),
            forall|other: EnvelopeSpec| #[trigger]
                payload_text(other) == r->Ok_0@ ==> same_payload(other, self@),
    {
        let mut out: Vec<Member> = Vec::new();
        out.push(member("digest", text(self.digest.as_str())));
        out.push(member("expires_at", Json::Integer(self.expires_at as i128)));
        out.push(member("issued_at", Json::Integer(self.issued_at as i128)));
        out.push(member("key_id", text(self.key_id.as_str())));
        out.push(member("nonce", text(self.nonce.as_str())));
        out.push(member("scheme", text(self.scheme.name())));
        proof {
            lemma_object_view(out);
            assert(members_view(out@) =~= payload_json(self@)->Object_0);
            lemma_payload_canonical(self@);
        }
        match canonical(&Json::Object(out)) {
            Ok(t) => {
                proof {
                    assert forall|other: EnvelopeSpec| #[trigger]
                        payload_text(other) == t@ implies same_payload(other, self@) by {
                        lemma_payload_canonical(other);
                        lemma_payload_injective(other, self@);
                    }
                }
                Ok(t)
            },
            Err(_) => Err(ProtoError::Canonicalize),
        }
    }

    /// Structural checks: digest binding and validity window. The signature is the
    /// caller's to verify, who has the keys.
    pub fn check(&self, expected_digest: &str, now: i64) -> (r: Result<(), EnvelopeError>)
        ensures
            r == envelope_check(self@, expected_digest@, now as int),
    {
        if !same(self.digest.as_str(), expected_digest) {
            return Err(EnvelopeError::DigestMismatch);
        }
        if now > self.expires_at {
            return Err(EnvelopeError::Expired);
        }
        if self.issued_at > now {
            return Err(EnvelopeError::NotYetValid);
        }
        Ok(())
    }
}

}
