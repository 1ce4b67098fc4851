//! The certificates and settings of a relay.
use vstd::prelude::*;
use vstd::string::*;

use crate::codec::{is_hex, new_token};
use crate::proto::relay::{RelayConfig, RelayConfigSpec};
use crate::text::{cut_end, opt_text, trim_end_matches};

verus! {

pub const CA_CERT: &'static str = "ca.pem";

pub const RELAY_CERT: &'static str = "relay-cert.pem";

pub const RELAY_KEY: &'static str = "relay-key.pem";

pub const DAEMON_CERT: &'static str = "daemon-cert.pem";

pub const DAEMON_KEY: &'static str = "daemon-key.pem";

/// What a key may be used for.
#[derive(Clone, Copy, Debug, PartialEq, Eq, Structural)]
pub enum KeyUse {
    CertSign,
    CrlSign,
    DigitalSignature,
    KeyEncipherment,
}

/// What a certificate may be presented for.
#[derive(Clone, Copy, Debug, PartialEq, Eq, Structural)]
pub enum Presented {
    ServerAuth,
    ClientAuth,
}

/// Whether a certificate is that of an authority, and how many authorities may stand below it.
#[derive(Clone, Copy, Debug, PartialEq, Eq, Structural)]
pub enum Authority {
    Not,
    Unlimited,
}

/// A name that a certificate is for: that of a host, or the octets of an address.
#[verifier::ext_equal]
pub enum SubjectName {
    Dns(Seq<char>),
    Address(Seq<u8>),
}

/// What a certificate says.
#[verifier::ext_equal]
pub struct CertPlan {
    pub names: Seq<SubjectName>,
    pub authority: Authority,
    pub uses: Seq<KeyUse>,
    pub presented: Seq<Presented>,
}

/// The octets of the address that a text is, by std's reading of `IpAddr`, if it is one.
pub uninterp spec fn address_in(text: Seq<char>) -> Option<Seq<u8>>;

/// The name that a text stands for in a certificate: an address where it is one, else a host.
pub open spec fn subject_name(text: Seq<char>) -> SubjectName {
    match address_in(text) {
        Some(octets) => SubjectName::Address(octets),
        None => SubjectName::Dns(text),
    }
}

/// The address of this machine itself.
pub open spec fn loopback() -> Seq<u8> {
    seq![127u8, 0u8, 0u8, 1u8]
}

/// The certificate of the relay's own authority.
pub open spec fn ca_plan() -> CertPlan {
    CertPlan {
        names: seq![subject_name("Gatehouse Relay CA"@)],
        authority: Authority::Unlimited,
        uses: seq![KeyUse::CertSign, KeyUse::CrlSign],
        presented: Seq::empty(),
    }
}

/// The certificate that the relay shows to phones and daemons.
pub open spec fn relay_plan(rp_id: Seq<char>) -> CertPlan {
    CertPlan {
        names: seq![
            subject_name(rp_id),
            SubjectName::Dns(rp_id),
            SubjectName::Address(loopback()),
        ],
        authority: Authority::Not,
        uses: seq![KeyUse::DigitalSignature, KeyUse::KeyEncipherment],
        presented: seq![Presented::ServerAuth],
    }
}

/// The certificate that the daemon shows to the relay.
pub open spec fn daemon_plan() -> CertPlan {
    CertPlan {
        names: seq![subject_name("gatehouse-daemon"@)],
        authority: Authority::Not,
        uses: seq![KeyUse::DigitalSignature],
        presented: seq![Presented::ClientAuth],
    }
}

/// Whether a text is made of ASCII characters, as the names in a certificate have to be.
pub open spec fn is_ascii(s: Seq<char>) -> bool {
    forall|i: int| 0 <= i < s.len() ==> (#[trigger] s[i] as u32) < 128
}

#[verifier::external_type_specification]
#[verifier::external_body]
pub struct ExKeyPair(rcgen::KeyPair);

#[verifier::external_type_specification]
#[verifier::external_body]
pub struct ExCertificate(rcgen::Certificate);

#[verifier::external_type_specification]
#[verifier::external_body]
pub struct ExCertificateParams(rcgen::CertificateParams);

/// What `rcgen::CertificateParams` hold.
pub uninterp spec fn params_plan(p: rcgen::CertificateParams) -> CertPlan;

/// What a certificate says.
pub uninterp spec fn cert_plan(c: rcgen::Certificate) -> CertPlan;

/// Whether a key pair holds its private key itself: `as_remote` of `rcgen::KeyPair` gives nothing.
pub uninterp spec fn key_is_local(k: rcgen::KeyPair) -> bool;

/// The PEM text of the key pair that a certificate is for. The certificate itself holds the public
/// half, which belongs to one key pair, and a key pair that was generated has one PEM text.
pub uninterp spec fn cert_key(c: rcgen::Certificate) -> Seq<char>;

/// The PEM text of the key pair that signed a certificate. The certificate itself holds the
/// signature.
pub uninterp spec fn cert_signer(c: rcgen::Certificate) -> Seq<char>;

/// The PEM text of a certificate.
pub uninterp spec fn cert_text(c: rcgen::Certificate) -> Seq<char>;

/// The PEM text of a key.
pub uninterp spec fn key_text(k: rcgen::KeyPair) -> Seq<char>;

/// `rcgen::KeyPair::generate_for` on P-256: a random key that the pair holds itself, of which
/// nothing else is claimed.
#[verifier::external_body]
fn generate_key() -> (r: Result<rcgen::KeyPair, String>)
    ensures
        r matches Ok(k) ==> key_is_local(k),
{
    rcgen::KeyPair::generate_for(&rcgen::PKCS_ECDSA_P256_SHA256).map_err(|e| e.to_string())
}

/// `rcgen::CertificateParams::new` on one name: parameters for a certificate under that name, an
/// address where std reads it as one and else a host, and with no uses. It fails on a name that is
/// not ASCII, and on no other.
#[verifier::external_body]
fn base_params(name: &str) -> (r: Result<rcgen::CertificateParams, String>)
    ensures
        r matches Ok(p) ==> params_plan(p) == (CertPlan {
            names: seq![
                match address_in(name@) {
                    Some(octets) => SubjectName::Address(octets),
                    None => SubjectName::Dns(name@),
                },
            ],
            authority: Authority::Not,
            uses: Seq::empty(),
            presented: Seq::empty(),
        }),
        r is Ok <==> is_ascii(name@),
{
    rcgen::CertificateParams::new(vec![name.to_string()]).map_err(|e| e.to_string())
}

/// A host's name put behind the `subject_alt_names` of `rcgen::CertificateParams`. It has to be
/// ASCII, as rcgen's `Ia5String` is.
#[verifier::external_body]
fn add_host(p: &mut rcgen::CertificateParams, host: &str) -> (r: Result<(), String>)
    ensures
        r is Ok <==> is_ascii(host@),
        r is Ok ==> params_plan(*final(p)) == (CertPlan {
            names: params_plan(*old(p)).names.push(SubjectName::Dns(host@)),
            ..params_plan(*old(p))
        }),
        r is Err ==> *final(p) == *old(p),
{
    let host = host.try_into().map_err(|e: rcgen::Error| e.to_string())?;
    p.subject_alt_names.push(rcgen::SanType::DnsName(host));
    Ok(())
}

/// An address put behind the `subject_alt_names` of `rcgen::CertificateParams`.
#[verifier::external_body]
fn add_address(p: &mut rcgen::CertificateParams, octets: [u8; 4])
    ensures
        params_plan(*final(p)) == (CertPlan {
            names: params_plan(*old(p)).names.push(SubjectName::Address(octets@)),
            ..params_plan(*old(p))
        }),
{
    p.subject_alt_names.push(rcgen::SanType::IpAddress(octets.into()));
}

/// The fields of `rcgen::CertificateParams` that say whether the certificate is an authority's, and
/// what it and its key may be used for.
#[verifier::external_body]
fn set_uses(
    p: &mut rcgen::CertificateParams,
    authority: Authority,
    uses: &Vec<KeyUse>,
    presented: &Vec<Presented>,
)
    ensures
        params_plan(*final(p)) == (CertPlan {
            authority,
            uses: uses@,
            presented: presented@,
            ..params_plan(*old(p))
        }),
{
    p.is_ca = match authority {
        Authority::Not => rcgen::IsCa::NoCa,
        Authority::Unlimited => rcgen::IsCa::Ca(rcgen::BasicConstraints::Unconstrained),
    };
    p.key_usages = uses.iter().map(|u| match u {
        KeyUse::CertSign => rcgen::KeyUsagePurpose::KeyCertSign,
        KeyUse::CrlSign => rcgen::KeyUsagePurpose::CrlSign,
        KeyUse::DigitalSignature => rcgen::KeyUsagePurpose::DigitalSignature,
        KeyUse::KeyEncipherment => rcgen::KeyUsagePurpose::KeyEncipherment,
    }).collect();
    p.extended_key_usages = presented.iter().map(|u| match u {
        Presented::ServerAuth => rcgen::ExtendedKeyUsagePurpose::ServerAuth,
        Presented::ClientAuth => rcgen::ExtendedKeyUsagePurpose::ClientAuth,
    }).collect();
}

/// `self_signed` of `rcgen::CertificateParams`: a certificate that says what the parameters hold,
/// for the key and signed with it.
#[verifier::external_body]
fn self_signed(p: rcgen::CertificateParams, key: &rcgen::KeyPair) -> (r: Result<
    rcgen::Certificate,
    String,
>)
    requires
        key_is_local(*key),
    ensures
        r matches Ok(c) ==> cert_plan(c) == params_plan(p) && cert_key(c) == key_text(*key)
            && cert_signer(c) == key_text(*key),
{
    p.self_signed(key).map_err(|e| e.to_string())
}

/// `signed_by` of `rcgen::CertificateParams`: a certificate that says what the parameters hold, for
/// the key and signed with the issuer's.
#[verifier::external_body]
fn signed_by(
    p: rcgen::CertificateParams,
    key: &rcgen::KeyPair,
    ca: &rcgen::Certificate,
    ca_key: &rcgen::KeyPair,
) -> (r: Result<rcgen::Certificate, String>)
    requires
        key_is_local(*key),
        key_is_local(*ca_key),
    ensures
        r matches Ok(c) ==> cert_plan(c) == params_plan(p) && cert_key(c) == key_text(*key)
            && cert_signer(c) == key_text(*ca_key),
{
    p.signed_by(key, ca, ca_key).map_err(|e| e.to_string())
}

/// `pem` of `rcgen::Certificate`.
#[verifier::external_body]
fn cert_pem(c: &rcgen::Certificate) -> (r: String)
    ensures
        r@ == cert_text(*c),
{
    c.pem()
}

/// `serialize_pem` of `rcgen::KeyPair`, which panics on a pair that does not hold its private key.
#[verifier::external_body]
fn key_pem(k: &rcgen::KeyPair) -> (r: String)
    requires
        key_is_local(*k),
    ensures
        r@ == key_text(*k),
{
    k.serialize_pem()
}

/// The certificates and keys of a relay, as PEM texts. The authority's key is not among them: it is
/// thrown away once the two certificates are signed.
pub struct Pems {
    pub ca_cert: String,
    pub relay_cert: String,
    pub relay_key: String,
    pub daemon_cert: String,
    pub daemon_key: String,
}

/// Whether some PEM texts are those of three certificates: an authority, and a relay and a daemon
/// that it signed, each with its own key.
pub open spec fn material_of(
    p: Pems,
    rp_id: Seq<char>,
    ca: rcgen::Certificate,
    relay: rcgen::Certificate,
    daemon: rcgen::Certificate,
) -> bool {
    &&& cert_plan(ca) == ca_plan()
    &&& cert_plan(relay) == relay_plan(rp_id)
    &&& cert_plan(daemon) == daemon_plan()
    &&& cert_signer(ca) == cert_key(ca)
    &&& cert_signer(relay) == cert_key(ca)
    &&& cert_signer(daemon) == cert_key(ca)
    &&& p.ca_cert@ == cert_text(ca)
    &&& p.relay_cert@ == cert_text(relay)
    &&& p.relay_key@ == cert_key(relay)
    &&& p.daemon_cert@ == cert_text(daemon)
    &&& p.daemon_key@ == cert_key(daemon)
}

/// Whether some PEM texts are the material of a relay.
pub open spec fn is_material(p: Pems, rp_id: Seq<char>) -> bool {
    exists|ca: rcgen::Certificate, relay: rcgen::Certificate, daemon: rcgen::Certificate|
        #[trigger] material_of(p, rp_id, ca, relay, daemon)
}

/// A certificate and the key that it is for, as PEM texts.
pub struct Made {
    pub cert: String,
    pub key: String,
}

/// Whether PEM texts are those of a certificate that says what a plan holds, and of its key.
pub open spec fn texts_for_plan(
    plan: CertPlan,
    signer: Seq<char>,
    m: Made,
    c: rcgen::Certificate,
) -> bool {
    &&& cert_plan(c) == plan
    &&& cert_signer(c) == signer
    &&& m.cert@ == cert_text(c)
    &&& m.key@ == cert_key(c)
}

/// Whether an outcome of making a certificate with a new key is one for a plan and the key that
/// signs: a certificate that says so, or a failure.
pub open spec fn made_for_plan(plan: CertPlan, signer: Seq<char>, made: Result<Made, String>) -> bool {
    match made {
        Ok(m) => exists|c: rcgen::Certificate| #[trigger] texts_for_plan(plan, signer, m, c),
        Err(_) => true,
    }
}

/// Whether a certificate is that of the relay's authority, with a PEM text: it says so and signs for
/// itself.
pub open spec fn authority_text(text: Seq<char>, c: rcgen::Certificate) -> bool {
    &&& cert_plan(c) == ca_plan()
    &&& cert_signer(c) == cert_key(c)
    &&& text == cert_text(c)
}

/// Whether outcomes are those of making the three certificates of a relay: the authority signs
/// for itself, and then for the relay and the daemon. Without an authority nothing is signed, and
/// nothing is signed for a relay whose name is not ASCII.
pub open spec fn made_for_relay(
    rp_id: Seq<char>,
    ca: Result<String, String>,
    relay: Result<Made, String>,
    daemon: Result<Made, String>,
) -> bool {
    match ca {
        Ok(text) => {
            &&& !is_ascii(rp_id) ==> relay is Err
            &&& exists|c: rcgen::Certificate| #[trigger]
                authority_text(text@, c) && made_for_plan(relay_plan(rp_id), cert_key(c), relay)
                    && made_for_plan(daemon_plan(), cert_key(c), daemon)
        },
        Err(e) => relay == Err::<Made, String>(e),
    }
}

/// Whether a result is what outcomes of making three certificates come to: their PEM texts, or the
/// first failure.
pub open spec fn material_follows(
    ca: Result<String, String>,
    relay: Result<Made, String>,
    daemon: Result<Made, String>,
    r: Result<Pems, String>,
) -> bool {
    match (ca, relay, daemon) {
        (Err(e), _, _) => r == Err::<Pems, String>(e),
        (_, Err(e), _) => r == Err::<Pems, String>(e),
        (_, _, Err(e)) => r == Err::<Pems, String>(e),
        (Ok(ca_cert), Ok(relay), Ok(daemon)) => r == Ok::<Pems, String>(
            Pems {
                ca_cert,
                relay_cert: relay.cert,
                relay_key: relay.key,
                daemon_cert: daemon.cert,
                daemon_key: daemon.key,
            },
        ),
    }
}

/// The PEM texts of three certificates and the keys of the last two, given the outcomes of making
/// them; the first failure where one could not be made.
pub fn material_given(
    ca: Result<String, String>,
    relay: Result<Made, String>,
    daemon: Result<Made, String>,
) -> (r: Result<Pems, String>)
    ensures
        material_follows(ca, relay, daemon, r),
{
    match (ca, relay, daemon) {
        (Err(e), _, _) => Err(e),
        (_, Err(e), _) => Err(e),
        (_, _, Err(e)) => Err(e),
        (Ok(ca_cert), Ok(relay), Ok(daemon)) => Ok(
            Pems {
                ca_cert,
                relay_cert: relay.cert,
                relay_key: relay.key,
                daemon_cert: daemon.cert,
                daemon_key: daemon.key,
            },
        ),
    }
}

fn make_authority() -> (r: Result<(rcgen::KeyPair, rcgen::Certificate), String>)
    ensures
        r matches Ok((key, cert)) ==> {
            &&& key_is_local(key)
            &&& cert_key(cert) == key_text(key)
            &&& authority_text(cert_text(cert), cert)
        },
{
    let mut uses: Vec<KeyUse> = Vec::new();
    uses.push(KeyUse::CertSign);
    uses.push(KeyUse::CrlSign);
    let presented: Vec<Presented> = Vec::new();
    assert(uses@ =~= ca_plan().uses);
    assert(presented@ =~= ca_plan().presented);
    let mut params = match base_params("Gatehouse Relay CA") {
        Ok(p) => p,
        Err(e) => {
            return Err(e);
        },
    };
    set_uses(&mut params, Authority::Unlimited, &uses, &presented);
    let key = match generate_key() {
        Ok(k) => k,
        Err(e) => {
            return Err(e);
        },
    };
    match self_signed(params, &key) {
        Ok(cert) => Ok((key, cert)),
        Err(e) => Err(e),
    }
}

fn make_leaf(
    params: rcgen::CertificateParams,
    uses: &Vec<KeyUse>,
    presented: &Vec<Presented>,
    ca: &rcgen::Certificate,
    ca_key: &rcgen::KeyPair,
) -> (r: Result<Made, String>)
    requires
        key_is_local(*ca_key),
    ensures
        made_for_plan(
            CertPlan {
                authority: Authority::Not,
                uses: uses@,
                presented: presented@,
                ..params_plan(params)
            },
            key_text(*ca_key),
            r,
        ),
{
    let key = match generate_key() {
        Ok(k) => k,
        Err(e) => {
            return Err(e);
        },
    };
    let ghost plan = CertPlan {
        authority: Authority::Not,
        uses: uses@,
        presented: presented@,
        ..params_plan(params)
    };
    let mut params = params;
    set_uses(&mut params, Authority::Not, uses, presented);
    match signed_by(params, &key, ca, ca_key) {
        Ok(cert) => {
            let made: Result<Made, String> = Ok(
                Made { cert: cert_pem(&cert), key: key_pem(&key) },
            );
            assert(texts_for_plan(plan, key_text(*ca_key), made->Ok_0, cert));
            made
        },
        Err(e) => Err(e),
    }
}

/// The names that the relay's certificate is for.
fn relay_params(rp_id: &str) -> (r: Result<rcgen::CertificateParams, String>)
    ensures
        r matches Ok(p) ==> params_plan(p).names == relay_plan(rp_id@).names,
        r is Ok <==> is_ascii(rp_id@),
{
    let mut params = match base_params(rp_id) {
        Ok(p) => p,
        Err(e) => {
            return Err(e);
        },
    };
    if let Err(e) = add_host(&mut params, rp_id) {
        return Err(e);
    }
    let octets: [u8; 4] = [127, 0, 0, 1];
    assert(octets@ =~= loopback());
    add_address(&mut params, octets);
    assert(params_plan(params).names =~= relay_plan(rp_id@).names);
    Ok(params)
}

/// Whether a result is one of making the certificates and keys of a relay: what some outcomes of
/// making its three certificates come to.
pub open spec fn issued_for(rp_id: Seq<char>, r: Result<Pems, String>) -> bool {
    exists|ca: Result<String, String>, relay: Result<Made, String>, daemon: Result<Made, String>|
        made_for_relay(rp_id, ca, relay, daemon) && #[trigger] material_follows(
            ca,
            relay,
            daemon,
            r,
        )
}

/// Makes the certificates and keys of a relay. It fails on a name that is not ASCII, and else only
/// where the system's random source lets no key be made or used; then the failure is that of the
/// first certificate that could not be made.
pub fn issue_material(rp_id: &str) -> (r: Result<Pems, String>)
    ensures
        r matches Ok(p) ==> is_material(p, rp_id@),
        !is_ascii(rp_id@) ==> r is Err,
        issued_for(rp_id@, r),
{
    let ca = make_authority();
    let relay = match &ca {
        Ok((ca_key, ca_cert)) => {
            let mut uses: Vec<KeyUse> = Vec::new();
            uses.push(KeyUse::DigitalSignature);
            uses.push(KeyUse::KeyEncipherment);
            let mut presented: Vec<Presented> = Vec::new();
            presented.push(Presented::ServerAuth);
            assert(uses@ =~= relay_plan(rp_id@).uses);
            assert(presented@ =~= relay_plan(rp_id@).presented);
            match relay_params(rp_id) {
                Ok(params) => make_leaf(params, &uses, &presented, ca_cert, ca_key),
                Err(e) => Err(e),
            }
        },
        Err(e) => Err(e.clone()),
    };
    let daemon = match (&ca, &relay) {
        (Ok((ca_key, ca_cert)), Ok(_)) => {
            let mut uses: Vec<KeyUse> = Vec::new();
            uses.push(KeyUse::DigitalSignature);
            let mut presented: Vec<Presented> = Vec::new();
            presented.push(Presented::ClientAuth);
            assert(uses@ =~= daemon_plan().uses);
            assert(presented@ =~= daemon_plan().presented);
            match base_params("gatehouse-daemon") {
                Ok(params) => make_leaf(params, &uses, &presented, ca_cert, ca_key),
                Err(e) => Err(e),
            }
        },
        (Err(e), _) => Err(e.clone()),
        (_, Err(e)) => Err(e.clone()),
    };
    let ca_text = match &ca {
        Ok((_, ca_cert)) => Ok(cert_pem(ca_cert)),
        Err(e) => Err(e.clone()),
    };
    let ghost (made_ca, made_relay, made_daemon) = (ca_text, relay, daemon);
    let r = material_given(ca_text, relay, daemon);
    proof {
        if ca is Ok {
            let c = ca->Ok_0.1;
            assert(authority_text(made_ca->Ok_0@, c));
            if r is Ok {
                let key = cert_key(c);
                let relay_cert = choose|x: rcgen::Certificate| #[trigger]
                    texts_for_plan(relay_plan(rp_id@), key, made_relay->Ok_0, x);
                let daemon_cert = choose|x: rcgen::Certificate| #[trigger]
                    texts_for_plan(daemon_plan(), key, made_daemon->Ok_0, x);
                assert(material_of(r->Ok_0, rp_id@, c, relay_cert, daemon_cert));
            }
        }
        assert(made_for_relay(rp_id@, made_ca, made_relay, made_daemon));
        assert(material_follows(made_ca, made_relay, made_daemon, r));
    }
    r
}

/// What a relay is set up with.
pub struct MaterialSpec {
    pub rp_id: String,
    pub origin: String,
    pub listen: String,
    pub daemon_listen: String,
    pub force: bool,
    /// The phone token to keep; without one a new one is drawn.
    pub keep_token: Option<String>,
    pub transport: Option<String>,
    pub daemon_auth: Option<String>,
}

/// The settings of a relay that is set up with a given phone token.
pub open spec fn config_of(m: MaterialSpec, phone_token: Seq<char>) -> RelayConfigSpec {
    RelayConfigSpec {
        rp_id: m.rp_id@,
        origin: cut_end(m.origin@, '/'),
        phone_token,
        listen: m.listen@,
        daemon_listen: m.daemon_listen@,
        transport: opt_text(m.transport),
        daemon_auth: opt_text(m.daemon_auth),
    }
}

/// The settings and certificates of a relay, and where they lie.
pub struct RelayMaterial {
    pub config: RelayConfig,
    pub dir: String,
}

/// Why a relay is not set up again.
pub open spec fn refusal(path: Seq<char>) -> Seq<char> {
    path + " already exists (pass --force to overwrite)"@
}

/// Whether a relay is not set up again.
pub open spec fn refused(present: bool, force: bool) -> bool {
    present && !force
}

/// Why a relay is not set up again: its settings exist and nobody asked to overwrite them.
pub fn init_refusal(present: bool, force: bool, path: &str) -> (r: Option<String>)
    ensures
        r is Some == refused(present, force),
        opt_text(r) == (if present && !force {
            Some(refusal(path@))
        } else {
            None
        }),
{
    if present && !force {
        let mut out = path.to_owned();
        out.append(" already exists (pass --force to overwrite)");
        Some(out)
    } else {
        None
    }
}

fn copy_opt(s: &Option<String>) -> (r: Option<String>)
    ensures
        opt_text(r) == opt_text(*s),
{
    match s {
        Some(s) => Some(s.clone()),
        None => None,
    }
}

/// The settings of a relay that is set up with a given phone token.
pub fn config_with(m: &MaterialSpec, phone_token: &str) -> (r: RelayConfig)
    ensures
        r@ == config_of(*m, phone_token@),
{
    RelayConfig {
        rp_id: m.rp_id.clone(),
        origin: trim_end_matches(m.origin.as_str(), '/'),
        phone_token: phone_token.to_owned(),
        listen: m.listen.clone(),
        daemon_listen: m.daemon_listen.clone(),
        transport: copy_opt(&m.transport),
        daemon_auth: copy_opt(&m.daemon_auth),
    }
}

/// The phone token of a relay that is set up: the one to keep, else the one that was drawn.
pub open spec fn phone_token_of(m: MaterialSpec, drawn: Seq<char>) -> Seq<char> {
    match m.keep_token {
        Some(t) => t@,
        None => drawn,
    }
}

/// Whether a result is what the certificates that were made for a new relay, and a phone token
/// that was drawn, come to.
pub open spec fn init_follows(
    m: MaterialSpec,
    dir: Seq<char>,
    issued: Result<Pems, String>,
    drawn: Seq<char>,
    r: Result<(RelayMaterial, Pems), String>,
) -> bool {
    match issued {
        Ok(p) => {
            &&& r is Ok
            &&& r->Ok_0.0.dir@ == dir
            &&& r->Ok_0.0.config@ == config_of(m, phone_token_of(m, drawn))
            &&& r->Ok_0.1 == p
        },
        Err(e) => r == Err::<(RelayMaterial, Pems), String>(e),
    }
}

impl RelayMaterial {
    /// The settings of a new relay beside the certificates that were made for it, given a phone
    /// token that was drawn; the failure where none could be made, or where the relay is not to be
    /// set up again.
    pub fn init_given(
        m: &MaterialSpec,
        dir: &str,
        present: bool,
        path: &str,
        issued: Result<Pems, String>,
        drawn: String,
    ) -> (r: Result<(RelayMaterial, Pems), String>)
        ensures
            if present && !m.force {
                r is Err && r->Err_0@ == refusal(path@)
            } else {
                init_follows(*m, dir@, issued, drawn@, r)
            },
    {
        if let Some(message) = init_refusal(present, m.force, path) {
            return Err(message);
        }
        let pems = match issued {
            Ok(p) => p,
            Err(e) => {
                return Err(e);
            },
        };
        let phone_token = match &m.keep_token {
            Some(t) => t.clone(),
            None => drawn,
        };
        let config = config_with(m, phone_token.as_str());
        Ok((RelayMaterial { config, dir: dir.to_owned() }, pems))
    }

    /// The settings and certificates of a new relay: with the phone token that is to be kept, else
    /// with a new random one. It fails where the settings are present already and not to be
    /// overwritten, and where the certificates cannot be made.
    pub fn init(m: &MaterialSpec, dir: &str, present: bool, path: &str) -> (r: Result<
        (RelayMaterial, Pems),
        String,
    >)
        ensures
            present && !m.force ==> r is Err && r->Err_0@ == refusal(path@),
            r matches Ok((material, pems)) ==> {
                &&& material.dir@ == dir@
                &&& material.config@ == config_of(*m, material.config@.phone_token)
                &&& match m.keep_token {
                    Some(t) => material.config@.phone_token == t@,
                    None => material.config@.phone_token.len() == 64 && is_hex(
                        material.config@.phone_token,
                    ),
                }
                &&& is_material(pems, m.rp_id@)
            },
            !is_ascii(m.rp_id@) ==> r is Err,
            !(present && !m.force) ==> exists|issued: Result<Pems, String>, drawn: Seq<char>|
                {
                    &&& issued_for(m.rp_id@, issued)
                    &&& drawn.len() == 64 && is_hex(drawn)
                    &&& #[trigger] init_follows(*m, dir@, issued, drawn, r)
                },
    {
        if let Some(message) = init_refusal(present, m.force, path) {
            return Err(message);
        }
        let issued = issue_material(m.rp_id.as_str());
        let drawn = new_token();
        let ghost made = issued;
        let ghost token = drawn@;
        let r = RelayMaterial::init_given(m, dir, present, path, issued, drawn);
        assert(init_follows(*m, dir@, made, token, r));
        r
    }

    /// The address that a phone opens.
    pub fn phone_url(&self) -> (r: String)
        ensures
            r@ == self.config@.origin + "/?t="@ + self.config@.phone_token,
    {
        phone_url_of(&self.config)
    }

    /// How daemons authenticate: by certificate unless the settings say otherwise.
    pub fn daemon_auth(&self) -> (r: &str)
        ensures
            r@ == auth_of(self.config@),
    {
        match &self.config.daemon_auth {
            Some(a) => a.as_str(),
            None => "mtls",
        }
    }
}

/// How daemons authenticate: by certificate unless the settings say otherwise.
pub open spec fn auth_of(c: RelayConfigSpec) -> Seq<char> {
    match c.daemon_auth {
        Some(a) => a,
        None => "mtls"@,
    }
}

/// The address that a phone opens.
pub fn phone_url_of(config: &RelayConfig) -> (r: String)
    ensures
        r@ == config@.origin + "/?t="@ + config@.phone_token,
{
    let mut out = config.origin.clone();
    out.append("/?t=");
    out.append(config.phone_token.as_str());
    out
}

}
