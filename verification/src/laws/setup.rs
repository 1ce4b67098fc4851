//! Setting a relay up.
use vstd::prelude::*;
use vstd::string::*;

use crate::daemon::certs::{
    address_in, auth_of, ca_plan, cert_key, cert_plan, cert_signer, cert_text, daemon_plan,
    init_follows, is_ascii, is_material, material_follows, refused, relay_plan, Authority, KeyUse,
    Made, MaterialSpec, Pems, Presented, RelayMaterial, SubjectName,
};
use crate::daemon::setup::{
    after_tailscale, agrees, host_answer, init_lines, is_address, left_alone, magic_name,
    origin_host, relay_lines, rename_text, resolution, settings_of, tailscale_name, transport_given,
    transport_named, EndpointsSpec, InitOpts, ResolveSpec,
};
use crate::json::JsonSpec;
use crate::number::decimal;
use crate::proto::relay::RelayConfigSpec;
use crate::text::{cut_end, has_part, opt_text, uppercased};
use crate::urls::UrlSpec;

verus! {

/// A relay is set up under the name and the origin it is given, the latter without slashes at its
/// end.
pub proof fn law_given_endpoints(
    rp: Seq<char>,
    origin: Seq<char>,
    opts: InitOpts,
    tailscale: Option<Seq<char>>,
    terminal: bool,
)
    ensures
        resolution(Some(rp), Some(origin), opts, tailscale, terminal) matches ResolveSpec::Done(e)
            && e.rp_id == rp && e.origin == cut_end(origin, '/') && e.transport == transport_given(
            rp,
            origin,
            opts.hosted,
            opts.tailscale,
        ),
{
}

/// Where only a name is given, the origin is that name at the phones' port; where Tailscale is asked
/// for, name and origin are its own, and without it there is nothing to set up.
pub proof fn law_derived_endpoints(
    rp: Seq<char>,
    host: Seq<char>,
    origin: Option<Seq<char>>,
    opts: InitOpts,
    tailscale: Option<Seq<char>>,
    terminal: bool,
)
    ensures
        !opts.tailscale ==> (resolution(Some(rp), None, opts, tailscale, terminal) matches
            ResolveSpec::Done(e) && e.rp_id == rp && e.origin == cut_end(
            "https://"@ + rp + ":"@ + decimal(opts.phone_port as nat),
            '/',
        ) && e.transport == transport_named(rp, opts.hosted)),
        opts.tailscale ==> (resolution(None, origin, opts, Some(host), terminal) matches
            ResolveSpec::Done(e) && e.rp_id == cut_end(host, '.') && e.origin == "https://"@
            + cut_end(host, '.') + ":"@ + decimal(opts.phone_port as nat) && e.transport
            == "tailscale"@),
        opts.tailscale ==> resolution(None, origin, opts, None, terminal) == ResolveSpec::Fail(
            "tailscale status failed — is Tailscale installed and logged in?"@,
        ),
{
}

/// Without a name nobody is asked where that was forbidden or nobody is there to ask; else the
/// operator is, about Tailscale where it is there.
pub proof fn law_asked_endpoints(
    origin: Option<Seq<char>>,
    opts: InitOpts,
    host: Seq<char>,
    tailscale: Option<Seq<char>>,
    terminal: bool,
)
    requires
        !opts.tailscale,
    ensures
        opts.yes || !terminal ==> resolution(None, origin, opts, tailscale, terminal) is Fail,
        !opts.yes && terminal ==> (resolution(None, origin, opts, Some(host), terminal) matches
            ResolveSpec::AskTailscale { lines, prompt } && lines.last()
            == "Detected Tailscale MagicDNS: "@ + host && prompt
            == "Use Tailscale for phone approvals? [Y/n/custom]: "@),
        !opts.yes && terminal ==> resolution(None, origin, opts, None, terminal) is AskHost,
{
}

/// The way that phones reach a relay goes by what was asked for, then by its name.
pub proof fn law_transports(rp: Seq<char>, origin: Seq<char>, hosted: bool, tailscale: bool)
    ensures
        hosted ==> transport_given(rp, origin, hosted, tailscale) == "hosted"@ && transport_named(
            rp,
            hosted,
        ) == "hosted"@,
        !hosted && (tailscale || tailscale_name(rp)) ==> transport_given(
            rp,
            origin,
            hosted,
            tailscale,
        ) == "tailscale"@,
        !hosted && !tailscale && !tailscale_name(rp) && has_part(origin, "localhost"@)
            ==> transport_given(rp, origin, hosted, tailscale) == "localhost"@,
        !hosted && !tailscale && !tailscale_name(rp) && !has_part(origin, "localhost"@)
            ==> transport_given(rp, origin, hosted, tailscale) == "custom"@,
        !hosted && tailscale_name(rp) ==> transport_named(rp, hosted) == "tailscale"@,
        !hosted && !tailscale_name(rp) ==> transport_named(rp, hosted) == "custom"@,
        tailscale_name(rp) <==> has_part(rp, ".ts.net"@) || ".tailnet"@.is_suffix_of(rp),
{
}

/// An answer that is an address gives its host as the name, and itself as the origin; another one is
/// the name, and an empty one is none.
pub proof fn law_typed_hosts(line: Seq<char>, port: u16, host: Seq<char>, why: Seq<char>)
    ensures
        host_answer(Seq::empty(), port, Ok(host)) is Err,
        line.len() > 0 && is_address(line) ==> {
            &&& host_answer(line, port, Ok(host)) matches Ok(e) && e.rp_id == host && e.origin
                == cut_end(line, '/')
            &&& host_answer(line, port, Err(why)) == Err::<EndpointsSpec, Seq<char>>(why)
        },
        line.len() > 0 && !is_address(line) ==> (host_answer(line, port, Ok(host)) matches Ok(e)
            && e.rp_id == cut_end(line, '.') && e.origin == "https://"@ + cut_end(line, '.') + ":"@
            + decimal(port as nat)),
        is_address(line) <==> "https://"@.is_prefix_of(line) || "http://"@.is_prefix_of(line),
{
}

/// The host of an origin is that of its address, without dots at its end.
pub proof fn law_origin_hosts(u: UrlSpec, host: Seq<char>)
    ensures
        u.host == Some(host) ==> origin_host(Some(u)) == Ok::<Seq<char>, Seq<char>>(
            cut_end(host, '.'),
        ),
        u.host is None ==> origin_host(Some(u)) == Err::<Seq<char>, Seq<char>>(
            "origin missing host"@,
        ),
        origin_host(None) == Err::<Seq<char>, Seq<char>>("invalid origin URL"@),
{
}

/// The operator agrees by saying nothing, `y` or `yes` in either case, and by nothing else.
pub proof fn law_agreement(answer: Seq<char>)
    ensures
        agrees(Seq::empty()),
        agrees("y"@) && agrees("Y"@) && agrees("yes"@) && agrees("YES"@),
        agrees(answer) ==> answer.len() == 0 || answer.len() == 1 || answer.len() == 3,
        agrees(answer) && answer.len() == 1 ==> answer[0] == 'y' || answer[0] == 'Y',
        agrees(answer) && answer.len() == 3 ==> (answer[0] == 'y' || answer[0] == 'Y') && (answer[1]
            == 'e' || answer[1] == 'E') && (answer[2] == 's' || answer[2] == 'S'),
{
    reveal_strlit("y");
    reveal_strlit("Y");
    reveal_strlit("yes");
    reveal_strlit("YES");
    assert(uppercased("y"@) =~= "Y"@);
    assert(uppercased("Y"@) =~= "Y"@);
    assert(uppercased("yes"@) =~= "YES"@);
    assert(uppercased("YES"@) =~= "YES"@);
    let u = uppercased(answer);
    if u == "Y"@ {
        assert(u[0] == 'Y');
    }
    if u == "YES"@ {
        assert(u[0] == 'Y' && u[1] == 'E' && u[2] == 'S');
    }
}

/// A relay keeps the phone token it had where that was asked for and there was one, and takes the one
/// that was drawn else. Its settings say what it was set up with.
pub proof fn law_settings(
    opts: InitOpts,
    e: EndpointsSpec,
    had: RelayConfigSpec,
    drawn: Seq<char>,
)
    ensures
        opts.keep_token ==> settings_of(opts, e, Some(had), drawn).phone_token == had.phone_token,
        !opts.keep_token ==> settings_of(opts, e, Some(had), drawn).phone_token == drawn,
        settings_of(opts, e, None, drawn).phone_token == drawn,
        ({
            let s = settings_of(opts, e, Some(had), drawn);
            &&& s.rp_id == e.rp_id && s.origin == cut_end(e.origin, '/')
            &&& s.listen == opts.listen@ && s.daemon_listen == opts.daemon_listen@
            &&& s.transport == Some(e.transport)
            &&& opts.daemon_auth is Some ==> s.daemon_auth == opt_text(opts.daemon_auth)
            &&& opts.daemon_auth is None && (opts.hosted || e.transport == "hosted"@)
                ==> s.daemon_auth == Some("token"@)
            &&& opts.daemon_auth is None && !opts.hosted && e.transport != "hosted"@
                ==> s.daemon_auth == Some("mtls"@)
        }),
{
}

/// The operator is warned of a new name exactly where it replaces another one.
pub proof fn law_renames_warn(
    opts: InitOpts,
    present: bool,
    had: RelayConfigSpec,
    rp_id: Seq<char>,
)
    ensures
        rename_text(opts, present, Some(had), rp_id) is Some <==> opts.force && present && had.rp_id
            != rp_id,
        rename_text(opts, present, None, rp_id) is None,
        rename_text(opts, present, Some(had), rp_id) matches Some(w) ==> w
            == "warning: rp_id changing "@ + had.rp_id + " → "@ + rp_id
            + "; re-enroll phone passkeys after this"@,
{
}

/// A relay that was set up says how daemons authenticate and where phones go: by token at the phones'
/// port, or by certificate at the daemons'.
pub proof fn law_setup_is_reported(opts: InitOpts, e: EndpointsSpec, c: RelayConfigSpec)
    ensures
        ({
            let l = init_lines(opts, e, c);
            &&& l[1] == "transport:   "@ + e.transport
            &&& l[2] == "daemon_auth: "@ + auth_of(c)
            &&& l[3] == "phone URL:   "@ + (c.origin + "/?t="@ + c.phone_token)
            &&& l[0].len() == 0
            &&& c.daemon_auth == Some("token"@) ==> l[6]
                == "relay:       gatehoused relay --listen "@ + opts.listen@ + " --daemon-listen "@
                + opts.daemon_listen@
            &&& c.daemon_auth != Some("token"@) ==> l[5]
                == "relay:       gatehoused relay --listen "@ + opts.listen@ + " --daemon-listen "@
                + opts.daemon_listen@
            &&& c.daemon_auth == Some("token"@) ==> l.len() == 8 && l[5]
                == "                --endpoint "@ + ("https://"@ + e.rp_id + ":"@ + decimal(
                opts.phone_port as nat,
            ))
            &&& c.daemon_auth != Some("token"@) ==> l.len() == 6 && l[4]
                == "daemon:      gatehoused --relay-url "@ + ("https://"@ + e.rp_id + ":"@
                + decimal(opts.daemon_port as nat)) + " --no-open"@
        }),
        c.daemon_auth is None ==> auth_of(c) == "mtls"@,
        c.daemon_auth is Some ==> auth_of(c) == c.daemon_auth->0,
{
}

/// The settings of a relay are shown line by line, its way of transport only where it has one.
pub proof fn law_settings_are_shown(c: RelayConfigSpec, devices: nat)
    ensures
        ({
            let l = relay_lines(c, devices);
            &&& l[0] == "rp_id:       "@ + c.rp_id && l[1] == "origin:      "@ + c.origin
            &&& c.transport is Some ==> l.len() == 8 && l[2] == "transport:   "@ + c.transport->0
            &&& c.transport is None ==> l.len() == 7
            &&& l[l.len() - 5] == "daemon_auth: "@ + auth_of(c)
            &&& l[l.len() - 4] == "phone URL:   "@ + (c.origin + "/?t="@ + c.phone_token)
            &&& l[l.len() - 3] == "listen:      "@ + c.listen
            &&& l[l.len() - 2] == "daemon:      "@ + c.daemon_listen
            &&& l.last() == "devices:     "@ + decimal(devices)
        }),
{
}

/// The certificates of a relay: an authority that only signs, a server for the relay's name and this
/// machine, and a client.
pub proof fn law_certificates(rp_id: Seq<char>)
    ensures
        ca_plan().authority == Authority::Unlimited,
        ca_plan().uses == seq![KeyUse::CertSign, KeyUse::CrlSign],
        ca_plan().presented.len() == 0,
        relay_plan(rp_id).authority == Authority::Not,
        relay_plan(rp_id).presented == seq![Presented::ServerAuth],
        relay_plan(rp_id).uses == seq![KeyUse::DigitalSignature, KeyUse::KeyEncipherment],
        relay_plan(rp_id).names.contains(SubjectName::Dns(rp_id)),
        relay_plan(rp_id).names.contains(SubjectName::Address(seq![127u8, 0u8, 0u8, 1u8])),
        daemon_plan().authority == Authority::Not,
        daemon_plan().presented == seq![Presented::ClientAuth],
        daemon_plan().uses == seq![KeyUse::DigitalSignature],
{
    let n = relay_plan(rp_id).names;
    assert(n[1] == SubjectName::Dns(rp_id));
    assert(n[2] == SubjectName::Address(seq![127u8, 0u8, 0u8, 1u8]));
}

/// The material of a relay is one authority and two certificates that its key signed, each with its
/// own key.
pub proof fn law_material(p: Pems, rp_id: Seq<char>)
    requires
        is_material(p, rp_id),
    ensures
        exists|ca: rcgen::Certificate, relay: rcgen::Certificate, daemon: rcgen::Certificate|
            {
                &&& p.ca_cert@ == #[trigger] cert_text(ca)
                &&& p.relay_cert@ == #[trigger] cert_text(relay)
                &&& p.daemon_cert@ == #[trigger] cert_text(daemon)
                &&& p.relay_key@ == cert_key(relay) && p.daemon_key@ == cert_key(daemon)
                &&& cert_signer(ca) == cert_key(ca)
                &&& cert_signer(relay) == cert_key(ca) && cert_signer(daemon) == cert_key(ca)
                &&& cert_plan(ca) == ca_plan() && cert_plan(relay) == relay_plan(rp_id)
                &&& cert_plan(daemon) == daemon_plan()
            },
{
    let (ca, relay, daemon) = choose|
        ca: rcgen::Certificate,
        relay: rcgen::Certificate,
        daemon: rcgen::Certificate,
    | #[trigger]
        crate::daemon::certs::material_of(p, rp_id, ca, relay, daemon);
    assert(p.ca_cert@ == cert_text(ca) && p.relay_cert@ == cert_text(relay) && p.daemon_cert@
        == cert_text(daemon));
}

/// Texts of certificates and keys are put together each in its place, and the first failure counts.
pub proof fn law_material_is_put_together(
    ca: String,
    relay: Made,
    daemon: Made,
    any: Result<Made, String>,
    e: String,
    r: Result<Pems, String>,
)
    ensures
        material_follows(Ok(ca), Ok(relay), Ok(daemon), r) ==> r is Ok && r->Ok_0.ca_cert == ca
            && r->Ok_0.relay_cert == relay.cert && r->Ok_0.relay_key == relay.key
            && r->Ok_0.daemon_cert == daemon.cert && r->Ok_0.daemon_key == daemon.key,
        material_follows(Err(e), any, any, r) ==> r == Err::<Pems, String>(e),
        material_follows(Ok(ca), Err(e), any, r) ==> r == Err::<Pems, String>(e),
        material_follows(Ok(ca), Ok(relay), Err(e), r) ==> r == Err::<Pems, String>(e),
{
}

/// A new relay has the token that is to be kept, else the one that was drawn, and the settings it was
/// asked for.
pub proof fn law_new_relays(
    m: MaterialSpec,
    dir: Seq<char>,
    p: Pems,
    drawn: Seq<char>,
    r: Result<(RelayMaterial, Pems), String>,
)
    requires
        init_follows(m, dir, Ok(p), drawn, r),
    ensures
        r is Ok,
        r->Ok_0.1 == p,
        r->Ok_0.0.dir@ == dir,
        m.keep_token is Some ==> r->Ok_0.0.config@.phone_token == m.keep_token->0@,
        m.keep_token is None ==> r->Ok_0.0.config@.phone_token == drawn,
        r->Ok_0.0.config@.rp_id == m.rp_id@,
        r->Ok_0.0.config@.origin == cut_end(m.origin@, '/'),
        r->Ok_0.0.config@.listen == m.listen@ && r->Ok_0.0.config@.daemon_listen
            == m.daemon_listen@,
        r->Ok_0.0.config@.transport == opt_text(m.transport) && r->Ok_0.0.config@.daemon_auth
            == opt_text(m.daemon_auth),
{
}

/// The name that Tailscale gives this machine is read from its status, without dots at its end.
pub proof fn law_tailscale_names(m: JsonSpec, me: JsonSpec, dns: Seq<char>)
    ensures
        m.member("Self"@) == Some(me) && me.text_member("DNSName"@) == Some(dns) && dns.len() > 0
            && dns.last() != '.' ==> magic_name(m) == Some(dns) && magic_name(m) == Some(
            cut_end(dns, '.'),
        ),
        m.member("Self"@) == Some(me) && me.text_member("DNSName"@) == Some(dns.push('.'))
            && dns.len() > 0 && dns.last() != '.' ==> magic_name(m) == Some(dns),
        m.member("Self"@) is None ==> magic_name(m) is None,
        m.member("Self"@) == Some(me) && me.text_member("DNSName"@) is None ==> magic_name(m)
            is None,
{
    let dotted = dns.push('.');
    assert(dotted.drop_last() =~= dns);
    if dns.len() > 0 && dns.last() != '.' {
        assert(cut_end(dns, '.') == dns);
        assert(cut_end(dotted, '.') == cut_end(dns, '.'));
    }
}

/// A relay that is set up already is left alone unless it is to be overwritten.
pub proof fn law_relays_are_left_alone(force: bool, present: bool, existing: bool)
    ensures
        left_alone(force, present, existing) <==> !force && present && existing,
        refused(present, force) <==> present && !force,
        refused(present, true) == false,
        refused(false, force) == false,
{
}

/// Who agrees to Tailscale gets it; who does not is asked for a host.
pub proof fn law_tailscale_is_offered(host: Seq<char>, port: u16)
    ensures
        after_tailscale(true, host, port) matches ResolveSpec::Done(e) && e.rp_id == cut_end(
            host,
            '.',
        ) && e.transport == "tailscale"@,
        after_tailscale(false, host, port) is AskHost,
{
}

/// A name in a certificate is an address where it reads as one, and a host else. Only ASCII goes into
/// one.
pub proof fn law_names_in_certificates(rp_id: Seq<char>, octets: Seq<u8>)
    ensures
        address_in(rp_id) == Some(octets) ==> relay_plan(rp_id).names[0] == SubjectName::Address(
            octets,
        ),
        address_in(rp_id) is None ==> relay_plan(rp_id).names[0] == SubjectName::Dns(rp_id),
        relay_plan(rp_id).names.len() == 3,
        is_ascii(rp_id) <==> forall|i: int| 0 <= i < rp_id.len() ==> (#[trigger] rp_id[i] as u32)
            <= 127,
{
}

}
