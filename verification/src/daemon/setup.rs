//! Setting up a relay: under which name phones reach it, and what the operator is told.
//!
//! Passkeys are bound to a host name. Changing the name makes the passkeys of phones useless, so
//! the operator is warned.
use vstd::prelude::*;
use vstd::string::*;

use crate::codec::{is_hex, new_token};
use crate::daemon::certs::{
    auth_of, init_refusal, is_ascii, is_material, issue_material, issued_for, phone_url_of, refusal,
    MaterialSpec, Pems, RelayMaterial,
};
use crate::json::{json_read_bytes, parse_bytes, JsonSpec};
use crate::number::{decimal, to_decimal};
use crate::proto::relay::{RelayConfig, RelayConfigSpec};
use crate::text::{
    contains, cut_end, ends_with, has_part, opt_str, opt_text, same, starts_with, texts,
    to_ascii_uppercase, trim_end_matches, uppercased,
};
use crate::urls::{parse_url, url_parts, UrlSpec};

verus! {

/// How a relay is to be set up.
pub struct InitOpts {
    pub rp_id: Option<String>,
    pub origin: Option<String>,
    pub listen: String,
    pub daemon_listen: String,
    pub phone_port: u16,
    pub daemon_port: u16,
    /// Take the Tailscale name where no other is given.
    pub tailscale: bool,
    /// The relay is run for others: daemons authenticate by token.
    pub hosted: bool,
    /// How daemons authenticate, where that is given: `mtls`, `token` or `both`.
    pub daemon_auth: Option<String>,
    pub force: bool,
    /// Keep the phone token when the relay is set up again.
    pub keep_token: bool,
    /// Ask nothing.
    pub yes: bool,
}

/// Under which name and address phones reach a relay, and how.
pub struct Endpoints {
    pub rp_id: String,
    pub origin: String,
    pub transport: String,
}

/// Under which name and address phones reach a relay, and how.
#[verifier::ext_equal]
pub struct EndpointsSpec {
    pub rp_id: Seq<char>,
    pub origin: Seq<char>,
    pub transport: Seq<char>,
}

impl View for Endpoints {
    type V = EndpointsSpec;

    open spec fn view(&self) -> EndpointsSpec {
        EndpointsSpec { rp_id: self.rp_id@, origin: self.origin@, transport: self.transport@ }
    }
}

/// Whether a host name looks like one of Tailscale's.
pub open spec fn tailscale_name(host: Seq<char>) -> bool {
    has_part(host, ".ts.net"@) || ".tailnet"@.is_suffix_of(host)
}

/// Whether a host name looks like one of Tailscale's.
pub fn looks_like_tailscale(host: &str) -> (r: bool)
    ensures
        r == tailscale_name(host@),
{
    contains(host, ".ts.net") || ends_with(host, ".tailnet")
}

/// The address of a host at a port.
pub open spec fn https_origin(host: Seq<char>, port: u16) -> Seq<char> {
    "https://"@ + host + ":"@ + decimal(port as nat)
}

fn https_origin_text(host: &str, port: u16) -> (r: String)
    ensures
        r@ == https_origin(host@, port),
{
    let mut out = "https://".to_owned();
    out.append(host);
    out.append(":");
    out.append(to_decimal(port as u64).as_str());
    out
}

/// The endpoints at a host, whose name may end in a dot.
pub open spec fn host_endpoints(host: Seq<char>, phone_port: u16, transport: Seq<char>) -> EndpointsSpec {
    EndpointsSpec {
        rp_id: cut_end(host, '.'),
        origin: https_origin(cut_end(host, '.'), phone_port),
        transport,
    }
}

/// The endpoints at a host, whose name may end in a dot.
pub fn endpoints_for_host(host: &str, phone_port: u16, transport: &str) -> (r: Endpoints)
    ensures
        r@ == host_endpoints(host@, phone_port, transport@),
{
    let host = trim_end_matches(host, '.');
    let origin = https_origin_text(host.as_str(), phone_port);
    Endpoints { rp_id: host, origin, transport: transport.to_owned() }
}

/// How phones reach a relay whose name and address are given.
pub open spec fn transport_given(
    rp: Seq<char>,
    origin: Seq<char>,
    hosted: bool,
    tailscale: bool,
) -> Seq<char> {
    if hosted {
        "hosted"@
    } else if tailscale || tailscale_name(rp) {
        "tailscale"@
    } else if has_part(origin, "localhost"@) {
        "localhost"@
    } else {
        "custom"@
    }
}

/// How phones reach a relay whose name is given.
pub open spec fn transport_named(rp: Seq<char>, hosted: bool) -> Seq<char> {
    if hosted {
        "hosted"@
    } else if tailscale_name(rp) {
        "tailscale"@
    } else {
        "custom"@
    }
}

/// What to do to find out under which name phones reach the relay.
pub enum Resolve {
    /// It is settled.
    Done(Endpoints),
    /// It cannot be settled.
    Fail(String),
    /// Show the lines and ask whether to use the Tailscale name.
    AskTailscale { lines: Vec<String>, prompt: String },
    /// Show the lines and ask for the host name.
    AskHost { lines: Vec<String>, prompt: String },
}

/// What to do to find out under which name phones reach the relay.
#[verifier::ext_equal]
pub enum ResolveSpec {
    Done(EndpointsSpec),
    Fail(Seq<char>),
    AskTailscale { lines: Seq<Seq<char>>, prompt: Seq<char> },
    AskHost { lines: Seq<Seq<char>>, prompt: Seq<char> },
}

impl View for Resolve {
    type V = ResolveSpec;

    open spec fn view(&self) -> ResolveSpec {
        match self {
            Resolve::Done(e) => ResolveSpec::Done(e@),
            Resolve::Fail(m) => ResolveSpec::Fail(m@),
            Resolve::AskTailscale { lines, prompt } => ResolveSpec::AskTailscale {
                lines: texts(lines@),
                prompt: prompt@,
            },
            Resolve::AskHost { lines, prompt } => ResolveSpec::AskHost {
                lines: texts(lines@),
                prompt: prompt@,
            },
        }
    }
}

/// What the operator is told before the first question.
pub open spec fn greeting() -> Seq<Seq<char>> {
    seq![
        "Gatehouse phone relay setup"@,
        "Passkeys bind to a hostname (WebAuthn RP ID). Pick how phones will reach this machine."@,
        Seq::<char>::empty(),
    ]
}

/// The question for the host name.
pub open spec fn host_prompt() -> Seq<char> {
    "Hostname phones will open (RP ID), or full https:// origin: "@
}

/// How the name of the relay is found out: it is given, or it is Tailscale's where that is asked
/// for, or the operator is asked where somebody is there to answer.
pub open spec fn resolution(
    rp_id: Option<Seq<char>>,
    origin: Option<Seq<char>>,
    opts: InitOpts,
    tailscale: Option<Seq<char>>,
    terminal: bool,
) -> ResolveSpec {
    match (rp_id, origin) {
        (Some(rp), Some(o)) => ResolveSpec::Done(
            EndpointsSpec {
                rp_id: rp,
                origin: cut_end(o, '/'),
                transport: transport_given(rp, o, opts.hosted, opts.tailscale),
            },
        ),
        _ => if opts.tailscale {
            match tailscale {
                Some(host) => ResolveSpec::Done(
                    host_endpoints(host, opts.phone_port, "tailscale"@),
                ),
                None => ResolveSpec::Fail(
                    "tailscale status failed — is Tailscale installed and logged in?"@,
                ),
            }
        } else {
            match rp_id {
                Some(rp) => ResolveSpec::Done(
                    EndpointsSpec {
                        rp_id: rp,
                        origin: cut_end(https_origin(rp, opts.phone_port), '/'),
                        transport: transport_named(rp, opts.hosted),
                    },
                ),
                None => if opts.yes {
                    ResolveSpec::Fail(
                        "missing --rp-id/--origin (or pass --tailscale); refused to prompt because --yes"@,
                    )
                } else if !terminal {
                    ResolveSpec::Fail(
                        "missing --rp-id and --origin. Examples:\n  gatehoused relay-init --tailscale\n  gatehoused relay-init --rp-id host.example.com --origin https://host.example.com:8787"@,
                    )
                } else {
                    match tailscale {
                        Some(host) => ResolveSpec::AskTailscale {
                            lines: greeting().push("Detected Tailscale MagicDNS: "@ + host),
                            prompt: "Use Tailscale for phone approvals? [Y/n/custom]: "@,
                        },
                        None => ResolveSpec::AskHost {
                            lines: greeting().push(
                                "Tailscale not detected (optional). You can still use a VPS hostname or a future hosted relay URL."@,
                            ),
                            prompt: host_prompt(),
                        },
                    }
                },
            }
        },
    }
}

fn greeting_lines() -> (r: Vec<String>)
    ensures
        texts(r@) == greeting(),
{
    let mut out: Vec<String> = Vec::new();
    out.push("Gatehouse phone relay setup".to_owned());
    out.push(
        "Passkeys bind to a hostname (WebAuthn RP ID). Pick how phones will reach this machine.".to_owned(),
    );
    out.push(String::new());
    assert(texts(out@) =~= greeting());
    out
}

/// How the name of the relay is found out. The Tailscale name is the one that was detected, if
/// any, and the terminal is where somebody can answer.
pub fn resolve_endpoints(opts: &InitOpts, tailscale: Option<&str>, terminal: bool) -> (r: Resolve)
    ensures
        r@ == resolution(
            opt_text(opts.rp_id),
            opt_text(opts.origin),
            *opts,
            opt_str(tailscale),
            terminal,
        ),
{
    if let (Some(rp), Some(origin)) = (&opts.rp_id, &opts.origin) {
        let transport = if opts.hosted {
            "hosted"
        } else if opts.tailscale || looks_like_tailscale(rp.as_str()) {
            "tailscale"
        } else if contains(origin.as_str(), "localhost") {
            "localhost"
        } else {
            "custom"
        };
        return Resolve::Done(
            Endpoints {
                rp_id: rp.clone(),
                origin: trim_end_matches(origin.as_str(), '/'),
                transport: transport.to_owned(),
            },
        );
    }
    if opts.tailscale {
        return match tailscale {
            Some(host) => Resolve::Done(endpoints_for_host(host, opts.phone_port, "tailscale")),
            None => Resolve::Fail(
                "tailscale status failed — is Tailscale installed and logged in?".to_owned(),
            ),
        };
    }
    if let Some(rp) = &opts.rp_id {
        let origin = https_origin_text(rp.as_str(), opts.phone_port);
        let transport = if opts.hosted {
            "hosted"
        } else if looks_like_tailscale(rp.as_str()) {
            "tailscale"
        } else {
            "custom"
        };
        return Resolve::Done(
            Endpoints {
                rp_id: rp.clone(),
                origin: trim_end_matches(origin.as_str(), '/'),
                transport: transport.to_owned(),
            },
        );
    }
    if opts.yes {
        return Resolve::Fail(
            "missing --rp-id/--origin (or pass --tailscale); refused to prompt because --yes".to_owned(),
        );
    }
    if !terminal {
        return Resolve::Fail(
            "missing --rp-id and --origin. Examples:\n  gatehoused relay-init --tailscale\n  gatehoused relay-init --rp-id host.example.com --origin https://host.example.com:8787".to_owned(),
        );
    }
    let mut lines = greeting_lines();
    match tailscale {
        Some(host) => {
            let mut line = "Detected Tailscale MagicDNS: ".to_owned();
            line.append(host);
            lines.push(line);
            assert(texts(lines@) =~= greeting().push(line@));
            Resolve::AskTailscale {
                lines,
                prompt: "Use Tailscale for phone approvals? [Y/n/custom]: ".to_owned(),
            }
        },
        None => {
            let line =
                "Tailscale not detected (optional). You can still use a VPS hostname or a future hosted relay URL.".to_owned();
            lines.push(line);
            assert(texts(lines@) =~= greeting().push(line@));
            Resolve::AskHost {
                lines,
                prompt: "Hostname phones will open (RP ID), or full https:// origin: ".to_owned(),
            }
        },
    }
}

/// Whether an answer agrees to the Tailscale name: yes in either case, or nothing.
pub open spec fn agrees(answer: Seq<char>) -> bool {
    answer.len() == 0 || uppercased(answer) == "Y"@ || uppercased(answer) == "YES"@
}

/// What follows the answer about the Tailscale name: its endpoints, or the question for another
/// name.
pub fn tailscale_answered(opts: &InitOpts, host: &str, answer: &str) -> (r: Resolve)
    ensures
        r@ == after_tailscale(agrees(answer@), host@, opts.phone_port),
        r@ == (if agrees(answer@) {
            ResolveSpec::Done(host_endpoints(host@, opts.phone_port, "tailscale"@))
        } else {
            ResolveSpec::AskHost { lines: Seq::empty(), prompt: host_prompt() }
        }),
{
    let upper = to_ascii_uppercase(answer);
    if answer.is_empty() || same(upper.as_str(), "Y") || same(upper.as_str(), "YES") {
        return Resolve::Done(endpoints_for_host(host, opts.phone_port, "tailscale"));
    }
    let lines: Vec<String> = Vec::new();
    assert(texts(lines@) =~= Seq::empty());
    Resolve::AskHost {
        lines,
        prompt: "Hostname phones will open (RP ID), or full https:// origin: ".to_owned(),
    }
}

/// The host of an address, or why it has none.
pub open spec fn origin_host(url: Option<UrlSpec>) -> Result<Seq<char>, Seq<char>> {
    match url {
        None => Err("invalid origin URL"@),
        Some(u) => match u.host {
            None => Err("origin missing host"@),
            Some(h) => Ok(cut_end(h, '.')),
        },
    }
}

/// The host of an address, or why it has none.
pub fn host_from_origin(origin: &str) -> (r: Result<String, String>)
    ensures
        match r {
            Ok(h) => origin_host(url_parts(origin@)) == Ok::<Seq<char>, Seq<char>>(h@),
            Err(m) => origin_host(url_parts(origin@)) == Err::<Seq<char>, Seq<char>>(m@),
        },
{
    match parse_url(origin) {
        None => Err("invalid origin URL".to_owned()),
        Some(u) => match u.host {
            None => Err("origin missing host".to_owned()),
            Some(h) => Ok(trim_end_matches(h.as_str(), '.')),
        },
    }
}

/// Whether a line is an address rather than a host name.
pub open spec fn is_address(line: Seq<char>) -> bool {
    "https://"@.is_prefix_of(line) || "http://"@.is_prefix_of(line)
}

/// What follows the answer about the host name, given the host of the address where it is one.
pub open spec fn host_answer(
    line: Seq<char>,
    phone_port: u16,
    host: Result<Seq<char>, Seq<char>>,
) -> Result<EndpointsSpec, Seq<char>> {
    if line.len() == 0 {
        Err("hostname/origin required"@)
    } else if is_address(line) {
        match host {
            Err(m) => Err(m),
            Ok(h) => Ok(
                EndpointsSpec {
                    rp_id: h,
                    origin: cut_end(line, '/'),
                    transport: if tailscale_name(h) {
                        "tailscale"@
                    } else if h == "localhost"@ {
                        "localhost"@
                    } else {
                        "custom"@
                    },
                },
            ),
        }
    } else {
        Ok(
            host_endpoints(
                line,
                phone_port,
                if tailscale_name(line) {
                    "tailscale"@
                } else {
                    "custom"@
                },
            ),
        )
    }
}

/// What the outcome of an answer says.
pub open spec fn answered(r: Result<Endpoints, String>) -> Result<EndpointsSpec, Seq<char>> {
    match r {
        Ok(e) => Ok(e@),
        Err(m) => Err(m@),
    }
}

/// What the host of an address says.
pub open spec fn host_view(r: Result<String, String>) -> Result<Seq<char>, Seq<char>> {
    match r {
        Ok(h) => Ok(h@),
        Err(m) => Err(m@),
    }
}

/// What follows the answer about Tailscale.
pub open spec fn after_tailscale(agreed: bool, host: Seq<char>, phone_port: u16) -> ResolveSpec {
    if agreed {
        ResolveSpec::Done(host_endpoints(host, phone_port, "tailscale"@))
    } else {
        ResolveSpec::AskHost { lines: Seq::empty(), prompt: host_prompt() }
    }
}

/// What follows the answer about the host name, given the host of the address where it is one.
pub fn host_answered_given(opts: &InitOpts, line: &str, host: Result<String, String>) -> (r: Result<
    Endpoints,
    String,
>)
    ensures
        answered(r) == host_answer(line@, opts.phone_port, host_view(host)),
{
    if line.is_empty() {
        return Err("hostname/origin required".to_owned());
    }
    if starts_with(line, "https://") || starts_with(line, "http://") {
        return match host {
            Err(m) => Err(m),
            Ok(h) => {
                let transport = if looks_like_tailscale(h.as_str()) {
                    "tailscale"
                } else if same(h.as_str(), "localhost") {
                    "localhost"
                } else {
                    "custom"
                };
                Ok(
                    Endpoints {
                        rp_id: h,
                        origin: trim_end_matches(line, '/'),
                        transport: transport.to_owned(),
                    },
                )
            },
        };
    }
    let transport = if looks_like_tailscale(line) {
        "tailscale"
    } else {
        "custom"
    };
    Ok(endpoints_for_host(line, opts.phone_port, transport))
}

/// What follows the answer about the host name.
pub fn host_answered(opts: &InitOpts, line: &str) -> (r: Result<Endpoints, String>)
    ensures
        answered(r) == host_answer(
            line@,
            opts.phone_port,
            origin_host(url_parts(cut_end(line@, '/'))),
        ),
{
    let origin = trim_end_matches(line, '/');
    let host = host_from_origin(origin.as_str());
    host_answered_given(opts, line, host)
}

/// The Tailscale name of this machine in a status, if there is one.
pub open spec fn magic_name(status: JsonSpec) -> Option<Seq<char>> {
    match status.member("Self"@) {
        None => None,
        Some(me) => match me.text_member("DNSName"@) {
            None => None,
            Some(dns) => if cut_end(dns, '.').len() == 0 {
                None
            } else {
                Some(cut_end(dns, '.'))
            },
        },
    }
}

/// The Tailscale name of this machine in the status that Tailscale prints, without the dot at its
/// end; nothing where there is none.
pub fn tailscale_dns(status: &[u8]) -> (r: Option<String>)
    ensures
        opt_text(r) == (match json_read_bytes(status@) {
            Err(_) => None,
            Ok(m) => magic_name(m),
        }),
        opt_text(r) == (match json_read_bytes(status@) {
            Err(_) => None,
            Ok(m) => match m.member("Self"@) {
                None => None,
                Some(me) => match me.text_member("DNSName"@) {
                    None => None,
                    Some(dns) => if cut_end(dns, '.').len() == 0 {
                        None
                    } else {
                        Some(cut_end(dns, '.'))
                    },
                },
            },
        }),
{
    let j = match parse_bytes(status) {
        Ok(j) => j,
        Err(_) => {
            return None;
        },
    };
    let me = match j.get("Self") {
        Some(me) => me,
        None => {
            return None;
        },
    };
    match me.get_text("DNSName") {
        Some(dns) => {
            let host = trim_end_matches(dns.as_str(), '.');
            if host.as_str().is_empty() {
                None
            } else {
                Some(host)
            }
        },
        None => None,
    }
}

/// The address that a phone opens.
pub open spec fn phone_address(c: RelayConfigSpec) -> Seq<char> {
    c.origin + "/?t="@ + c.phone_token
}

fn line(head: &str, tail: &str) -> (r: String)
    ensures
        r@ == head@ + tail@,
{
    let mut out = head.to_owned();
    out.append(tail);
    out
}

/// What the operator is told where a relay is set up already and nobody asked to set it up again.
pub open spec fn configured_lines(c: RelayConfigSpec) -> Seq<Seq<char>> {
    seq![
        "relay already configured:"@,
        "  rp_id:  "@ + c.rp_id,
        "  origin: "@ + c.origin,
        "  phone:  "@ + phone_address(c),
        Seq::<char>::empty(),
        "Re-run with --force to change the hostname/URLs."@,
        "Tip: gatehoused relay-init --tailscale --force"@,
        "(Changing rp_id invalidates phone passkeys — re-enroll after.)"@,
    ]
}

/// Whether a relay is left as it is: its settings exist, can be read and are not to be overwritten.
pub open spec fn left_alone(force: bool, present: bool, existing: bool) -> bool {
    present && !force && existing
}

/// What the operator is told instead of setting the relay up, where its settings exist and are
/// not to be overwritten.
pub fn already_configured(opts: &InitOpts, present: bool, existing: Option<&RelayConfig>) -> (r: Option<
    Vec<String>,
>)
    ensures
        r is Some == left_alone(opts.force, present, existing is Some),
        match r {
            Some(lines) => present && !opts.force && existing is Some && texts(lines@)
                == configured_lines(existing->0@),
            None => !present || opts.force || existing is None,
        },
{
    if !present || opts.force {
        return None;
    }
    match existing {
        Some(c) => {
            let mut out: Vec<String> = Vec::new();
            out.push("relay already configured:".to_owned());
            out.push(line("  rp_id:  ", c.rp_id.as_str()));
            out.push(line("  origin: ", c.origin.as_str()));
            out.push(line("  phone:  ", phone_url_of(c).as_str()));
            out.push(String::new());
            out.push("Re-run with --force to change the hostname/URLs.".to_owned());
            out.push("Tip: gatehoused relay-init --tailscale --force".to_owned());
            out.push("(Changing rp_id invalidates phone passkeys — re-enroll after.)".to_owned());
            assert(texts(out@) =~= configured_lines(c@));
            Some(out)
        },
        None => None,
    }
}

/// How daemons authenticate at a relay: as it is given, else by token where the relay is run for
/// others, else by certificate.
pub open spec fn daemon_auth_of(given: Option<Seq<char>>, hosted: bool, transport: Seq<char>) -> Seq<
    char,
> {
    match given {
        Some(a) => a,
        None => if hosted || transport == "hosted"@ {
            "token"@
        } else {
            "mtls"@
        },
    }
}

/// What the existing settings of a relay say.
pub open spec fn opt_settings(existing: Option<&RelayConfig>) -> Option<RelayConfigSpec> {
    match existing {
        Some(c) => Some(c@),
        None => None,
    }
}

/// The warning where the name of a relay changes.
pub open spec fn rename_text(
    opts: InitOpts,
    present: bool,
    existing: Option<RelayConfigSpec>,
    rp_id: Seq<char>,
) -> Option<Seq<char>> {
    match existing {
        Some(c) if opts.force && present && c.rp_id != rp_id => Some(
            "warning: rp_id changing "@ + c.rp_id + " → "@ + rp_id
                + "; re-enroll phone passkeys after this"@,
        ),
        _ => None,
    }
}

/// The warning where the name of a relay changes.
pub fn rename_warning(opts: &InitOpts, present: bool, existing: Option<&RelayConfig>, rp_id: &str) -> (r:
    Option<String>)
    ensures
        opt_text(r) == rename_text(*opts, present, opt_settings(existing), rp_id@),
{
    if !opts.force || !present {
        return None;
    }
    match existing {
        Some(old) => if !same(old.rp_id.as_str(), rp_id) {
            let mut out = "warning: rp_id changing ".to_owned();
            out.append(old.rp_id.as_str());
            out.append(" → ");
            out.append(rp_id);
            out.append("; re-enroll phone passkeys after this");
            Some(out)
        } else {
            None
        },
        None => None,
    }
}

/// What the relay is set up with, once its name is settled.
pub fn material_spec(opts: &InitOpts, endpoints: &Endpoints, existing: Option<&RelayConfig>) -> (r:
    MaterialSpec)
    ensures
        r.rp_id@ == endpoints@.rp_id,
        r.origin@ == endpoints@.origin,
        r.listen@ == opts.listen@,
        r.daemon_listen@ == opts.daemon_listen@,
        r.force == opts.force,
        opt_text(r.keep_token) == (if opts.keep_token && existing is Some {
            Some(existing->0@.phone_token)
        } else {
            None
        }),
        opt_text(r.transport) == Some(endpoints@.transport),
        opt_text(r.daemon_auth) == Some(
            daemon_auth_of(opt_text(opts.daemon_auth), opts.hosted, endpoints@.transport),
        ),
{
    let daemon_auth = match &opts.daemon_auth {
        Some(a) => a.clone(),
        None => if opts.hosted || same(endpoints.transport.as_str(), "hosted") {
            "token".to_owned()
        } else {
            "mtls".to_owned()
        },
    };
    let keep_token = if opts.keep_token {
        match existing {
            Some(c) => Some(c.phone_token.clone()),
            None => None,
        }
    } else {
        None
    };
    MaterialSpec {
        rp_id: endpoints.rp_id.clone(),
        origin: endpoints.origin.clone(),
        listen: opts.listen.clone(),
        daemon_listen: opts.daemon_listen.clone(),
        force: opts.force,
        keep_token,
        transport: Some(endpoints.transport.clone()),
        daemon_auth: Some(daemon_auth),
    }
}

/// The command that starts the relay.
pub open spec fn relay_command(opts: InitOpts) -> Seq<char> {
    "relay:       gatehoused relay --listen "@ + opts.listen@ + " --daemon-listen "@
        + opts.daemon_listen@
}

fn relay_command_text(opts: &InitOpts) -> (r: String)
    ensures
        r@ == relay_command(*opts),
{
    let mut out = "relay:       gatehoused relay --listen ".to_owned();
    out.append(opts.listen.as_str());
    out.append(" --daemon-listen ");
    out.append(opts.daemon_listen.as_str());
    out
}

/// What the operator is told once the relay is set up.
pub open spec fn init_lines(opts: InitOpts, e: EndpointsSpec, c: RelayConfigSpec) -> Seq<Seq<char>> {
    let head = seq![
        Seq::<char>::empty(),
        "transport:   "@ + e.transport,
        "daemon_auth: "@ + auth_of(c),
        "phone URL:   "@ + phone_address(c),
    ];
    if c.daemon_auth == Some("token"@) {
        head + seq![
            "daemon:      enroll with: gatehoused device-enroll --label laptop --write \\"@,
            "                --endpoint "@ + https_origin(e.rp_id, opts.phone_port),
            relay_command(opts),
            "             (token WS is on the phone port /ws)"@,
        ]
    } else {
        head + seq![
            "daemon:      gatehoused --relay-url "@ + https_origin(e.rp_id, opts.daemon_port)
                + " --no-open"@,
            relay_command(opts),
        ]
    }
}

/// What the operator is told once the relay is set up.
pub fn init_report(opts: &InitOpts, e: &Endpoints, config: &RelayConfig) -> (r: Vec<String>)
    ensures
        texts(r@) == init_lines(*opts, e@, config@),
{
    let mut out: Vec<String> = Vec::new();
    out.push(String::new());
    out.push(line("transport:   ", e.transport.as_str()));
    let auth = match &config.daemon_auth {
        Some(a) => a.as_str(),
        None => "mtls",
    };
    out.push(line("daemon_auth: ", auth));
    out.push(line("phone URL:   ", phone_url_of(config).as_str()));
    let by_token = match &config.daemon_auth {
        Some(a) => same(a.as_str(), "token"),
        None => false,
    };
    if by_token {
        out.push(
            "daemon:      enroll with: gatehoused device-enroll --label laptop --write \\".to_owned(),
        );
        out.push(
            line(
                "                --endpoint ",
                https_origin_text(e.rp_id.as_str(), opts.phone_port).as_str(),
            ),
        );
        out.push(relay_command_text(opts));
        out.push("             (token WS is on the phone port /ws)".to_owned());
    } else {
        let mut dial = line(
            "daemon:      gatehoused --relay-url ",
            https_origin_text(e.rp_id.as_str(), opts.daemon_port).as_str(),
        );
        dial.append(" --no-open");
        out.push(dial);
        out.push(relay_command_text(opts));
    }
    assert(texts(out@) =~= init_lines(*opts, e@, config@));
    out
}

/// The settings of a relay that is set up, given a phone token that was drawn.
pub open spec fn settings_of(
    opts: InitOpts,
    e: EndpointsSpec,
    existing: Option<RelayConfigSpec>,
    drawn: Seq<char>,
) -> RelayConfigSpec {
    RelayConfigSpec {
        rp_id: e.rp_id,
        origin: cut_end(e.origin, '/'),
        phone_token: match existing {
            Some(c) if opts.keep_token => c.phone_token,
            _ => drawn,
        },
        listen: opts.listen@,
        daemon_listen: opts.daemon_listen@,
        transport: Some(e.transport),
        daemon_auth: Some(daemon_auth_of(opt_text(opts.daemon_auth), opts.hosted, e.transport)),
    }
}

/// What comes of setting a relay up.
pub struct SetUp {
    /// What the operator is warned of first.
    pub warning: Option<String>,
    /// What is to be stored, or why there is nothing.
    pub outcome: Result<(RelayMaterial, Pems), String>,
    /// What the operator is told in the end.
    pub report: Vec<String>,
}

/// Whether what comes of setting a relay up is what the certificates that were made for it, and a
/// phone token that was drawn, come to.
pub open spec fn set_up_follows(
    opts: InitOpts,
    e: EndpointsSpec,
    existing: Option<RelayConfigSpec>,
    dir: Seq<char>,
    issued: Result<Pems, String>,
    drawn: Seq<char>,
    r: SetUp,
) -> bool {
    match issued {
        Ok(p) => {
            let settings = settings_of(opts, e, existing, drawn);
            &&& r.outcome is Ok
            &&& r.outcome->Ok_0.0.dir@ == dir
            &&& r.outcome->Ok_0.0.config@ == settings
            &&& r.outcome->Ok_0.1 == p
            &&& texts(r.report@) == init_lines(opts, e, settings)
        },
        Err(e) => {
            &&& r.outcome == Err::<(RelayMaterial, Pems), String>(e)
            &&& r.report@.len() == 0
        },
    }
}

/// Sets a relay up once its name is settled, given the certificates that were made for it and a
/// phone token that was drawn.
pub fn set_up_given(
    opts: &InitOpts,
    endpoints: &Endpoints,
    existing: Option<&RelayConfig>,
    present: bool,
    path: &str,
    dir: &str,
    issued: Result<Pems, String>,
    drawn: String,
) -> (r: SetUp)
    ensures
        opt_text(r.warning) == rename_text(
            *opts,
            present,
            opt_settings(existing),
            endpoints@.rp_id,
        ),
        if present && !opts.force {
            &&& r.outcome is Err && r.outcome->Err_0@ == refusal(path@)
            &&& r.report@.len() == 0
        } else {
            set_up_follows(
                *opts,
                endpoints@,
                opt_settings(existing),
                dir@,
                issued,
                drawn@,
                r,
            )
        },
{
    let warning = rename_warning(opts, present, existing, endpoints.rp_id.as_str());
    let m = material_spec(opts, endpoints, existing);
    match RelayMaterial::init_given(&m, dir, present, path, issued, drawn) {
        Ok((material, pems)) => {
            let report = init_report(opts, endpoints, &material.config);
            SetUp { warning, outcome: Ok((material, pems)), report }
        },
        Err(e) => SetUp { warning, outcome: Err(e), report: Vec::new() },
    }
}

/// Whether a relay was set up as it has to be, with some phone token where none is kept.
pub open spec fn is_set_up(
    opts: InitOpts,
    e: EndpointsSpec,
    existing: Option<RelayConfigSpec>,
    dir: Seq<char>,
    r: SetUp,
    drawn: Seq<char>,
) -> bool {
    let settings = settings_of(opts, e, existing, drawn);
    &&& drawn.len() == 64
    &&& is_hex(drawn)
    &&& r.outcome is Ok
    &&& r.outcome->Ok_0.0.dir@ == dir
    &&& r.outcome->Ok_0.0.config@ == settings
    &&& is_material(r.outcome->Ok_0.1, e.rp_id)
    &&& texts(r.report@) == init_lines(opts, e, settings)
}

/// Sets a relay up once its name is settled: the certificates are made and, unless the phone token
/// is to be kept, a new one is drawn. Nothing is made where the relay is not to be set up again.
pub fn set_up(
    opts: &InitOpts,
    endpoints: &Endpoints,
    existing: Option<&RelayConfig>,
    present: bool,
    path: &str,
    dir: &str,
) -> (r: SetUp)
    ensures
        opt_text(r.warning) == rename_text(
            *opts,
            present,
            opt_settings(existing),
            endpoints@.rp_id,
        ),
        present && !opts.force ==> r.outcome is Err && r.outcome->Err_0@ == refusal(path@),
        !is_ascii(endpoints@.rp_id) ==> r.outcome is Err,
        match r.outcome {
            Ok(_) => exists|drawn: Seq<char>| #[trigger]
                is_set_up(*opts, endpoints@, opt_settings(existing), dir@, r, drawn),
            Err(_) => r.report@.len() == 0,
        },
        !(present && !opts.force) ==> exists|issued: Result<Pems, String>, drawn: Seq<char>|
            {
                &&& issued_for(endpoints@.rp_id, issued)
                &&& drawn.len() == 64 && is_hex(drawn)
                &&& #[trigger] set_up_follows(
                    *opts,
                    endpoints@,
                    opt_settings(existing),
                    dir@,
                    issued,
                    drawn,
                    r,
                )
            },
{
    let issued = match init_refusal(present, opts.force, path) {
        Some(message) => Err(message),
        None => issue_material(endpoints.rp_id.as_str()),
    };
    let drawn = new_token();
    let ghost token = drawn@;
    let ghost made = issued;
    let r = set_up_given(opts, endpoints, existing, present, path, dir, issued, drawn);
    proof {
        if !(present && !opts.force) {
            assert(set_up_follows(
                *opts,
                endpoints@,
                opt_settings(existing),
                dir@,
                made,
                token,
                r,
            ));
        }
        if r.outcome is Ok {
            assert(is_set_up(*opts, endpoints@, opt_settings(existing), dir@, r, token));
        }
    }
    r
}

/// The settings of a relay as the operator sees them.
pub open spec fn relay_lines(c: RelayConfigSpec, devices: nat) -> Seq<Seq<char>> {
    let head = seq!["rp_id:       "@ + c.rp_id, "origin:      "@ + c.origin];
    let transport = match c.transport {
        Some(t) => seq!["transport:   "@ + t],
        None => Seq::empty(),
    };
    head + transport + seq![
        "daemon_auth: "@ + auth_of(c),
        "phone URL:   "@ + phone_address(c),
        "listen:      "@ + c.listen,
        "daemon:      "@ + c.daemon_listen,
        "devices:     "@ + decimal(devices),
    ]
}

/// The settings of a relay as the operator sees them.
pub fn show_relay(config: &RelayConfig, devices: usize) -> (r: Vec<String>)
    ensures
        texts(r@) == relay_lines(config@, devices as nat),
{
    let mut out: Vec<String> = Vec::new();
    out.push(line("rp_id:       ", config.rp_id.as_str()));
    out.push(line("origin:      ", config.origin.as_str()));
    if let Some(t) = &config.transport {
        out.push(line("transport:   ", t.as_str()));
    }
    let auth = match &config.daemon_auth {
        Some(a) => a.as_str(),
        None => "mtls",
    };
    out.push(line("daemon_auth: ", auth));
    out.push(line("phone URL:   ", phone_url_of(config).as_str()));
    out.push(line("listen:      ", config.listen.as_str()));
    out.push(line("daemon:      ", config.daemon_listen.as_str()));
    out.push(line("devices:     ", to_decimal(devices as u64).as_str()));
    assert(texts(out@) =~= relay_lines(config@, devices as nat));
    out
}

}
