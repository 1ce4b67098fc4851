//! Everything the daemon holds.
use vstd::prelude::*;

use crate::daemon::audit::{continues, recorded_entry, Audit, Recorded};
use crate::daemon::enroll::{CodeSpec, EnrollCodes};
use crate::daemon::state::{Shared, SharedSpec};
use crate::json::{items_view, json_text, Json, JsonSpec};
use crate::number::{decimal, to_decimal};
use crate::proto::audit_log::{entry_count, entry_json, entry_on};
use crate::proto::policy::{Policy, PolicySpec};
use crate::proto::request::ProtoError;
use crate::proto::wire::Tier;
use crate::text::{lines_of, opt_text};

verus! {

/// How the daemon advertises the approval page.
#[derive(Clone, Debug)]
pub struct HttpInfo {
    pub port: u16,
    pub token: String,
}

/// The address of the approval page.
pub open spec fn page_address(port: u16, token: Seq<char>) -> Seq<char> {
    "http://localhost:"@ + decimal(port as nat) + "/?t="@ + token
}

/// The address of the approval page.
pub fn page_url(port: u16, token: &str) -> (r: String)
    ensures
        r@ == page_address(port, token@),
{
    let mut out = "http://localhost:".to_owned();
    out.append(to_decimal(port as u64).as_str());
    out.append("/?t=");
    out.append(token);
    out
}

/// Everything the daemon holds.
pub struct Ctx {
    pub policy: Policy,
    pub state: Shared,
    /// The passkeys of the approval page, as they are stored.
    pub passkeys: Vec<Json>,
    /// The passkeys enrolled from a phone, as they are stored.
    pub phone_passkeys: Vec<Json>,
    /// The approval page, once it is up.
    pub http: Option<HttpInfo>,
    /// The phone console, once a relay is used.
    pub phone_url: Option<String>,
    pub auto_open: bool,
    pub audit: Audit,
    pub enroll_codes: EnrollCodes,
    /// The home directory, if it is known.
    pub home: Option<String>,
}

/// What the daemon knows.
#[verifier::ext_equal]
pub struct CtxSpec {
    pub policy: PolicySpec,
    pub state: SharedSpec,
    pub passkeys: Seq<JsonSpec>,
    pub phone_passkeys: Seq<JsonSpec>,
    pub http: Option<(u16, Seq<char>)>,
    pub phone_url: Option<Seq<char>>,
    pub auto_open: bool,
    pub last_hash: Seq<char>,
    pub codes: Seq<CodeSpec>,
    pub home: Option<Seq<char>>,
}

impl View for Ctx {
    type V = CtxSpec;

    open spec fn view(&self) -> CtxSpec {
        CtxSpec {
            policy: self.policy@,
            state: self.state@,
            passkeys: items_view(self.passkeys@),
            phone_passkeys: items_view(self.phone_passkeys@),
            http: match self.http {
                Some(i) => Some((i.port, i.token@)),
                None => None,
            },
            phone_url: opt_text(self.phone_url),
            auto_open: self.auto_open,
            last_hash: self.audit.last_hash@,
            codes: self.enroll_codes@,
            home: opt_text(self.home),
        }
    }
}

impl CtxSpec {
    /// Where strong approvals are given: the phone console where a relay is used, else the
    /// approval page once it is up.
    pub open spec fn approval_address(self) -> Option<Seq<char>> {
        match self.phone_url {
            Some(url) => Some(url),
            None => match self.http {
                Some((port, token)) => Some(page_address(port, token)),
                None => None,
            },
        }
    }
}

/// The home directory as a slice.
pub fn home_of(home: &Option<String>) -> (r: Option<&str>)
    ensures
        crate::text::opt_str(r) == opt_text(*home),
{
    match home {
        Some(h) => Some(h.as_str()),
        None => None,
    }
}

impl Ctx {
    /// A daemon that has just been started.
    pub fn new(
        policy: Policy,
        passkeys: Vec<Json>,
        phone_passkeys: Vec<Json>,
        audit: Audit,
        auto_open: bool,
        home: Option<String>,
    ) -> (r: Ctx)
        ensures
            r@ == (CtxSpec {
                policy: policy@,
                state: SharedSpec {
                    pending: Seq::empty(),
                    grants: Seq::empty(),
                    spent: Seq::empty(),
                },
                passkeys: items_view(passkeys@),
                phone_passkeys: items_view(phone_passkeys@),
                http: None,
                phone_url: None,
                auto_open,
                last_hash: audit.last_hash@,
                codes: Seq::empty(),
                home: opt_text(home),
            }),
            r@.state.wf(),
    {
        Ctx {
            policy,
            state: Shared::new(),
            passkeys,
            phone_passkeys,
            http: None,
            phone_url: None,
            auto_open,
            audit,
            enroll_codes: EnrollCodes::new(),
            home,
        }
    }

    /// The line for the log about a decision. A log that ends where this one ends stays whole when
    /// the line is put behind it.
    pub fn audit(
        &self,
        ts: i64,
        digest: &str,
        summary: &str,
        tier: Tier,
        decision: &str,
        rule: &str,
    ) -> (r: Result<Recorded, ProtoError>)
        ensures
            r is Ok,
            ({
                let e = recorded_entry(
                    ts,
                    digest@,
                    summary@,
                    tier,
                    decision@,
                    rule@,
                    self@.last_hash,
                );
                &&& r->Ok_0.line@ == json_text(entry_json(e))
                &&& r->Ok_0.hash@ == e.hash
                &&& entry_on(r->Ok_0.line@) == Some(e)
            }),
            forall|log: Seq<char>| #[trigger]
                continues(log, self@.last_hash) ==> {
                    let after = log + r->Ok_0.line@ + seq!['\n'];
                    &&& continues(after, r->Ok_0.hash@)
                    &&& entry_count(lines_of(after)) == entry_count(lines_of(log)) + 1
                },
    {
        self.audit.record(ts, digest, summary, tier, decision, rule)
    }

    /// Whether a passkey is enrolled on the approval page.
    pub fn passkeys_enrolled(&self) -> (r: bool)
        ensures
            r == (self@.passkeys.len() > 0),
    {
        self.passkeys.len() > 0
    }

    /// Where strong approvals are given, if that is up yet.
    pub fn approval_url(&self) -> (r: Option<String>)
        ensures
            opt_text(r) == self@.approval_address(),
    {
        match &self.phone_url {
            Some(url) => Some(url.clone()),
            None => match &self.http {
                Some(i) => Some(page_url(i.port, i.token.as_str())),
                None => None,
            },
        }
    }
}

}
