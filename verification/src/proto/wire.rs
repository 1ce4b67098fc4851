//! The messages on the two local sockets.
//!
//! The *agent* socket accepts only [`AgentMsg::Submit`]: it is the surface mounted into
//! a sandbox, and nothing on it can approve anything. The *ctl* socket is the
//! operator side: listing, approving, denying, granting. The split is the trust
//! boundary: a contained agent gets the agent socket and never sees the other.
use vstd::prelude::*;

use crate::json::{Json, JsonSpec};
use crate::proto::request::GateRequest;
use crate::text::same;

verus! {

pub const PROTOCOL_VERSION: u32 = 1;

/// The policy tier that a request resolves to.
#[derive(Clone, Copy, Debug, PartialEq, Eq, Structural)]
pub enum Tier {
    Allow,
    Ask,
    AskStrong,
    Deny,
}

/// How a submitted request stands.
#[derive(Clone, Copy, Debug, PartialEq, Eq, Structural)]
pub enum DecisionStatus {
    Allowed,
    Denied,
    Pending,
}

/// Messages an agent or harness adapter may send on the agent socket.
#[derive(Debug)]
pub enum AgentMsg {
    Submit {
        request: GateRequest,
        /// When true and the request is an exec operation, the daemon runs the
        /// command itself on approval and streams its output back. When false the
        /// daemon only decides.
        execute: bool,
    },
}

/// Messages the daemon sends back on the agent socket.
#[derive(Clone, Debug)]
pub enum DaemonMsg {
    Decision { digest: String, tier: Tier, status: DecisionStatus, summary: String },
    /// A base64 chunk of the child's standard output.
    Stdout { b64: String },
    /// A base64 chunk of the child's standard error.
    Stderr { b64: String },
    Exit { code: i32 },
    Error { message: String },
}

/// Operator commands on the ctl socket.
#[derive(Clone, Debug)]
pub enum CtlMsg {
    Pending,
    /// Approve a pending request by unique digest prefix.
    Approve { digest_prefix: String },
    Deny { digest_prefix: String },
    /// Session grant: commands that the glob covers are allowed until the time is up.
    Grant { argv_glob: String, ttl_secs: u64 },
    Status,
    /// Mint a one-time code that authorises one passkey enrollment.
    EnrollCode,
}

/// One request that waits for an approver.
#[derive(Clone, Debug)]
pub struct PendingEntry {
    pub digest: String,
    pub summary: String,
    pub tier: Tier,
    pub harness: String,
    pub age_secs: u64,
}

/// One live session grant.
#[derive(Clone, Debug)]
pub struct GrantInfo {
    pub argv_glob: String,
    pub expires_in_secs: u64,
}

/// The daemon's answers on the ctl socket.
#[derive(Clone, Debug)]
pub enum CtlResp {
    Done { message: String },
    Pending { entries: Vec<PendingEntry> },
    /// A one-time enrollment code and how long it stays valid.
    EnrollCode { code: String, ttl_secs: u64 },
    Status { version: u32, pending: usize, grants: Vec<GrantInfo>, uptime_secs: u64 },
    Error { message: String },
}

/// What an entry of the pending list says.
#[verifier::ext_equal]
pub struct PendingEntrySpec {
    pub digest: Seq<char>,
    pub summary: Seq<char>,
    pub tier: Tier,
    pub harness: Seq<char>,
    pub age_secs: u64,
}

impl View for PendingEntry {
    type V = PendingEntrySpec;

    open spec fn view(&self) -> PendingEntrySpec {
        PendingEntrySpec {
            digest: self.digest@,
            summary: self.summary@,
            tier: self.tier,
            harness: self.harness@,
            age_secs: self.age_secs,
        }
    }
}

/// What a line about a grant says: the glob and the seconds that are left.
impl View for GrantInfo {
    type V = (Seq<char>, u64);

    open spec fn view(&self) -> (Seq<char>, u64) {
        (self.argv_glob@, self.expires_in_secs)
    }
}

/// What a message of the daemon says.
#[verifier::ext_equal]
pub enum DaemonMsgSpec {
    Decision { digest: Seq<char>, tier: Tier, status: DecisionStatus, summary: Seq<char> },
    Stdout { b64: Seq<char> },
    Stderr { b64: Seq<char> },
    Exit { code: i32 },
    Error { message: Seq<char> },
}

impl View for DaemonMsg {
    type V = DaemonMsgSpec;

    open spec fn view(&self) -> DaemonMsgSpec {
        match self {
            DaemonMsg::Decision { digest, tier, status, summary } => DaemonMsgSpec::Decision {
                digest: digest@,
                tier: *tier,
                status: *status,
                summary: summary@,
            },
            DaemonMsg::Stdout { b64 } => DaemonMsgSpec::Stdout { b64: b64@ },
            DaemonMsg::Stderr { b64 } => DaemonMsgSpec::Stderr { b64: b64@ },
            DaemonMsg::Exit { code } => DaemonMsgSpec::Exit { code: *code },
            DaemonMsg::Error { message } => DaemonMsgSpec::Error { message: message@ },
        }
    }
}

/// What an answer to the operator says.
#[verifier::ext_equal]
pub enum CtlRespSpec {
    Done { message: Seq<char> },
    Pending { entries: Seq<PendingEntrySpec> },
    EnrollCode { code: Seq<char>, ttl_secs: u64 },
    Status { version: u32, pending: int, grants: Seq<(Seq<char>, u64)>, uptime_secs: u64 },
    Error { message: Seq<char> },
}

/// What the entries of a pending list say.
pub open spec fn entries_view(v: Seq<PendingEntry>) -> Seq<PendingEntrySpec> {
    v.map_values(|e: PendingEntry| e@)
}

/// What a list of grants says.
pub open spec fn grants_view(v: Seq<GrantInfo>) -> Seq<(Seq<char>, u64)> {
    v.map_values(|g: GrantInfo| g@)
}

impl View for CtlResp {
    type V = CtlRespSpec;

    open spec fn view(&self) -> CtlRespSpec {
        match self {
            CtlResp::Done { message } => CtlRespSpec::Done { message: message@ },
            CtlResp::Pending { entries } => CtlRespSpec::Pending {
                entries: entries_view(entries@),
            },
            CtlResp::EnrollCode { code, ttl_secs } => CtlRespSpec::EnrollCode {
                code: code@,
                ttl_secs: *ttl_secs,
            },
            CtlResp::Status { version, pending, grants, uptime_secs } => CtlRespSpec::Status {
                version: *version,
                pending: *pending as int,
                grants: grants_view(grants@),
                uptime_secs: *uptime_secs,
            },
            CtlResp::Error { message } => CtlRespSpec::Error { message: message@ },
        }
    }
}

/// The name of a tier in files and messages.
pub open spec fn tier_name(t: Tier) -> Seq<char> {
    match t {
        Tier::Allow => "allow"@,
        Tier::Ask => "ask"@,
        Tier::AskStrong => "ask_strong"@,
        Tier::Deny => "deny"@,
    }
}

/// The tier of a given name.
pub open spec fn tier_named(name: Seq<char>) -> Option<Tier> {
    if name == "allow"@ {
        Some(Tier::Allow)
    } else if name == "ask"@ {
        Some(Tier::Ask)
    } else if name == "ask_strong"@ {
        Some(Tier::AskStrong)
    } else if name == "deny"@ {
        Some(Tier::Deny)
    } else {
        None
    }
}

/// The tier that a JSON value stands for: its name, or an object with that name as its
/// only key and null under it.
pub open spec fn tier_of(m: JsonSpec) -> Option<Tier> {
    match m {
        JsonSpec::Text(name) => tier_named(name),
        JsonSpec::Object(v) => if v.len() == 1 && v[0].1 is Null {
            tier_named(v[0].0)
        } else {
            None
        },
        _ => None,
    }
}

/// The name of a tier reads back as that tier.
pub proof fn law_tier_round_trip(t: Tier)
    ensures
        tier_named(tier_name(t)) == Some(t),
{
    reveal_strlit("allow");
    reveal_strlit("ask");
    reveal_strlit("ask_strong");
    reveal_strlit("deny");
    assert("allow"@.len() == 5 && "ask"@.len() == 3 && "ask_strong"@.len() == 10 && "deny"@.len()
        == 4);
}

/// Two tiers with the same name are the same.
pub proof fn law_tier_name_injective(a: Tier, b: Tier)
    requires
        tier_name(a) == tier_name(b),
    ensures
        a == b,
{
    law_tier_round_trip(a);
    law_tier_round_trip(b);
}

/// The label of a tier as it is shown to people.
pub open spec fn tier_label(t: Tier) -> Seq<char> {
    match t {
        Tier::Allow => "allow"@,
        Tier::Ask => "ask"@,
        Tier::AskStrong => "ask-strong"@,
        Tier::Deny => "deny"@,
    }
}

impl Tier {
    /// The label of the tier as it is shown to people.
    pub fn label(self) -> (r: &'static str)
        ensures
            r@ == tier_label(self),
    {
        match self {
            Tier::Allow => "allow",
            Tier::Ask => "ask",
            Tier::AskStrong => "ask-strong",
            Tier::Deny => "deny",
        }
    }

    /// The name of the tier in files and messages.
    pub fn name(self) -> (r: &'static str)
        ensures
            r@ == tier_name(self),
    {
        match self {
            Tier::Allow => "allow",
            Tier::Ask => "ask",
            Tier::AskStrong => "ask_strong",
            Tier::Deny => "deny",
        }
    }

    /// The tier of a given name.
    pub fn named(name: &str) -> (r: Option<Tier>)
        ensures
            r == tier_named(name@),
    {
        if same(name, "allow") {
            Some(Tier::Allow)
        } else if same(name, "ask") {
            Some(Tier::Ask)
        } else if same(name, "ask_strong") {
            Some(Tier::AskStrong)
        } else if same(name, "deny") {
            Some(Tier::Deny)
        } else {
            None
        }
    }

    /// The tier that a JSON value stands for.
    pub fn of_json(j: &Json) -> (r: Option<Tier>)
        ensures
            r == tier_of(j@),
    {
        match j {
            Json::Text(name) => Tier::named(name.as_str()),
            Json::Object(v) => {
                proof {
                    crate::json::lemma_object_view(*v);
                }
                if v.len() == 1 {
                    if let Json::Null = v[0].value {
                        Tier::named(v[0].key.as_str())
                    } else {
                        None
                    }
                } else {
                    None
                }
            },
            _ => None,
        }
    }
}

}
