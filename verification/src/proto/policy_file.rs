//! The policy as a TOML file.
use toml::Value;
use vstd::prelude::*;
use vstd::string::*;

use crate::json::{items_view, opt_json, Json, JsonSpec, Member};
use crate::number::{decimal, to_decimal};
use crate::proto::policy::{opt_texts, rules_view, Policy, PolicySpec, Rule, RuleSpec};
use crate::proto::wire::{tier_named, Tier};
use crate::text::{opt_text, texts};

verus! {

/// The policy that is written where there is none yet: harmless commands pass, what leaves
/// the machine or destroys is asked about, and nobody becomes root.
pub const DEFAULT_POLICY: &'static str = r##"# Gatehouse policy. The first rule that matches decides.
#
# Tiers: allow, ask, ask_strong (passkey), deny.
# Matchers: argv0 and args_glob for commands, path_prefix for file writes,
# host_glob for connections.

default_tier = "ask"

# Path prefixes below which file writes are allowed.
workspace = []

[[rules]]
name = "no privilege escalation"
tier = "deny"
argv0 = ["sudo", "su", "doas"]

[[rules]]
name = "git publishes or rewrites history"
tier = "ask_strong"
argv0 = ["git"]
args_glob = ["push", "push *", "reset --hard*", "clean *", "filter-branch*", "remote *"]

[[rules]]
name = "git reads"
tier = "allow"
argv0 = ["git"]
args_glob = ["status", "status *", "diff", "diff *", "log", "log *", "show", "show *", "branch"]

[[rules]]
name = "recursive or forced removal"
tier = "ask_strong"
argv0 = ["rm"]
args_glob = ["-*r*", "-*f*", "* -*r*", "* -*f*"]

[[rules]]
name = "credentials on the command line"
tier = "ask_strong"
args_glob = ["*.ssh/*", "*.aws/*", "*.gnupg/*", "*.netrc*"]

[[rules]]
name = "read-only commands"
tier = "allow"
argv0 = ["ls", "pwd", "echo", "cat", "head", "tail", "wc", "which", "whoami", "date", "true"]

[[rules]]
name = "ssh keys"
tier = "ask_strong"
path_prefix = "~/.ssh/"

[[rules]]
name = "cloud credentials"
tier = "ask_strong"
path_prefix = "~/.aws/"

[[rules]]
name = "gatehouse configuration"
tier = "deny"
path_prefix = "~/.config/gatehouse/"

[[rules]]
name = "this machine"
tier = "allow"
host_glob = "localhost"
"##;

/// Why a text is no policy.
#[derive(Clone, Debug)]
pub enum PolicyError {
    /// It is not TOML, with what is wrong with it.
    Syntax(String),
    /// It is TOML but says something else than a policy, with where it does.
    Shape(String),
}

impl PolicyError {
    /// What is wrong.
    pub fn message(&self) -> (r: &str)
        ensures
            r@ == (match self {
                PolicyError::Syntax(m) => m@,
                PolicyError::Shape(m) => m@,
            }),
    {
        match self {
            PolicyError::Syntax(m) => m.as_str(),
            PolicyError::Shape(m) => m.as_str(),
        }
    }
}

#[verifier::external_type_specification]
#[verifier::external_body]
pub struct ExToml(toml::Value);

/// What a `toml::Value` holds, its tables as objects.
pub uninterp spec fn toml_model(v: toml::Value) -> JsonSpec;

/// The value that `toml::from_str` reads from a text, or what it says of one that is not TOML.
pub uninterp spec fn toml_read(text: Seq<char>) -> Result<JsonSpec, Seq<char>>;

/// `toml::from_str`, reading any TOML document: it fails on a text that is not TOML. What it reads
/// and what it says of a failure depend on the text alone.
#[verifier::external_body]
fn toml_of_text(text: &str) -> (r: Result<toml::Value, String>)
    ensures
        match r {
            Ok(v) => toml_read(text@) == Ok::<JsonSpec, Seq<char>>(toml_model(v)),
            Err(m) => toml_read(text@) == Err::<JsonSpec, Seq<char>>(m@),
        },
{
    toml::from_str::<toml::Value>(text).map_err(|e| e.to_string())
}

/// `toml::Value`, taken apart: each value, array element and table entry becomes its
/// counterpart. Numbers with a fraction keep their text, and a date becomes an object that
/// holds its text.
#[verifier::external_body]
fn of_toml(v: &Value) -> (r: Json)
    ensures
        r@ == toml_model(*v),
{
    match v {
        Value::String(s) => Json::Text(s.clone()),
        Value::Integer(n) => Json::Integer((*n).into()),
        Value::Float(f) => Json::Float(f.to_string()),
        Value::Boolean(b) => Json::Bool(*b),
        Value::Datetime(d) => Json::Object(
            vec![Member { key: "datetime".into(), value: Json::Text(d.to_string()) }],
        ),
        Value::Array(a) => Json::Array(a.iter().map(of_toml).collect()),
        Value::Table(t) => Json::Object(
            t.iter().map(|(k, v)| Member { key: k.clone(), value: of_toml(v) }).collect(),
        ),
    }
}

/// Whether a value is an empty array or table.
pub open spec fn holds_nothing(m: JsonSpec) -> bool {
    match m {
        JsonSpec::Array(a) => a.len() == 0,
        JsonSpec::Object(o) => o.len() == 0,
        _ => false,
    }
}

/// The tier that a TOML value names: by a string, or by a table with that name as its only
/// key and something empty under it.
pub open spec fn toml_tier(m: JsonSpec) -> Option<Tier> {
    match m {
        JsonSpec::Text(name) => tier_named(name),
        JsonSpec::Object(v) => if v.len() == 1 && holds_nothing(v[0].1) {
            tier_named(v[0].0)
        } else {
            None
        },
        _ => None,
    }
}

/// The texts of an array, where it is one of texts.
pub open spec fn texts_of(m: JsonSpec) -> Option<Seq<Seq<char>>> {
    match m {
        JsonSpec::Array(v) => if forall|i: int| 0 <= i < v.len() ==> (#[trigger] v[i]) is Text {
            Some(v.map_values(|m: JsonSpec| m->Text_0))
        } else {
            None
        },
        _ => None,
    }
}

/// An optional part: fine where it is missing, and else of its type or malformed.
pub open spec fn optional_texts(m: Option<JsonSpec>) -> Option<Option<Seq<Seq<char>>>> {
    match m {
        None => Some(None),
        Some(m) => match texts_of(m) {
            Some(t) => Some(Some(t)),
            None => None,
        },
    }
}

/// An optional text: fine where it is missing, and else a text or malformed.
pub open spec fn optional_text(m: Option<JsonSpec>) -> Option<Option<Seq<char>>> {
    match m {
        None => Some(None),
        Some(m) => match m.text() {
            Some(t) => Some(Some(t)),
            None => None,
        },
    }
}

/// A part of a rule: a member of a table, or an item of an array by its position.
pub open spec fn rule_part(m: JsonSpec, key: Seq<char>, at: int) -> Option<JsonSpec> {
    match m {
        JsonSpec::Array(v) => if at < v.len() {
            Some(v[at])
        } else {
            None
        },
        _ => m.member(key),
    }
}

/// The name of a rule.
pub open spec fn rule_name(m: JsonSpec) -> Option<Seq<char>> {
    match rule_part(m, "name"@, 0) {
        Some(n) => n.text(),
        None => None,
    }
}

/// The tier of a rule.
pub open spec fn rule_tier(m: JsonSpec) -> Option<Tier> {
    match rule_part(m, "tier"@, 1) {
        Some(t) => toml_tier(t),
        None => None,
    }
}

/// The rule that a table stands for, or an array that holds its parts in order.
pub open spec fn rule_of(m: JsonSpec) -> Option<RuleSpec> {
    let argv0 = optional_texts(rule_part(m, "argv0"@, 2));
    let args_glob = optional_texts(rule_part(m, "args_glob"@, 3));
    let path_prefix = optional_text(rule_part(m, "path_prefix"@, 4));
    let host_glob = optional_text(rule_part(m, "host_glob"@, 5));
    if rule_name(m) is Some && rule_tier(m) is Some && argv0 is Some && args_glob is Some
        && path_prefix is Some && host_glob is Some {
        Some(
            RuleSpec {
                name: rule_name(m)->0,
                tier: rule_tier(m)->0,
                argv0: argv0->0,
                args_glob: args_glob->0,
                path_prefix: path_prefix->0,
                host_glob: host_glob->0,
            },
        )
    } else {
        None
    }
}

/// What is wrong with a value that is no rule.
pub open spec fn rule_fault(m: JsonSpec) -> Seq<char> {
    if !(m is Object || m is Array) {
        "not a table"@
    } else if rule_part(m, "name"@, 0) is None {
        "missing field `name`"@
    } else if rule_name(m) is None {
        "`name` is not a string"@
    } else if rule_part(m, "tier"@, 1) is None {
        "missing field `tier`"@
    } else if rule_tier(m) is None {
        "`tier` is not a tier"@
    } else if optional_texts(rule_part(m, "argv0"@, 2)) is None {
        "`argv0` is not a list of strings"@
    } else if optional_texts(rule_part(m, "args_glob"@, 3)) is None {
        "`args_glob` is not a list of strings"@
    } else if optional_text(rule_part(m, "path_prefix"@, 4)) is None {
        "`path_prefix` is not a string"@
    } else {
        "`host_glob` is not a string"@
    }
}

/// What is wrong with the first value of a list that is no rule, if there is one, and which it is.
pub open spec fn rules_fault(v: Seq<JsonSpec>) -> Option<Seq<char>>
    decreases v.len(),
{
    if v.len() == 0 {
        None
    } else {
        match rules_fault(v.drop_last()) {
            Some(e) => Some(e),
            None => if rule_of(v.last()) is Some {
                None
            } else {
                Some("rule "@ + decimal(v.len()) + ": "@ + rule_fault(v.last()))
            },
        }
    }
}

/// The rules of an array, or what is wrong with it.
pub open spec fn rules_of(m: JsonSpec) -> Result<Seq<RuleSpec>, Seq<char>> {
    match m {
        JsonSpec::Array(v) => match rules_fault(v) {
            None => Ok(v.map_values(|m: JsonSpec| rule_of(m)->0)),
            Some(e) => Err(e),
        },
        _ => Err("`rules` is not a list"@),
    }
}

/// A list holds nothing but rules exactly where nothing is wrong with it.
pub proof fn law_rules_are_faultless(v: Seq<JsonSpec>)
    ensures
        rules_fault(v) is None <==> (forall|i: int|
            0 <= i < v.len() ==> rule_of(#[trigger] v[i]) is Some),
    decreases v.len(),
{
    if v.len() > 0 {
        let front = v.drop_last();
        law_rules_are_faultless(front);
        if rules_fault(v) is None {
            assert forall|i: int| 0 <= i < v.len() implies rule_of(#[trigger] v[i]) is Some by {
                if i < front.len() {
                    assert(front[i] == v[i]);
                }
            }
        }
        if forall|i: int| 0 <= i < v.len() ==> rule_of(#[trigger] v[i]) is Some {
            assert forall|i: int| 0 <= i < front.len() implies rule_of(#[trigger] front[i]) is Some by {
                assert(front[i] == v[i]);
            }
            assert(rule_of(v[v.len() - 1]) is Some);
        }
    }
}

proof fn lemma_first_fault_stays(v: Seq<JsonSpec>, n: int)
    requires
        0 <= n <= v.len(),
        rules_fault(v.take(n)) is Some,
    ensures
        rules_fault(v) == rules_fault(v.take(n)),
    decreases v.len() - n,
{
    if n < v.len() {
        assert(v.take(n + 1).drop_last() =~= v.take(n));
        lemma_first_fault_stays(v, n + 1);
    } else {
        assert(v.take(n) =~= v);
    }
}

/// The policy that a document stands for, or what is wrong with it. A missing default is `ask`, a
/// missing list empty.
pub open spec fn policy_of(m: JsonSpec) -> Result<PolicySpec, Seq<char>> {
    let tier = match m.member("default_tier"@) {
        Some(t) => toml_tier(t),
        None => Some(Tier::Ask),
    };
    let workspace = match m.member("workspace"@) {
        Some(w) => texts_of(w),
        None => Some(Seq::empty()),
    };
    let rules = match m.member("rules"@) {
        Some(r) => rules_of(r),
        None => Ok(Seq::empty()),
    };
    if !(m is Object) {
        Err("not a table"@)
    } else if tier is None {
        Err("`default_tier` is not a tier"@)
    } else if workspace is None {
        Err("`workspace` is not a list of strings"@)
    } else {
        match rules {
            Ok(rules) => Ok(
                PolicySpec { default_tier: tier->0, workspace: workspace->0, rules },
            ),
            Err(e) => Err(e),
        }
    }
}

fn tier_part(j: &Json) -> (r: Option<Tier>)
    ensures
        r == toml_tier(j@),
{
    match j {
        Json::Text(name) => Tier::named(name.as_str()),
        Json::Object(v) => {
            proof {
                crate::json::lemma_object_view(*v);
            }
            if v.len() != 1 {
                return None;
            }
            let empty = match &v[0].value {
                Json::Array(a) => {
                    proof {
                        crate::json::lemma_array_view(*a);
                    }
                    a.len() == 0
                },
                Json::Object(o) => {
                    proof {
                        crate::json::lemma_object_view(*o);
                    }
                    o.len() == 0
                },
                _ => false,
            };
            if empty {
                Tier::named(v[0].key.as_str())
            } else {
                None
            }
        },
        _ => None,
    }
}

fn texts_part(j: &Json) -> (r: Option<Vec<String>>)
    ensures
        opt_texts(r) == texts_of(j@),
{
    match j {
        Json::Array(v) => {
            proof {
                crate::json::lemma_array_view(*v);
            }
            let mut out: Vec<String> = Vec::new();
            let mut i: usize = 0;
            while i < v.len()
                invariant
                    j@ == JsonSpec::Array(items_view(v@)),
                    i <= v@.len(),
                    out@.len() == i,
                    forall|k: int|
                        0 <= k < i ==> (#[trigger] items_view(v@)[k]) == JsonSpec::Text(out@[k]@),
                decreases v@.len() - i,
            {
                assert(items_view(v@)[i as int] == v@[i as int]@);
                match &v[i] {
                    Json::Text(t) => out.push(t.clone()),
                    _ => {
                        return None;
                    },
                }
                i += 1;
            }
            assert(texts(out@) =~= items_view(v@).map_values(|m: JsonSpec| m->Text_0));
            Some(out)
        },
        _ => None,
    }
}

/// What the outcome of reading an optional list says.
pub open spec fn opt_opt_texts(r: Option<Option<Vec<String>>>) -> Option<Option<Seq<Seq<char>>>> {
    match r {
        Some(list) => Some(opt_texts(list)),
        None => None,
    }
}

/// What the outcome of reading an optional text says.
pub open spec fn opt_opt_text(r: Option<Option<String>>) -> Option<Option<Seq<char>>> {
    match r {
        Some(t) => Some(opt_text(t)),
        None => None,
    }
}

fn optional_texts_part(j: Option<&Json>) -> (r: Option<Option<Vec<String>>>)
    ensures
        opt_opt_texts(r) == optional_texts(opt_json(j)),
{
    match j {
        None => Some(None),
        Some(j) => match texts_part(j) {
            Some(list) => Some(Some(list)),
            None => None,
        },
    }
}

fn optional_text_part(j: Option<&Json>) -> (r: Option<Option<String>>)
    ensures
        opt_opt_text(r) == optional_text(opt_json(j)),
{
    match j {
        None => Some(None),
        Some(j) => match j.as_text() {
            Some(t) => Some(Some(t.clone())),
            None => None,
        },
    }
}

fn part_of<'a>(j: &'a Json, key: &str, at: usize) -> (r: Option<&'a Json>)
    ensures
        opt_json(r) == rule_part(j@, key@, at as int),
{
    match j {
        Json::Array(v) => {
            proof {
                crate::json::lemma_array_view(*v);
            }
            if at < v.len() {
                assert(items_view(v@)[at as int] == v@[at as int]@);
                Some(&v[at])
            } else {
                None
            }
        },
        _ => {
            assert(!(j@ is Array));
            j.get(key)
        },
    }
}

impl Rule {
    /// The rule that a table stands for, or an array that holds its parts in order; what is wrong
    /// where the value is no rule.
    pub fn of_table(j: &Json) -> (r: Result<Rule, String>)
        ensures
            match r {
                Ok(rule) => rule_of(j@) == Some(rule@),
                Err(e) => rule_of(j@) is None && e@ == rule_fault(j@),
            },
    {
        match j {
            Json::Object(_) => {},
            Json::Array(_) => {},
            _ => {
                return Err("not a table".to_owned());
            },
        }
        let name = match part_of(j, "name", 0) {
            Some(Json::Text(t)) => t.clone(),
            Some(_) => {
                return Err("`name` is not a string".to_owned());
            },
            None => {
                return Err("missing field `name`".to_owned());
            },
        };
        let tier = match part_of(j, "tier", 1) {
            Some(t) => match tier_part(t) {
                Some(t) => t,
                None => {
                    return Err("`tier` is not a tier".to_owned());
                },
            },
            None => {
                return Err("missing field `tier`".to_owned());
            },
        };
        let argv0 = match optional_texts_part(part_of(j, "argv0", 2)) {
            Some(part) => part,
            None => {
                return Err("`argv0` is not a list of strings".to_owned());
            },
        };
        let args_glob = match optional_texts_part(part_of(j, "args_glob", 3)) {
            Some(part) => part,
            None => {
                return Err("`args_glob` is not a list of strings".to_owned());
            },
        };
        let path_prefix = match optional_text_part(part_of(j, "path_prefix", 4)) {
            Some(part) => part,
            None => {
                return Err("`path_prefix` is not a string".to_owned());
            },
        };
        let host_glob = match optional_text_part(part_of(j, "host_glob", 5)) {
            Some(part) => part,
            None => {
                return Err("`host_glob` is not a string".to_owned());
            },
        };
        Ok(Rule { name, tier, argv0, args_glob, path_prefix, host_glob })
    }
}

/// What the outcome of reading rules says.
pub open spec fn rules_or(r: Result<Vec<Rule>, String>) -> Result<Seq<RuleSpec>, Seq<char>> {
    match r {
        Ok(list) => Ok(rules_view(list@)),
        Err(e) => Err(e@),
    }
}

fn rules_part(j: &Json) -> (r: Result<Vec<Rule>, String>)
    ensures
        rules_or(r) == rules_of(j@),
{
    match j {
        Json::Array(v) => {
            proof {
                crate::json::lemma_array_view(*v);
            }
            let ghost all = items_view(v@);
            let mut out: Vec<Rule> = Vec::new();
            let mut i: usize = 0;
            assert(all.take(0).len() == 0);
            while i < v.len()
                invariant
                    all == items_view(v@),
                    j@ == JsonSpec::Array(all),
                    i <= v@.len(),
                    out@.len() == i,
                    rules_fault(all.take(i as int)) is None,
                    forall|k: int| 0 <= k < i ==> rule_of(#[trigger] all[k]) == Some(out@[k]@),
                decreases v@.len() - i,
            {
                assert(all[i as int] == v@[i as int]@);
                assert(all.take(i + 1).drop_last() =~= all.take(i as int));
                assert(all.take(i + 1).last() == all[i as int]);
                match Rule::of_table(&v[i]) {
                    Ok(rule) => out.push(rule),
                    Err(e) => {
                        let mut m = "rule ".to_owned();
                        m.append(to_decimal(i as u64 + 1).as_str());
                        m.append(": ");
                        m.append(e.as_str());
                        proof {
                            lemma_first_fault_stays(all, i + 1);
                        }
                        return Err(m);
                    },
                }
                i += 1;
            }
            assert(all.take(v@.len() as int) =~= all);
            assert(rules_view(out@) =~= all.map_values(|m: JsonSpec| rule_of(m)->0));
            Ok(out)
        },
        _ => Err("`rules` is not a list".to_owned()),
    }
}

impl Policy {
    /// The policy that a document stands for, or what is wrong with it.
    pub fn of_document(j: &Json) -> (r: Result<Policy, String>)
        ensures
            match r {
                Ok(p) => policy_of(j@) == Ok::<PolicySpec, Seq<char>>(p@),
                Err(e) => policy_of(j@) == Err::<PolicySpec, Seq<char>>(e@),
            },
    {
        match j {
            Json::Object(v) => {
                proof {
                    crate::json::lemma_object_view(*v);
                }
            },
            _ => {
                return Err("not a table".to_owned());
            },
        }
        let default_tier = match j.get("default_tier") {
            Some(t) => match tier_part(t) {
                Some(t) => t,
                None => {
                    return Err("`default_tier` is not a tier".to_owned());
                },
            },
            None => Tier::Ask,
        };
        let workspace = match j.get("workspace") {
            Some(w) => match texts_part(w) {
                Some(w) => w,
                None => {
                    return Err("`workspace` is not a list of strings".to_owned());
                },
            },
            None => Vec::new(),
        };
        assert(rules_view(Seq::empty()) =~= Seq::empty());
        assert(texts(Seq::empty()) =~= Seq::empty());
        let rules = match j.get("rules") {
            Some(r) => match rules_part(r) {
                Ok(r) => r,
                Err(e) => {
                    return Err(e);
                },
            },
            None => Vec::new(),
        };
        Ok(Policy { default_tier, workspace, rules })
    }

    /// The policy in the text of a policy file.
    pub fn load(text: &str) -> (r: Result<Policy, PolicyError>)
        ensures
            match toml_read(text@) {
                Ok(m) => match policy_of(m) {
                    Ok(p) => r is Ok && r->Ok_0@ == p,
                    Err(e) => r matches Err(PolicyError::Shape(s)) && s@ == e,
                },
                Err(e) => r matches Err(PolicyError::Syntax(s)) && s@ == e,
            },
    {
        match toml_of_text(text) {
            Ok(v) => match Policy::of_document(&of_toml(&v)) {
                Ok(p) => Ok(p),
                Err(e) => Err(PolicyError::Shape(e)),
            },
            Err(e) => Err(PolicyError::Syntax(e)),
        }
    }
}

}
