//! The entries of the append-only audit log and the check of its hash chain.
//!
//! The daemon writes; anyone can check the chain without talking to the daemon.
use vstd::prelude::*;
use vstd::string::*;

use crate::codec::{digest_text, sha256_collision, text_digest};
use crate::json::{
    canonical, canonical_form, canonical_text, json_fault, json_parse, json_text, key_before,
    lemma_key_order_first, lemma_key_order_second, lemma_object_view, lemma_ordered_distinct,
    max_depth, member, members_view, opt_json, parse, plain, render, simple_key, sorted, text, Json,
    JsonSpec, Member,
};
use crate::number::{decimal, to_decimal};
use crate::proto::request::ProtoError;
use crate::proto::wire::{tier_name, tier_of, Tier};
use crate::text::{debug_text, is_blank, lines, lines_of, opt_text, quoted, same, texts, trimmed};

verus! {

/// What stands for the previous hash in the first entry.
pub const GENESIS: &'static str = "genesis";

/// One entry of the audit log.
#[derive(Clone, Debug)]
pub struct Entry {
    pub ts: i64,
    pub digest: String,
    pub summary: String,
    pub tier: Tier,
    pub decision: String,
    pub rule: String,
    pub prev: String,
    pub hash: String,
}

/// What an entry says.
#[verifier::ext_equal]
pub struct EntrySpec {
    pub ts: i64,
    pub digest: Seq<char>,
    pub summary: Seq<char>,
    pub tier: Tier,
    pub decision: Seq<char>,
    pub rule: Seq<char>,
    pub prev: Seq<char>,
    pub hash: Seq<char>,
}

impl View for Entry {
    type V = EntrySpec;

    open spec fn view(&self) -> EntrySpec {
        EntrySpec {
            ts: self.ts,
            digest: self.digest@,
            summary: self.summary@,
            tier: self.tier,
            decision: self.decision@,
            rule: self.rule@,
            prev: self.prev@,
            hash: self.hash@,
        }
    }
}

/// Whether two entries agree in everything but the hash.
pub open spec fn same_body(a: EntrySpec, b: EntrySpec) -> bool {
    a == (EntrySpec { hash: a.hash, ..b })
}

/// An entry without its hash, as JSON, its members in the order of their names.
pub open spec fn body_json(e: EntrySpec) -> JsonSpec {
    JsonSpec::Object(
        seq![
            ("decision"@, JsonSpec::Text(e.decision)),
            ("digest"@, JsonSpec::Text(e.digest)),
            ("prev"@, JsonSpec::Text(e.prev)),
            ("rule"@, JsonSpec::Text(e.rule)),
            ("summary"@, JsonSpec::Text(e.summary)),
            ("tier"@, JsonSpec::Text(tier_name(e.tier))),
            ("ts"@, JsonSpec::Integer(e.ts as int)),
        ],
    )
}

/// The canonical text of an entry without its hash.
pub open spec fn body_text(e: EntrySpec) -> Seq<char> {
    canonical_text(body_json(e))
}

/// The hash that an entry ought to have.
pub open spec fn entry_digest(e: EntrySpec) -> Seq<char> {
    text_digest(body_text(e))
}

/// Whether the hash of an entry is right, and no entry with another body has the same
/// one, short of a SHA-256 collision.
pub open spec fn sealed(e: EntrySpec) -> bool {
    &&& e.hash == entry_digest(e)
    &&& e.hash.len() == 64
    &&& forall|other: EntrySpec| #[trigger]
        entry_digest(other) == e.hash ==> same_body(other, e) || sha256_collision(
            body_text(other),
            body_text(e),
        )
}

/// An entry as a line of the log, its members in the order of the log.
pub open spec fn entry_json(e: EntrySpec) -> JsonSpec {
    JsonSpec::Object(
        seq![
            ("ts"@, JsonSpec::Integer(e.ts as int)),
            ("digest"@, JsonSpec::Text(e.digest)),
            ("summary"@, JsonSpec::Text(e.summary)),
            ("tier"@, JsonSpec::Text(tier_name(e.tier))),
            ("decision"@, JsonSpec::Text(e.decision)),
            ("rule"@, JsonSpec::Text(e.rule)),
            ("prev"@, JsonSpec::Text(e.prev)),
            ("hash"@, JsonSpec::Text(e.hash)),
        ],
    )
}

/// The text of an optional JSON value, where it is there and a text.
pub open spec fn part_text(m: Option<JsonSpec>) -> Option<Seq<char>> {
    match m {
        Some(m) => m.text(),
        None => None,
    }
}

/// The integer of an optional JSON value, where it is there and fits.
pub open spec fn part_i64(m: Option<JsonSpec>) -> Option<i64> {
    match m {
        Some(JsonSpec::Integer(n)) => if i64::MIN <= n <= i64::MAX {
            Some(n as i64)
        } else {
            None
        },
        _ => None,
    }
}

/// The tier of an optional JSON value, where it is there and one.
pub open spec fn part_tier(m: Option<JsonSpec>) -> Option<Tier> {
    match m {
        Some(m) => tier_of(m),
        None => None,
    }
}

/// The parts of an entry, some of which may be missing.
pub struct PartsSpec {
    pub ts: Option<JsonSpec>,
    pub digest: Option<JsonSpec>,
    pub summary: Option<JsonSpec>,
    pub tier: Option<JsonSpec>,
    pub decision: Option<JsonSpec>,
    pub rule: Option<JsonSpec>,
    pub prev: Option<JsonSpec>,
    pub hash: Option<JsonSpec>,
}

/// The entry that some parts make up. A missing hash is an empty one; any other part
/// must be there, and each must be of its type.
pub open spec fn entry_of_parts(p: PartsSpec) -> Option<EntrySpec> {
    let hash = if p.hash is None {
        Some(Seq::<char>::empty())
    } else {
        part_text(p.hash)
    };
    if part_i64(p.ts) is Some && part_text(p.digest) is Some && part_text(p.summary) is Some
        && part_tier(p.tier) is Some && part_text(p.decision) is Some && part_text(p.rule) is Some
        && part_text(p.prev) is Some && hash is Some {
        Some(
            EntrySpec {
                ts: part_i64(p.ts)->0,
                digest: part_text(p.digest)->0,
                summary: part_text(p.summary)->0,
                tier: part_tier(p.tier)->0,
                decision: part_text(p.decision)->0,
                rule: part_text(p.rule)->0,
                prev: part_text(p.prev)->0,
                hash: hash->0,
            },
        )
    } else {
        None
    }
}

/// What is said of a part that is missing or not of its type.
pub open spec fn part_fault(key: Seq<char>, m: Option<JsonSpec>) -> Seq<char> {
    if m is None {
        "missing field `"@ + key + "`"@
    } else {
        "invalid field `"@ + key + "`"@
    }
}

/// What is wrong with the first of some parts that do not make up an entry.
pub open spec fn parts_fault(p: PartsSpec) -> Seq<char> {
    if part_i64(p.ts) is None {
        part_fault("ts"@, p.ts)
    } else if part_text(p.digest) is None {
        part_fault("digest"@, p.digest)
    } else if part_text(p.summary) is None {
        part_fault("summary"@, p.summary)
    } else if part_tier(p.tier) is None {
        part_fault("tier"@, p.tier)
    } else if part_text(p.decision) is None {
        part_fault("decision"@, p.decision)
    } else if part_text(p.rule) is None {
        part_fault("rule"@, p.rule)
    } else if part_text(p.prev) is None {
        part_fault("prev"@, p.prev)
    } else {
        part_fault("hash"@, p.hash)
    }
}

/// The parts of an entry in a JSON value: those of an object under their names, or of an array in
/// order; what is wrong where it is neither.
pub open spec fn parts_of(m: JsonSpec) -> Result<PartsSpec, Seq<char>> {
    match m {
        JsonSpec::Object(_) => Ok(
            PartsSpec {
                ts: m.member("ts"@),
                digest: m.member("digest"@),
                summary: m.member("summary"@),
                tier: m.member("tier"@),
                decision: m.member("decision"@),
                rule: m.member("rule"@),
                prev: m.member("prev"@),
                hash: m.member("hash"@),
            },
        ),
        JsonSpec::Array(v) => if v.len() == 7 || v.len() == 8 {
            Ok(
                PartsSpec {
                    ts: Some(v[0]),
                    digest: Some(v[1]),
                    summary: Some(v[2]),
                    tier: Some(v[3]),
                    decision: Some(v[4]),
                    rule: Some(v[5]),
                    prev: Some(v[6]),
                    hash: if v.len() == 8 {
                        Some(v[7])
                    } else {
                        None
                    },
                },
            )
        } else {
            Err("invalid length "@ + decimal(v.len()))
        },
        _ => Err("not an object"@),
    }
}

/// The entry that a JSON value stands for.
pub open spec fn entry_of(m: JsonSpec) -> Option<EntrySpec> {
    match parts_of(m) {
        Ok(p) => entry_of_parts(p),
        Err(_) => None,
    }
}

/// What is wrong with a JSON value that is no entry.
pub open spec fn entry_fault(m: JsonSpec) -> Seq<char> {
    match parts_of(m) {
        Ok(p) => parts_fault(p),
        Err(e) => e,
    }
}

/// The entry on a line of the log, if there is one.
pub open spec fn entry_on(line: Seq<char>) -> Option<EntrySpec> {
    match json_parse(line) {
        Some(m) => entry_of(m),
        None => None,
    }
}

/// What is said of a line of the log that is no entry: what is wrong with it as JSON, or else as an
/// entry.
pub open spec fn line_fault(line: Seq<char>) -> Seq<char> {
    match json_parse(line) {
        Some(m) => entry_fault(m),
        None => json_fault(line),
    }
}

/// Whether a line holds nothing but white space.
pub open spec fn blank(line: Seq<char>) -> bool {
    trimmed(line).len() == 0
}

/// The hash that the entry on line `i`, counted from 0, has to name as the previous
/// one: that of the last entry before it.
pub open spec fn link_before(lines: Seq<Seq<char>>, i: int) -> Seq<char>
    decreases i,
{
    if i <= 0 {
        GENESIS@
    } else if blank(lines[i - 1]) {
        link_before(lines, i - 1)
    } else {
        match entry_on(lines[i - 1]) {
            Some(e) => e.hash,
            None => GENESIS@,
        }
    }
}

/// What can be wrong with a line of the log.
pub enum FaultSpec {
    Json { source: Seq<char> },
    Broken { got: Seq<char>, expected: Seq<char> },
    HashMismatch,
}

/// What is wrong with line `i`, counted from 0: it is no entry, it does not follow on the
/// entry before it, or its hash is not its own.
pub open spec fn fault_at(lines: Seq<Seq<char>>, i: int) -> Option<FaultSpec> {
    if blank(lines[i]) {
        None
    } else {
        match entry_on(lines[i]) {
            None => Some(FaultSpec::Json { source: line_fault(lines[i]) }),
            Some(e) => if e.prev != link_before(lines, i) {
                Some(FaultSpec::Broken { got: e.prev, expected: link_before(lines, i) })
            } else if e.hash != entry_digest(e) {
                Some(FaultSpec::HashMismatch)
            } else {
                None
            },
        }
    }
}

/// Whether no line of the log has a fault.
pub open spec fn intact(lines: Seq<Seq<char>>) -> bool {
    forall|i: int| 0 <= i < lines.len() ==> #[trigger] fault_at(lines, i) is None
}

/// The number of lines that are not blank.
pub open spec fn entry_count(lines: Seq<Seq<char>>) -> nat
    decreases lines.len(),
{
    if lines.len() == 0 {
        0
    } else if blank(lines.last()) {
        entry_count(lines.drop_last())
    } else {
        entry_count(lines.drop_last()) + 1
    }
}

/// Why a log does not hold. Lines are counted from 1.
#[derive(Clone, Debug)]
pub enum VerifyError {
    Json { line: usize, source: String },
    Broken { line: usize, got: String, expected: String },
    HashMismatch { line: usize },
}

impl VerifyError {
    /// The line that is at fault, counted from 1.
    pub open spec fn line_no(self) -> usize {
        match self {
            VerifyError::Json { line, .. } => line,
            VerifyError::Broken { line, .. } => line,
            VerifyError::HashMismatch { line } => line,
        }
    }

    /// What is wrong with it.
    pub open spec fn fault(self) -> FaultSpec {
        match self {
            VerifyError::Json { source, .. } => FaultSpec::Json { source: source@ },
            VerifyError::Broken { got, expected, .. } => FaultSpec::Broken {
                got: got@,
                expected: expected@,
            },
            VerifyError::HashMismatch { .. } => FaultSpec::HashMismatch,
        }
    }
}

/// What is said about a fault in a line.
pub open spec fn fault_message(line: nat, fault: FaultSpec) -> Seq<char> {
    match fault {
        FaultSpec::Json { source } => "json on line "@ + decimal(line) + ": "@ + source,
        FaultSpec::Broken { got, expected } => "chain broken at line "@ + decimal(line) + ": prev="@
            + debug_text(got) + " expected="@ + debug_text(expected),
        FaultSpec::HashMismatch => "hash mismatch at line "@ + decimal(line),
    }
}

impl VerifyError {
    /// The error in words.
    pub fn message(&self) -> (r: String)
        ensures
            r@ == fault_message(self.line_no() as nat, self.fault()),
    {
        match self {
            VerifyError::Json { line, source } => {
                let mut out = "json on line ".to_owned();
                out.append(to_decimal(*line as u64).as_str());
                out.append(": ");
                out.append(source.as_str());
                out
            },
            VerifyError::Broken { line, got, expected } => {
                let mut out = "chain broken at line ".to_owned();
                out.append(to_decimal(*line as u64).as_str());
                out.append(": prev=");
                out.append(quoted(got.as_str()).as_str());
                out.append(" expected=");
                out.append(quoted(expected.as_str()).as_str());
                out
            },
            VerifyError::HashMismatch { line } => {
                let mut out = "hash mismatch at line ".to_owned();
                out.append(to_decimal(*line as u64).as_str());
                out
            },
        }
    }
}

proof fn lemma_keys()
    ensures
        "decision"@ =~= seq!['d', 'e', 'c', 'i', 's', 'i', 'o', 'n'],
        "digest"@ =~= seq!['d', 'i', 'g', 'e', 's', 't'],
        "prev"@ =~= seq!['p', 'r', 'e', 'v'],
        "rule"@ =~= seq!['r', 'u', 'l', 'e'],
        "summary"@ =~= seq!['s', 'u', 'm', 'm', 'a', 'r', 'y'],
        "tier"@ =~= seq!['t', 'i', 'e', 'r'],
        "ts"@ =~= seq!['t', 's'],
        "hash"@ =~= seq!['h', 'a', 's', 'h'],
{
    reveal_strlit("decision");
    reveal_strlit("digest");
    reveal_strlit("prev");
    reveal_strlit("rule");
    reveal_strlit("summary");
    reveal_strlit("tier");
    reveal_strlit("ts");
    reveal_strlit("hash");
}

proof fn lemma_body_canonical(e: EntrySpec)
    ensures
        canonical_form(body_json(e)),
{
    reveal_with_fuel(plain, 2);
    reveal_with_fuel(sorted, 2);
    lemma_keys();
    let v = body_json(e)->Object_0;
    assert forall|i: int| 0 <= i < v.len() implies simple_key((#[trigger] v[i]).0) by {}
    assert forall|i: int, j: int| 0 <= i < j < v.len() implies exists|at: int|
        key_before((#[trigger] v[i]).0, (#[trigger] v[j]).0, at) by {
        if v[i].0[0] < v[j].0[0] {
            lemma_key_order_first(v[i].0, v[j].0);
        } else {
            lemma_key_order_second(v[i].0, v[j].0);
        }
    }
    lemma_ordered_distinct(v);
}

proof fn lemma_body_injective(a: EntrySpec, b: EntrySpec)
    requires
        body_json(a) == body_json(b),
    ensures
        same_body(a, b),
{
    let x = body_json(a)->Object_0;
    let y = body_json(b)->Object_0;
    assert(x == y);
    assert(x[0] == y[0] && x[1] == y[1] && x[2] == y[2] && x[3] == y[3] && x[4] == y[4] && x[5]
        == y[5] && x[6] == y[6]);
    crate::proto::wire::law_tier_name_injective(a.tier, b.tier);
}

/// An entry written as a line of the log is plain, and stands for itself.
pub proof fn law_entry_round_trip(e: EntrySpec)
    ensures
        plain(entry_json(e), max_depth()),
        entry_of(entry_json(e)) == Some(e),
{
    reveal_with_fuel(plain, 2);
    reveal_with_fuel(crate::json::first_member, 9);
    lemma_keys();
    crate::json::lemma_simple_unmarked("ts"@);
    let m = entry_json(e);
    let v = m->Object_0;
    assert("ts"@.len() == 2 && "digest"@.len() == 6 && "summary"@.len() == 7 && "tier"@.len() == 4
        && "decision"@.len() == 8 && "rule"@.len() == 4 && "prev"@.len() == 4 && "hash"@.len()
        == 4);
    assert("tier"@[0] == 't' && "rule"@[0] == 'r' && "prev"@[0] == 'p' && "hash"@[0] == 'h');
    assert(v[0].0 == "ts"@ && v[1].0 == "digest"@ && v[2].0 == "summary"@ && v[3].0 == "tier"@
        && v[4].0 == "decision"@ && v[5].0 == "rule"@ && v[6].0 == "prev"@ && v[7].0 == "hash"@);
    crate::proto::wire::law_tier_round_trip(e.tier);
    let d1 = v.drop_first();
    let d2 = d1.drop_first();
    let d3 = d2.drop_first();
    let d4 = d3.drop_first();
    let d5 = d4.drop_first();
    let d6 = d5.drop_first();
    let d7 = d6.drop_first();
    assert(d1[0] == v[1] && d2[0] == v[2] && d3[0] == v[3] && d4[0] == v[4] && d5[0] == v[5]
        && d6[0] == v[6] && d7[0] == v[7]);
    assert(crate::json::distinct_keys(v));
}

/// The hash of an entry, whatever hash it carries: the digest of the canonical text of
/// the rest. Two entries with the same one have the same body, short of a SHA-256
/// collision.
pub fn entry_hash(entry: &Entry) -> (r: Result<String, ProtoError>)
    ensures
        r is Ok,
        r->Ok_0@ == entry_digest(entry@),
        sealed(EntrySpec { hash: r->Ok_0@, ..entry@ }),
{
    let mut out: Vec<Member> = Vec::new();
    out.push(member("decision", text(entry.decision.as_str())));
    out.push(member("digest", text(entry.digest.as_str())));
    out.push(member("prev", text(entry.prev.as_str())));
    out.push(member("rule", text(entry.rule.as_str())));
    out.push(member("summary", text(entry.summary.as_str())));
    out.push(member("tier", text(entry.tier.name())));
    out.push(member("ts", Json::Integer(entry.ts as i128)));
    proof {
        lemma_object_view(out);
        assert(members_view(out@) =~= body_json(entry@)->Object_0);
        lemma_body_canonical(entry@);
    }
    match canonical(&Json::Object(out)) {
        Ok(t) => {
            let hash = digest_text(t.as_str());
            proof {
                let e = EntrySpec { hash: hash@, ..entry@ };
                assert(body_json(e) == body_json(entry@));
                assert forall|other: EntrySpec| #[trigger]
                    entry_digest(other) == hash@ implies same_body(other, e) || sha256_collision(
                    body_text(other),
                    body_text(e),
                ) by {
                    crate::codec::law_equal_digests(body_text(other), t@);
                    if body_text(other) == t@ {
                        lemma_body_canonical(other);
                        lemma_body_injective(other, entry@);
                    }
                }
            }
            Ok(hash)
        },
        Err(_) => Err(ProtoError::Canonicalize),
    }
}

fn fault_of_part(key: &str, j: Option<&Json>) -> (r: String)
    ensures
        r@ == part_fault(key@, opt_json(j)),
{
    let mut out = if j.is_none() {
        "missing field `".to_owned()
    } else {
        "invalid field `".to_owned()
    };
    out.append(key);
    out.append("`");
    out
}

fn text_part(j: Option<&Json>) -> (r: Option<String>)
    ensures
        opt_text(r) == part_text(opt_json(j)),
{
    match j {
        Some(Json::Text(t)) => Some(t.clone()),
        _ => None,
    }
}

fn i64_part(j: Option<&Json>) -> (r: Option<i64>)
    ensures
        r == part_i64(opt_json(j)),
{
    match j {
        Some(Json::Integer(n)) => if i64::MIN as i128 <= *n && *n <= i64::MAX as i128 {
            Some(*n as i64)
        } else {
            None
        },
        _ => None,
    }
}

fn tier_part(j: Option<&Json>) -> (r: Option<Tier>)
    ensures
        r == part_tier(opt_json(j)),
{
    match j {
        Some(j) => Tier::of_json(j),
        None => None,
    }
}

fn hash_part(j: Option<&Json>) -> (r: Option<String>)
    ensures
        opt_text(r) == (if j is None {
            Some(Seq::<char>::empty())
        } else {
            part_text(opt_json(j))
        }),
{
    if j.is_none() {
        Some(String::new())
    } else {
        text_part(j)
    }
}

impl Entry {
    /// The entry that a JSON value stands for, or what is wrong with the value as one.
    pub fn of_json(j: &Json) -> (r: Result<Entry, String>)
        ensures
            match r {
                Ok(e) => entry_of(j@) == Some(e@),
                Err(m) => entry_of(j@) is None && m@ == entry_fault(j@),
            },
    {
        match j {
            Json::Object(v) => {
                proof {
                    lemma_object_view(*v);
                }
                Entry::of_parts(
                    j.get("ts"),
                    j.get("digest"),
                    j.get("summary"),
                    j.get("tier"),
                    j.get("decision"),
                    j.get("rule"),
                    j.get("prev"),
                    j.get("hash"),
                )
            },
            Json::Array(v) => {
                proof {
                    crate::json::lemma_array_view(*v);
                }
                if v.len() == 7 || v.len() == 8 {
                    Entry::of_parts(
                        Some(&v[0]),
                        Some(&v[1]),
                        Some(&v[2]),
                        Some(&v[3]),
                        Some(&v[4]),
                        Some(&v[5]),
                        Some(&v[6]),
                        if v.len() == 8 {
                            Some(&v[7])
                        } else {
                            None
                        },
                    )
                } else {
                    let mut out = "invalid length ".to_owned();
                    out.append(to_decimal(v.len() as u64).as_str());
                    Err(out)
                }
            },
            _ => Err("not an object".to_owned()),
        }
    }

    fn of_parts(
        ts: Option<&Json>,
        digest: Option<&Json>,
        summary: Option<&Json>,
        tier: Option<&Json>,
        decision: Option<&Json>,
        rule: Option<&Json>,
        prev: Option<&Json>,
        hash: Option<&Json>,
    ) -> (r: Result<Entry, String>)
        ensures
            ({
                let p = PartsSpec {
                    ts: opt_json(ts),
                    digest: opt_json(digest),
                    summary: opt_json(summary),
                    tier: opt_json(tier),
                    decision: opt_json(decision),
                    rule: opt_json(rule),
                    prev: opt_json(prev),
                    hash: opt_json(hash),
                };
                match r {
                    Ok(e) => entry_of_parts(p) == Some(e@),
                    Err(m) => entry_of_parts(p) is None && m@ == parts_fault(p),
                }
            }),
    {
        match (
            i64_part(ts),
            text_part(digest),
            text_part(summary),
            tier_part(tier),
            text_part(decision),
            text_part(rule),
            text_part(prev),
            hash_part(hash),
        ) {
            (None, _, _, _, _, _, _, _) => Err(fault_of_part("ts", ts)),
            (_, None, _, _, _, _, _, _) => Err(fault_of_part("digest", digest)),
            (_, _, None, _, _, _, _, _) => Err(fault_of_part("summary", summary)),
            (_, _, _, None, _, _, _, _) => Err(fault_of_part("tier", tier)),
            (_, _, _, _, None, _, _, _) => Err(fault_of_part("decision", decision)),
            (_, _, _, _, _, None, _, _) => Err(fault_of_part("rule", rule)),
            (_, _, _, _, _, _, None, _) => Err(fault_of_part("prev", prev)),
            (_, _, _, _, _, _, _, None) => Err(fault_of_part("hash", hash)),
            (
                Some(ts),
                Some(digest),
                Some(summary),
                Some(tier),
                Some(decision),
                Some(rule),
                Some(prev),
                Some(hash),
            ) => Ok(Entry { ts, digest, summary, tier, decision, rule, prev, hash }),
        }
    }

    /// The entry on a line of the log, or what is wrong with the line. The line is read as a JSON
    /// value first: of members with the same name the last counts, and members that are no part of
    /// an entry have to be JSON values too.
    pub fn read_line(line: &str) -> (r: Result<Entry, String>)
        ensures
            match r {
                Ok(e) => entry_on(line@) == Some(e@),
                Err(m) => entry_on(line@) is None && m@ == line_fault(line@),
            },
    {
        match parse(line) {
            Ok(j) => Entry::of_json(&j),
            Err(e) => Err(e.message),
        }
    }

    /// The entry as a line of the log, which reads back as the entry.
    pub fn to_line(&self) -> (r: String)
        ensures
            r@ == json_text(entry_json(self@)),
            entry_on(r@) == Some(self@),
            !blank(r@),
            !r@.contains('\n'),
            !r@.contains('\r'),
    {
        let mut out: Vec<Member> = Vec::new();
        out.push(member("ts", Json::Integer(self.ts as i128)));
        out.push(member("digest", text(self.digest.as_str())));
        out.push(member("summary", text(self.summary.as_str())));
        out.push(member("tier", text(self.tier.name())));
        out.push(member("decision", text(self.decision.as_str())));
        out.push(member("rule", text(self.rule.as_str())));
        out.push(member("prev", text(self.prev.as_str())));
        out.push(member("hash", text(self.hash.as_str())));
        proof {
            lemma_object_view(out);
            assert(members_view(out@) =~= entry_json(self@)->Object_0);
            law_entry_round_trip(self@);
        }
        let line = render(&Json::Object(out));
        proof {
            crate::text::lemma_not_blank(line@);
        }
        line
    }
}

/// A line of the log as it was read.
pub enum Reading {
    Blank,
    Entry(Entry),
    /// It is no entry, with what is wrong with it.
    Fault(String),
}

/// A line of the log as it was read.
#[verifier::ext_equal]
pub enum ReadingSpec {
    Blank,
    Entry(EntrySpec),
    Fault(Seq<char>),
}

impl View for Reading {
    type V = ReadingSpec;

    open spec fn view(&self) -> ReadingSpec {
        match self {
            Reading::Blank => ReadingSpec::Blank,
            Reading::Entry(e) => ReadingSpec::Entry(e@),
            Reading::Fault(m) => ReadingSpec::Fault(m@),
        }
    }
}

/// The lines of a log as they were read.
pub open spec fn readings_view(reads: Seq<Reading>) -> Seq<ReadingSpec> {
    reads.map_values(|r: Reading| r@)
}

/// How a line of the log reads.
pub open spec fn reading_of(line: Seq<char>) -> ReadingSpec {
    if blank(line) {
        ReadingSpec::Blank
    } else {
        match entry_on(line) {
            Some(e) => ReadingSpec::Entry(e),
            None => ReadingSpec::Fault(line_fault(line)),
        }
    }
}

/// How the lines of a log read.
pub open spec fn readings_of(lines: Seq<Seq<char>>) -> Seq<ReadingSpec> {
    lines.map_values(|line: Seq<char>| reading_of(line))
}

/// The hash that the entry in line `i` has to name as the previous one: that of the last entry
/// before it.
pub open spec fn link_read(reads: Seq<ReadingSpec>, i: int) -> Seq<char>
    decreases i,
{
    if i <= 0 {
        GENESIS@
    } else {
        match reads[i - 1] {
            ReadingSpec::Blank => link_read(reads, i - 1),
            ReadingSpec::Entry(e) => e.hash,
            ReadingSpec::Fault(_) => GENESIS@,
        }
    }
}

/// What is wrong with line `i`: it is no entry, it does not follow on the entry before it, or its
/// hash is not its own.
pub open spec fn fault_read(reads: Seq<ReadingSpec>, i: int) -> Option<FaultSpec> {
    match reads[i] {
        ReadingSpec::Blank => None,
        ReadingSpec::Fault(source) => Some(FaultSpec::Json { source }),
        ReadingSpec::Entry(e) => if e.prev != link_read(reads, i) {
            Some(FaultSpec::Broken { got: e.prev, expected: link_read(reads, i) })
        } else if e.hash != entry_digest(e) {
            Some(FaultSpec::HashMismatch)
        } else {
            None
        },
    }
}

/// The number of lines that are not blank.
pub open spec fn read_count(reads: Seq<ReadingSpec>) -> nat
    decreases reads.len(),
{
    if reads.len() == 0 {
        0
    } else if reads.last() is Blank {
        read_count(reads.drop_last())
    } else {
        read_count(reads.drop_last()) + 1
    }
}

/// Whether the lines of a log as they were read hold: none has a fault, and every entry is sealed.
pub open spec fn holds_read(reads: Seq<ReadingSpec>) -> bool {
    &&& forall|i: int| 0 <= i < reads.len() ==> #[trigger] fault_read(reads, i) is None
    &&& forall|i: int|
        0 <= i < reads.len() ==> (#[trigger] reads[i] matches ReadingSpec::Entry(e) ==> sealed(e))
}

proof fn lemma_link_read(lines: Seq<Seq<char>>, i: int)
    requires
        0 <= i <= lines.len(),
    ensures
        link_read(readings_of(lines), i) == link_before(lines, i),
    decreases i,
{
    if i > 0 {
        assert(readings_of(lines)[i - 1] == reading_of(lines[i - 1]));
        lemma_link_read(lines, i - 1);
    }
}

proof fn lemma_read_count(lines: Seq<Seq<char>>)
    ensures
        read_count(readings_of(lines)) == entry_count(lines),
    decreases lines.len(),
{
    if lines.len() > 0 {
        assert(readings_of(lines).drop_last() =~= readings_of(lines.drop_last()));
        assert(readings_of(lines).last() == reading_of(lines.last()));
        lemma_read_count(lines.drop_last());
    }
}

/// The lines of a log have the faults that their readings have.
pub proof fn lemma_faults_read(lines: Seq<Seq<char>>)
    ensures
        forall|i: int|
            0 <= i < lines.len() ==> #[trigger] fault_read(readings_of(lines), i) == fault_at(
                lines,
                i,
            ),
        holds_read(readings_of(lines)) <==> holds(lines),
        read_count(readings_of(lines)) == entry_count(lines),
        link_read(readings_of(lines), lines.len() as int) == link_before(
            lines,
            lines.len() as int,
        ),
{
    let reads = readings_of(lines);
    assert forall|i: int| 0 <= i < lines.len() implies #[trigger] fault_read(reads, i) == fault_at(
        lines,
        i,
    ) by {
        assert(reads[i] == reading_of(lines[i]));
        lemma_link_read(lines, i);
    }
    lemma_read_count(lines);
    lemma_link_read(lines, lines.len() as int);
    if holds(lines) {
        assert forall|i: int| 0 <= i < reads.len() implies #[trigger] fault_read(reads, i) is None by {
            assert(fault_at(lines, i) is None);
        }
        assert forall|i: int| 0 <= i < reads.len() implies (#[trigger] reads[i]
            matches ReadingSpec::Entry(e) ==> sealed(e)) by {
            assert(reads[i] == reading_of(lines[i]));
        }
    }
    if holds_read(reads) {
        assert forall|i: int| 0 <= i < lines.len() implies #[trigger] fault_at(lines, i) is None by {
            assert(fault_read(reads, i) is None);
        }
        assert forall|i: int| 0 <= i < lines.len() && !blank(#[trigger] lines[i]) implies sealed(
            entry_on(lines[i])->0,
        ) by {
            assert(reads[i] == reading_of(lines[i]));
            assert(fault_at(lines, i) is None);
        }
    }
}

/// Checks the hash chain of a log whose lines have been read. Returns the number of entries where
/// every line holds, and else what is wrong with the first line that does not. Each entry of a log
/// that holds is sealed.
pub fn verify_read(reads: &Vec<Reading>) -> (r: Result<usize, VerifyError>)
    ensures
        match r {
            Ok(n) => {
                &&& holds_read(readings_view(reads@))
                &&& n == read_count(readings_view(reads@))
            },
            Err(e) => {
                &&& 1 <= e.line_no() <= reads@.len()
                &&& fault_read(readings_view(reads@), e.line_no() - 1) == Some(e.fault())
                &&& forall|i: int|
                    0 <= i < e.line_no() - 1 ==> #[trigger] fault_read(
                        readings_view(reads@),
                        i,
                    ) is None
            },
        },
{
    let ghost all = readings_view(reads@);
    let mut prev = GENESIS.to_owned();
    let mut count: usize = 0;
    let mut i: usize = 0;
    assert(all.take(0).len() == 0);
    while i < reads.len()
        invariant
            all == readings_view(reads@),
            i <= reads.len(),
            count <= i,
            count == read_count(all.take(i as int)),
            prev@ == link_read(all, i as int),
            forall|k: int| 0 <= k < i ==> #[trigger] fault_read(all, k) is None,
            forall|k: int|
                0 <= k < i ==> (#[trigger] all[k] matches ReadingSpec::Entry(e) ==> sealed(e)),
        decreases reads.len() - i,
    {
        assert(reads@[i as int]@ == all[i as int]);
        assert(all.take(i + 1).drop_last() == all.take(i as int));
        assert(all.take(i + 1).last() == all[i as int]);
        let line_no: usize = i + 1;
        match &reads[i] {
            Reading::Blank => {},
            Reading::Fault(source) => {
                return Err(VerifyError::Json { line: line_no, source: source.clone() });
            },
            Reading::Entry(entry) => {
                if !same(entry.prev.as_str(), prev.as_str()) {
                    return Err(
                        VerifyError::Broken {
                            line: line_no,
                            got: entry.prev.clone(),
                            expected: prev,
                        },
                    );
                }
                let expect = match entry_hash(entry) {
                    Ok(h) => h,
                    Err(_) => {
                        return Err(VerifyError::HashMismatch { line: line_no });
                    },
                };
                if !same(entry.hash.as_str(), expect.as_str()) {
                    return Err(VerifyError::HashMismatch { line: line_no });
                }
                assert(entry@ == (EntrySpec { hash: expect@, ..entry@ }));
                prev = entry.hash.clone();
                count += 1;
            },
        }
        i += 1;
    }
    assert(all.take(reads@.len() as int) == all);
    Ok(count)
}

/// Reads the lines of a log.
pub fn read_lines(text: &str) -> (r: Vec<Reading>)
    ensures
        readings_view(r@) == readings_of(lines_of(text@)),
{
    let list = lines(text);
    let ghost all = lines_of(text@);
    let mut out: Vec<Reading> = Vec::new();
    let mut i: usize = 0;
    while i < list.len()
        invariant
            all == texts(list@),
            i <= list.len(),
            out.len() == i,
            forall|k: int| 0 <= k < i ==> (#[trigger] out@[k])@ == reading_of(all[k]),
        decreases list.len() - i,
    {
        let line = list[i].as_str();
        assert(line@ == all[i as int]);
        if is_blank(line) {
            out.push(Reading::Blank);
        } else {
            match Entry::read_line(line) {
                Ok(e) => out.push(Reading::Entry(e)),
                Err(m) => out.push(Reading::Fault(m)),
            }
        }
        i += 1;
    }
    assert(readings_view(out@) =~= readings_of(all));
    out
}

/// Checks the hash chain of a log. Returns the number of entries where every line
/// holds, and else what is wrong with the first line that does not. Each entry of a log
/// that holds is sealed.
pub fn verify_text(text: &str) -> (r: Result<usize, VerifyError>)
    ensures
        match r {
            Ok(n) => {
                &&& holds(lines_of(text@))
                &&& n == entry_count(lines_of(text@))
            },
            Err(e) => {
                &&& 1 <= e.line_no() <= lines_of(text@).len()
                &&& fault_at(lines_of(text@), e.line_no() - 1) == Some(e.fault())
                &&& forall|i: int|
                    0 <= i < e.line_no() - 1 ==> #[trigger] fault_at(lines_of(text@), i) is None
            },
        },
{
    let reads = read_lines(text);
    let r = verify_read(&reads);
    proof {
        let all = lines_of(text@);
        lemma_faults_read(all);
        if r is Err {
            let at = r->Err_0.line_no() - 1;
            assert forall|i: int| 0 <= i < at implies #[trigger] fault_at(all, i) is None by {
                assert(fault_read(readings_of(all), i) is None);
            }
            assert(fault_read(readings_of(all), at) == fault_at(all, at));
        }
    }
    r
}

/// Whether a log holds: no line has a fault, and every entry is sealed. This is what
/// [`verify_text`] finds of a text that it accepts.
pub open spec fn holds(lines: Seq<Seq<char>>) -> bool {
    &&& intact(lines)
    &&& forall|i: int|
        0 <= i < lines.len() && !blank(#[trigger] lines[i]) ==> sealed(entry_on(lines[i])->0)
}

/// The entries of a log, in order.
pub open spec fn log_entries(lines: Seq<Seq<char>>) -> Seq<EntrySpec>
    decreases lines.len(),
{
    if lines.len() == 0 {
        Seq::empty()
    } else if blank(lines.last()) {
        log_entries(lines.drop_last())
    } else {
        log_entries(lines.drop_last()).push(entry_on(lines.last())->0)
    }
}

proof fn lemma_link_local(a: Seq<Seq<char>>, b: Seq<Seq<char>>, i: int)
    requires
        0 <= i <= a.len(),
        i <= b.len(),
        forall|k: int| 0 <= k < i ==> a[k] == b[k],
    ensures
        link_before(a, i) == link_before(b, i),
    decreases i,
{
    if i > 0 {
        lemma_link_local(a, b, i - 1);
    }
}

/// A log stays intact when an entry is put behind it that names the last hash and carries
/// its own; then the next entry has to name that one.
pub proof fn law_append_keeps_intact(log: Seq<char>, line: Seq<char>, e: EntrySpec)
    requires
        log.len() == 0 || log.last() == '\n',
        holds(lines_of(log)),
        entry_on(line) == Some(e),
        !blank(line),
        !line.contains('\n'),
        !line.contains('\r'),
        e.prev == link_before(lines_of(log), lines_of(log).len() as int),
        sealed(e),
    ensures
        holds(lines_of(log + line + seq!['\n'])),
        entry_count(lines_of(log + line + seq!['\n'])) == entry_count(lines_of(log)) + 1,
        link_before(
            lines_of(log + line + seq!['\n']),
            lines_of(log + line + seq!['\n']).len() as int,
        ) == e.hash,
{
    let before = lines_of(log);
    crate::text::lemma_lines_append(log, line);
    let after = before.push(line);
    assert(after.drop_last() =~= before);
    assert forall|i: int| 0 <= i < after.len() implies #[trigger] fault_at(after, i) is None by {
        lemma_link_local(after, before, i);
        if i < before.len() {
            assert(after[i] == before[i]);
            assert(fault_at(before, i) is None);
        }
    }
    assert forall|i: int| 0 <= i < after.len() && !blank(#[trigger] after[i]) implies sealed(
        entry_on(after[i])->0,
    ) by {
        if i < before.len() {
            assert(after[i] == before[i]);
        }
    }
}

/// A line whose entry was changed but whose hash was left as it was is found out, short
/// of a SHA-256 collision.
pub proof fn law_tampering_shows(lines: Seq<Seq<char>>, i: int, line: Seq<char>)
    requires
        holds(lines),
        0 <= i < lines.len(),
        !blank(lines[i]),
        !blank(line),
        entry_on(line) is Some,
        (entry_on(line)->0).hash == (entry_on(lines[i])->0).hash,
        !same_body(entry_on(line)->0, entry_on(lines[i])->0),
    ensures
        fault_at(lines.update(i, line), i) is Some || sha256_collision(
            body_text(entry_on(line)->0),
            body_text(entry_on(lines[i])->0),
        ),
        (entry_on(line)->0).prev == (entry_on(lines[i])->0).prev ==> fault_at(
            lines.update(i, line),
            i,
        ) == Some(FaultSpec::HashMismatch) || sha256_collision(
            body_text(entry_on(line)->0),
            body_text(entry_on(lines[i])->0),
        ),
{
    let e = entry_on(lines[i])->0;
    let changed = entry_on(line)->0;
    assert(fault_at(lines, i) is None);
    assert(sealed(e));
    lemma_link_local(lines.update(i, line), lines, i);
    assert(entry_digest(changed) == e.hash ==> same_body(changed, e) || sha256_collision(
        body_text(changed),
        body_text(e),
    ));
}

proof fn lemma_has_entry(lines: Seq<Seq<char>>) -> (i: int)
    requires
        entry_count(lines) > 0,
    ensures
        0 <= i < lines.len(),
        !blank(lines[i]),
        forall|k: int| 0 <= k < i ==> blank(#[trigger] lines[k]),
    decreases lines.len(),
{
    let front = lines.drop_last();
    if entry_count(front) > 0 {
        let i = lemma_has_entry(front);
        assert forall|k: int| 0 <= k < i implies blank(#[trigger] lines[k]) by {
            assert(front[k] == lines[k]);
        }
        i
    } else {
        lemma_all_blank(front);
        assert forall|k: int| 0 <= k < lines.len() - 1 implies blank(#[trigger] lines[k]) by {
            assert(front[k] == lines[k]);
        }
        lines.len() - 1
    }
}

proof fn lemma_all_blank(lines: Seq<Seq<char>>)
    requires
        entry_count(lines) == 0,
    ensures
        forall|k: int| 0 <= k < lines.len() ==> blank(#[trigger] lines[k]),
    decreases lines.len(),
{
    if lines.len() > 0 {
        lemma_all_blank(lines.drop_last());
        assert forall|k: int| 0 <= k < lines.len() implies blank(#[trigger] lines[k]) by {
            if k < lines.len() - 1 {
                assert(lines.drop_last()[k] == lines[k]);
            }
        }
    }
}

proof fn lemma_link_genesis(lines: Seq<Seq<char>>, i: int)
    requires
        0 <= i <= lines.len(),
        forall|k: int| 0 <= k < i ==> blank(#[trigger] lines[k]),
    ensures
        link_before(lines, i) == GENESIS@,
    decreases i,
{
    if i > 0 {
        assert(blank(lines[i - 1]));
        lemma_link_genesis(lines, i - 1);
    }
}

proof fn lemma_link_hash(lines: Seq<Seq<char>>, i: int)
    requires
        holds(lines),
        0 <= i <= lines.len(),
        entry_count(lines.take(i)) > 0,
    ensures
        link_before(lines, i).len() == 64,
    decreases i,
{
    assert(lines.take(i).drop_last() =~= lines.take(i - 1));
    assert(lines.take(i).last() == lines[i - 1]);
    if blank(lines[i - 1]) {
        lemma_link_hash(lines, i - 1);
    } else {
        assert(sealed(entry_on(lines[i - 1])->0));
        assert(fault_at(lines, i - 1) is None);
    }
}

/// A log from which the first entries were cut off no longer verifies: the first entry
/// left does not start the chain.
pub proof fn law_cut_front_shows(lines: Seq<Seq<char>>, k: int)
    requires
        holds(lines),
        0 <= k <= lines.len(),
        entry_count(lines.take(k)) > 0,
        entry_count(lines.skip(k)) > 0,
    ensures
        exists|i: int|
            0 <= i < lines.skip(k).len() && (#[trigger] fault_at(lines.skip(k), i)
                matches Some(FaultSpec::Broken { expected, .. }) && expected == GENESIS@) && (
            forall|j: int| 0 <= j < i ==> #[trigger] fault_at(lines.skip(k), j) is None),
{
    let rest = lines.skip(k);
    let i = lemma_has_entry(rest);
    lemma_link_genesis(rest, i);
    assert(rest[i] == lines[k + i]);
    assert(fault_at(lines, k + i) is None);
    lemma_link_skips(lines, k, i);
    lemma_link_hash(lines, k);
    reveal_strlit("genesis");
    assert(GENESIS@.len() == 7);
    assert(fault_at(rest, i) matches Some(FaultSpec::Broken { expected, .. }) && expected
        == GENESIS@);
    assert forall|j: int| 0 <= j < i implies #[trigger] fault_at(rest, j) is None by {
        assert(blank(rest[j]));
    }
}

proof fn lemma_link_skips(lines: Seq<Seq<char>>, k: int, i: int)
    requires
        0 <= k <= lines.len(),
        0 <= i <= lines.len() - k,
        forall|j: int| 0 <= j < i ==> blank(#[trigger] lines.skip(k)[j]),
    ensures
        link_before(lines, k + i) == link_before(lines, k),
    decreases i,
{
    if i > 0 {
        assert(blank(lines.skip(k)[i - 1]));
        assert(lines.skip(k)[i - 1] == lines[k + i - 1]);
        lemma_link_skips(lines, k, i - 1);
    }
}

/// A SHA-256 collision between two texts.
pub open spec fn some_collision() -> bool {
    exists|a: Seq<char>, b: Seq<char>| sha256_collision(a, b)
}

/// The last hash of a log that holds fixes all of its entries, short of a SHA-256
/// collision.
pub proof fn law_last_hash_fixes_log(a: Seq<Seq<char>>, b: Seq<Seq<char>>)
    requires
        holds(a),
        holds(b),
        link_before(a, a.len() as int) == link_before(b, b.len() as int),
    ensures
        log_entries(a) == log_entries(b) || some_collision(),
    decreases a.len() + b.len(),
{
    reveal_strlit("genesis");
    assert(GENESIS@.len() == 7);
    if a.len() > 0 && blank(a.last()) {
        lemma_holds_front(a);
        lemma_link_local(a, a.drop_last(), a.len() - 1);
        law_last_hash_fixes_log(a.drop_last(), b);
    } else if b.len() > 0 && blank(b.last()) {
        lemma_holds_front(b);
        lemma_link_local(b, b.drop_last(), b.len() - 1);
        law_last_hash_fixes_log(a, b.drop_last());
    } else if a.len() == 0 && b.len() == 0 {
    } else if a.len() == 0 {
        assert(fault_at(b, b.len() - 1) is None);
        assert(sealed(entry_on(b[b.len() - 1])->0));
    } else if b.len() == 0 {
        assert(fault_at(a, a.len() - 1) is None);
        assert(sealed(entry_on(a[a.len() - 1])->0));
    } else {
        let x = entry_on(a[a.len() - 1])->0;
        let y = entry_on(b[b.len() - 1])->0;
        assert(fault_at(a, a.len() - 1) is None);
        assert(fault_at(b, b.len() - 1) is None);
        assert(sealed(x) && sealed(y));
        assert(entry_digest(y) == x.hash);
        if same_body(y, x) {
            assert(y == x);
            lemma_holds_front(a);
            lemma_holds_front(b);
            lemma_link_local(a, a.drop_last(), a.len() - 1);
            lemma_link_local(b, b.drop_last(), b.len() - 1);
            law_last_hash_fixes_log(a.drop_last(), b.drop_last());
        } else {
            assert(sha256_collision(body_text(y), body_text(x)));
        }
    }
}

proof fn lemma_holds_front(lines: Seq<Seq<char>>)
    requires
        holds(lines),
        lines.len() > 0,
    ensures
        holds(lines.drop_last()),
{
    let front = lines.drop_last();
    assert forall|i: int| 0 <= i < front.len() implies #[trigger] fault_at(front, i) is None by {
        lemma_link_local(front, lines, i);
        assert(fault_at(lines, i) is None);
    }
    assert forall|i: int| 0 <= i < front.len() && !blank(#[trigger] front[i]) implies sealed(
        entry_on(front[i])->0,
    ) by {
        assert(!blank(lines[i]));
    }
}

}
