//! The audit log.
use vstd::prelude::*;
use vstd::string::*;
use vstd::utf8::*;

use crate::codec::{hex_of, sha256_of};
use crate::daemon::audit::recorded_entry;
use crate::json::{canonical_text, json_parse, JsonSpec};
use crate::laws::texts::law_trimmed;
use crate::number::decimal;
use crate::proto::audit_log::{
    blank, body_json, entry_count, entry_digest, entry_json, entry_of, entry_on, fault_at,
    fault_message, fault_read, holds, holds_read, lemma_faults_read, link_read, read_count,
    reading_of, readings_of, sealed, EntrySpec, FaultSpec, ReadingSpec,
};
use crate::proto::wire::{tier_name, Tier};
use crate::text::{debug_text, is_white};

verus! {

/// A line is blank exactly where all of it is white space.
pub proof fn law_blank_lines(line: Seq<char>)
    ensures
        blank(line) <==> forall|i: int| 0 <= i < line.len() ==> is_white(#[trigger] line[i]),
{
    let (a, b) = law_trimmed(line);
    if forall|i: int| 0 <= i < line.len() ==> is_white(#[trigger] line[i]) {
        if a < b {
            assert(is_white(line[a]));
        }
    }
}

/// Each entry has to name the hash of the entry before it, over blank lines, and the first one the
/// start of the chain.
pub proof fn law_links(reads: Seq<ReadingSpec>, i: int)
    requires
        0 <= i < reads.len(),
    ensures
        link_read(reads, 0) == "genesis"@,
        reads[i] is Blank ==> link_read(reads, i + 1) == link_read(reads, i),
        reads[i] matches ReadingSpec::Entry(e) ==> link_read(reads, i + 1) == e.hash,
        reads[i] is Fault ==> link_read(reads, i + 1) == "genesis"@,
{
}

/// A line is at fault where it is no entry, where its entry does not name the hash before it, and
/// where the hash of its entry is not the digest of the rest of it; a blank line never is.
pub proof fn law_faults(reads: Seq<ReadingSpec>, i: int)
    requires
        0 <= i < reads.len(),
    ensures
        reads[i] is Blank ==> fault_read(reads, i) is None,
        reads[i] matches ReadingSpec::Fault(source) ==> fault_read(reads, i) == Some(
            FaultSpec::Json { source },
        ),
        reads[i] matches ReadingSpec::Entry(e) ==> {
            &&& e.prev != link_read(reads, i) ==> fault_read(reads, i) == Some(
                FaultSpec::Broken { got: e.prev, expected: link_read(reads, i) },
            )
            &&& e.prev == link_read(reads, i) && e.hash != hex_of(
                sha256_of(encode_utf8(canonical_text(body_json(e)))),
            ) ==> fault_read(reads, i) == Some(FaultSpec::HashMismatch)
            &&& e.prev == link_read(reads, i) && e.hash == hex_of(
                sha256_of(encode_utf8(canonical_text(body_json(e)))),
            ) ==> fault_read(reads, i) is None
        },
{
}

/// A log holds exactly where no line of it is at fault and every entry is sealed by its hash.
pub proof fn law_logs_hold(reads: Seq<ReadingSpec>)
    ensures
        holds_read(reads) <==> forall|i: int|
            0 <= i < reads.len() ==> match #[trigger] reads[i] {
                ReadingSpec::Blank => true,
                ReadingSpec::Fault(_) => false,
                ReadingSpec::Entry(e) => e.prev == link_read(reads, i) && e.hash == hex_of(
                    sha256_of(encode_utf8(canonical_text(body_json(e)))),
                ) && sealed(e),
            },
        holds_read(Seq::empty()),
{
    let fine = forall|i: int|
        0 <= i < reads.len() ==> match #[trigger] reads[i] {
            ReadingSpec::Blank => true,
            ReadingSpec::Fault(_) => false,
            ReadingSpec::Entry(e) => e.prev == link_read(reads, i) && e.hash == hex_of(
                sha256_of(encode_utf8(canonical_text(body_json(e)))),
            ) && sealed(e),
        };
    if fine {
        assert forall|i: int| 0 <= i < reads.len() implies #[trigger] fault_read(reads, i) is None by {
            let r = reads[i];
            law_faults(reads, i);
        }
    }
    if holds_read(reads) {
        assert forall|i: int| 0 <= i < reads.len() implies match #[trigger] reads[i] {
            ReadingSpec::Blank => true,
            ReadingSpec::Fault(_) => false,
            ReadingSpec::Entry(e) => e.prev == link_read(reads, i) && e.hash == hex_of(
                sha256_of(encode_utf8(canonical_text(body_json(e)))),
            ) && sealed(e),
        } by {
            law_faults(reads, i);
            assert(fault_read(reads, i) is None);
        }
    }
}

/// A text is verified as its lines are read: the two have the same faults in the same lines, and the
/// same number of entries.
pub proof fn law_texts_are_verified(lines: Seq<Seq<char>>, i: int)
    requires
        0 <= i < lines.len(),
    ensures
        fault_at(lines, i) == fault_read(readings_of(lines), i),
        holds(lines) <==> holds_read(readings_of(lines)),
        entry_count(lines) == read_count(readings_of(lines)),
        readings_of(lines).len() == lines.len(),
        readings_of(lines)[i] is Blank <==> blank(lines[i]),
        !blank(lines[i]) && entry_on(lines[i]) is Some ==> readings_of(lines)[i]
            == ReadingSpec::Entry(entry_on(lines[i])->0),
        !blank(lines[i]) && entry_on(lines[i]) is None ==> readings_of(lines)[i] is Fault,
{
    lemma_faults_read(lines);
    assert(readings_of(lines)[i] == reading_of(lines[i]));
}

/// Every line that is not blank counts as an entry.
pub proof fn law_entries_are_counted(reads: Seq<ReadingSpec>, r: ReadingSpec)
    ensures
        read_count(Seq::empty()) == 0,
        r is Blank ==> read_count(reads.push(r)) == read_count(reads),
        !(r is Blank) ==> read_count(reads.push(r)) == read_count(reads) + 1,
{
    assert(reads.push(r).drop_last() =~= reads);
}

/// What an entry's hash is of: all of the entry but the hash, each part under its name.
pub proof fn law_hashed_parts(e: EntrySpec)
    ensures
        entry_digest(e) == hex_of(sha256_of(encode_utf8(canonical_text(body_json(e))))),
        body_json(e) == JsonSpec::Object(
            seq![
                ("decision"@, JsonSpec::Text(e.decision)),
                ("digest"@, JsonSpec::Text(e.digest)),
                ("prev"@, JsonSpec::Text(e.prev)),
                ("rule"@, JsonSpec::Text(e.rule)),
                ("summary"@, JsonSpec::Text(e.summary)),
                ("tier"@, JsonSpec::Text(tier_name(e.tier))),
                ("ts"@, JsonSpec::Integer(e.ts as int)),
            ],
        ),
{
}

/// A line of the log holds each part of its entry under its name.
pub proof fn law_entry_lines(e: EntrySpec)
    ensures
        ({
            let m = entry_json(e);
            &&& m.member("ts"@) == Some(JsonSpec::Integer(e.ts as int))
            &&& m.text_member("digest"@) == Some(e.digest)
            &&& m.text_member("summary"@) == Some(e.summary)
            &&& m.text_member("tier"@) == Some(tier_name(e.tier))
            &&& m.text_member("decision"@) == Some(e.decision)
            &&& m.text_member("rule"@) == Some(e.rule)
            &&& m.text_member("prev"@) == Some(e.prev)
            &&& m.text_member("hash"@) == Some(e.hash)
        }),
        entry_of(entry_json(e)) == Some(e),
{
    crate::proto::audit_log::law_entry_round_trip(e);
    lemma_entry_members(e);
    crate::proto::wire::law_tier_round_trip(e.tier);
}

proof fn lemma_entry_members(e: EntrySpec)
    ensures
        entry_json(e).member("ts"@) == Some(JsonSpec::Integer(e.ts as int)),
        entry_json(e).text_member("digest"@) == Some(e.digest),
        entry_json(e).text_member("summary"@) == Some(e.summary),
        entry_json(e).text_member("tier"@) == Some(tier_name(e.tier)),
        entry_json(e).text_member("decision"@) == Some(e.decision),
        entry_json(e).text_member("rule"@) == Some(e.rule),
        entry_json(e).text_member("prev"@) == Some(e.prev),
        entry_json(e).text_member("hash"@) == Some(e.hash),
{
    reveal_with_fuel(crate::json::first_member, 9);
    reveal_strlit("ts");
    reveal_strlit("digest");
    reveal_strlit("summary");
    reveal_strlit("tier");
    reveal_strlit("decision");
    reveal_strlit("rule");
    reveal_strlit("prev");
    reveal_strlit("hash");
    let v = entry_json(e)->Object_0;
    assert("ts"@[0] == 't' && "digest"@[1] == 'i' && "summary"@[0] == 's' && "tier"@[0] == 't'
        && "decision"@[1] == 'e' && "rule"@[0] == 'r' && "prev"@[0] == 'p' && "hash"@[0] == 'h'
        && "digest"@[0] == 'd' && "decision"@[0] == 'd');
    assert("ts"@.len() == 2 && "tier"@.len() == 4);
    let d1 = v.drop_first();
    let d2 = d1.drop_first();
    let d3 = d2.drop_first();
    let d4 = d3.drop_first();
    let d5 = d4.drop_first();
    let d6 = d5.drop_first();
    let d7 = d6.drop_first();
    assert(d1[0] == v[1] && d2[0] == v[2] && d3[0] == v[3] && d4[0] == v[4] && d5[0] == v[5]
        && d6[0] == v[6] && d7[0] == v[7]);
}

/// What is recorded of a decision is what was decided, when, and by what, behind the entry before it,
/// under its own hash.
pub proof fn law_records(
    ts: i64,
    digest: Seq<char>,
    summary: Seq<char>,
    tier: Tier,
    decision: Seq<char>,
    rule: Seq<char>,
    prev: Seq<char>,
)
    ensures
        ({
            let e = recorded_entry(ts, digest, summary, tier, decision, rule, prev);
            &&& e.ts == ts && e.digest == digest && e.summary == summary && e.tier == tier
            &&& e.decision == decision && e.rule == rule && e.prev == prev
            &&& e.hash == hex_of(sha256_of(encode_utf8(canonical_text(body_json(e)))))
        }),
{
    let e = recorded_entry(ts, digest, summary, tier, decision, rule, prev);
    assert(body_json(e) == body_json(EntrySpec { hash: Seq::empty(), ..e }));
}

/// A fault is put in words with the number of its line.
pub proof fn law_fault_messages(line: nat, source: Seq<char>, got: Seq<char>, expected: Seq<char>)
    ensures
        fault_message(line, FaultSpec::Json { source }) == "json on line "@ + decimal(line) + ": "@
            + source,
        fault_message(line, FaultSpec::Broken { got, expected }) == "chain broken at line "@
            + decimal(line) + ": prev="@ + debug_text(got) + " expected="@ + debug_text(expected),
        fault_message(line, FaultSpec::HashMismatch) == "hash mismatch at line "@ + decimal(line),
{
}

/// What is wrong with a line that is no entry is said by the name of its first part that is.
pub proof fn law_line_faults(m: JsonSpec, line: Seq<char>)
    requires
        m is Object,
        json_parse(line) == Some(m),
    ensures
        m.member("ts"@) is None ==> entry_on(line) is None
            && crate::proto::audit_log::line_fault(line) == "missing field `"@ + "ts"@ + "`"@,
        m.member("ts"@) == Some(JsonSpec::Integer(0)) && m.member("digest"@) is None ==> entry_on(
            line,
        ) is None && crate::proto::audit_log::line_fault(line) == "missing field `"@ + "digest"@
            + "`"@,
        m.member("ts"@) is Some && !(m.member("ts"@)->0 is Integer) ==> entry_on(line) is None
            && crate::proto::audit_log::line_fault(line) == "invalid field `"@ + "ts"@ + "`"@,
{
}

}
