//! The writing side of the audit log.
use vstd::prelude::*;

use crate::json::json_text;
use crate::proto::audit_log::{
    entry_count, entry_digest, entry_hash, entry_json, entry_on, holds, law_append_keeps_intact,
    lemma_faults_read, link_before, link_read, read_lines, readings_view, Entry, EntrySpec, Reading,
    GENESIS,
};
use crate::proto::request::ProtoError;
use crate::proto::wire::Tier;
use crate::text::lines_of;

verus! {

/// The end of the log: the hash that the next entry has to name.
pub struct Audit {
    pub last_hash: String,
}

/// What is to be put behind the log: a line, and the hash that the entry after it has to
/// name.
pub struct Recorded {
    pub line: String,
    pub hash: String,
}

/// Whether a log holds, is made of whole lines and ends in an entry with a given hash.
pub open spec fn continues(log: Seq<char>, hash: Seq<char>) -> bool {
    &&& log.len() == 0 || log.last() == '\n'
    &&& holds(lines_of(log))
    &&& link_before(lines_of(log), lines_of(log).len() as int) == hash
}

/// The entry that is recorded of a decision.
pub open spec fn recorded_entry(
    ts: i64,
    digest: Seq<char>,
    summary: Seq<char>,
    tier: Tier,
    decision: Seq<char>,
    rule: Seq<char>,
    prev: Seq<char>,
) -> EntrySpec {
    let open_entry = EntrySpec {
        ts,
        digest,
        summary,
        tier,
        decision,
        rule,
        prev,
        hash: Seq::empty(),
    };
    EntrySpec { hash: entry_digest(open_entry), ..open_entry }
}

impl Audit {
    /// The end of an existing log: the hash of the last line that is not blank, if that is an
    /// entry. Without a log, or without such a line, the chain starts anew.
    pub fn open(existing: Option<&str>) -> (r: Audit)
        ensures
            r.last_hash@ == (match existing {
                Some(log) => link_before(lines_of(log@), lines_of(log@).len() as int),
                None => GENESIS@,
            }),
    {
        match existing {
            Some(log) => {
                let reads = read_lines(log);
                proof {
                    lemma_faults_read(lines_of(log@));
                }
                Audit::resume(&reads)
            },
            None => Audit { last_hash: GENESIS.to_owned() },
        }
    }

    /// The end of a log whose lines have been read: the hash of the last line that is not blank,
    /// if that is an entry, and else the start of a chain.
    pub fn resume(reads: &Vec<Reading>) -> (r: Audit)
        ensures
            r.last_hash@ == link_read(readings_view(reads@), reads@.len() as int),
    {
        let ghost all = readings_view(reads@);
        let mut i: usize = reads.len();
        while i > 0
            invariant
                all == readings_view(reads@),
                i <= reads@.len(),
                link_read(all, i as int) == link_read(all, reads@.len() as int),
            decreases i,
        {
            assert(reads@[i - 1]@ == all[i - 1]);
            match &reads[i - 1] {
                Reading::Blank => {
                    i -= 1;
                },
                Reading::Entry(e) => {
                    return Audit { last_hash: e.hash.clone() };
                },
                Reading::Fault(_) => {
                    return Audit { last_hash: GENESIS.to_owned() };
                },
            }
        }
        Audit { last_hash: GENESIS.to_owned() }
    }

    /// The line for a decision. A log that ends where this one ends stays whole when the line
    /// is put behind it.
    pub fn record(
        &self,
        ts: i64,
        digest: &str,
        summary: &str,
        tier: Tier,
        decision: &str,
        rule: &str,
    ) -> (r: Result<Recorded, ProtoError>)
        ensures
            r is Ok,
            ({
                let e = recorded_entry(
                    ts,
                    digest@,
                    summary@,
                    tier,
                    decision@,
                    rule@,
                    self.last_hash@,
                );
                &&& r->Ok_0.line@ == json_text(entry_json(e))
                &&& r->Ok_0.hash@ == e.hash
                &&& entry_on(r->Ok_0.line@) == Some(e)
            }),
            forall|log: Seq<char>| #[trigger]
                continues(log, self.last_hash@) ==> {
                    let after = log + r->Ok_0.line@ + seq!['\n'];
                    &&& continues(after, r->Ok_0.hash@)
                    &&& entry_count(lines_of(after)) == entry_count(lines_of(log)) + 1
                },
    {
        let mut entry = Entry {
            ts,
            digest: digest.to_owned(),
            summary: summary.to_owned(),
            tier,
            decision: decision.to_owned(),
            rule: rule.to_owned(),
            prev: self.last_hash.clone(),
            hash: String::new(),
        };
        assert(entry.hash@ =~= Seq::empty());
        match entry_hash(&entry) {
            Ok(hash) => {
                entry.hash = hash.clone();
                let line = entry.to_line();
                proof {
                    assert forall|log: Seq<char>| #[trigger]
                        continues(log, self.last_hash@) implies {
                        let after = log + line@ + seq!['\n'];
                        &&& continues(after, hash@)
                        &&& entry_count(lines_of(after)) == entry_count(lines_of(log)) + 1
                    } by {
                        law_append_keeps_intact(log, line@, entry@);
                    }
                }
                Ok(Recorded { line, hash })
            },
            Err(e) => Err(e),
        }
    }

    /// Takes note that a recorded line has been written.
    pub fn written(&mut self, hash: String)
        ensures
            final(self).last_hash == hash,
    {
        self.last_hash = hash;
    }
}

/// A log that holds is continued where it was left when it is opened again.
pub proof fn law_reopening_continues(log: Seq<char>)
    requires
        log.len() == 0 || log.last() == '\n',
        holds(lines_of(log)),
    ensures
        continues(log, link_before(lines_of(log), lines_of(log).len() as int)),
{
}

}
