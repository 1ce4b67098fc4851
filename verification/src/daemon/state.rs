//! What the daemon remembers between calls: waiting requests, session grants and spent nonces.
//!
//! Times on the daemon's own clock are nanoseconds since it was started.
use vstd::prelude::*;
use vstd::seq_lib::*;
use vstd::string::*;

use crate::number::{decimal, to_decimal};
use crate::proto::policy::{glob_covers, glob_matches};
use crate::proto::request::{operation_summary, request_digest, GateRequest, RequestSpec};
use crate::proto::wire::{entries_view, grants_view, GrantInfo, PendingEntry, PendingEntrySpec, Tier};
use crate::text::{same, starts_with};

verus! {

/// Nanoseconds in a second.
pub const SECOND: u64 = 1_000_000_000;

/// A submitted request that waits for a human.
pub struct Pending {
    pub request: GateRequest,
    pub tier: Tier,
    pub nonce: String,
    /// When it was submitted, on the daemon's clock.
    pub submitted: u64,
}

/// A waiting request under its digest.
pub struct Waiting {
    pub digest: String,
    pub entry: Pending,
}

/// Commands that a glob covers are allowed until a given time on the daemon's clock.
pub struct Grant {
    pub argv_glob: String,
    pub expires: u128,
}

/// A nonce that has released a request, and how long its approval would have been valid.
pub struct Spent {
    pub nonce: String,
    pub until: i64,
}

/// What the daemon remembers between calls.
pub struct Shared {
    pub pending: Vec<Waiting>,
    pub grants: Vec<Grant>,
    pub spent: Vec<Spent>,
}

/// What is known of a waiting request.
#[verifier::ext_equal]
pub struct WaitingSpec {
    pub digest: Seq<char>,
    pub request: RequestSpec,
    pub tier: Tier,
    pub nonce: Seq<char>,
    pub submitted: u64,
}

/// A grant: the glob, and until when it holds.
#[verifier::ext_equal]
pub struct GrantSpec {
    pub argv_glob: Seq<char>,
    pub expires: u128,
}

/// A spent nonce, and until when its approval was valid.
#[verifier::ext_equal]
pub struct SpentSpec {
    pub nonce: Seq<char>,
    pub until: i64,
}

/// What the daemon knows.
#[verifier::ext_equal]
pub struct SharedSpec {
    pub pending: Seq<WaitingSpec>,
    pub grants: Seq<GrantSpec>,
    pub spent: Seq<SpentSpec>,
}

/// What is known of a request under a digest.
pub open spec fn waiting_spec(digest: Seq<char>, entry: Pending) -> WaitingSpec {
    WaitingSpec {
        digest,
        request: entry.request@,
        tier: entry.tier,
        nonce: entry.nonce@,
        submitted: entry.submitted,
    }
}

impl View for Waiting {
    type V = WaitingSpec;

    open spec fn view(&self) -> WaitingSpec {
        waiting_spec(self.digest@, self.entry)
    }
}

impl View for Grant {
    type V = GrantSpec;

    open spec fn view(&self) -> GrantSpec {
        GrantSpec { argv_glob: self.argv_glob@, expires: self.expires }
    }
}

impl View for Spent {
    type V = SpentSpec;

    open spec fn view(&self) -> SpentSpec {
        SpentSpec { nonce: self.nonce@, until: self.until }
    }
}

impl View for Shared {
    type V = SharedSpec;

    open spec fn view(&self) -> SharedSpec {
        SharedSpec {
            pending: self.pending@.map_values(|w: Waiting| w@),
            grants: self.grants@.map_values(|g: Grant| g@),
            spent: self.spent@.map_values(|s: Spent| s@),
        }
    }
}

impl SharedSpec {
    /// No digest waits twice, and each is the digest of its request.
    pub open spec fn wf(self) -> bool {
        &&& forall|i: int, j: int|
            0 <= i < j < self.pending.len() ==> (#[trigger] self.pending[i]).digest != (
            #[trigger] self.pending[j]).digest
        &&& forall|i: int|
            0 <= i < self.pending.len() ==> {
                &&& (#[trigger] self.pending[i]).digest == request_digest(self.pending[i].request)
                &&& self.pending[i].digest.len() == 64
            }
    }
}

/// The grants that still hold at a given time.
pub open spec fn live_grants(grants: Seq<GrantSpec>, now: u64) -> Seq<GrantSpec>
    decreases grants.len(),
{
    if grants.len() == 0 {
        Seq::empty()
    } else if grants.last().expires > now {
        live_grants(grants.drop_last(), now).push(grants.last())
    } else {
        live_grants(grants.drop_last(), now)
    }
}

/// Whether a grant covers a command.
pub open spec fn granted(grants: Seq<GrantSpec>, argv_joined: Seq<char>) -> bool {
    exists|i: int|
        0 <= i < grants.len() && glob_covers((#[trigger] grants[i]).argv_glob, argv_joined)
}

/// The grants after another one was given, for some seconds.
pub open spec fn with_grant(
    grants: Seq<GrantSpec>,
    argv_glob: Seq<char>,
    ttl_secs: u64,
    now: u64,
) -> Seq<GrantSpec> {
    grants.push(GrantSpec { argv_glob, expires: (now + ttl_secs * SECOND) as u128 })
}

/// The whole seconds that a grant has left, at most what 64 bits hold.
pub open spec fn secs_left(expires: u128, now: u64) -> u64 {
    let secs = (expires - now) / SECOND as int;
    if secs > u64::MAX {
        u64::MAX
    } else {
        secs as u64
    }
}

/// The list of grants that the operator sees.
pub open spec fn grant_lines(grants: Seq<GrantSpec>, now: u64) -> Seq<(Seq<char>, u64)> {
    grants.map_values(|g: GrantSpec| (g.argv_glob, secs_left(g.expires, now)))
}

/// A grant only ends: what holds at a later time held before.
pub proof fn law_grants_only_expire(grants: Seq<GrantSpec>, now: u64, later: u64)
    requires
        now <= later,
    ensures
        live_grants(live_grants(grants, now), later) == live_grants(grants, later),
        forall|g: GrantSpec| #[trigger] live_grants(grants, later).contains(g) ==> g.expires > later
            && grants.contains(g),
    decreases grants.len(),
{
    if grants.len() > 0 {
        law_grants_only_expire(grants.drop_last(), now, later);
        let front = live_grants(grants.drop_last(), now);
        if grants.last().expires > now {
            assert(front.push(grants.last()).drop_last() =~= front);
        }
        assert forall|g: GrantSpec| #[trigger]
            live_grants(grants, later).contains(g) implies g.expires > later && grants.contains(
            g,
        ) by {
            let rest = live_grants(grants.drop_last(), later);
            if grants.last().expires > later {
                let i = choose|i: int| 0 <= i < rest.push(grants.last()).len() && rest.push(
                    grants.last(),
                )[i] == g;
                if i < rest.len() {
                    assert(rest[i] == g);
                    assert(rest.contains(g));
                    let k = choose|k: int|
                        0 <= k < grants.drop_last().len() && grants.drop_last()[k] == g;
                    assert(grants[k] == g);
                } else {
                    assert(grants[grants.len() - 1] == g);
                }
            } else {
                assert(rest.contains(g));
                let k = choose|k: int|
                    0 <= k < grants.drop_last().len() && grants.drop_last()[k] == g;
                assert(grants[k] == g);
            }
        }
    }
}

/// The position of the request with a given digest.
pub open spec fn waits_at(pending: Seq<WaitingSpec>, digest: Seq<char>, at: int) -> bool {
    0 <= at < pending.len() && pending[at].digest == digest
}

/// Whether a request with a given digest waits.
pub open spec fn waits(pending: Seq<WaitingSpec>, digest: Seq<char>) -> bool {
    exists|at: int| waits_at(pending, digest, at)
}

/// Whether the request at a position is the only one whose digest starts with a prefix.
pub open spec fn only_hit(pending: Seq<WaitingSpec>, prefix: Seq<char>, at: int) -> bool {
    &&& 0 <= at < pending.len()
    &&& prefix.is_prefix_of(pending[at].digest)
    &&& forall|k: int|
        0 <= k < pending.len() && k != at ==> !prefix.is_prefix_of((#[trigger] pending[k]).digest)
}

/// The number of requests whose digest starts with a prefix.
pub open spec fn hit_count(pending: Seq<WaitingSpec>, prefix: Seq<char>) -> nat
    decreases pending.len(),
{
    if pending.len() == 0 {
        0
    } else {
        hit_count(pending.drop_last(), prefix) + (if prefix.is_prefix_of(pending.last().digest) {
            1nat
        } else {
            0
        })
    }
}

/// Why no request is taken: none or more than one has the prefix.
pub open spec fn take_refusal(pending: Seq<WaitingSpec>, prefix: Seq<char>) -> Seq<char> {
    if hit_count(pending, prefix) == 0 {
        "no pending request matches '"@ + prefix + "'"@
    } else {
        "'"@ + prefix + "' is ambiguous ("@ + decimal(hit_count(pending, prefix))
            + " matches); use more characters"@
    }
}

/// A waiting request as the approver sees it.
pub open spec fn pending_entry(w: WaitingSpec, now: u64) -> PendingEntrySpec {
    PendingEntrySpec {
        digest: w.digest,
        summary: operation_summary(w.request.op),
        tier: w.tier,
        harness: w.request.harness,
        age_secs: (if now >= w.submitted {
            (now - w.submitted) / SECOND as int
        } else {
            0
        }) as u64,
    }
}

/// The waiting requests as the approver sees them, in any order.
pub open spec fn pending_entries(pending: Seq<WaitingSpec>, now: u64) -> Seq<PendingEntrySpec> {
    pending.map_values(|w: WaitingSpec| pending_entry(w, now))
}

/// Whether a list of entries goes from the oldest to the youngest.
pub open spec fn oldest_first(entries: Seq<PendingEntrySpec>) -> bool {
    forall|i: int, j: int|
        0 <= i < j < entries.len() ==> (#[trigger] entries[i]).age_secs >= (
        #[trigger] entries[j]).age_secs
}

/// Whether a list shows exactly the waiting requests, from the oldest to the youngest.
pub open spec fn shows_pending(
    entries: Seq<PendingEntrySpec>,
    pending: Seq<WaitingSpec>,
    now: u64,
) -> bool {
    &&& entries.to_multiset() == pending_entries(pending, now).to_multiset()
    &&& oldest_first(entries)
}

/// Whether a nonce has been spent on an approval that would still be valid.
pub open spec fn nonce_spent(spent: Seq<SpentSpec>, nonce: Seq<char>) -> bool {
    exists|i: int| 0 <= i < spent.len() && (#[trigger] spent[i]).nonce == nonce
}

/// The spent nonces whose approvals would still be valid at a given time.
pub open spec fn still_spent(spent: Seq<SpentSpec>, now: i64) -> Seq<SpentSpec>
    decreases spent.len(),
{
    if spent.len() == 0 {
        Seq::empty()
    } else if spent.last().until >= now {
        still_spent(spent.drop_last(), now).push(spent.last())
    } else {
        still_spent(spent.drop_last(), now)
    }
}

/// A nonce stays remembered while its approval would still be valid.
pub proof fn law_spent_is_remembered(spent: Seq<SpentSpec>, nonce: Seq<char>, now: i64, i: int)
    requires
        0 <= i < spent.len(),
        spent[i].nonce == nonce,
        spent[i].until >= now,
    ensures
        nonce_spent(still_spent(spent, now), nonce),
    decreases spent.len(),
{
    let rest = still_spent(spent.drop_last(), now);
    if i == spent.len() - 1 {
        assert(rest.push(spent.last())[rest.len() as int].nonce == nonce);
    } else {
        assert(spent.drop_last()[i] == spent[i]);
        law_spent_is_remembered(spent.drop_last(), nonce, now, i);
        let k = choose|k: int| 0 <= k < rest.len() && (#[trigger] rest[k]).nonce == nonce;
        if spent.last().until >= now {
            assert(rest.push(spent.last())[k].nonce == nonce);
        }
    }
}

proof fn lemma_hits_none(pending: Seq<WaitingSpec>, prefix: Seq<char>)
    requires
        hit_count(pending, prefix) == 0,
    ensures
        forall|k: int|
            0 <= k < pending.len() ==> !prefix.is_prefix_of((#[trigger] pending[k]).digest),
    decreases pending.len(),
{
    if pending.len() > 0 {
        lemma_hits_none(pending.drop_last(), prefix);
        assert forall|k: int| 0 <= k < pending.len() implies !prefix.is_prefix_of(
            (#[trigger] pending[k]).digest,
        ) by {
            if k < pending.len() - 1 {
                assert(pending.drop_last()[k] == pending[k]);
            }
        }
    }
}

/// A prefix that no digest but one starts with hits once.
pub proof fn lemma_only_hit_counts(pending: Seq<WaitingSpec>, prefix: Seq<char>, at: int)
    requires
        only_hit(pending, prefix, at),
    ensures
        hit_count(pending, prefix) == 1,
    decreases pending.len(),
{
    let front = pending.drop_last();
    if at == pending.len() - 1 {
        lemma_no_hits_count(front, prefix);
    } else {
        assert(front[at] == pending[at]);
        assert(!prefix.is_prefix_of(pending[pending.len() - 1].digest));
        assert forall|k: int| 0 <= k < front.len() && k != at implies !prefix.is_prefix_of(
            (#[trigger] front[k]).digest,
        ) by {
            assert(front[k] == pending[k]);
        }
        lemma_only_hit_counts(front, prefix, at);
    }
}

proof fn lemma_no_hits_count(pending: Seq<WaitingSpec>, prefix: Seq<char>)
    requires
        forall|k: int|
            0 <= k < pending.len() ==> !prefix.is_prefix_of((#[trigger] pending[k]).digest),
    ensures
        hit_count(pending, prefix) == 0,
    decreases pending.len(),
{
    if pending.len() > 0 {
        let front = pending.drop_last();
        assert forall|k: int| 0 <= k < front.len() implies !prefix.is_prefix_of(
            (#[trigger] front[k]).digest,
        ) by {
            assert(front[k] == pending[k]);
        }
        assert(!prefix.is_prefix_of(pending[pending.len() - 1].digest));
        lemma_no_hits_count(front, prefix);
    }
}

/// The full digest of a waiting request always names that request alone.
pub proof fn law_full_digest_is_unique(s: SharedSpec, at: int)
    requires
        s.wf(),
        0 <= at < s.pending.len(),
    ensures
        only_hit(s.pending, s.pending[at].digest, at),
{
    let d = s.pending[at].digest;
    assert forall|k: int| 0 <= k < s.pending.len() && k != at implies !d.is_prefix_of(
        (#[trigger] s.pending[k]).digest,
    ) by {
        let e = s.pending[k].digest;
        if d.is_prefix_of(e) {
            assert(e.len() == 64 && d.len() == 64);
            assert(d =~= e);
            if k < at {
                assert(s.pending[k].digest != s.pending[at].digest);
            } else {
                assert(s.pending[at].digest != s.pending[k].digest);
            }
        }
    }
}

impl Shared {
    /// Nothing waits, nothing is granted, nothing is spent.
    pub fn new() -> (r: Shared)
        ensures
            r@ == (SharedSpec {
                pending: Seq::empty(),
                grants: Seq::empty(),
                spent: Seq::empty(),
            }),
            r@.wf(),
    {
        let r = Shared { pending: Vec::new(), grants: Vec::new(), spent: Vec::new() };
        assert(r@.pending =~= Seq::empty());
        assert(r@.grants =~= Seq::empty());
        assert(r@.spent =~= Seq::empty());
        r
    }

    /// Drops the grants whose time is up.
    fn prune_grants(&mut self, now: u64)
        ensures
            final(self)@ == (SharedSpec {
                grants: live_grants(old(self)@.grants, now),
                ..old(self)@
            }),
    {
        let ghost all = self@.grants;
        let mut live: Vec<Grant> = Vec::new();
        let mut i: usize = 0;
        assert(live@.map_values(|g: Grant| g@) =~= live_grants(all.take(0), now));
        while i < self.grants.len()
            invariant
                self@ == old(self)@,
                all == self.grants@.map_values(|g: Grant| g@),
                i <= self.grants@.len(),
                live@.map_values(|g: Grant| g@) == live_grants(all.take(i as int), now),
            decreases self.grants@.len() - i,
        {
            let ghost before = live@.map_values(|g: Grant| g@);
            assert(all.take(i + 1).drop_last() =~= all.take(i as int));
            assert(all.take(i + 1).last() == self.grants@[i as int]@);
            if self.grants[i].expires > now as u128 {
                live.push(
                    Grant {
                        argv_glob: self.grants[i].argv_glob.clone(),
                        expires: self.grants[i].expires,
                    },
                );
                assert(live@.map_values(|g: Grant| g@) =~= before.push(all[i as int]));
            }
            i += 1;
        }
        assert(all.take(self.grants@.len() as int) =~= all);
        self.grants = live;
    }

    /// Whether a live session grant covers the joined command. Grants whose time is up are
    /// dropped.
    pub fn grant_matches(&mut self, argv_joined: &str, now: u64) -> (r: bool)
        ensures
            final(self)@ == (SharedSpec {
                grants: live_grants(old(self)@.grants, now),
                ..old(self)@
            }),
            r == granted(live_grants(old(self)@.grants, now), argv_joined@),
    {
        self.prune_grants(now);
        let ghost all = self@.grants;
        let mut i: usize = 0;
        while i < self.grants.len()
            invariant
                self@ == (SharedSpec {
                    grants: live_grants(old(self)@.grants, now),
                    ..old(self)@
                }),
                all == live_grants(old(self)@.grants, now),
                all == self.grants@.map_values(|g: Grant| g@),
                i <= self.grants@.len(),
                forall|k: int|
                    0 <= k < i ==> !glob_covers((#[trigger] all[k]).argv_glob, argv_joined@),
            decreases self.grants@.len() - i,
        {
            assert(all[i as int] == self.grants@[i as int]@);
            if glob_matches(self.grants[i].argv_glob.as_str(), argv_joined) {
                return true;
            }
            i += 1;
        }
        false
    }

    /// Grants commands that a glob covers for some seconds.
    pub fn add_grant(&mut self, argv_glob: String, ttl_secs: u64, now: u64)
        ensures
            final(self)@.grants == with_grant(old(self)@.grants, argv_glob@, ttl_secs, now),
            final(self)@ == (SharedSpec {
                grants: old(self)@.grants.push(
                    GrantSpec {
                        argv_glob: argv_glob@,
                        expires: (now + ttl_secs * SECOND) as u128,
                    },
                ),
                ..old(self)@
            }),
    {
        assert(ttl_secs * SECOND <= u64::MAX * 1_000_000_000) by (nonlinear_arith)
            requires
                SECOND == 1_000_000_000,
        ;
        let ttl: u128 = ttl_secs as u128 * SECOND as u128;
        let expires: u128 = now as u128 + ttl;
        self.grants.push(Grant { argv_glob, expires });
        assert(self@.grants =~= old(self)@.grants.push(
            GrantSpec { argv_glob: argv_glob@, expires },
        ));
    }

    /// The live grants and the seconds each has left.
    pub fn grant_snapshot(&mut self, now: u64) -> (r: Vec<GrantInfo>)
        ensures
            final(self)@ == (SharedSpec {
                grants: live_grants(old(self)@.grants, now),
                ..old(self)@
            }),
            grants_view(r@) == grant_lines(live_grants(old(self)@.grants, now), now),
    {
        proof {
            law_grants_only_expire(self@.grants, now, now);
        }
        self.prune_grants(now);
        let ghost all = self@.grants;
        let mut out: Vec<GrantInfo> = Vec::new();
        let mut i: usize = 0;
        while i < self.grants.len()
            invariant
                all == self.grants@.map_values(|g: Grant| g@),
                forall|g: GrantSpec| #[trigger] all.contains(g) ==> g.expires > now,
                i <= self.grants@.len(),
                out@.len() == i,
                forall|k: int|
                    0 <= k < i ==> (#[trigger] out@[k])@ == (
                        all[k].argv_glob,
                        secs_left(all[k].expires, now),
                    ),
            decreases self.grants@.len() - i,
        {
            let g = &self.grants[i];
            assert(all[i as int] == g@);
            assert(all.contains(all[i as int]));
            let secs: u128 = (g.expires - now as u128) / SECOND as u128;
            let left: u64 = if secs > u64::MAX as u128 {
                u64::MAX
            } else {
                secs as u64
            };
            out.push(GrantInfo { argv_glob: g.argv_glob.clone(), expires_in_secs: left });
            i += 1;
        }
        assert(grants_view(out@) =~= grant_lines(all, now));
        out
    }

    fn find(&self, digest: &str) -> (r: Option<usize>)
        ensures
            match r {
                Some(at) => waits_at(self@.pending, digest@, at as int),
                None => !waits(self@.pending, digest@),
            },
    {
        let mut i: usize = 0;
        while i < self.pending.len()
            invariant
                i <= self.pending@.len(),
                forall|k: int| 0 <= k < i ==> !waits_at(self@.pending, digest@, k),
            decreases self.pending@.len() - i,
        {
            assert(self@.pending[i as int] == self.pending@[i as int]@);
            if same(self.pending[i].digest.as_str(), digest) {
                return Some(i);
            }
            i += 1;
        }
        assert forall|at: int| !waits_at(self@.pending, digest@, at) by {}
        None
    }

    /// Whether a request with this digest waits.
    pub fn is_pending(&self, digest: &str) -> (r: bool)
        ensures
            r == waits(self@.pending, digest@),
    {
        self.find(digest).is_some()
    }

    /// Puts a request on the list under its digest, unless it waits already.
    pub fn insert_pending(&mut self, digest: String, entry: Pending) -> (r: bool)
        requires
            old(self)@.wf(),
            digest@ == request_digest(entry.request@),
            digest@.len() == 64,
        ensures
            r == !waits(old(self)@.pending, digest@),
            r ==> final(self)@ == (SharedSpec {
                pending: old(self)@.pending.push(waiting_spec(digest@, entry)),
                ..old(self)@
            }),
            !r ==> final(self)@ == old(self)@,
            final(self)@.wf(),
    {
        if self.is_pending(digest.as_str()) {
            return false;
        }
        proof {
            let p = self@.pending;
            let q = p.push(waiting_spec(digest@, entry));
            assert forall|i: int, j: int| 0 <= i < j < q.len() implies (#[trigger] q[i]).digest != (
            #[trigger] q[j]).digest by {
                if j == p.len() {
                    assert(!waits_at(p, digest@, i));
                }
            }
        }
        self.pending.push(Waiting { digest, entry });
        assert(self@.pending =~= old(self)@.pending.push(waiting_spec(digest@, entry)));
        true
    }

    /// The nonce of a waiting request, which stays on the list.
    pub fn pending_nonce(&self, digest: &str) -> (r: Option<String>)
        ensures
            match r {
                Some(nonce) => exists|at: int|
                    #[trigger] waits_at(self@.pending, digest@, at) && self@.pending[at].nonce
                        == nonce@,
                None => !waits(self@.pending, digest@),
            },
    {
        match self.find(digest) {
            Some(at) => {
                assert(self@.pending[at as int] == self.pending@[at as int]@);
                Some(self.pending[at].entry.nonce.clone())
            },
            None => None,
        }
    }

    /// Removes the request with this digest, if it waits.
    pub fn remove_pending(&mut self, digest: &str)
        requires
            old(self)@.wf(),
        ensures
            final(self)@.wf(),
            !waits(final(self)@.pending, digest@),
            !waits(old(self)@.pending, digest@) ==> final(self)@ == old(self)@,
            forall|at: int|
                #[trigger] waits_at(old(self)@.pending, digest@, at) ==> final(self)@ == (
                SharedSpec { pending: old(self)@.pending.remove(at), ..old(self)@ }),
    {
        if let Some(at) = self.find(digest) {
            let ghost p = self@.pending;
            self.pending.remove(at);
            proof {
                let q = p.remove(at as int);
                assert(self@.pending =~= q);
                assert forall|k: int| !waits_at(q, digest@, k) by {
                    if waits_at(q, digest@, k) {
                        if k < at {
                            assert(q[k] == p[k]);
                            assert(p[k].digest != p[at as int].digest);
                        } else {
                            assert(q[k] == p[k + 1]);
                            assert(p[at as int].digest != p[k + 1].digest);
                        }
                    }
                }
                assert forall|k: int| #[trigger] waits_at(p, digest@, k) implies k == at by {
                    if k < at {
                        assert(p[k].digest != p[at as int].digest);
                    } else if k > at {
                        assert(p[at as int].digest != p[k].digest);
                    }
                }
            }
        }
    }

    /// Removes and returns the request that a digest prefix names. It fails where no digest
    /// or more than one starts with the prefix.
    pub fn take_pending(&mut self, digest_prefix: &str) -> (r: Result<(String, Pending), String>)
        requires
            old(self)@.wf(),
        ensures
            final(self)@.wf(),
            match r {
                Ok((digest, entry)) => exists|at: int|
                    {
                        &&& #[trigger] only_hit(old(self)@.pending, digest_prefix@, at)
                        &&& waiting_spec(digest@, entry) == old(self)@.pending[at]
                        &&& final(self)@ == (SharedSpec {
                            pending: old(self)@.pending.remove(at),
                            ..old(self)@
                        })
                    },
                Err(message) => {
                    &&& hit_count(old(self)@.pending, digest_prefix@) != 1
                    &&& forall|at: int| !#[trigger] only_hit(old(self)@.pending, digest_prefix@, at)
                    &&& message@ == take_refusal(old(self)@.pending, digest_prefix@)
                    &&& final(self)@ == old(self)@
                },
            },
    {
        let ghost p = self@.pending;
        let mut count: usize = 0;
        let mut at: usize = 0;
        let mut i: usize = 0;
        while i < self.pending.len()
            invariant
                self@ == old(self)@,
                p == self@.pending,
                i <= self.pending.len(),
                count <= i,
                count == hit_count(p.take(i as int), digest_prefix@),
                count > 0 ==> at < i && digest_prefix@.is_prefix_of(p[at as int].digest),
                count == 1 ==> forall|k: int|
                    0 <= k < i && k != at ==> !digest_prefix@.is_prefix_of((#[trigger] p[k]).digest),
            decreases self.pending.len() - i,
        {
            assert(p[i as int] == self.pending@[i as int]@);
            assert(p.take(i + 1).drop_last() =~= p.take(i as int));
            assert(p.take(i + 1).last() == p[i as int]);
            proof {
                if count == 0 {
                    lemma_hits_none(p.take(i as int), digest_prefix@);
                    assert forall|k: int| 0 <= k < i implies !digest_prefix@.is_prefix_of(
                        (#[trigger] p[k]).digest,
                    ) by {
                        assert(p.take(i as int)[k] == p[k]);
                    }
                }
            }
            if starts_with(self.pending[i].digest.as_str(), digest_prefix) {
                count += 1;
                at = i;
            }
            i += 1;
        }
        assert(p.take(p.len() as int) =~= p);
        if count == 1 {
            assert(only_hit(p, digest_prefix@, at as int));
            let w = self.pending.remove(at);
            proof {
                let q = p.remove(at as int);
                assert(self@.pending =~= q);
                assert(w@ == p[at as int]);
                assert forall|a: int, b: int| 0 <= a < b < q.len() implies (
                #[trigger] q[a]).digest != (#[trigger] q[b]).digest by {
                    let x = if a < at { a } else { a + 1 };
                    let y = if b < at { b } else { b + 1 };
                    assert(q[a] == p[x] && q[b] == p[y]);
                    assert(p[x].digest != p[y].digest);
                }
                assert forall|k: int| 0 <= k < q.len() implies {
                    &&& (#[trigger] q[k]).digest == request_digest(q[k].request)
                    &&& q[k].digest.len() == 64
                } by {
                    let x = if k < at { k } else { k + 1 };
                    assert(q[k] == p[x]);
                }
            }
            return Ok((w.digest, w.entry));
        }
        proof {
            assert forall|k: int| !#[trigger] only_hit(p, digest_prefix@, k) by {
                if only_hit(p, digest_prefix@, k) {
                    lemma_only_hit_counts(p, digest_prefix@, k);
                }
            }
        }
        let mut out = String::new();
        if count == 0 {
            out.append("no pending request matches '");
            out.append(digest_prefix);
            out.append("'");
        } else {
            out.append("'");
            out.append(digest_prefix);
            out.append("' is ambiguous (");
            out.append(to_decimal(count as u64).as_str());
            out.append(" matches); use more characters");
        }
        assert(out@ =~= take_refusal(p, digest_prefix@));
        Err(out)
    }

    /// The waiting requests as the approver sees them, from the oldest to the youngest.
    pub fn pending_snapshot(&self, now: u64) -> (r: Vec<PendingEntry>)
        ensures
            shows_pending(entries_view(r@), self@.pending, now),
    {
        let ghost p = self@.pending;
        let ghost all = pending_entries(p, now);
        let mut out: Vec<PendingEntry> = Vec::new();
        let mut i: usize = 0;
        assert(entries_view(out@) =~= all.take(0));
        while i < self.pending.len()
            invariant
                p == self@.pending,
                all == pending_entries(p, now),
                i <= self.pending@.len(),
                out@.len() == i,
                entries_view(out@).to_multiset() == all.take(i as int).to_multiset(),
                oldest_first(entries_view(out@)),
            decreases self.pending@.len() - i,
        {
            let w = &self.pending[i];
            assert(p[i as int] == w@);
            let age_secs: u64 = if now >= w.entry.submitted {
                (now - w.entry.submitted) / SECOND
            } else {
                0
            };
            let e = PendingEntry {
                digest: w.digest.clone(),
                summary: w.entry.request.summary(),
                tier: w.entry.tier,
                harness: w.entry.request.harness.clone(),
                age_secs,
            };
            assert(e@ == all[i as int]);
            let mut at: usize = out.len();
            while at > 0 && out[at - 1].age_secs < age_secs
                invariant
                    at <= out@.len(),
                    forall|k: int| at <= k < out@.len() ==> (#[trigger] out@[k]).age_secs < age_secs,
                decreases at,
            {
                at -= 1;
            }
            let ghost before = entries_view(out@);
            proof {
                assert forall|k: int| 0 <= k < at implies before[k].age_secs >= age_secs by {
                    assert(before[at - 1].age_secs == out@[at - 1].age_secs);
                }
                assert forall|k: int| at <= k < before.len() implies before[k].age_secs
                    < age_secs by {
                    assert(before[k].age_secs == out@[k].age_secs);
                }
            }
            out.insert(at, e);
            proof {
                let after = entries_view(out@);
                assert(after =~= before.insert(at as int, e@));
                to_multiset_insert(before, at as int, e@);
                assert(all.take(i + 1) =~= all.take(i as int).push(all[i as int]));
                to_multiset_build(all.take(i as int), all[i as int]);
                assert forall|a: int, b: int| 0 <= a < b < after.len() implies (
                #[trigger] after[a]).age_secs >= (#[trigger] after[b]).age_secs by {
                    let x = if a < at { a } else { a - 1 };
                    let y = if b < at { b } else { b - 1 };
                    if a != at && b != at {
                        assert(after[a] == before[x] && after[b] == before[y]);
                    } else if a == at {
                        assert(after[b] == before[y]);
                    } else {
                        assert(after[a] == before[x]);
                    }
                }
            }
            i += 1;
        }
        assert(all.take(p.len() as int) =~= all);
        out
    }

    /// Spends a nonce on an approval that is valid until a given time. Returns false where
    /// the nonce was spent before on an approval that is still valid; those of approvals that
    /// have expired are forgotten.
    pub fn spend_nonce(&mut self, nonce: &str, until: i64, now: i64) -> (r: bool)
        ensures
            r == !nonce_spent(still_spent(old(self)@.spent, now), nonce@),
            final(self)@ == (SharedSpec {
                spent: if r {
                    still_spent(old(self)@.spent, now).push(SpentSpec { nonce: nonce@, until })
                } else {
                    still_spent(old(self)@.spent, now)
                },
                ..old(self)@
            }),
    {
        let ghost all = self@.spent;
        let mut live: Vec<Spent> = Vec::new();
        let mut found = false;
        let mut i: usize = 0;
        assert(live@.map_values(|s: Spent| s@) =~= still_spent(all.take(0), now));
        while i < self.spent.len()
            invariant
                self@ == old(self)@,
                all == self.spent@.map_values(|s: Spent| s@),
                i <= self.spent@.len(),
                live@.map_values(|s: Spent| s@) == still_spent(all.take(i as int), now),
                found == nonce_spent(still_spent(all.take(i as int), now), nonce@),
            decreases self.spent@.len() - i,
        {
            let ghost before = live@.map_values(|s: Spent| s@);
            assert(all.take(i + 1).drop_last() =~= all.take(i as int));
            assert(all.take(i + 1).last() == self.spent@[i as int]@);
            if self.spent[i].until >= now {
                let hit = same(self.spent[i].nonce.as_str(), nonce);
                proof {
                    let after = before.push(all[i as int]);
                    assert(after[before.len() as int] == all[i as int]);
                    if found {
                        let k = choose|k: int|
                            0 <= k < before.len() && (#[trigger] before[k]).nonce == nonce@;
                        assert(after[k].nonce == nonce@);
                    }
                    if !found && !hit {
                        assert forall|k: int| 0 <= k < after.len() implies (
                        #[trigger] after[k]).nonce != nonce@ by {
                            if k < before.len() {
                                assert(after[k] == before[k]);
                            }
                        }
                    }
                }
                if hit {
                    found = true;
                }
                live.push(Spent { nonce: self.spent[i].nonce.clone(), until: self.spent[i].until });
                assert(live@.map_values(|s: Spent| s@) =~= before.push(all[i as int]));
            }
            i += 1;
        }
        assert(all.take(self.spent@.len() as int) =~= all);
        if !found {
            let ghost before = live@.map_values(|s: Spent| s@);
            live.push(Spent { nonce: nonce.to_owned(), until });
            assert(live@.map_values(|s: Spent| s@) =~= before.push(
                SpentSpec { nonce: nonce@, until },
            ));
        }
        self.spent = live;
        !found
    }
}

}
