//! The relay between phones and daemons.
//!
//! Phones present a bearer token and call the daemon it selects; daemons keep one link each. The
//! relay only carries messages. It cannot make an approval, which needs an assertion that the
//! daemon verifies, and it cannot move one onto another request, because the challenge is derived
//! from the request.
use vstd::prelude::*;
use vstd::string::*;

use crate::codec::{lemma_hex_digits, new_uuid, uuid_in, uuid_text, uuid_to_text};
use crate::daemon::devices::{
    authorization, authorize_phone, devices_view, lookup_token, selected, Authz, AuthzSpec, Secret,
    MTLS_DEVICE,
};
use crate::json::{Json, JsonSpec};
use crate::proto::relay::{DaemonToRelay, DeviceRecord, DeviceSpec};
use crate::text::{after_prefix, opt_str, opt_text, same, strip_prefix, texts};

verus! {

/// The link of one daemon, with the calls that wait for its answer.
pub struct Link {
    pub device: String,
    pub calls: Vec<String>,
}

/// An id for a call: a random UUID.
pub fn new_call_id() -> (r: String)
    ensures
        r@.len() == 36,
        r@[14] == '4',
        exists|id: u128| r@ == #[trigger] uuid_text(id) && uuid_in(JsonSpec::Text(r@)) == Ok::<
            u128,
            Seq<char>,
        >(id),
{
    let id = new_uuid();
    proof {
        lemma_hex_digits(id as nat, 32);
    }
    uuid_to_text(id)
}

/// The daemons that are connected.
pub struct Hub {
    pub links: Vec<Link>,
}

/// Whether the link at a position is that of a device.
pub open spec fn links_to(links: Seq<Link>, device: Seq<char>, at: int) -> bool {
    0 <= at < links.len() && links[at].device@ == device
}

/// Whether a device is connected.
pub open spec fn connected(links: Seq<Link>, device: Seq<char>) -> bool {
    exists|at: int| links_to(links, device, at)
}

/// The calls that wait for a device.
pub open spec fn calls_of(links: Seq<Link>, device: Seq<char>) -> Set<Seq<char>> {
    let at = choose|at: int| links_to(links, device, at);
    texts(links[at].calls@).to_set()
}

/// The connected devices, each with the calls that wait for it.
impl View for Hub {
    type V = Map<Seq<char>, Set<Seq<char>>>;

    open spec fn view(&self) -> Map<Seq<char>, Set<Seq<char>>> {
        Map::new(
            |device: Seq<char>| connected(self.links@, device),
            |device: Seq<char>| calls_of(self.links@, device),
        )
    }
}

/// The calls that wait at a hub, by device.
pub type Waits = Map<Seq<char>, Set<Seq<char>>>;

/// The hub after a device connected, unless it was connected already.
pub open spec fn after_connect(h: Waits, device: Seq<char>) -> Waits {
    if h.contains_key(device) {
        h
    } else {
        h.insert(device, Set::empty())
    }
}

/// The hub after a call began to wait for a device, if that is connected.
pub open spec fn after_begin(h: Waits, device: Seq<char>, id: Seq<char>) -> Waits {
    if h.contains_key(device) {
        h.insert(device, h[device].insert(id))
    } else {
        h
    }
}

/// Whether a call waits for a device.
pub open spec fn call_waits(h: Waits, device: Seq<char>, id: Seq<char>) -> bool {
    h.contains_key(device) && h[device].contains(id)
}

/// The hub after a call no longer waits for a device.
pub open spec fn after_end(h: Waits, device: Seq<char>, id: Seq<char>) -> Waits {
    if call_waits(h, device, id) {
        h.insert(device, h[device].remove(id))
    } else {
        h
    }
}

/// The hub after a device is gone.
pub open spec fn after_disconnect(h: Waits, device: Seq<char>) -> Waits {
    h.remove(device)
}

/// What a hub makes of a message that came in over the link of a device: the call that is answered,
/// if it waits for that device, and with what.
pub open spec fn answered_by(h: Waits, device: Seq<char>, msg: DaemonToRelay) -> Option<
    (Seq<char>, Result<Json, String>),
> {
    match msg {
        DaemonToRelay::Hello { .. } => None,
        DaemonToRelay::RpcOk { id, body } => if call_waits(h, device, id@) {
            Some((id@, Ok(body)))
        } else {
            None
        },
        DaemonToRelay::RpcErr { id, message } => if call_waits(h, device, id@) {
            Some((id@, Err(message)))
        } else {
            None
        },
    }
}

impl Hub {
    /// A device has one link, and a call waits once.
    pub open spec fn wf(self) -> bool {
        &&& forall|i: int, j: int|
            0 <= i < j < self.links@.len() ==> (#[trigger] self.links@[i]).device@ != (
            #[trigger] self.links@[j]).device@
        &&& forall|i: int|
            0 <= i < self.links@.len() ==> texts(
                (#[trigger] self.links@[i]).calls@,
            ).no_duplicates()
    }

    proof fn lemma_link(self, at: int)
        requires
            self.wf(),
            0 <= at < self.links@.len(),
        ensures
            self@.contains_key(self.links@[at].device@),
            self@[self.links@[at].device@] == texts(self.links@[at].calls@).to_set(),
    {
        let d = self.links@[at].device@;
        assert(links_to(self.links@, d, at));
        let k = choose|k: int| links_to(self.links@, d, k);
        assert(k == at) by {
            if k < at {
                assert(self.links@[k].device@ != self.links@[at].device@);
            } else if at < k {
                assert(self.links@[at].device@ != self.links@[k].device@);
            }
        }
    }

    /// No daemon is connected.
    pub fn new() -> (r: Hub)
        ensures
            r.wf(),
            r@ == Map::<Seq<char>, Set<Seq<char>>>::empty(),
    {
        let r = Hub { links: Vec::new() };
        assert(r@ =~= Map::<Seq<char>, Set<Seq<char>>>::empty()) by {
            assert forall|d: Seq<char>| !connected(r.links@, d) by {
                if connected(r.links@, d) {
                    let k = choose|k: int| links_to(r.links@, d, k);
                    assert(links_to(r.links@, d, k));
                }
            }
        }
        r
    }

    fn find(&self, device: &str) -> (r: Option<usize>)
        requires
            self.wf(),
        ensures
            match r {
                Some(at) => links_to(self.links@, device@, at as int) && self@.contains_key(device@)
                    && self@[device@] == texts(self.links@[at as int].calls@).to_set(),
                None => !self@.contains_key(device@),
            },
    {
        let mut i: usize = 0;
        while i < self.links.len()
            invariant
                self.wf(),
                i <= self.links@.len(),
                forall|k: int| 0 <= k < i ==> !links_to(self.links@, device@, k),
            decreases self.links@.len() - i,
        {
            if same(self.links[i].device.as_str(), device) {
                proof {
                    self.lemma_link(i as int);
                }
                return Some(i);
            }
            i += 1;
        }
        assert forall|at: int| !links_to(self.links@, device@, at) by {}
        None
    }

    /// Whether a device is connected.
    pub fn is_connected(&self, device: &str) -> (r: bool)
        requires
            self.wf(),
        ensures
            r == self@.contains_key(device@),
    {
        self.find(device).is_some()
    }

    /// Connects a device. Returns false where it is connected already: the second connection is
    /// turned away and the first one stays.
    pub fn connect(&mut self, device: &str) -> (r: bool)
        requires
            old(self).wf(),
        ensures
            final(self).wf(),
            final(self)@ == after_connect(old(self)@, device@),
            r == !old(self)@.contains_key(device@),
            r ==> final(self)@ == old(self)@.insert(device@, Set::empty()),
            !r ==> final(self)@ == old(self)@,
    {
        if self.is_connected(device) {
            return false;
        }
        let ghost before = *self;
        self.links.push(Link { device: device.to_owned(), calls: Vec::new() });
        proof {
            let old_links = before.links@;
            let links = self.links@;
            assert forall|i: int, j: int| 0 <= i < j < links.len() implies (
            #[trigger] links[i]).device@ != (#[trigger] links[j]).device@ by {
                if j == old_links.len() {
                    assert(!links_to(old_links, device@, i));
                }
            }
            assert(self.wf());
            assert forall|d: Seq<char>| #[trigger]
                self@.contains_key(d) <==> before@.contains_key(d) || d == device@ by {
                if self@.contains_key(d) {
                    let k = choose|k: int| links_to(links, d, k);
                    if k < old_links.len() {
                        assert(links_to(old_links, d, k));
                    }
                }
                if before@.contains_key(d) {
                    let k = choose|k: int| links_to(old_links, d, k);
                    assert(links_to(links, d, k));
                }
                if d == device@ {
                    assert(links_to(links, d, old_links.len() as int));
                }
            }
            self.lemma_link(old_links.len() as int);
            assert(texts(links[old_links.len() as int].calls@).to_set() =~= Set::empty());
            assert forall|d: Seq<char>| #[trigger] before@.contains_key(d) implies self@[d]
                == before@[d] by {
                let k = choose|k: int| links_to(old_links, d, k);
                before.lemma_link(k);
                self.lemma_link(k);
            }
            assert(self@ =~= before@.insert(device@, Set::empty()));
        }
        true
    }

    proof fn lemma_update(self, after: Hub, at: int, calls: Set<Seq<char>>)
        requires
            self.wf(),
            0 <= at < self.links@.len(),
            after.links@.len() == self.links@.len(),
            forall|k: int|
                0 <= k < self.links@.len() && k != at ==> after.links@[k] == self.links@[k],
            after.links@[at].device@ == self.links@[at].device@,
            texts(after.links@[at].calls@).no_duplicates(),
            texts(after.links@[at].calls@).to_set() == calls,
        ensures
            after.wf(),
            after@ == self@.insert(self.links@[at].device@, calls),
    {
        let a = self.links@;
        let b = after.links@;
        let device = a[at].device@;
        assert forall|k: int| 0 <= k < a.len() implies (#[trigger] b[k]).device@ == a[k].device@ by {
            if k != at {
                assert(b[k] == a[k]);
            }
        }
        assert forall|i: int, j: int| 0 <= i < j < b.len() implies (#[trigger] b[i]).device@ != (
        #[trigger] b[j]).device@ by {
            assert(a[i].device@ != a[j].device@);
        }
        assert forall|i: int| 0 <= i < b.len() implies texts(
            (#[trigger] b[i]).calls@,
        ).no_duplicates() by {
            if i != at {
                assert(b[i] == a[i]);
            }
        }
        assert(after.wf());
        self.lemma_link(at);
        assert forall|d: Seq<char>| #[trigger] after@.contains_key(d) <==> self@.contains_key(d) by {
            if after@.contains_key(d) {
                let k = choose|k: int| links_to(b, d, k);
                assert(links_to(a, d, k));
            }
            if self@.contains_key(d) {
                let k = choose|k: int| links_to(a, d, k);
                assert(b[k].device@ == a[k].device@);
                assert(links_to(b, d, k));
            }
        }
        assert forall|d: Seq<char>| #[trigger] self@.contains_key(d) implies after@[d] == (if d
            == device {
            calls
        } else {
            self@[d]
        }) by {
            let k = choose|k: int| links_to(a, d, k);
            assert(b[k].device@ == a[k].device@);
            self.lemma_link(k);
            after.lemma_link(k);
            if k == at {
                assert(d == device);
            } else {
                assert(b[k] == a[k]);
                if k < at {
                    assert(a[k].device@ != a[at].device@);
                } else {
                    assert(a[at].device@ != a[k].device@);
                }
            }
        }
        assert(after@ =~= self@.insert(device, calls));
    }

    fn replace_calls(&mut self, at: usize, calls: Vec<String>)
        requires
            old(self).wf(),
            at < old(self).links@.len(),
            texts(calls@).no_duplicates(),
        ensures
            final(self).wf(),
            final(self)@ == old(self)@.insert(
                old(self).links@[at as int].device@,
                texts(calls@).to_set(),
            ),
    {
        let ghost before = *self;
        let device = self.links[at].device.clone();
        self.links.set(at, Link { device, calls });
        proof {
            before.lemma_update(*self, at as int, texts(calls@).to_set());
        }
    }

    /// Notes that a call waits for a device. Returns false where the device is not connected.
    pub fn begin_call(&mut self, device: &str, id: &str) -> (r: bool)
        requires
            old(self).wf(),
        ensures
            final(self).wf(),
            final(self)@ == after_begin(old(self)@, device@, id@),
            r == old(self)@.contains_key(device@),
            r ==> final(self)@ == old(self)@.insert(
                device@,
                old(self)@[device@].insert(id@),
            ),
            !r ==> final(self)@ == old(self)@,
    {
        let at = match self.find(device) {
            Some(at) => at,
            None => {
                return false;
            },
        };
        let mut calls = crate::text::copy_texts(&self.links[at].calls);
        let ghost had = texts(calls@);
        if crate::proto::policy::holds_text(&calls, id) {
            assert(had.to_set() =~= had.to_set().insert(id@));
        } else {
            calls.push(id.to_owned());
            proof {
                assert(texts(calls@) =~= had.push(id@));
                lemma_push_set(had, id@);
            }
        }
        self.replace_calls(at, calls);
        true
    }

    /// Notes that a call no longer waits for a device: it was answered or given up. Returns whether
    /// it was waiting for that device.
    pub fn end_call(&mut self, device: &str, id: &str) -> (r: bool)
        requires
            old(self).wf(),
        ensures
            final(self).wf(),
            r == call_waits(old(self)@, device@, id@),
            final(self)@ == after_end(old(self)@, device@, id@),
            r == (old(self)@.contains_key(device@) && old(self)@[device@].contains(id@)),
            r ==> final(self)@ == old(self)@.insert(device@, old(self)@[device@].remove(id@)),
            !r ==> final(self)@ == old(self)@,
    {
        let at = match self.find(device) {
            Some(at) => at,
            None => {
                return false;
            },
        };
        let list = &self.links[at].calls;
        let ghost had = texts(list@);
        let mut i: usize = 0;
        while i < list.len() && !same(list[i].as_str(), id)
            invariant
                had == texts(list@),
                i <= list@.len(),
                forall|k: int| 0 <= k < i ==> had[k] != id@,
            decreases list@.len() - i,
        {
            assert(had[i as int] == list@[i as int]@);
            i += 1;
        }
        if i == list.len() {
            assert(!had.contains(id@));
            return false;
        }
        assert(had[i as int] == id@);
        assert(had.contains(id@));
        let mut calls = crate::text::copy_texts(list);
        calls.remove(i);
        proof {
            assert(texts(calls@) =~= had.remove(i as int));
            lemma_remove_set(had, i as int);
        }
        self.replace_calls(at, calls);
        true
    }

    /// Disconnects a device. Returns the calls that were waiting for it, which have all failed.
    pub fn disconnect(&mut self, device: &str) -> (r: Vec<String>)
        requires
            old(self).wf(),
        ensures
            final(self).wf(),
            final(self)@ == after_disconnect(old(self)@, device@),
            final(self)@ == old(self)@.remove(device@),
            texts(r@).no_duplicates(),
            old(self)@.contains_key(device@) ==> texts(r@).to_set() == old(self)@[device@],
            !old(self)@.contains_key(device@) ==> r@.len() == 0,
    {
        let at = match self.find(device) {
            Some(at) => at,
            None => {
                assert(self@ =~= self@.remove(device@));
                return Vec::new();
            },
        };
        let ghost before = *self;
        let link = self.links.remove(at);
        proof {
            let a = before.links@;
            let b = self.links@;
            assert forall|i: int| 0 <= i < b.len() implies #[trigger] b[i] == a[if i < at {
                i
            } else {
                i + 1
            }] by {}
            assert forall|i: int, j: int| 0 <= i < j < b.len() implies (
            #[trigger] b[i]).device@ != (#[trigger] b[j]).device@ by {
                let x = if i < at { i } else { i + 1 };
                let y = if j < at { j } else { j + 1 };
                assert(a[x].device@ != a[y].device@);
            }
            assert forall|i: int| 0 <= i < b.len() implies texts(
                (#[trigger] b[i]).calls@,
            ).no_duplicates() by {
                let x = if i < at { i } else { i + 1 };
                assert(texts(a[x].calls@).no_duplicates());
            }
            assert(self.wf());
            assert forall|d: Seq<char>| #[trigger]
                self@.contains_key(d) <==> before@.contains_key(d) && d != device@ by {
                if self@.contains_key(d) {
                    let k = choose|k: int| links_to(b, d, k);
                    let x = if k < at { k } else { k + 1 };
                    assert(b[k] == a[x]);
                    assert(links_to(a, d, x));
                    if x < at {
                        assert(a[x].device@ != a[at as int].device@);
                    } else {
                        assert(a[at as int].device@ != a[x].device@);
                    }
                }
                if before@.contains_key(d) && d != device@ {
                    let x = choose|x: int| links_to(a, d, x);
                    let k = if x < at { x } else { x - 1 };
                    assert(b[k] == a[x]);
                    assert(links_to(b, d, k));
                }
            }
            assert forall|d: Seq<char>| #[trigger] self@.contains_key(d) implies self@[d]
                == before@[d] by {
                let k = choose|k: int| links_to(b, d, k);
                let x = if k < at { k } else { k + 1 };
                assert(b[k] == a[x]);
                self.lemma_link(k);
                before.lemma_link(x);
            }
            assert(self@ =~= before@.remove(device@));
        }
        link.calls
    }
}

proof fn lemma_push_set(s: Seq<Seq<char>>, x: Seq<char>)
    requires
        s.no_duplicates(),
        !s.contains(x),
    ensures
        s.push(x).no_duplicates(),
        s.push(x).to_set() == s.to_set().insert(x),
{
    let t = s.push(x);
    assert forall|y: Seq<char>| #[trigger] t.to_set().contains(y) <==> s.to_set().insert(
        x,
    ).contains(y) by {
        if s.contains(y) {
            let k = choose|k: int| 0 <= k < s.len() && s[k] == y;
            assert(t[k] == y);
        }
        if y == x {
            assert(t[s.len() as int] == x);
        }
        if t.contains(y) {
            let k = choose|k: int| 0 <= k < t.len() && t[k] == y;
            if k < s.len() {
                assert(s[k] == y);
            }
        }
    }
    assert(t.to_set() =~= s.to_set().insert(x));
}

proof fn lemma_remove_set(s: Seq<Seq<char>>, i: int)
    requires
        s.no_duplicates(),
        0 <= i < s.len(),
    ensures
        s.remove(i).no_duplicates(),
        s.remove(i).to_set() == s.to_set().remove(s[i]),
{
    let t = s.remove(i);
    assert forall|y: Seq<char>| #[trigger] t.to_set().contains(y) <==> s.to_set().remove(
        s[i],
    ).contains(y) by {
        if t.contains(y) {
            let k = choose|k: int| 0 <= k < t.len() && t[k] == y;
            let x = if k < i { k } else { k + 1 };
            assert(s[x] == y);
        }
        if s.contains(y) && y != s[i] {
            let x = choose|x: int| 0 <= x < s.len() && s[x] == y;
            let k = if x < i { x } else { x - 1 };
            assert(t[k] == y);
        }
    }
    assert(t.to_set() =~= s.to_set().remove(s[i]));
}

/// What to do about a message of a daemon.
pub enum LinkEvent {
    /// Nothing.
    Ignore,
    /// Hand an answer to the call that waits for it.
    Answer { id: String, reply: Result<Json, String> },
}

/// Takes a message that came in over the link of a device. An answer counts only where the call
/// waits for that device; what a daemon says about its own identity does not.
pub fn on_message(hub: &mut Hub, device: &str, msg: DaemonToRelay) -> (r: LinkEvent)
    requires
        old(hub).wf(),
    ensures
        final(hub).wf(),
        match answered_by(old(hub)@, device@, msg) {
            Some((id, with)) => {
                &&& r matches LinkEvent::Answer { id: i, reply }
                &&& i@ == id
                &&& reply == with
                &&& final(hub)@ == after_end(old(hub)@, device@, id)
            },
            None => r is Ignore && final(hub)@ == old(hub)@,
        },
        match msg {
            DaemonToRelay::Hello { .. } => r is Ignore && final(hub)@ == old(hub)@,
            DaemonToRelay::RpcOk { id, body } => if old(hub)@.contains_key(device@) && old(
                hub,
            )@[device@].contains(id@) {
                &&& r matches LinkEvent::Answer { id: i, reply }
                &&& i == id
                &&& reply == Ok::<Json, String>(body)
                &&& final(hub)@ == old(hub)@.insert(device@, old(hub)@[device@].remove(id@))
            } else {
                r is Ignore && final(hub)@ == old(hub)@
            },
            DaemonToRelay::RpcErr { id, message } => if old(hub)@.contains_key(device@) && old(
                hub,
            )@[device@].contains(id@) {
                &&& r matches LinkEvent::Answer { id: i, reply }
                &&& i == id
                &&& reply == Err::<Json, String>(message)
                &&& final(hub)@ == old(hub)@.insert(device@, old(hub)@[device@].remove(id@))
            } else {
                r is Ignore && final(hub)@ == old(hub)@
            },
        },
{
    match msg {
        DaemonToRelay::Hello { .. } => LinkEvent::Ignore,
        DaemonToRelay::RpcOk { id, body } => if hub.end_call(device, id.as_str()) {
            LinkEvent::Answer { id, reply: Ok(body) }
        } else {
            LinkEvent::Ignore
        },
        DaemonToRelay::RpcErr { id, message } => if hub.end_call(device, id.as_str()) {
            LinkEvent::Answer { id, reply: Err(message) }
        } else {
            LinkEvent::Ignore
        },
    }
}

/// What happens at one link, whatever it is, leaves the calls of every other device alone.
pub proof fn law_links_are_isolated(
    hub: Map<Seq<char>, Set<Seq<char>>>,
    device: Seq<char>,
    calls: Set<Seq<char>>,
    other: Seq<char>,
)
    requires
        other != device,
    ensures
        hub.insert(device, calls).contains_key(other) == hub.contains_key(other),
        hub.contains_key(other) ==> hub.insert(device, calls)[other] == hub[other],
        hub.remove(device).contains_key(other) == hub.contains_key(other),
        hub.contains_key(other) ==> hub.remove(device)[other] == hub[other],
{
}

/// How a call to a daemon ends.
pub enum CallEnd {
    /// The daemon answered.
    Reply(Result<Json, String>),
    /// The link went away.
    Dropped,
    /// The daemon did not answer in time.
    TimedOut,
}

/// What a daemon is told whose device is connected already.
pub const ALREADY_CONNECTED: &'static str =
    "{\"type\":\"rpc_err\",\"id\":\"\",\"message\":\"device already connected\"}";

/// What a call fails with whose daemon has gone away.
pub const DISCONNECTED: &'static str = "daemon disconnected";

/// How long a daemon has to answer a call, in seconds.
pub const CALL_TIMEOUT_SECS: u64 = 60;

/// The status of a call for a daemon that is not connected.
pub const UNAVAILABLE: u16 = 503;

/// What the phone gets at the end of a call.
pub open spec fn call_outcome(end: CallEnd) -> Result<Json, u16> {
    match end {
        CallEnd::Reply(Ok(v)) => Ok(v),
        CallEnd::Reply(Err(_)) => Err(400),
        CallEnd::Dropped => Err(502),
        CallEnd::TimedOut => Err(504),
    }
}

/// What the phone gets at the end of a call: the answer, or the status of the failure.
pub fn call_result(end: CallEnd) -> (r: Result<Json, u16>)
    ensures
        r == call_outcome(end),
        r == (match end {
            CallEnd::Reply(Ok(v)) => Ok::<Json, u16>(v),
            CallEnd::Reply(Err(_)) => Err::<Json, u16>(400),
            CallEnd::Dropped => Err::<Json, u16>(502),
            CallEnd::TimedOut => Err::<Json, u16>(504),
        }),
{
    match end {
        CallEnd::Reply(Ok(v)) => Ok(v),
        CallEnd::Reply(Err(_)) => Err(400),
        CallEnd::Dropped => Err(502),
        CallEnd::TimedOut => Err(504),
    }
}

/// The status of a call that finishes an approval.
pub open spec fn finish_status(status: u16) -> u16 {
    if status == 400 {
        401
    } else {
        status
    }
}

/// What the phone gets at the end of a call that finishes an approval: a daemon that refuses it
/// makes the call unauthorized.
pub fn approve_finish_result(r: Result<Json, u16>) -> (w: Result<Json, u16>)
    ensures
        r matches Err(s) ==> w == Err::<Json, u16>(finish_status(s)),
        w == (match r {
            Ok(v) => Ok::<Json, u16>(v),
            Err(s) => Err::<Json, u16>(
                if s == 400 {
                    401u16
                } else {
                    s
                },
            ),
        }),
{
    match r {
        Ok(v) => Ok(v),
        Err(s) => if s == 400 {
            Err(401)
        } else {
            Err(s)
        },
    }
}

/// The device that a phone asks for: in the query, else in the header; an empty name is none.
pub open spec fn requested_device(query: Option<Seq<char>>, header: Option<Seq<char>>) -> Option<
    Seq<char>,
> {
    match query {
        Some(d) if d.len() > 0 => Some(d),
        _ => match header {
            Some(d) if d.len() > 0 => Some(d),
            _ => None,
        },
    }
}

/// The token in a header; empty where there is none.
pub open spec fn token_in(header: Option<Seq<char>>) -> Seq<char> {
    match header {
        Some(t) => t,
        None => Seq::empty(),
    }
}

/// Where a call of a phone goes, or the status with which it is turned away.
pub open spec fn phone_route(
    devices: Seq<DeviceSpec>,
    relay_phone_token: Seq<char>,
    token: Option<Seq<char>>,
    query: Option<Seq<char>>,
    header: Option<Seq<char>>,
) -> Result<Seq<char>, u16> {
    match authorization(
        devices,
        relay_phone_token,
        token_in(token),
        requested_device(query, header),
    ) {
        AuthzSpec::Device(d) => Ok(d),
        AuthzSpec::LegacyMtls => Ok(MTLS_DEVICE@),
        AuthzSpec::WrongDevice => Err(403),
        AuthzSpec::Unauthenticated => Err(401),
    }
}

/// What a device or a status says.
pub open spec fn route_view(r: Result<String, u16>) -> Result<Seq<char>, u16> {
    match r {
        Ok(d) => Ok(d@),
        Err(s) => Err(s),
    }
}

/// The device that a call of a phone may address, or the status with which it is turned away. The
/// bearer token selects the device; a device that is asked for only cross-checks it.
pub fn phone_device(
    devices: &Vec<DeviceRecord>,
    relay_phone_token: &str,
    token_header: Option<&str>,
    device_query: Option<&str>,
    device_header: Option<&str>,
) -> (r: Result<String, u16>)
    ensures
        route_view(r) == phone_route(
            devices_view(devices@),
            relay_phone_token@,
            opt_str(token_header),
            opt_str(device_query),
            opt_str(device_header),
        ),
        match authorization(
            devices_view(devices@),
            relay_phone_token@,
            token_in(opt_str(token_header)),
            requested_device(opt_str(device_query), opt_str(device_header)),
        ) {
            AuthzSpec::Device(d) => r matches Ok(id) && id@ == d,
            AuthzSpec::LegacyMtls => r matches Ok(id) && id@ == MTLS_DEVICE@,
            AuthzSpec::WrongDevice => r == Err::<String, u16>(403),
            AuthzSpec::Unauthenticated => r == Err::<String, u16>(401),
        },
{
    let presented = match token_header {
        Some(t) => t,
        None => "",
    };
    proof {
        reveal_strlit("");
        assert(presented@ =~= token_in(opt_str(token_header)));
    }
    let from_header = match device_header {
        Some(d) => if d.is_empty() {
            None
        } else {
            Some(d)
        },
        None => None,
    };
    let requested = match device_query {
        Some(d) => if d.is_empty() {
            from_header
        } else {
            Some(d)
        },
        None => from_header,
    };
    match authorize_phone(devices, relay_phone_token, presented, requested) {
        Authz::Device(id) => Ok(id),
        Authz::LegacyMtls => Ok(MTLS_DEVICE.to_owned()),
        Authz::WrongDevice => Err(403),
        Authz::Unauthenticated => Err(401),
    }
}

/// Identity is a property of the authenticated channel, never of what a daemon says: a daemon
/// that claims another device keeps its own route and takes over none.
pub fn hello_identity(authenticated: &str, _claimed: Option<&str>) -> (r: String)
    ensures
        r@ == authenticated@,
{
    authenticated.to_owned()
}

/// What is logged about the device that a daemon claims to be.
pub open spec fn claim_warning(authenticated: Seq<char>, claimed: Option<Seq<char>>) -> Option<
    Seq<char>,
> {
    match claimed {
        Some(id) => if id.len() > 0 && id != authenticated {
            Some(
                "ignoring hello device_id "@ + id + ": channel is authenticated as "@
                    + authenticated,
            )
        } else {
            None
        },
        None => None,
    }
}

/// What is logged where a daemon claims another device than its channel is authenticated for.
pub fn hello_warning(authenticated: &str, claimed: Option<&str>) -> (r: Option<String>)
    ensures
        opt_text(r) == claim_warning(authenticated@, opt_str(claimed)),
        opt_text(r) == (match opt_str(claimed) {
            Some(id) => if id.len() > 0 && id != authenticated@ {
                Some(
                    "ignoring hello device_id "@ + id + ": channel is authenticated as "@
                        + authenticated@,
                )
            } else {
                None
            },
            None => None,
        }),
{
    match claimed {
        Some(id) => if !id.is_empty() && !same(id, authenticated) {
            let mut out = "ignoring hello device_id ".to_owned();
            out.append(id);
            out.append(": channel is authenticated as ");
            out.append(authenticated);
            Some(out)
        } else {
            None
        },
        None => None,
    }
}

/// The bearer token in an authorization header: what follows the scheme, if anything does.
pub open spec fn bearer_in(header: Option<Seq<char>>) -> Option<Seq<char>> {
    match header {
        None => None,
        Some(raw) => {
            let token = match after_prefix(raw, "Bearer "@) {
                Some(t) => Some(t),
                None => after_prefix(raw, "bearer "@),
            };
            match token {
                Some(t) if t.len() > 0 => Some(t),
                _ => None,
            }
        },
    }
}

/// The bearer token in an authorization header.
pub fn bearer_token(header: Option<&str>) -> (r: Option<String>)
    ensures
        opt_text(r) == bearer_in(opt_str(header)),
{
    let raw = match header {
        Some(h) => h,
        None => {
            return None;
        },
    };
    let token = match strip_prefix(raw, "Bearer ") {
        Some(t) => Some(t),
        None => strip_prefix(raw, "bearer "),
    };
    match token {
        Some(t) => if t.as_str().is_empty() {
            None
        } else {
            Some(t)
        },
        None => None,
    }
}

/// Where a daemon that dials in goes, or the status with which it is turned away.
pub open spec fn daemon_route(
    auth: Seq<char>,
    header: Option<Seq<char>>,
    devices: Seq<DeviceSpec>,
) -> Result<Seq<char>, u16> {
    if auth != "token"@ && auth != "both"@ {
        Err(404)
    } else {
        match bearer_in(header) {
            None => Err(401),
            Some(t) => match selected(devices, t, Secret::Link) {
                None => Err(401),
                Some(d) => Ok(d.device_id),
            },
        }
    }
}

/// The device whose daemon dials in with a bearer token, or the status with which it is turned
/// away: there is no such route unless the relay takes tokens.
pub fn daemon_ws_token(auth: &str, header: Option<&str>, devices: &Vec<DeviceRecord>) -> (r: Result<
    String,
    u16,
>)
    ensures
        route_view(r) == daemon_route(auth@, opt_str(header), devices_view(devices@)),
        if auth@ != "token"@ && auth@ != "both"@ {
            r == Err::<String, u16>(404)
        } else {
            match bearer_in(opt_str(header)) {
                None => r == Err::<String, u16>(401),
                Some(t) => match selected(devices_view(devices@), t, Secret::Link) {
                    None => r == Err::<String, u16>(401),
                    Some(d) => r matches Ok(id) && id@ == d.device_id,
                },
            }
        },
{
    if !same(auth, "token") && !same(auth, "both") {
        return Err(404);
    }
    match bearer_token(header) {
        Some(t) => match lookup_token(devices, t.as_str()) {
            Some(rec) => Ok(rec.device_id),
            None => Err(401),
        },
        None => Err(401),
    }
}

/// Whether a way of authenticating takes certificates.
pub open spec fn takes_certificates(auth: Seq<char>) -> bool {
    auth == "mtls"@ || auth == "both"@
}

/// Whether the relay listens for daemons that authenticate by certificate.
pub fn listens_mtls(auth: &str) -> (r: bool)
    ensures
        r == takes_certificates(auth@),
        r == (auth@ == "mtls"@ || auth@ == "both"@),
{
    same(auth, "mtls") || same(auth, "both")
}

}
