//! The request that an agent makes and that an approver answers.
use vstd::prelude::*;
use vstd::string::*;

use crate::codec::{digest_text, sha256_collision, text_digest};
use crate::json::{
    canonical, canonical_form, canonical_text, member, members_view, plain, simple_key, sorted,
    text, texts_model, Json, JsonSpec, Member,
};
use crate::number::{decimal, to_decimal};
use crate::text::{join, joined, texts};

verus! {

/// Why something has no canonical form.
#[derive(Clone, Copy, Debug, PartialEq, Eq, Structural)]
pub enum ProtoError {
    Canonicalize,
}

/// The operation an agent wants to perform.
#[derive(Debug)]
pub enum Operation {
    Exec { argv: Vec<String>, cwd: String },
    FileWrite { path: String },
    Net { host: String, port: u16 },
}

/// A request for approval of one operation.
#[derive(Debug)]
pub struct GateRequest {
    pub harness: String,
    pub session_id: String,
    /// Names of environment variables the executor may pass through from the
    /// daemon's environment. Values are never part of the request.
    pub env_allowlist: Vec<String>,
    pub op: Operation,
}

/// What an operation says.
#[verifier::ext_equal]
pub enum OperationSpec {
    Exec { argv: Seq<Seq<char>>, cwd: Seq<char> },
    FileWrite { path: Seq<char> },
    Net { host: Seq<char>, port: u16 },
}

/// What a request says.
#[verifier::ext_equal]
pub struct RequestSpec {
    pub harness: Seq<char>,
    pub session_id: Seq<char>,
    pub env_allowlist: Seq<Seq<char>>,
    pub op: OperationSpec,
}

impl View for Operation {
    type V = OperationSpec;

    open spec fn view(&self) -> OperationSpec {
        match self {
            Operation::Exec { argv, cwd } => OperationSpec::Exec {
                argv: texts(argv@),
                cwd: cwd@,
            },
            Operation::FileWrite { path } => OperationSpec::FileWrite { path: path@ },
            Operation::Net { host, port } => OperationSpec::Net { host: host@, port: *port },
        }
    }
}

impl View for GateRequest {
    type V = RequestSpec;

    open spec fn view(&self) -> RequestSpec {
        RequestSpec {
            harness: self.harness@,
            session_id: self.session_id@,
            env_allowlist: texts(self.env_allowlist@),
            op: self.op@,
        }
    }
}

/// An operation as JSON, its members in the order of their names.
pub open spec fn operation_json(op: OperationSpec) -> JsonSpec {
    match op {
        OperationSpec::Exec { argv, cwd } => JsonSpec::Object(
            seq![
                ("argv"@, texts_model(argv)),
                ("cwd"@, JsonSpec::Text(cwd)),
                ("kind"@, JsonSpec::Text("exec"@)),
            ],
        ),
        OperationSpec::FileWrite { path } => JsonSpec::Object(
            seq![("kind"@, JsonSpec::Text("file_write"@)), ("path"@, JsonSpec::Text(path))],
        ),
        OperationSpec::Net { host, port } => JsonSpec::Object(
            seq![
                ("host"@, JsonSpec::Text(host)),
                ("kind"@, JsonSpec::Text("net"@)),
                ("port"@, JsonSpec::Integer(port as int)),
            ],
        ),
    }
}

/// A request as JSON, its members in the order of their names.
pub open spec fn request_json(r: RequestSpec) -> JsonSpec {
    JsonSpec::Object(
        seq![
            ("env_allowlist"@, texts_model(r.env_allowlist)),
            ("harness"@, JsonSpec::Text(r.harness)),
            ("op"@, operation_json(r.op)),
            ("session_id"@, JsonSpec::Text(r.session_id)),
        ],
    )
}

/// The canonical text of a request.
pub open spec fn request_text(r: RequestSpec) -> Seq<char> {
    canonical_text(request_json(r))
}

/// The digest of a request, its only identity.
pub open spec fn request_digest(r: RequestSpec) -> Seq<char> {
    text_digest(request_text(r))
}

/// The line that an approver reads about an operation.
pub open spec fn operation_summary(op: OperationSpec) -> Seq<char> {
    match op {
        OperationSpec::Exec { argv, cwd } => "Run `"@ + joined(argv, " "@) + "` in "@ + cwd,
        OperationSpec::FileWrite { path } => "Write file "@ + path,
        OperationSpec::Net { host, port } => "Connect to "@ + host + ":"@ + decimal(port as nat),
    }
}

proof fn lemma_keys()
    ensures
        "argv"@ =~= seq!['a', 'r', 'g', 'v'],
        "cwd"@ =~= seq!['c', 'w', 'd'],
        "kind"@ =~= seq!['k', 'i', 'n', 'd'],
        "path"@ =~= seq!['p', 'a', 't', 'h'],
        "host"@ =~= seq!['h', 'o', 's', 't'],
        "port"@ =~= seq!['p', 'o', 'r', 't'],
        "env_allowlist"@ =~= seq![
            'e', 'n', 'v', '_', 'a', 'l', 'l', 'o', 'w', 'l', 'i', 's', 't',
        ],
        "harness"@ =~= seq!['h', 'a', 'r', 'n', 'e', 's', 's'],
        "op"@ =~= seq!['o', 'p'],
        "session_id"@ =~= seq!['s', 'e', 's', 's', 'i', 'o', 'n', '_', 'i', 'd'],
{
    reveal_strlit("argv");
    reveal_strlit("cwd");
    reveal_strlit("kind");
    reveal_strlit("path");
    reveal_strlit("host");
    reveal_strlit("port");
    reveal_strlit("env_allowlist");
    reveal_strlit("harness");
    reveal_strlit("op");
    reveal_strlit("session_id");
}

proof fn lemma_texts_canonical(list: Seq<Seq<char>>, depth: nat)
    requires
        depth > 0,
    ensures
        plain(texts_model(list), depth),
        sorted(texts_model(list), depth),
{
    reveal_with_fuel(plain, 2);
    reveal_with_fuel(sorted, 2);
}

proof fn lemma_operation_canonical(op: OperationSpec, depth: nat)
    requires
        depth > 1,
    ensures
        plain(operation_json(op), depth),
        sorted(operation_json(op), depth),
{
    reveal_with_fuel(plain, 2);
    reveal_with_fuel(sorted, 2);
    lemma_keys();
    let v = operation_json(op)->Object_0;
    assert forall|i: int| 0 <= i < v.len() implies simple_key((#[trigger] v[i]).0) by {}
    assert forall|i: int, j: int| 0 <= i < j < v.len() implies exists|at: int|
        crate::json::key_before((#[trigger] v[i]).0, (#[trigger] v[j]).0, at) by {
        crate::json::lemma_key_order_first(v[i].0, v[j].0);
    }
    crate::json::lemma_ordered_distinct(v);
    if let OperationSpec::Exec { argv, .. } = op {
        lemma_texts_canonical(argv, (depth - 1) as nat);
    }
}

pub proof fn lemma_request_canonical(r: RequestSpec)
    ensures
        canonical_form(request_json(r)),
{
    reveal_with_fuel(plain, 2);
    reveal_with_fuel(sorted, 2);
    lemma_keys();
    let v = request_json(r)->Object_0;
    assert forall|i: int| 0 <= i < v.len() implies simple_key((#[trigger] v[i]).0) by {}
    assert forall|i: int, j: int| 0 <= i < j < v.len() implies exists|at: int|
        crate::json::key_before((#[trigger] v[i]).0, (#[trigger] v[j]).0, at) by {
        crate::json::lemma_key_order_first(v[i].0, v[j].0);
    }
    crate::json::lemma_ordered_distinct(v);
    lemma_texts_canonical(r.env_allowlist, 126);
    lemma_operation_canonical(r.op, 126);
}

proof fn lemma_texts_model_injective(a: Seq<Seq<char>>, b: Seq<Seq<char>>)
    requires
        texts_model(a) == texts_model(b),
    ensures
        a == b,
{
    let f = |t: Seq<char>| JsonSpec::Text(t);
    let x = a.map_values(f);
    let y = b.map_values(f);
    assert(texts_model(a) == JsonSpec::Array(x));
    assert(texts_model(b) == JsonSpec::Array(y));
    assert(x.len() == a.len());
    assert(y.len() == b.len());
    assert(texts_model(a)->Array_0 == texts_model(b)->Array_0);
    assert(x.len() == y.len());
    assert(a.len() == b.len());
    assert forall|i: int| 0 <= i < a.len() implies a[i] == b[i] by {
        assert(x[i] == JsonSpec::Text(a[i]));
        assert(y[i] == JsonSpec::Text(b[i]));
    }
    assert(a =~= b);
}

/// The JSON of a request determines the request.
pub proof fn law_request_json_injective(a: RequestSpec, b: RequestSpec)
    requires
        request_json(a) == request_json(b),
    ensures
        a == b,
{
    let x = request_json(a)->Object_0;
    let y = request_json(b)->Object_0;
    assert(x == y);
    assert(x[0] == y[0] && x[1] == y[1] && x[2] == y[2] && x[3] == y[3]);
    lemma_texts_model_injective(a.env_allowlist, b.env_allowlist);
    assert(operation_json(a.op) == operation_json(b.op));
    let p = operation_json(a.op)->Object_0;
    let q = operation_json(b.op)->Object_0;
    assert(p == q);
    assert(p.len() == q.len() && p[0] == q[0] && p[1] == q[1]);
    lemma_keys();
    assert("kind"@[0] == 'k');
    if p.len() == 3 {
        assert(p[2] == q[2]);
        assert("argv"@[0] == 'a' && "host"@[0] == 'h');
        if let OperationSpec::Exec { argv, cwd } = a.op {
            if let OperationSpec::Exec { argv: argv2, cwd: cwd2 } = b.op {
                lemma_texts_model_injective(argv, argv2);
            }
        }
    }
}

/// A list of strings as JSON.
pub fn texts_json(list: &Vec<String>) -> (r: Json)
    ensures
        r@ == texts_model(texts(list@)),
{
    let mut out: Vec<Json> = Vec::new();
    let mut i: usize = 0;
    while i < list.len()
        invariant
            i <= list@.len(),
            out@.len() == i,
            forall|k: int| 0 <= k < i ==> (#[trigger] out@[k])@ == JsonSpec::Text(list@[k]@),
        decreases list@.len() - i,
    {
        out.push(text(list[i].as_str()));
        i += 1;
    }
    proof {
        crate::json::lemma_array_view(out);
        assert(crate::json::items_view(out@) =~= texts_model(texts(list@))->Array_0);
    }
    Json::Array(out)
}

impl Operation {
    fn to_json(&self) -> (r: Json)
        ensures
            r@ == operation_json(self@),
    {
        let mut out: Vec<Member> = Vec::new();
        match self {
            Operation::Exec { argv, cwd } => {
                out.push(member("argv", texts_json(argv)));
                out.push(member("cwd", text(cwd.as_str())));
                out.push(member("kind", text("exec")));
            },
            Operation::FileWrite { path } => {
                out.push(member("kind", text("file_write")));
                out.push(member("path", text(path.as_str())));
            },
            Operation::Net { host, port } => {
                out.push(member("host", text(host.as_str())));
                out.push(member("kind", text("net")));
                out.push(member("port", Json::Integer(*port as i128)));
            },
        }
        proof {
            crate::json::lemma_object_view(out);
            assert(members_view(out@) =~= operation_json(self@)->Object_0);
        }
        Json::Object(out)
    }

    /// A copy of the operation.
    pub fn copy(&self) -> (r: Operation)
        ensures
            r@ == self@,
    {
        match self {
            Operation::Exec { argv, cwd } => Operation::Exec {
                argv: crate::text::copy_texts(argv),
                cwd: cwd.clone(),
            },
            Operation::FileWrite { path } => Operation::FileWrite { path: path.clone() },
            Operation::Net { host, port } => Operation::Net { host: host.clone(), port: *port },
        }
    }
}

impl GateRequest {
    fn to_json(&self) -> (r: Json)
        ensures
            r@ == request_json(self@),
    {
        let mut out: Vec<Member> = Vec::new();
        out.push(member("env_allowlist", texts_json(&self.env_allowlist)));
        out.push(member("harness", text(self.harness.as_str())));
        out.push(member("op", self.op.to_json()));
        out.push(member("session_id", text(self.session_id.as_str())));
        proof {
            crate::json::lemma_object_view(out);
            assert(members_view(out@) =~= request_json(self@)->Object_0);
        }
        Json::Object(out)
    }

    /// The canonical JSON text of the request. No other request has the same text.
    pub fn canonical_json(&self) -> (r: Result<String, ProtoError>)
        ensures
            r is Ok,
            r->Ok_0@ == request_text(self@),
            forall|m: JsonSpec|
                canonical_form(m) && #[trigger] canonical_text(m) == r->Ok_0@ ==> m
                    == request_json(self@),
            forall|other: RequestSpec| #[trigger]
                request_text(other) == r->Ok_0@ ==> other == self@,
    {
        let j = self.to_json();
        proof {
            lemma_request_canonical(self@);
        }
        match canonical(&j) {
            Ok(t) => {
                proof {
                    assert forall|other: RequestSpec| #[trigger]
                        request_text(other) == t@ implies other == self@ by {
                        lemma_request_canonical(other);
                        assert(canonical_text(request_json(other)) == t@);
                        law_request_json_injective(other, self@);
                    }
                }
                Ok(t)
            },
            Err(_) => Err(ProtoError::Canonicalize),
        }
    }

    /// The hexadecimal SHA-256 digest of the canonical text. This is the value an
    /// approver signs and the only identity a request has: another request with the
    /// same digest would be a SHA-256 collision.
    pub fn digest(&self) -> (r: Result<String, ProtoError>)
        ensures
            r is Ok,
            r->Ok_0@ == request_digest(self@),
            r->Ok_0@.len() == 64,
            forall|other: RequestSpec| #[trigger]
                request_digest(other) == r->Ok_0@ ==> other == self@ || sha256_collision(
                    request_text(other),
                    request_text(self@),
                ),
    {
        match self.canonical_json() {
            Ok(t) => {
                proof {
                    assert forall|other: RequestSpec| #[trigger]
                        request_digest(other) == text_digest(t@) implies other == self@
                        || sha256_collision(request_text(other), request_text(self@)) by {
                        crate::codec::law_equal_digests(request_text(other), t@);
                    }
                }
                Ok(digest_text(t.as_str()))
            },
            Err(e) => Err(e),
        }
    }

    /// The summary shown in every approval dialog. It is built from the same value the
    /// digest is computed over, so what the human reads and what the signature covers
    /// cannot diverge.
    pub fn summary(&self) -> (r: String)
        ensures
            r@ == operation_summary(self@.op),
    {
        let mut out = String::new();
        match &self.op {
            Operation::Exec { argv, cwd } => {
                out.append("Run `");
                out.append(join(argv, 0, " ").as_str());
                out.append("` in ");
                out.append(cwd.as_str());
                assert(texts(argv@).skip(0) =~= texts(argv@));
            },
            Operation::FileWrite { path } => {
                out.append("Write file ");
                out.append(path.as_str());
            },
            Operation::Net { host, port } => {
                out.append("Connect to ");
                out.append(host.as_str());
                out.append(":");
                out.append(to_decimal(*port as u64).as_str());
            },
        }
        assert(out@ =~= operation_summary(self@.op));
        out
    }

    /// A copy of the request.
    pub fn copy(&self) -> (r: GateRequest)
        ensures
            r@ == self@,
    {
        GateRequest {
            harness: self.harness.clone(),
            session_id: self.session_id.clone(),
            env_allowlist: crate::text::copy_texts(&self.env_allowlist),
            op: self.op.copy(),
        }
    }
}

}
