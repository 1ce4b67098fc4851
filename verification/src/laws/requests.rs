//! Requests: what they are shown as, and what stands for them.
use vstd::prelude::*;
use vstd::string::*;
use vstd::utf8::*;

use crate::codec::{hex_of, hex_value, is_hex, sha256_of};
use crate::json::{canonical_text, JsonSpec};
use crate::number::decimal;
use crate::proto::request::{
    operation_json, operation_summary, request_digest, request_json, OperationSpec, RequestSpec,
};
use crate::proto::wire::{tier_label, tier_name, tier_named, tier_of, Tier};
use crate::text::joined;

verus! {

/// A request is shown as what it does: the words of a command and its directory, the path of a file,
/// the host and port of a connection.
pub proof fn law_summaries(
    argv: Seq<Seq<char>>,
    cwd: Seq<char>,
    path: Seq<char>,
    host: Seq<char>,
    port: u16,
)
    ensures
        operation_summary(OperationSpec::Exec { argv, cwd }) == "Run `"@ + joined(argv, " "@)
            + "` in "@ + cwd,
        operation_summary(OperationSpec::FileWrite { path }) == "Write file "@ + path,
        operation_summary(OperationSpec::Net { host, port }) == "Connect to "@ + host + ":"@
            + decimal(port as nat),
{
}

/// A request goes by the SHA-256 digest, in hexadecimal, of the canonical text of all it says.
pub proof fn law_digest_is_of_the_request(r: RequestSpec)
    ensures
        request_digest(r) == hex_of(sha256_of(encode_utf8(canonical_text(request_json(r))))),
        request_digest(r).len() == 2 * sha256_of(
            encode_utf8(canonical_text(request_json(r))),
        ).len(),
        is_hex(request_digest(r)),
{
    crate::codec::lemma_hex_of_is_hex(sha256_of(encode_utf8(canonical_text(request_json(r)))));
}

/// The JSON of a request holds each part of it under its name, and that of an operation its kind.
pub proof fn law_request_json(r: RequestSpec)
    ensures
        ({
            let m = request_json(r);
            &&& m.text_member("harness"@) == Some(r.harness)
            &&& m.text_member("session_id"@) == Some(r.session_id)
            &&& m.member("op"@) == Some(operation_json(r.op))
            &&& m.member("env_allowlist"@) matches Some(JsonSpec::Array(v)) && v.len()
                == r.env_allowlist.len() && forall|i: int|
                0 <= i < v.len() ==> #[trigger] v[i] == JsonSpec::Text(r.env_allowlist[i])
            &&& m->Object_0.len() == 4
        }),
        ({
            let m = operation_json(r.op);
            match r.op {
                OperationSpec::Exec { argv, cwd } => {
                    &&& m.text_member("kind"@) == Some("exec"@)
                    &&& m.text_member("cwd"@) == Some(cwd)
                    &&& m.member("argv"@) matches Some(JsonSpec::Array(v)) && v.len() == argv.len()
                        && forall|i: int|
                        0 <= i < v.len() ==> #[trigger] v[i] == JsonSpec::Text(argv[i])
                    &&& m->Object_0.len() == 3
                },
                OperationSpec::FileWrite { path } => {
                    &&& m.text_member("kind"@) == Some("file_write"@)
                    &&& m.text_member("path"@) == Some(path)
                    &&& m->Object_0.len() == 2
                },
                OperationSpec::Net { host, port } => {
                    &&& m.text_member("kind"@) == Some("net"@)
                    &&& m.text_member("host"@) == Some(host)
                    &&& m.member("port"@) == Some(JsonSpec::Integer(port as int))
                    &&& m->Object_0.len() == 3
                },
            }
        }),
{
    reveal_with_fuel(crate::json::first_member, 5);
    reveal_strlit("harness");
    reveal_strlit("session_id");
    reveal_strlit("op");
    reveal_strlit("env_allowlist");
    reveal_strlit("kind");
    reveal_strlit("cwd");
    reveal_strlit("argv");
    reveal_strlit("path");
    reveal_strlit("host");
    reveal_strlit("port");
    let v = request_json(r)->Object_0;
    assert(v.drop_first() =~= seq![v[1], v[2], v[3]]);
    assert(v.drop_first().drop_first() =~= seq![v[2], v[3]]);
    assert(v.drop_first().drop_first().drop_first() =~= seq![v[3]]);
    assert("harness"@.len() == 7 && "session_id"@.len() == 10 && "op"@.len() == 2
        && "env_allowlist"@.len() == 13);
    let w = operation_json(r.op)->Object_0;
    assert("kind"@[0] == 'k' && "cwd"@[0] == 'c' && "argv"@[0] == 'a' && "path"@[1] == 'a'
        && "host"@[0] == 'h' && "port"@[1] == 'o' && "path"@[0] == 'p' && "port"@[0] == 'p');
    if w.len() == 3 {
        assert(w.drop_first() =~= seq![w[1], w[2]]);
        assert(w.drop_first().drop_first() =~= seq![w[2]]);
    } else {
        assert(w.drop_first() =~= seq![w[1]]);
    }
}

/// A tier has its name in files and messages and its label on a terminal, and nothing else names one.
pub proof fn law_tier_names(name: Seq<char>)
    ensures
        tier_name(Tier::Allow) == "allow"@ && tier_label(Tier::Allow) == "allow"@,
        tier_name(Tier::Ask) == "ask"@ && tier_label(Tier::Ask) == "ask"@,
        tier_name(Tier::AskStrong) == "ask_strong"@ && tier_label(Tier::AskStrong) == "ask-strong"@,
        tier_name(Tier::Deny) == "deny"@ && tier_label(Tier::Deny) == "deny"@,
        tier_named(name) matches Some(t) ==> tier_name(t) == name,
        tier_of(JsonSpec::Text(name)) == tier_named(name),
{
}

/// Hexadecimal digits of either case stand for their value, and nothing else does.
pub proof fn law_hex_digits(c: char)
    ensures
        hex_value(c) is Some <==> ('0' <= c <= '9' || 'a' <= c <= 'f' || 'A' <= c <= 'F'),
        '0' <= c <= '9' ==> hex_value(c)->0 == c as int - '0' as int,
        'a' <= c <= 'f' ==> hex_value(c)->0 == c as int - 'a' as int + 10,
        'A' <= c <= 'F' ==> hex_value(c)->0 == c as int - 'A' as int + 10,
{
}

/// Hexadecimal text is made of the ten digits and the six lower-case letters.
pub proof fn law_lower_case_hex(s: Seq<char>, i: int)
    ensures
        is_hex(s) && 0 <= i < s.len() ==> hex_value(s[i]) is Some && !('A' <= s[i] <= 'Z'),
        is_hex(Seq::empty()),
{
}

}
