//! JSON values as plain data, and the calls into `serde_json` and `serde_jcs`
//! that read and write them.
use serde_json::Value;
use vstd::prelude::*;

use crate::text::{is_white, same};

verus! {

/// A JSON value. The members of an object keep their order.
pub enum Json {
    Null,
    Bool(bool),
    Integer(i128),
    /// A number with a fraction or an exponent, as it is written.
    Float(String),
    Text(String),
    Array(Vec<Json>),
    Object(Vec<Member>),
}

/// One member of a JSON object.
pub struct Member {
    pub key: String,
    pub value: Json,
}

/// What a JSON value says.
#[verifier::ext_equal]
pub enum JsonSpec {
    Null,
    Bool(bool),
    Integer(int),
    Float(Seq<char>),
    Text(Seq<char>),
    Array(Seq<JsonSpec>),
    Object(Seq<(Seq<char>, JsonSpec)>),
}

/// What a JSON value says.
pub open spec fn json_view(j: Json) -> JsonSpec
    decreases j,
{
    match j {
        Json::Null => JsonSpec::Null,
        Json::Bool(b) => JsonSpec::Bool(b),
        Json::Integer(n) => JsonSpec::Integer(n as int),
        Json::Float(t) => JsonSpec::Float(t@),
        Json::Text(t) => JsonSpec::Text(t@),
        Json::Array(v) => JsonSpec::Array(
            Seq::new(
                v@.len(),
                |i: int|
                    if 0 <= i < v@.len() {
                        json_view(v@[i])
                    } else {
                        JsonSpec::Null
                    },
            ),
        ),
        Json::Object(v) => JsonSpec::Object(
            Seq::new(
                v@.len(),
                |i: int|
                    if 0 <= i < v@.len() {
                        (v@[i].key@, json_view(v@[i].value))
                    } else {
                        (Seq::empty(), JsonSpec::Null)
                    },
            ),
        ),
    }
}

impl View for Json {
    type V = JsonSpec;

    open spec fn view(&self) -> JsonSpec {
        json_view(*self)
    }
}

/// What a list of JSON values says.
pub open spec fn items_view(v: Seq<Json>) -> Seq<JsonSpec> {
    v.map_values(|j: Json| j@)
}

/// What the members of a JSON object say.
pub open spec fn members_view(v: Seq<Member>) -> Seq<(Seq<char>, JsonSpec)> {
    v.map_values(|m: Member| (m.key@, m.value@))
}

pub proof fn lemma_object_view(v: Vec<Member>)
    ensures
        Json::Object(v)@ == JsonSpec::Object(members_view(v@)),
{
    let m = Json::Object(v)@->Object_0;
    assert forall|i: int| 0 <= i < m.len() implies m[i] == members_view(v@)[i] by {
        assert(m[i].0 == v@[i].key@);
        assert(m[i].1 == v@[i].value@);
    }
    assert(m =~= members_view(v@));
}

pub proof fn lemma_array_view(v: Vec<Json>)
    ensures
        Json::Array(v)@ == JsonSpec::Array(items_view(v@)),
{
    assert(Json::Array(v)@->Array_0 =~= items_view(v@));
}

/// Whether no two members have the same key.
pub open spec fn distinct_keys(v: Seq<(Seq<char>, JsonSpec)>) -> bool {
    forall|i: int, j: int| 0 <= i < j < v.len() ==> #[trigger] v[i].0 != #[trigger] v[j].0
}

/// The key with which `serde_json` marks an object that stands for a text of JSON, not for itself.
pub open spec fn raw_mark() -> Seq<char> {
    "$serde_json::private::RawValue"@
}

/// A value that is nested at most `depth` deep, whose numbers are integers of
/// 64 bits and whose objects name no key twice and do not start with the mark of a raw value.
pub open spec fn plain(m: JsonSpec, depth: nat) -> bool
    decreases depth,
{
    match m {
        JsonSpec::Null => true,
        JsonSpec::Bool(_) => true,
        JsonSpec::Integer(n) => i64::MIN <= n <= u64::MAX,
        JsonSpec::Float(_) => false,
        JsonSpec::Text(_) => true,
        JsonSpec::Array(v) => {
            &&& depth > 0
            &&& forall|i: int|
                0 <= i < v.len() ==> plain(#[trigger] v[i], (depth - 1) as nat)
        },
        JsonSpec::Object(v) => {
            &&& depth > 0
            &&& distinct_keys(v)
            &&& v.len() > 0 ==> v[0].0 != raw_mark()
            &&& forall|i: int|
                0 <= i < v.len() ==> plain((#[trigger] v[i]).1, (depth - 1) as nat)
        },
    }
}

/// The depth to which a JSON text may be nested.
pub open spec fn max_depth() -> nat {
    127
}

/// Whether a key is made of lower-case ASCII letters and underscores.
pub open spec fn simple_key(k: Seq<char>) -> bool {
    forall|i: int| 0 <= i < k.len() ==> ('a' <= #[trigger] k[i] <= 'z' || k[i] == '_')
}

/// Whether one key stands before another: they agree up to position `at`, where
/// the first one ends or has the smaller character.
pub open spec fn key_before(a: Seq<char>, b: Seq<char>, at: int) -> bool {
    &&& 0 <= at <= a.len()
    &&& at < b.len()
    &&& a.take(at) == b.take(at)
    &&& at == a.len() || a[at] < b[at]
}

/// A value all of whose objects, at most `depth` deep, list their members by
/// simple keys in increasing order.
pub open spec fn sorted(m: JsonSpec, depth: nat) -> bool
    decreases depth,
{
    match m {
        JsonSpec::Array(v) => {
            &&& depth > 0
            &&& forall|i: int|
                0 <= i < v.len() ==> sorted(#[trigger] v[i], (depth - 1) as nat)
        },
        JsonSpec::Object(v) => {
            &&& depth > 0
            &&& forall|i: int| 0 <= i < v.len() ==> simple_key((#[trigger] v[i]).0)
            &&& forall|i: int, j: int|
                0 <= i < j < v.len() ==> exists|at: int|
                    key_before((#[trigger] v[i]).0, (#[trigger] v[j]).0, at)
            &&& forall|i: int|
                0 <= i < v.len() ==> sorted((#[trigger] v[i]).1, (depth - 1) as nat)
        },
        _ => true,
    }
}

/// A plain value whose objects list their members in order.
pub open spec fn canonical_form(m: JsonSpec) -> bool {
    plain(m, max_depth()) && sorted(m, max_depth())
}

/// A text is not JSON.
#[derive(Clone, Debug)]
pub struct SyntaxError {
    /// What is wrong with it.
    pub message: String,
}

#[verifier::external_type_specification]
#[verifier::external_body]
pub struct ExValue(serde_json::Value);

#[verifier::external_type_specification]
#[verifier::external_body]
pub struct ExJsonError(serde_json::Error);

/// What a `serde_json::Value` holds.
pub uninterp spec fn value_model(v: serde_json::Value) -> JsonSpec;

/// The value that `serde_json::from_str` reads from a text, or what it says of one that is not JSON.
pub uninterp spec fn json_read(text: Seq<char>) -> Result<JsonSpec, Seq<char>>;

/// The value that a text stands for, if it is JSON.
pub open spec fn json_parse(text: Seq<char>) -> Option<JsonSpec> {
    match json_read(text) {
        Ok(m) => Some(m),
        Err(_) => None,
    }
}

/// What is wrong with a text that is not JSON.
pub open spec fn json_fault(text: Seq<char>) -> Seq<char> {
    json_read(text)->Err_0
}

/// The value that `serde_json::from_slice` reads from bytes, or what it says of bytes that are not
/// JSON.
pub uninterp spec fn json_read_bytes(bytes: Seq<u8>) -> Result<JsonSpec, Seq<char>>;

/// The text that `serde_json::to_string` writes of a value.
pub uninterp spec fn json_text(m: JsonSpec) -> Seq<char>;

/// The text that `serde_jcs::to_string` writes of a value.
pub uninterp spec fn canonical_text(m: JsonSpec) -> Seq<char>;

/// `serde_json::from_str`, reading any JSON value: it fails on a text that is not
/// JSON. What it reads and what it says of a failure depend on the text alone.
#[verifier::external_body]
fn value_of_text(text: &str) -> (r: Result<serde_json::Value, String>)
    ensures
        match r {
            Ok(v) => json_read(text@) == Ok::<JsonSpec, Seq<char>>(value_model(v)),
            Err(m) => json_read(text@) == Err::<JsonSpec, Seq<char>>(m@),
        },
{
    serde_json::from_str::<serde_json::Value>(text).map_err(|e| e.to_string())
}

/// `serde_json::from_slice`, reading any JSON value: it fails on bytes that are not JSON. What it
/// reads and what it says of a failure depend on the bytes alone.
#[verifier::external_body]
fn value_of_bytes(bytes: &[u8]) -> (r: Result<serde_json::Value, String>)
    ensures
        match r {
            Ok(v) => json_read_bytes(bytes@) == Ok::<JsonSpec, Seq<char>>(value_model(v)),
            Err(m) => json_read_bytes(bytes@) == Err::<JsonSpec, Seq<char>>(m@),
        },
{
    serde_json::from_slice::<serde_json::Value>(bytes).map_err(|e| e.to_string())
}

/// `serde_json::Value`, taken apart: each value, array element and object member
/// becomes its counterpart, in the same order. Integers keep their value, other
/// numbers their text.
#[verifier::external_body]
pub(crate) fn of_value(v: &Value) -> (r: Json)
    ensures
        r@ == value_model(*v),
{
    match v {
        Value::Null => Json::Null,
        Value::Bool(b) => Json::Bool(*b),
        Value::Number(n) => n.as_i128().map_or_else(
            || Json::Float(n.to_string()), Json::Integer),
        Value::String(s) => Json::Text(s.clone()),
        Value::Array(a) => Json::Array(a.iter().map(of_value).collect()),
        Value::Object(o) => Json::Object(
            o.iter().map(|(k, v)| Member { key: k.clone(), value: of_value(v) }).collect(),
        ),
    }
}

/// `serde_json::Value`, put together from its parts. An object keeps one member
/// per key and a number holds 64 bits, so the parts come back unchanged where the
/// value is plain; a number outside of that becomes null.
#[verifier::external_body]
pub(crate) fn to_value(j: &Json) -> (r: Value)
    ensures
        plain(j@, max_depth()) ==> value_model(r) == j@,
{
    match j {
        Json::Null => Value::Null,
        Json::Bool(b) => Value::Bool(*b),
        Json::Integer(n) => serde_json::Number::from_i128(*n).map_or(
            Value::Null, Value::Number),
        Json::Float(t) => t.parse().map_or(Value::Null, Value::Number),
        Json::Text(s) => Value::String(s.clone()),
        Json::Array(a) => Value::Array(a.iter().map(to_value).collect()),
        Json::Object(o) => Value::Object(
            o.iter().map(|m| (m.key.clone(), to_value(&m.value))).collect(),
        ),
    }
}

/// `serde_json::to_string`: it writes every `Value`, on one line that starts with no
/// white space, and a plain value reads back as it was. An object that starts with the mark of a
/// raw value would be read as the JSON that its text holds; it is not plain.
#[verifier::external_body]
fn text_of_value(v: &serde_json::Value) -> (r: Result<String, serde_json::Error>)
    ensures
        r is Ok,
        r->Ok_0@ == json_text(value_model(*v)),
        r->Ok_0@.len() > 0,
        !is_white(r->Ok_0@[0]),
        !r->Ok_0@.contains('\n'),
        !r->Ok_0@.contains('\r'),
        plain(value_model(*v), max_depth()) ==> json_parse(r->Ok_0@) == Some(value_model(*v)),
{
    serde_json::to_string(v)
}

/// `serde_jcs::to_string`: it writes every plain value. The members of each object
/// are ordered by the bytes of their keys, and nothing else is lost, so no two plain
/// values that list simple keys in order have the same text.
#[verifier::external_body]
fn canonical_text_of_value(v: &serde_json::Value) -> (r: Result<String, serde_json::Error>)
    ensures
        plain(value_model(*v), max_depth()) ==> r is Ok,
        r matches Ok(t) ==> t@ == canonical_text(value_model(*v)),
        r matches Ok(t) ==> canonical_form(value_model(*v)) ==> forall|m: JsonSpec|
            canonical_form(m) && #[trigger] canonical_text(m) == t@ ==> m == value_model(*v),
{
    serde_jcs::to_string(v)
}

/// Reads a JSON text.
pub fn parse(text: &str) -> (r: Result<Json, SyntaxError>)
    ensures
        match r {
            Ok(j) => json_parse(text@) == Some(j@),
            Err(e) => json_parse(text@) is None && e.message@ == json_fault(text@),
        },
{
    match value_of_text(text) {
        Ok(v) => Ok(of_value(&v)),
        Err(message) => Err(SyntaxError { message }),
    }
}

/// Reads JSON from bytes.
pub fn parse_bytes(bytes: &[u8]) -> (r: Result<Json, SyntaxError>)
    ensures
        match r {
            Ok(j) => json_read_bytes(bytes@) == Ok::<JsonSpec, Seq<char>>(j@),
            Err(e) => json_read_bytes(bytes@) == Err::<JsonSpec, Seq<char>>(e.message@),
        },
{
    match value_of_bytes(bytes) {
        Ok(v) => Ok(of_value(&v)),
        Err(message) => Err(SyntaxError { message }),
    }
}

/// Writes a plain JSON value on one line.
pub fn render(j: &Json) -> (r: String)
    ensures
        plain(j@, max_depth()) ==> {
            &&& r@ == json_text(j@)
            &&& json_parse(r@) == Some(j@)
        },
        r@.len() > 0,
        !is_white(r@[0]),
        !r@.contains('\n'),
        !r@.contains('\r'),
{
    match text_of_value(&to_value(j)) {
        Ok(t) => t,
        Err(_) => String::new(),
    }
}

/// Writes a plain JSON value in canonical form. Where its keys are in order, no other
/// such value has the same text.
pub fn canonical(j: &Json) -> (r: Result<String, serde_json::Error>)
    requires
        plain(j@, max_depth()),
    ensures
        r is Ok,
        r->Ok_0@ == canonical_text(j@),
        canonical_form(j@) ==> forall|m: JsonSpec|
            canonical_form(m) && #[trigger] canonical_text(m) == r->Ok_0@ ==> m == j@,
{
    canonical_text_of_value(&to_value(j))
}

/// A key that differs from another in the first character, by a smaller one, stands
/// before it.
pub proof fn lemma_key_order_first(a: Seq<char>, b: Seq<char>)
    requires
        a.len() > 0,
        b.len() > 0,
        a[0] < b[0],
    ensures
        exists|at: int| key_before(a, b, at),
{
    assert(a.take(0) =~= b.take(0));
    assert(key_before(a, b, 0));
}

/// A key that differs from another in the second character, by a smaller one, stands
/// before it.
pub proof fn lemma_key_order_second(a: Seq<char>, b: Seq<char>)
    requires
        a.len() > 1,
        b.len() > 1,
        a[0] == b[0],
        a[1] < b[1],
    ensures
        exists|at: int| key_before(a, b, at),
{
    assert(a.take(1) =~= b.take(1));
    assert(key_before(a, b, 1));
}

/// A simple key is not the mark of a raw value.
pub proof fn lemma_simple_unmarked(k: Seq<char>)
    requires
        simple_key(k),
    ensures
        k != raw_mark(),
{
    reveal_strlit("$serde_json::private::RawValue");
    if k == raw_mark() {
        assert(k[0] == '$');
    }
}

/// Simple keys in order are distinct, and the first is not the mark of a raw value.
pub proof fn lemma_ordered_distinct(v: Seq<(Seq<char>, JsonSpec)>)
    requires
        forall|i: int| 0 <= i < v.len() ==> simple_key((#[trigger] v[i]).0),
        forall|i: int, j: int|
            0 <= i < j < v.len() ==> exists|at: int|
                key_before((#[trigger] v[i]).0, (#[trigger] v[j]).0, at),
    ensures
        distinct_keys(v),
        v.len() > 0 ==> v[0].0 != raw_mark(),
{
    if v.len() > 0 {
        lemma_simple_unmarked(v[0].0);
    }
    assert forall|i: int, j: int| 0 <= i < j < v.len() implies #[trigger] v[i].0
        != #[trigger] v[j].0 by {
        let at = choose|at: int| key_before(v[i].0, v[j].0, at);
        assert(key_before(v[i].0, v[j].0, at));
    }
}

/// The value that an object has under a key: that of the first member with it.
pub open spec fn first_member(v: Seq<(Seq<char>, JsonSpec)>, key: Seq<char>) -> Option<JsonSpec>
    decreases v.len(),
{
    if v.len() == 0 {
        None
    } else if v[0].0 == key {
        Some(v[0].1)
    } else {
        first_member(v.drop_first(), key)
    }
}

impl JsonSpec {
    /// The value under a key; nothing where the value is no object.
    pub open spec fn member(self, key: Seq<char>) -> Option<JsonSpec> {
        match self {
            JsonSpec::Object(v) => first_member(v, key),
            _ => None,
        }
    }

    /// The text, where the value is one.
    pub open spec fn text(self) -> Option<Seq<char>> {
        match self {
            JsonSpec::Text(t) => Some(t),
            _ => None,
        }
    }

    /// The text under a key, where there is one.
    pub open spec fn text_member(self, key: Seq<char>) -> Option<Seq<char>> {
        match self.member(key) {
            Some(m) => m.text(),
            None => None,
        }
    }
}

impl Json {
    /// The value under a key, where this is an object that has one.
    pub fn get(&self, key: &str) -> (r: Option<&Json>)
        ensures
            match r {
                Some(j) => self@.member(key@) == Some(j@),
                None => self@.member(key@) is None,
            },
    {
        match self {
            Json::Object(v) => {
                let ghost all = members_view(v@);
                proof {
                    lemma_object_view(*v);
                    assert(all.skip(0) == all);
                }
                let mut i: usize = 0;
                while i < v.len()
                    invariant
                        i <= v@.len(),
                        self@ == JsonSpec::Object(all),
                        all == members_view(v@),
                        first_member(all, key@) == first_member(all.skip(i as int), key@),
                    decreases v@.len() - i,
                {
                    assert(all.skip(i as int)[0] == all[i as int]);
                    if same(v[i].key.as_str(), key) {
                        return Some(&v[i].value);
                    }
                    assert(all.skip(i as int).drop_first() == all.skip(i + 1));
                    i += 1;
                }
                None
            },
            _ => None,
        }
    }

    /// The text, where this is one.
    pub fn as_text(&self) -> (r: Option<&String>)
        ensures
            match r {
                Some(t) => self@.text() == Some(t@),
                None => self@.text() is None,
            },
    {
        match self {
            Json::Text(t) => Some(t),
            _ => None,
        }
    }

    /// The text under a key, where there is one.
    pub fn get_text(&self, key: &str) -> (r: Option<&String>)
        ensures
            match r {
                Some(t) => self@.text_member(key@) == Some(t@),
                None => self@.text_member(key@) is None,
            },
    {
        match self.get(key) {
            Some(j) => j.as_text(),
            None => None,
        }
    }

    /// A copy of the value.
    #[verifier::loop_isolation(false)]
    pub fn copy(&self) -> (r: Json)
        ensures
            r@ == self@,
        decreases self,
    {
        match self {
            Json::Null => Json::Null,
            Json::Bool(b) => Json::Bool(*b),
            Json::Integer(n) => Json::Integer(*n),
            Json::Float(t) => Json::Float(t.clone()),
            Json::Text(t) => Json::Text(t.clone()),
            Json::Array(v) => {
                let mut out: Vec<Json> = Vec::new();
                let mut i: usize = 0;
                while i < v.len()
                    invariant
                        *self == Json::Array(*v),
                        i <= v@.len(),
                        out@.len() == i,
                        forall|k: int| 0 <= k < i ==> (#[trigger] out@[k])@ == v@[k]@,
                    decreases v@.len() - i,
                {
                    assert(decreases_to!(*v => v[i as int]));
                    out.push(v[i].copy());
                    i += 1;
                }
                proof {
                    lemma_array_view(out);
                    lemma_array_view(*v);
                    assert(items_view(out@) =~= items_view(v@));
                }
                Json::Array(out)
            },
            Json::Object(v) => {
                let mut out: Vec<Member> = Vec::new();
                let mut i: usize = 0;
                while i < v.len()
                    invariant
                        *self == Json::Object(*v),
                        i <= v@.len(),
                        out@.len() == i,
                        forall|k: int|
                            0 <= k < i ==> (#[trigger] out@[k]).key@ == v@[k].key@
                                && out@[k].value@ == v@[k].value@,
                    decreases v@.len() - i,
                {
                    assert(decreases_to!(*v => v[i as int]));
                    out.push(Member { key: v[i].key.clone(), value: v[i].value.copy() });
                    i += 1;
                }
                proof {
                    lemma_object_view(out);
                    lemma_object_view(*v);
                    assert(members_view(out@) =~= members_view(v@));
                }
                Json::Object(out)
            },
        }
    }
}

/// The members of an object with the value under a key replaced.
pub open spec fn replaced(
    v: Seq<(Seq<char>, JsonSpec)>,
    key: Seq<char>,
    value: JsonSpec,
) -> Seq<(Seq<char>, JsonSpec)>
    decreases v.len(),
{
    if v.len() == 0 {
        v
    } else if v[0].0 == key {
        seq![(key, value)] + v.drop_first()
    } else {
        seq![v[0]] + replaced(v.drop_first(), key, value)
    }
}

impl JsonSpec {
    /// The value with that under a key replaced; nothing where there is none.
    pub open spec fn with(self, key: Seq<char>, value: JsonSpec) -> Option<JsonSpec> {
        match self {
            JsonSpec::Object(v) => if first_member(v, key) is Some {
                Some(JsonSpec::Object(replaced(v, key, value)))
            } else {
                None
            },
            _ => None,
        }
    }

    /// The value with that under a key of the value under another key replaced; nothing where
    /// there is none.
    pub open spec fn with_inner(
        self,
        outer: Seq<char>,
        inner: Seq<char>,
        value: JsonSpec,
    ) -> Option<JsonSpec> {
        match self.member(outer) {
            Some(m) => match m.with(inner, value) {
                Some(changed) => self.with(outer, changed),
                None => None,
            },
            None => None,
        }
    }
}

/// What was put under a key is found under it, and what is under other keys stays.
pub proof fn law_replaced_is_found(
    v: Seq<(Seq<char>, JsonSpec)>,
    key: Seq<char>,
    value: JsonSpec,
    other: Seq<char>,
)
    ensures
        first_member(v, key) is Some ==> first_member(replaced(v, key, value), key) == Some(value),
        other != key ==> first_member(replaced(v, key, value), other) == first_member(v, other),
    decreases v.len(),
{
    if v.len() > 0 {
        let rest = v.drop_first();
        law_replaced_is_found(rest, key, value, other);
        if v[0].0 == key {
            assert((seq![(key, value)] + rest).drop_first() =~= rest);
        } else {
            let tail = replaced(rest, key, value);
            assert((seq![v[0]] + tail).drop_first() =~= tail);
        }
    }
}

impl Json {
    /// The value with that under a key replaced; nothing where there is none.
    pub fn with(&self, key: &str, value: Json) -> (r: Option<Json>)
        ensures
            match r {
                Some(j) => self@.with(key@, value@) == Some(j@),
                None => self@.with(key@, value@) is None,
            },
    {
        let ghost new = value@;
        match self {
            Json::Object(v) => {
                let ghost all = members_view(v@);
                proof {
                    lemma_object_view(*v);
                    assert(all.skip(0) =~= all);
                    assert(all.take(0) + replaced(all.skip(0), key@, new) =~= replaced(
                        all,
                        key@,
                        new,
                    ));
                }
                let mut out: Vec<Member> = Vec::new();
                let mut i: usize = 0;
                while i < v.len() && !same(v[i].key.as_str(), key)
                    invariant
                        i <= v@.len(),
                        self@ == JsonSpec::Object(all),
                        all == members_view(v@),
                        members_view(out@) == all.take(i as int),
                        first_member(all, key@) == first_member(all.skip(i as int), key@),
                        replaced(all, key@, new) == all.take(i as int) + replaced(
                            all.skip(i as int),
                            key@,
                            new,
                        ),
                    decreases v@.len() - i,
                {
                    let ghost before = members_view(out@);
                    out.push(Member { key: v[i].key.clone(), value: v[i].value.copy() });
                    proof {
                        let rest = all.skip(i as int);
                        assert(rest[0] == all[i as int]);
                        assert(rest.drop_first() =~= all.skip(i + 1));
                        assert(members_view(out@) =~= before.push(all[i as int]));
                        assert(all.take(i + 1) =~= all.take(i as int).push(all[i as int]));
                        assert(all.take(i as int) + replaced(rest, key@, new) =~= all.take(i + 1)
                            + replaced(all.skip(i + 1), key@, new));
                    }
                    i += 1;
                }
                if i == v.len() {
                    assert(all.skip(i as int).len() == 0);
                    return None;
                }
                proof {
                    let rest = all.skip(i as int);
                    assert(rest[0] == all[i as int]);
                    assert(rest.drop_first() =~= all.skip(i + 1));
                }
                let ghost front = members_view(out@);
                out.push(Member { key: key.to_owned(), value });
                assert(members_view(out@) =~= front.push((key@, new)));
                i += 1;
                let ghost start = i;
                while i < v.len()
                    invariant
                        start <= i <= v@.len(),
                        start >= 1,
                        all == members_view(v@),
                        members_view(out@) == front.push((key@, new)) + all.subrange(
                            start as int,
                            i as int,
                        ),
                    decreases v@.len() - i,
                {
                    let ghost before = members_view(out@);
                    out.push(Member { key: v[i].key.clone(), value: v[i].value.copy() });
                    assert(members_view(out@) =~= before.push(all[i as int]));
                    assert(all.subrange(start as int, i + 1) =~= all.subrange(
                        start as int,
                        i as int,
                    ).push(all[i as int]));
                    i += 1;
                }
                proof {
                    lemma_object_view(out);
                    assert(all.subrange(start as int, all.len() as int) =~= all.skip(start as int));
                    assert(members_view(out@) =~= replaced(all, key@, new));
                }
                Some(Json::Object(out))
            },
            _ => None,
        }
    }

    /// The value with that under a key of the value under another key replaced; nothing where
    /// there is none.
    pub fn with_inner(&self, outer: &str, inner: &str, value: Json) -> (r: Option<Json>)
        ensures
            match r {
                Some(j) => self@.with_inner(outer@, inner@, value@) == Some(j@),
                None => self@.with_inner(outer@, inner@, value@) is None,
            },
    {
        match self.get(outer) {
            Some(m) => match m.with(inner, value) {
                Some(changed) => self.with(outer, changed),
                None => None,
            },
            None => None,
        }
    }
}

/// An object member.
pub fn member(key: &str, value: Json) -> (r: Member)
    ensures
        r.key@ == key@,
        r.value == value,
{
    Member { key: key.to_owned(), value }
}

/// A JSON object of the given members.
pub fn object(members: Vec<Member>) -> (r: Json)
    ensures
        r@ == JsonSpec::Object(members_view(members@)),
{
    proof {
        lemma_object_view(members);
    }
    Json::Object(members)
}

/// A JSON array of the given values.
pub fn array(items: Vec<Json>) -> (r: Json)
    ensures
        r@ == JsonSpec::Array(items_view(items@)),
{
    proof {
        lemma_array_view(items);
    }
    Json::Array(items)
}

/// A JSON text.
pub fn text(s: &str) -> (r: Json)
    ensures
        r@ == JsonSpec::Text(s@),
{
    Json::Text(s.to_owned())
}

/// What an optional JSON value says.
pub open spec fn opt_json(j: Option<&Json>) -> Option<JsonSpec> {
    match j {
        Some(j) => Some(j@),
        None => None,
    }
}

/// What an array of texts says.
pub open spec fn texts_model(list: Seq<Seq<char>>) -> JsonSpec {
    JsonSpec::Array(list.map_values(|t: Seq<char>| JsonSpec::Text(t)))
}

}
