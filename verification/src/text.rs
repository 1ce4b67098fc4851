//! Text operations on strings seen as sequences of characters.
use vstd::prelude::*;
use vstd::string::*;

verus! {

/// `String::push` appends one character at the end of the string.
pub assume_specification[ String::push ](s: &mut String, c: char)
    ensures
        final(s)@ == old(s)@.push(c),
;

/// What formatting a string for debugging gives: it stands in quotes, with some of its characters
/// escaped.
pub uninterp spec fn debug_text(s: Seq<char>) -> Seq<char>;

/// The `Debug` form of a string, which depends on its characters alone. Which of them are escaped is
/// left unsaid.
#[verifier::external_body]
pub(crate) fn quoted(s: &str) -> (r: String)
    ensures
        r@ == debug_text(s@),
{
    format!("{s:?}")
}

/// The texts that a list of strings holds.
pub open spec fn texts(list: Seq<String>) -> Seq<Seq<char>> {
    list.map_values(|s: String| s@)
}

/// The text that an optional string holds.
pub open spec fn opt_text(s: Option<String>) -> Option<Seq<char>> {
    match s {
        Some(s) => Some(s@),
        None => None,
    }
}

/// The text that an optional string slice holds.
pub open spec fn opt_str(s: Option<&str>) -> Option<Seq<char>> {
    match s {
        Some(s) => Some(s@),
        None => None,
    }
}

/// The characters of a string, in order.
pub fn chars_of(s: &str) -> (r: Vec<char>)
    ensures
        r@ == s@,
{
    let mut out: Vec<char> = Vec::new();
    for c in it: s.chars()
        invariant
            out@ == it.seq().take(it.index() as int),
            it.seq() == s@,
    {
        out.push(c);
    }
    out
}

/// The string made of the characters from `from` up to `to`.
pub fn string_of(chars: &Vec<char>, from: usize, to: usize) -> (r: String)
    requires
        from <= to <= chars@.len(),
    ensures
        r@ == chars@.subrange(from as int, to as int),
{
    let mut out = String::new();
    let mut i: usize = from;
    while i < to
        invariant
            from <= i <= to <= chars@.len(),
            out@ == chars@.subrange(from as int, i as int),
        decreases to - i,
    {
        out.push(chars[i]);
        i += 1;
    }
    out
}

/// Whether two strings hold the same text.
pub fn same(a: &str, b: &str) -> (r: bool)
    ensures
        r == (a@ == b@),
{
    a.to_owned() == b.to_owned()
}

/// An owned copy of an optional string slice.
pub fn owned(s: Option<&str>) -> (r: Option<String>)
    ensures
        opt_text(r) == opt_str(s),
{
    match s {
        Some(s) => Some(s.to_owned()),
        None => None,
    }
}

/// A copy of a list of strings.
pub fn copy_texts(list: &Vec<String>) -> (r: Vec<String>)
    ensures
        texts(r@) == texts(list@),
{
    let mut out: Vec<String> = Vec::new();
    let mut i: usize = 0;
    while i < list.len()
        invariant
            i <= list@.len(),
            out@.len() == i,
            forall|k: int| 0 <= k < i ==> (#[trigger] out@[k])@ == list@[k]@,
        decreases list@.len() - i,
    {
        out.push(list[i].clone());
        i += 1;
    }
    assert(texts(out@) =~= texts(list@));
    out
}

/// The parts, with the separator between each two of them.
pub open spec fn joined(parts: Seq<Seq<char>>, sep: Seq<char>) -> Seq<char>
    decreases parts.len(),
{
    if parts.len() == 0 {
        Seq::empty()
    } else if parts.len() == 1 {
        parts[0]
    } else {
        joined(parts.drop_last(), sep) + sep + parts.last()
    }
}

/// Joins the strings from index `from` on.
pub fn join(parts: &Vec<String>, from: usize, sep: &str) -> (r: String)
    requires
        from <= parts@.len(),
    ensures
        r@ == joined(texts(parts@).skip(from as int), sep@),
{
    let mut out = String::new();
    let mut i: usize = from;
    let ghost all = texts(parts@).skip(from as int);
    while i < parts.len()
        invariant
            from <= i <= parts@.len(),
            all == texts(parts@).skip(from as int),
            out@ == joined(all.take(i - from), sep@),
        decreases parts@.len() - i,
    {
        if i > from {
            out.append(sep);
        }
        out.append(parts[i].as_str());
        i += 1;
        proof {
            let t = all.take(i - from);
            assert(t.drop_last() == all.take(i - from - 1));
            assert(t.last() == parts@[i - 1]@);
        }
    }
    assert(all.take(parts@.len() - from) == all);
    out
}

/// The pieces between the occurrences of a separator character.
pub open spec fn split_on(s: Seq<char>, sep: char) -> Seq<Seq<char>>
    decreases s.len(),
{
    if s.len() == 0 {
        seq![Seq::<char>::empty()]
    } else {
        let before = split_on(s.drop_last(), sep);
        if s.last() == sep {
            before.push(Seq::empty())
        } else {
            before.update(before.len() - 1, before.last().push(s.last()))
        }
    }
}

pub proof fn lemma_split_nonempty(s: Seq<char>, sep: char)
    ensures
        split_on(s, sep).len() > 0,
    decreases s.len(),
{
    if s.len() > 0 {
        lemma_split_nonempty(s.drop_last(), sep);
    }
}

/// Text without the separator only makes the last piece longer.
pub proof fn lemma_split_append(s: Seq<char>, t: Seq<char>, sep: char)
    requires
        !t.contains(sep),
    ensures
        split_on(s + t, sep) == split_on(s, sep).update(
            split_on(s, sep).len() - 1,
            split_on(s, sep).last() + t,
        ),
    decreases t.len(),
{
    lemma_split_nonempty(s, sep);
    let before = split_on(s, sep);
    if t.len() == 0 {
        assert(s + t =~= s);
        assert(before.last() + t =~= before.last());
        assert(before.update(before.len() - 1, before.last() + t) =~= before);
    } else {
        let c = t.last();
        assert(t[t.len() - 1] == c);
        assert forall|i: int| 0 <= i < t.drop_last().len() implies t.drop_last()[i] != sep by {
            assert(t[i] != sep);
        }
        lemma_split_append(s, t.drop_last(), sep);
        assert((s + t).drop_last() =~= s + t.drop_last());
        assert((s + t).last() == c);
        let inner = split_on(s + t.drop_last(), sep);
        assert(inner.last().push(c) =~= before.last() + t);
        assert(split_on(s + t, sep) =~= before.update(before.len() - 1, before.last() + t));
    }
}

/// A line put behind complete lines becomes the last one.
pub proof fn lemma_lines_append(s: Seq<char>, line: Seq<char>)
    requires
        s.len() == 0 || s.last() == '\n',
        !line.contains('\n'),
        !line.contains('\r'),
    ensures
        lines_of(s + line + seq!['\n']) == lines_of(s).push(line),
{
    let sep = '\n';
    lemma_split_nonempty(s, sep);
    let parts = split_on(s, sep);
    assert(parts.last().len() == 0);
    lemma_split_append(s, line, sep);
    let mid = split_on(s + line, sep);
    assert(parts.last() + line =~= line);
    let whole = s + line + seq![sep];
    assert(whole.drop_last() =~= s + line);
    assert(whole.last() == sep);
    let all = split_on(whole, sep);
    assert(all =~= mid.push(Seq::empty()));
    assert(all.drop_last() =~= mid);
    if line.len() > 0 {
        assert(line[line.len() - 1] != '\r');
    }
    assert(without_cr(line) == line);
    let f = |l: Seq<char>| without_cr(l);
    assert(mid =~= parts.drop_last().push(line));
    assert(lines_of(whole) =~= parts.drop_last().map_values(f).push(line));
}

/// A text that starts with no white space is not blank.
pub proof fn lemma_not_blank(s: Seq<char>)
    requires
        s.len() > 0,
        !is_white(s[0]),
    ensures
        trimmed(s).len() > 0,
{
    lemma_end_kept(s);
}

proof fn lemma_end_kept(s: Seq<char>)
    requires
        s.len() > 0,
        !is_white(s[0]),
    ensures
        trimmed_end(s).len() > 0,
    decreases s.len(),
{
    if is_white(s.last()) {
        assert(s.drop_last()[0] == s[0]);
        lemma_end_kept(s.drop_last());
    }
}

/// Splits at every occurrence of a separator character.
pub fn split(s: &str, sep: char) -> (r: Vec<String>)
    ensures
        texts(r@) == split_on(s@, sep),
        r@.len() > 0,
{
    let chars = chars_of(s);
    let mut out: Vec<String> = Vec::new();
    let mut cur = String::new();
    let mut i: usize = 0;
    assert(split_on(chars@.take(0), sep) =~= texts(out@).push(cur@));
    while i < chars.len()
        invariant
            i <= chars@.len(),
            split_on(chars@.take(i as int), sep) == texts(out@).push(cur@),
        decreases chars@.len() - i,
    {
        let c = chars[i];
        proof {
            assert(chars@.take(i + 1).drop_last() == chars@.take(i as int));
        }
        let ghost before = texts(out@).push(cur@);
        if c == sep {
            out.push(cur);
            cur = String::new();
            assert(texts(out@).push(cur@) =~= before.push(Seq::empty()));
        } else {
            let ghost old_cur = cur@;
            cur.push(c);
            assert(before.last() == old_cur);
            assert(texts(out@).push(cur@) =~= before.update(
                before.len() - 1,
                before.last().push(c),
            ));
        }
        i += 1;
    }
    assert(chars@.take(chars@.len() as int) == chars@);
    let ghost done = texts(out@).push(cur@);
    out.push(cur);
    assert(texts(out@) =~= done);
    out
}

/// A line without the carriage return that stands before its line feed.
pub open spec fn without_cr(line: Seq<char>) -> Seq<char> {
    if line.len() > 0 && line.last() == '\r' {
        line.drop_last()
    } else {
        line
    }
}

/// The lines of a text. Each line ends in `\n` or `\r\n`; the last one may
/// lack its ending.
pub open spec fn lines_of(s: Seq<char>) -> Seq<Seq<char>> {
    let parts = split_on(s, '\n');
    let ended = parts.drop_last().map_values(|l: Seq<char>| without_cr(l));
    if parts.last().len() == 0 {
        ended
    } else {
        ended.push(parts.last())
    }
}

fn cut_cr(line: &str) -> (r: String)
    ensures
        r@ == without_cr(line@),
{
    let chars = chars_of(line);
    let n = chars.len();
    if n > 0 && chars[n - 1] == '\r' {
        string_of(&chars, 0, n - 1)
    } else {
        line.to_owned()
    }
}

/// The lines of a text.
pub fn lines(s: &str) -> (r: Vec<String>)
    ensures
        texts(r@) == lines_of(s@),
{
    let parts = split(s, '\n');
    let ghost p = texts(parts@);
    let ghost ended = p.drop_last().map_values(|l: Seq<char>| without_cr(l));
    let n = parts.len();
    let mut out: Vec<String> = Vec::new();
    let mut i: usize = 0;
    while i < n - 1
        invariant
            n == parts@.len(),
            n > 0,
            i <= n - 1,
            p == texts(parts@),
            ended == p.drop_last().map_values(|l: Seq<char>| without_cr(l)),
            texts(out@) == ended.take(i as int),
        decreases n - i,
    {
        let line = cut_cr(parts[i].as_str());
        let ghost before = texts(out@);
        out.push(line);
        assert(texts(out@) =~= before.push(line@));
        assert(p.drop_last()[i as int] == parts@[i as int]@);
        assert(ended.take(i + 1) =~= before.push(ended[i as int]));
        i += 1;
    }
    assert(ended.take(n - 1) =~= ended);
    let last = parts[n - 1].as_str();
    assert(p.last() == last@);
    if !last.is_empty() {
        out.push(last.to_owned());
        assert(texts(out@) =~= ended.push(p.last()));
    }
    out
}

/// The characters with the Unicode property `White_Space`.
pub open spec fn is_white(c: char) -> bool {
    let n = c as u32;
    ||| 0x09 <= n <= 0x0d
    ||| n == 0x20
    ||| n == 0x85
    ||| n == 0xa0
    ||| n == 0x1680
    ||| 0x2000 <= n <= 0x200a
    ||| n == 0x2028
    ||| n == 0x2029
    ||| n == 0x202f
    ||| n == 0x205f
    ||| n == 0x3000
}

fn white(c: char) -> (r: bool)
    ensures
        r == is_white(c),
{
    let n: u32 = c as u32;
    (0x09 <= n && n <= 0x0d) || n == 0x20 || n == 0x85 || n == 0xa0 || n == 0x1680 || (0x2000 <= n
        && n <= 0x200a) || n == 0x2028 || n == 0x2029 || n == 0x202f || n == 0x205f || n == 0x3000
}

/// The text without leading white space.
pub open spec fn trimmed_start(s: Seq<char>) -> Seq<char>
    decreases s.len(),
{
    if s.len() > 0 && is_white(s[0]) {
        trimmed_start(s.drop_first())
    } else {
        s
    }
}

/// The text without trailing white space.
pub open spec fn trimmed_end(s: Seq<char>) -> Seq<char>
    decreases s.len(),
{
    if s.len() > 0 && is_white(s.last()) {
        trimmed_end(s.drop_last())
    } else {
        s
    }
}

/// The text without leading and trailing white space.
pub open spec fn trimmed(s: Seq<char>) -> Seq<char> {
    trimmed_end(trimmed_start(s))
}

/// Removes leading and trailing white space.
pub fn trim(s: &str) -> (r: String)
    ensures
        r@ == trimmed(s@),
{
    let chars = chars_of(s);
    let n = chars.len();
    let mut from: usize = 0;
    assert(chars@.skip(0) == chars@);
    while from < n && white(chars[from])
        invariant
            n == chars@.len(),
            from <= n,
            trimmed_start(chars@) == trimmed_start(chars@.skip(from as int)),
        decreases n - from,
    {
        assert(chars@.skip(from as int).drop_first() == chars@.skip(from + 1));
        from += 1;
    }
    let mut to: usize = n;
    assert(chars@.skip(from as int) == chars@.subrange(from as int, n as int));
    while to > from && white(chars[to - 1])
        invariant
            n == chars@.len(),
            from <= to <= n,
            trimmed(chars@) == trimmed_end(chars@.subrange(from as int, to as int)),
        decreases to,
    {
        assert(chars@.subrange(from as int, to as int).drop_last() == chars@.subrange(
            from as int,
            to - 1,
        ));
        to -= 1;
    }
    string_of(&chars, from, to)
}

/// Whether the text holds nothing but white space.
pub fn is_blank(s: &str) -> (r: bool)
    ensures
        r == (trimmed(s@).len() == 0),
{
    let t = trim(s);
    t.as_str().is_empty()
}

/// The text without its trailing repetitions of one character.
pub open spec fn cut_end(s: Seq<char>, c: char) -> Seq<char>
    decreases s.len(),
{
    if s.len() > 0 && s.last() == c {
        cut_end(s.drop_last(), c)
    } else {
        s
    }
}

/// Removes the trailing repetitions of one character.
pub fn trim_end_matches(s: &str, c: char) -> (r: String)
    ensures
        r@ == cut_end(s@, c),
{
    let chars = chars_of(s);
    let mut to: usize = chars.len();
    assert(chars@.take(to as int) == chars@);
    while to > 0 && chars[to - 1] == c
        invariant
            to <= chars@.len(),
            cut_end(chars@, c) == cut_end(chars@.take(to as int), c),
        decreases to,
    {
        assert(chars@.take(to as int).drop_last() == chars@.take(to - 1));
        to -= 1;
    }
    assert(chars@.subrange(0, to as int) == chars@.take(to as int));
    string_of(&chars, 0, to)
}

/// Whether `part` stands in `s` at position `at`.
pub open spec fn stands_at(s: Seq<char>, part: Seq<char>, at: int) -> bool {
    &&& 0 <= at <= s.len() - part.len()
    &&& s.subrange(at, at + part.len()) == part
}

/// Whether `part` stands somewhere in `s`.
pub open spec fn has_part(s: Seq<char>, part: Seq<char>) -> bool {
    exists|at: int| #[trigger] stands_at(s, part, at)
}

fn found_at(s: &Vec<char>, part: &Vec<char>, at: usize) -> (r: bool)
    ensures
        r == stands_at(s@, part@, at as int),
{
    if part.len() > s.len() || at > s.len() - part.len() {
        return false;
    }
    let mut i: usize = 0;
    while i < part.len()
        invariant
            i <= part@.len(),
            at + part@.len() <= s.len(),
            forall|j: int| 0 <= j < i ==> s@[at + j] == part@[j],
        decreases part@.len() - i,
    {
        if s[at + i] != part[i] {
            assert(s@.subrange(at as int, at + part@.len())[i as int] != part@[i as int]);
            return false;
        }
        i += 1;
    }
    assert(s@.subrange(at as int, at + part@.len()) =~= part@);
    true
}

/// Whether the text starts with a given prefix.
pub fn starts_with(s: &str, prefix: &str) -> (r: bool)
    ensures
        r == prefix@.is_prefix_of(s@),
{
    let a = chars_of(s);
    let b = chars_of(prefix);
    found_at(&a, &b, 0)
}

/// Whether the text ends with a given suffix.
pub fn ends_with(s: &str, suffix: &str) -> (r: bool)
    ensures
        r == suffix@.is_suffix_of(s@),
{
    let a = chars_of(s);
    let b = chars_of(suffix);
    if b.len() > a.len() {
        false
    } else {
        let at: usize = a.len() - b.len();
        found_at(&a, &b, at)
    }
}

/// Whether a given part stands somewhere in the text.
pub fn contains(s: &str, part: &str) -> (r: bool)
    ensures
        r == has_part(s@, part@),
{
    let a = chars_of(s);
    let b = chars_of(part);
    if b.len() > a.len() {
        return false;
    }
    let last: usize = a.len() - b.len();
    let mut at: usize = 0;
    while at <= last
        invariant
            a@ == s@,
            b@ == part@,
            last == a@.len() - b@.len(),
            at <= last + 1,
            forall|j: int| 0 <= j < at ==> !#[trigger] stands_at(s@, part@, j),
        decreases last + 1 - at,
    {
        if found_at(&a, &b, at) {
            return true;
        }
        if at == last {
            return false;
        }
        at += 1;
    }
    false
}

/// Whether one of the characters of `set` stands in `s`.
pub open spec fn has_any(s: Seq<char>, set: Seq<char>) -> bool {
    exists|i: int| 0 <= i < s.len() && set.contains(#[trigger] s[i])
}

fn in_set(c: char, set: &Vec<char>) -> (r: bool)
    ensures
        r == set@.contains(c),
{
    let mut i: usize = 0;
    while i < set.len()
        invariant
            i <= set@.len(),
            forall|j: int| 0 <= j < i ==> set@[j] != c,
        decreases set@.len() - i,
    {
        if set[i] == c {
            return true;
        }
        i += 1;
    }
    false
}

/// Whether one of the characters of `set` stands in the text.
pub fn contains_any(s: &str, set: &str) -> (r: bool)
    ensures
        r == has_any(s@, set@),
{
    let a = chars_of(s);
    let b = chars_of(set);
    let mut i: usize = 0;
    while i < a.len()
        invariant
            i <= a@.len(),
            a@ == s@,
            b@ == set@,
            forall|j: int| 0 <= j < i ==> !b@.contains(#[trigger] a@[j]),
        decreases a@.len() - i,
    {
        if in_set(a[i], &b) {
            return true;
        }
        i += 1;
    }
    false
}

/// What follows a prefix, if the text starts with it.
pub open spec fn after_prefix(s: Seq<char>, prefix: Seq<char>) -> Option<Seq<char>> {
    if prefix.is_prefix_of(s) {
        Some(s.skip(prefix.len() as int))
    } else {
        None
    }
}

/// What follows a prefix, if the text starts with it.
pub fn strip_prefix(s: &str, prefix: &str) -> (r: Option<String>)
    ensures
        opt_text(r) == after_prefix(s@, prefix@),
{
    let a = chars_of(s);
    let b = chars_of(prefix);
    if found_at(&a, &b, 0) {
        assert(a@.subrange(b@.len() as int, a@.len() as int) == a@.skip(b@.len() as int));
        Some(string_of(&a, b.len(), a.len()))
    } else {
        None
    }
}

/// At most the first `n` characters.
pub open spec fn first_chars(s: Seq<char>, n: int) -> Seq<char> {
    if s.len() <= n {
        s
    } else {
        s.take(n)
    }
}

/// At most the first `n` characters.
pub fn take_chars(s: &str, n: usize) -> (r: String)
    ensures
        r@ == first_chars(s@, n as int),
{
    let a = chars_of(s);
    if a.len() <= n {
        s.to_owned()
    } else {
        assert(a@.subrange(0, n as int) == a@.take(n as int));
        string_of(&a, 0, n)
    }
}

/// An ASCII lower-case letter in upper case, any other character as it is.
pub open spec fn upper(c: char) -> char {
    if 'a' <= c && c <= 'z' {
        ((c as u8) - 32) as char
    } else {
        c
    }
}

/// A text with its ASCII letters in upper case.
pub open spec fn uppercased(s: Seq<char>) -> Seq<char> {
    s.map_values(|c: char| upper(c))
}

/// Puts the ASCII letters of a text in upper case.
pub fn to_ascii_uppercase(s: &str) -> (r: String)
    ensures
        r@ == uppercased(s@),
{
    let chars = chars_of(s);
    let mut out = String::new();
    let mut i: usize = 0;
    while i < chars.len()
        invariant
            i <= chars@.len(),
            out@ == uppercased(chars@.take(i as int)),
        decreases chars@.len() - i,
    {
        let c = chars[i];
        if 'a' <= c && c <= 'z' {
            out.push(((c as u8) - 32) as char);
        } else {
            out.push(c);
        }
        i += 1;
        assert(out@ =~= uppercased(chars@.take(i as int)));
    }
    assert(chars@.take(chars@.len() as int) == chars@);
    out
}

}
