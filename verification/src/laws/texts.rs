//! Texts.
use vstd::prelude::*;
use vstd::string::*;

use crate::text::{
    after_prefix, cut_end, first_chars, is_white, joined, lemma_split_nonempty, split_on, trimmed,
    trimmed_end, trimmed_start, uppercased,
};

verus! {

/// Texts are joined in order, with the separator between two of them and nowhere else.
pub proof fn law_joined(parts: Seq<Seq<char>>, part: Seq<char>, sep: Seq<char>)
    ensures
        joined(Seq::empty(), sep).len() == 0,
        joined(seq![part], sep) == part,
        parts.len() > 0 ==> joined(parts.push(part), sep) == joined(parts, sep) + sep + part,
{
    if parts.len() > 0 {
        assert(parts.push(part).drop_last() =~= parts);
    }
}

/// Splitting undoes joining with the separator: no piece holds it, and the pieces joined make up the
/// text.
pub proof fn law_split_and_joined(s: Seq<char>, sep: char)
    ensures
        split_on(s, sep).len() > 0,
        forall|i: int| 0 <= i < split_on(s, sep).len() ==> !(#[trigger] split_on(s, sep)[i]).contains(
            sep,
        ),
        joined(split_on(s, sep), seq![sep]) == s,
    decreases s.len(),
{
    lemma_split_nonempty(s, sep);
    let all = split_on(s, sep);
    if s.len() == 0 {
        assert(all[0] =~= Seq::empty());
        assert(s =~= Seq::empty());
    } else {
        let front = s.drop_last();
        let before = split_on(front, sep);
        lemma_split_nonempty(front, sep);
        law_split_and_joined(front, sep);
        if s.last() == sep {
            assert(all.drop_last() =~= before);
            assert(all.last() =~= Seq::empty());
            assert(joined(all, seq![sep]) =~= s);
            assert forall|i: int| 0 <= i < all.len() implies !(#[trigger] all[i]).contains(sep) by {
                if i < before.len() {
                    assert(all[i] == before[i]);
                }
            }
        } else {
            let last = before.last().push(s.last());
            assert(all.drop_last() =~= before.drop_last());
            assert(all.last() == last);
            assert forall|i: int| 0 <= i < all.len() implies !(#[trigger] all[i]).contains(sep) by {
                if i < before.len() - 1 {
                    assert(all[i] == before[i]);
                } else {
                    assert(!before[before.len() - 1].contains(sep));
                    if last.contains(sep) {
                        let k = choose|k: int| 0 <= k < last.len() && last[k] == sep;
                        assert(before.last()[k] == sep);
                    }
                }
            }
            assert(front.push(s.last()) =~= s);
            if all.len() == 1 {
                assert(joined(before, seq![sep]) == before.last());
                assert(joined(all, seq![sep]) =~= front.push(s.last()));
            } else {
                let head = joined(before.drop_last(), seq![sep]);
                assert(joined(before, seq![sep]) == head + seq![sep] + before.last());
                assert(joined(all, seq![sep]) == head + seq![sep] + last);
                assert(head + seq![sep] + last =~= front.push(s.last()));
            }
        }
    }
}

/// What follows a prefix is what was put behind it, and a text that does not start with the prefix
/// has nothing behind it.
pub proof fn law_after_prefix(prefix: Seq<char>, rest: Seq<char>, s: Seq<char>)
    ensures
        after_prefix(prefix + rest, prefix) == Some(rest),
        after_prefix(s, prefix) matches Some(t) ==> s == prefix + t,
        after_prefix(s, prefix) is None ==> forall|t: Seq<char>| s != #[trigger] (prefix + t),
{
    let whole = prefix + rest;
    assert(whole.subrange(0, prefix.len() as int) =~= prefix);
    assert(whole.skip(prefix.len() as int) =~= rest);
    if let Some(t) = after_prefix(s, prefix) {
        assert(s =~= prefix + t);
    } else {
        assert forall|t: Seq<char>| s != #[trigger] (prefix + t) by {
            if s == prefix + t {
                assert(s.subrange(0, prefix.len() as int) =~= prefix);
            }
        }
    }
}

/// The front of a text is as long as it may be, and starts the text.
pub proof fn law_first_chars(s: Seq<char>, n: int)
    requires
        n >= 0,
    ensures
        first_chars(s, n).is_prefix_of(s),
        first_chars(s, n).len() == if s.len() < n {
            s.len() as int
        } else {
            n
        },
{
    assert(first_chars(s, n) =~= s.subrange(0, first_chars(s, n).len() as int));
}

/// Cutting a character off the end of a text takes all of its repetitions there and nothing else.
pub proof fn law_cut_end(s: Seq<char>, c: char)
    ensures
        cut_end(s, c).is_prefix_of(s),
        cut_end(s, c).len() > 0 ==> cut_end(s, c).last() != c,
        forall|i: int| cut_end(s, c).len() <= i < s.len() ==> #[trigger] s[i] == c,
    decreases s.len(),
{
    if s.len() > 0 && s.last() == c {
        law_cut_end(s.drop_last(), c);
        assert forall|i: int| cut_end(s, c).len() <= i < s.len() implies #[trigger] s[i] == c by {
            if i < s.len() - 1 {
                assert(s.drop_last()[i] == s[i]);
            }
        }
        assert(cut_end(s, c) =~= s.subrange(0, cut_end(s, c).len() as int));
    } else {
        assert(s.subrange(0, s.len() as int) =~= s);
    }
}

proof fn lemma_trimmed_start(s: Seq<char>) -> (n: int)
    ensures
        0 <= n <= s.len(),
        trimmed_start(s) == s.skip(n),
        forall|i: int| 0 <= i < n ==> is_white(#[trigger] s[i]),
        n < s.len() ==> !is_white(s[n]),
    decreases s.len(),
{
    if s.len() > 0 && is_white(s[0]) {
        let rest = s.drop_first();
        let k = lemma_trimmed_start(rest);
        assert(rest.skip(k) =~= s.skip(k + 1));
        assert forall|i: int| 0 <= i < k + 1 implies is_white(#[trigger] s[i]) by {
            if i > 0 {
                assert(rest[i - 1] == s[i]);
            }
        }
        if k < rest.len() {
            assert(rest[k] == s[k + 1]);
        }
        k + 1
    } else {
        assert(s.skip(0) =~= s);
        0
    }
}

proof fn lemma_trimmed_end(s: Seq<char>) -> (n: int)
    ensures
        0 <= n <= s.len(),
        trimmed_end(s) == s.take(n),
        forall|i: int| n <= i < s.len() ==> is_white(#[trigger] s[i]),
        n > 0 ==> !is_white(s[n - 1]),
    decreases s.len(),
{
    if s.len() > 0 && is_white(s.last()) {
        let rest = s.drop_last();
        let k = lemma_trimmed_end(rest);
        assert(rest.take(k) =~= s.take(k));
        assert forall|i: int| k <= i < s.len() implies is_white(#[trigger] s[i]) by {
            if i < s.len() - 1 {
                assert(rest[i] == s[i]);
            }
        }
        if k > 0 {
            assert(rest[k - 1] == s[k - 1]);
        }
        k
    } else {
        assert(s.take(s.len() as int) =~= s);
        s.len() as int
    }
}

/// Trimming takes the white space off both ends of a text and nothing else.
pub proof fn law_trimmed(s: Seq<char>) -> (r: (int, int))
    ensures
        0 <= r.0 <= r.1 <= s.len(),
        trimmed(s) == s.subrange(r.0, r.1),
        forall|i: int| 0 <= i < s.len() && !(r.0 <= i < r.1) ==> is_white(#[trigger] s[i]),
        r.0 < r.1 ==> !is_white(s[r.0]) && !is_white(s[r.1 - 1]),
{
    let a = lemma_trimmed_start(s);
    let t = s.skip(a);
    let n = lemma_trimmed_end(t);
    assert(t.take(n) =~= s.subrange(a, a + n));
    assert forall|i: int| 0 <= i < s.len() && !(a <= i < a + n) implies is_white(#[trigger] s[i]) by {
        if i >= a {
            assert(t[i - a] == s[i]);
        }
    }
    if n > 0 {
        assert(t[0] == s[a]);
        assert(t[n - 1] == s[a + n - 1]);
    }
    (a, a + n)
}

/// White space is what Unicode says it is, of which ASCII holds the space and the five controls from
/// tab to carriage return.
pub proof fn law_white(c: char)
    requires
        (c as u32) < 128,
    ensures
        is_white(c) <==> c == ' ' || c == '\t' || c == '\n' || c == '\r' || c as u32 == 0x0b
            || c as u32 == 0x0c,
{
}

/// Upper case changes the letters from `a` to `z` and nothing else.
pub proof fn law_uppercased(s: Seq<char>, i: int)
    requires
        0 <= i < s.len(),
    ensures
        uppercased(s).len() == s.len(),
        'a' <= s[i] <= 'z' ==> uppercased(s)[i] as u32 == s[i] as u32 - 32,
        !('a' <= s[i] <= 'z') ==> uppercased(s)[i] == s[i],
{
}

}
