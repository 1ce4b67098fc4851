//! Numbers as texts.
use vstd::prelude::*;

use crate::codec::{hex_digits, uuid_text};
use crate::number::{
    decimal, digit_char, digits_part, digits_value, hexadecimal, is_digit, signed_decimal,
    unsigned_of,
};

verus! {

/// A number in decimal digits is made of digits, does not start with a zero unless it is one, and is
/// the number that the digits stand for.
pub proof fn law_decimal_digits(n: nat)
    ensures
        decimal(n).len() > 0,
        forall|i: int| 0 <= i < decimal(n).len() ==> '0' <= #[trigger] decimal(n)[i] <= '9',
        n > 0 ==> decimal(n)[0] != '0',
        n == 0 ==> decimal(n) == seq!['0'],
        digits_value(decimal(n)) == n,
    decreases n,
{
    reveal_with_fuel(digits_value, 2);
    if n < 10 {
        assert(decimal(n) =~= seq![digit_char(n)]);
        assert(decimal(n).drop_last() =~= Seq::empty());
        assert(decimal(n).last() as nat == 48 + n);
    } else {
        law_decimal_digits(n / 10);
        let front = decimal(n / 10);
        let last = digit_char(n % 10);
        assert(decimal(n) == front.push(last));
        assert(front.push(last).drop_last() =~= front);
        assert(last as nat == 48 + n % 10);
        assert forall|i: int| 0 <= i < decimal(n).len() implies '0' <= #[trigger] decimal(n)[i]
            <= '9' by {
            if i < front.len() {
                assert(decimal(n)[i] == front[i]);
            }
        }
        assert(decimal(n)[0] == front[0]);
    }
}

/// A negative number has a minus sign before its digits, another none.
pub proof fn law_signed_decimal(n: int)
    ensures
        n >= 0 ==> signed_decimal(n) == decimal(n as nat),
        n < 0 ==> signed_decimal(n) == seq!['-'] + decimal((-n) as nat),
{
}

/// A number that was written is read back, with a plus sign before it or without one.
pub proof fn law_numbers_are_read_back(n: u64)
    ensures
        unsigned_of(decimal(n as nat)) == Some(n),
        unsigned_of(seq!['+'] + decimal(n as nat)) == Some(n),
{
    let d = decimal(n as nat);
    law_decimal_digits(n as nat);
    assert(d[0] != '+');
    assert(digits_part(d) == d);
    let s = seq!['+'] + d;
    assert(s[0] == '+');
    assert(s.drop_first() =~= d);
}

/// Nothing but digits, with a plus sign before them or without one, is a number, and a number is what
/// its digits stand for.
pub proof fn law_only_digits_are_numbers(s: Seq<char>, i: int)
    ensures
        unsigned_of(s) is Some ==> s.len() > 0 && s != seq!['+'],
        unsigned_of(s) is Some && 0 <= i < s.len() ==> '0' <= s[i] <= '9' || (i == 0 && s[i] == '+'),
        unsigned_of(s) is Some && s[0] != '+' ==> unsigned_of(s)->0 == digits_value(s),
        unsigned_of(Seq::empty()) is None,
{
    let d = digits_part(s);
    if unsigned_of(s) is Some && 0 <= i < s.len() {
        if s[0] == '+' {
            if i > 0 {
                assert(d[i - 1] == s[i]);
                assert(is_digit(d[i - 1]));
            }
        } else {
            assert(d[i] == s[i]);
            assert(is_digit(d[i]));
        }
    }
}

/// Each digit counts ten times as much as the one behind it.
pub proof fn law_digits_value(s: Seq<char>, c: char)
    requires
        '0' <= c <= '9',
    ensures
        digits_value(Seq::empty()) == 0,
        digits_value(s.push(c)) == digits_value(s) * 10 + (c as nat - 48),
{
    assert(s.push(c).drop_last() =~= s);
}

/// The number that lower-case hexadecimal digits stand for.
pub open spec fn hex_number(s: Seq<char>) -> nat
    decreases s.len(),
{
    if s.len() == 0 {
        0
    } else {
        hex_number(s.drop_last()) * 16 + (if '0' <= s.last() <= '9' {
            (s.last() as nat - 48) as nat
        } else {
            (s.last() as nat - 87) as nat
        })
    }
}

/// A number in hexadecimal digits is the number that the digits stand for.
pub proof fn law_hexadecimal_digits(n: nat)
    ensures
        hex_number(hexadecimal(n)) == n,
        n > 0 ==> hexadecimal(n)[0] != '0',
    decreases n,
{
    reveal_with_fuel(hex_number, 2);
    if n < 16 {
        assert(hexadecimal(n) =~= seq![digit_char(n)]);
        assert(hexadecimal(n).drop_last() =~= Seq::empty());
        assert(digit_char(n) as nat == if n < 10 {
            48 + n
        } else {
            87 + n
        });
    } else {
        law_hexadecimal_digits(n / 16);
        let front = hexadecimal(n / 16);
        let d = n % 16;
        assert(front.push(digit_char(d)).drop_last() =~= front);
        assert(digit_char(d) as nat == if d < 10 {
            48 + d
        } else {
            87 + d
        });
        lemma_hexadecimal_nonempty(n / 16);
        assert(hexadecimal(n)[0] == front[0]);
    }
}

proof fn lemma_hexadecimal_nonempty(n: nat)
    ensures
        hexadecimal(n).len() > 0,
{
}

proof fn lemma_fixed_digits(n: nat, width: nat)
    ensures
        hex_digits(n, width).len() == width,
        n < pow16(width) ==> hex_number(hex_digits(n, width)) == n,
    decreases width,
{
    if width > 0 {
        let w = (width - 1) as nat;
        lemma_fixed_digits(n / 16, w);
        let front = hex_digits(n / 16, w);
        let d = n % 16;
        assert(front.push(digit_char(d)).drop_last() =~= front);
        assert(digit_char(d) as nat == if d < 10 {
            48 + d
        } else {
            87 + d
        });
        if n < pow16(width) {
            assert(pow16(width) == 16 * pow16(w));
            assert(n / 16 < pow16(w));
        }
    } else {
        assert(pow16(0) == 1);
    }
}

/// A power of sixteen.
pub open spec fn pow16(k: nat) -> nat
    decreases k,
{
    if k == 0 {
        1
    } else {
        16 * pow16((k - 1) as nat)
    }
}

/// A UUID is written in 36 characters, with hyphens behind 8, 4, 4 and 4 of its digits, which stand
/// for its value.
pub proof fn law_uuid_text(id: u128)
    ensures
        uuid_text(id).len() == 36,
        uuid_text(id)[8] == '-' && uuid_text(id)[13] == '-' && uuid_text(id)[18] == '-' && uuid_text(
            id,
        )[23] == '-',
        hex_number(
            uuid_text(id).subrange(0, 8) + uuid_text(id).subrange(9, 13) + uuid_text(id).subrange(
                14,
                18,
            ) + uuid_text(id).subrange(19, 23) + uuid_text(id).subrange(24, 36),
        ) == id,
{
    let d = hex_digits(id as nat, 32);
    assert(pow16(32) == 0x1_0000_0000_0000_0000_0000_0000_0000_0000nat) by {
        reveal_with_fuel(pow16, 33);
    }
    lemma_fixed_digits(id as nat, 32);
    let t = uuid_text(id);
    assert(t.subrange(0, 8) + t.subrange(9, 13) + t.subrange(14, 18) + t.subrange(19, 23)
        + t.subrange(24, 36) =~= d);
}

}
