//! Enrollment codes.
use vstd::prelude::*;
use vstd::string::*;

use crate::daemon::enroll::{
    code_shaped, draw_follows, has_code, last_code_at, letters, live_codes, minted, spelled,
    typed_code, CodeSpec, ALPHABET,
};
use crate::text::{trimmed, uppercased};

verus! {

/// Whether a code is one of some that have not expired.
pub open spec fn holds_at(codes: Seq<CodeSpec>, code: Seq<char>, now: u64) -> bool {
    exists|i: int|
        0 <= i < codes.len() && (#[trigger] codes[i]).value == code && codes[i].expires > now
}

/// A code is taken exactly where it was issued and has not expired, whatever other codes there are.
pub proof fn law_live_codes_are_taken(codes: Seq<CodeSpec>, code: Seq<char>, now: u64)
    ensures
        has_code(live_codes(codes, now), code) <==> holds_at(codes, code, now),
    decreases codes.len(),
{
    if codes.len() > 0 {
        let front = codes.drop_last();
        let last = codes.last();
        let rest = live_codes(front, now);
        let live = live_codes(codes, now);
        law_live_codes_are_taken(front, code, now);
        assert(codes[codes.len() - 1] == last);
        if has_code(live, code) {
            let i = choose|i: int| 0 <= i < live.len() && (#[trigger] live[i]).value == code;
            if i < rest.len() {
                assert(rest[i] == live[i]);
                let k = choose|k: int|
                    0 <= k < front.len() && (#[trigger] front[k]).value == code && front[k].expires
                        > now;
                assert(codes[k] == front[k]);
            }
        }
        if holds_at(codes, code, now) {
            let k = choose|k: int|
                0 <= k < codes.len() && (#[trigger] codes[k]).value == code && codes[k].expires
                    > now;
            if k < front.len() {
                assert(front[k] == codes[k]);
                let i = choose|i: int| 0 <= i < rest.len() && (#[trigger] rest[i]).value == code;
                assert(live[i] == rest[i]);
            } else {
                assert(live[live.len() - 1].value == code);
            }
        }
    }
}

/// A code that was issued is taken for five minutes and not after, and issuing it takes no other code
/// away that still holds. Times are in nanoseconds.
pub proof fn law_codes_last_five_minutes(
    codes: Seq<CodeSpec>,
    code: Seq<char>,
    now: u64,
    later: u64,
    other: Seq<char>,
)
    requires
        now <= later,
    ensures
        later < now + 300_000_000_000 ==> has_code(
            live_codes(minted(codes, code, now), later),
            code,
        ),
        later >= now + 300_000_000_000 && !holds_at(codes, code, later) ==> !has_code(
            live_codes(minted(codes, code, now), later),
            code,
        ),
        other != code ==> (has_code(live_codes(minted(codes, code, now), later), other)
            <==> holds_at(codes, other, later)),
{
    let all = minted(codes, code, now);
    let live = live_codes(codes, now);
    law_live_codes_are_taken(all, code, later);
    law_live_codes_are_taken(all, other, later);
    lemma_members(codes, now);
    assert(all[live.len() as int].value == code);
    assert(all[live.len() as int].expires == now + 300_000_000_000);
    if holds_at(all, code, later) {
        let k = choose|k: int|
            0 <= k < all.len() && (#[trigger] all[k]).value == code && all[k].expires > later;
        if k < live.len() {
            assert(all[k] == live[k]);
            assert(live.contains(live[k]));
            let i = choose|i: int| 0 <= i < codes.len() && codes[i] == live[k];
            assert(codes[i].value == code && codes[i].expires > later);
        }
    }
    if other != code {
        if holds_at(all, other, later) {
            let k = choose|k: int|
                0 <= k < all.len() && (#[trigger] all[k]).value == other && all[k].expires > later;
            assert(all[k] == live[k]);
            assert(live.contains(live[k]));
            let i = choose|i: int| 0 <= i < codes.len() && codes[i] == live[k];
            assert(codes[i].value == other && codes[i].expires > later);
        }
        if holds_at(codes, other, later) {
            let i = choose|i: int|
                0 <= i < codes.len() && (#[trigger] codes[i]).value == other && codes[i].expires
                    > later;
            assert(codes.contains(codes[i]));
            assert(live.contains(codes[i]));
            let k = choose|k: int| 0 <= k < live.len() && live[k] == codes[i];
            assert(all[k] == live[k]);
        }
    }
}

proof fn lemma_members(codes: Seq<CodeSpec>, now: u64)
    ensures
        forall|c: CodeSpec|
            #![trigger live_codes(codes, now).contains(c)]
            #![trigger codes.contains(c)]
            live_codes(codes, now).contains(c) <==> codes.contains(c) && c.expires > now,
    decreases codes.len(),
{
    if codes.len() > 0 {
        let front = codes.drop_last();
        let last = codes.last();
        let rest = live_codes(front, now);
        lemma_members(front, now);
        assert(codes =~= front.push(last));
        assert forall|c: CodeSpec|
            #![trigger live_codes(codes, now).contains(c)]
            #![trigger codes.contains(c)]
            live_codes(codes, now).contains(c) <==> codes.contains(c) && c.expires > now by {
            crate::laws::release::lemma_pushed(front, last, c);
            crate::laws::release::lemma_pushed(rest, last, c);
            assert(rest.contains(c) <==> front.contains(c) && c.expires > now);
        }
    }
}

/// Redeeming a code takes one of it away and no other code.
pub proof fn law_redeeming_takes_one(codes: Seq<CodeSpec>, code: Seq<char>, at: int, other: Seq<char>)
    requires
        last_code_at(codes, code, at),
        other != code,
    ensures
        codes.remove(at).len() == codes.len() - 1,
        codes[at].value == code,
        has_code(codes.remove(at), other) <==> has_code(codes, other),
{
    let rest = codes.remove(at);
    if has_code(codes, other) {
        let i = choose|i: int| 0 <= i < codes.len() && (#[trigger] codes[i]).value == other;
        if i < at {
            assert(rest[i] == codes[i]);
        } else {
            assert(rest[i - 1] == codes[i]);
        }
    }
    if has_code(rest, other) {
        let i = choose|i: int| 0 <= i < rest.len() && (#[trigger] rest[i]).value == other;
        if i < at {
            assert(rest[i] == codes[i]);
        } else {
            assert(rest[i] == codes[i + 1]);
        }
    }
}

/// A code may be typed in lower case and with white space around it.
pub proof fn law_codes_are_typed_loosely(presented: Seq<char>)
    ensures
        typed_code(presented) == uppercased(trimmed(presented)),
        typed_code(presented).len() == trimmed(presented).len(),
{
}

/// A code has eight letters out of the 31 that no other is taken for.
pub proof fn law_codes_have_their_letters(code: Seq<char>, i: int)
    requires
        code_shaped(code),
        0 <= i < code.len(),
    ensures
        code.len() == 8,
        'A' <= code[i] <= 'Z' || '2' <= code[i] <= '9',
        code[i] != 'I' && code[i] != 'L' && code[i] != 'O',
{
    reveal_strlit("ABCDEFGHJKMNPQRSTUVWXYZ23456789");
    assert(ALPHABET@ =~= seq![
        'A', 'B', 'C', 'D', 'E', 'F', 'G', 'H', 'J', 'K', 'M', 'N', 'P', 'Q', 'R', 'S', 'T', 'U',
        'V', 'W', 'X', 'Y', 'Z', '2', '3', '4', '5', '6', '7', '8', '9',
    ]);
    let k = choose|k: int| 0 <= k < ALPHABET@.len() && ALPHABET@[k] == code[i];
    assert(ALPHABET@[k] == code[i]);
}

/// Each random byte below the last full run of the alphabet gives one letter, by its remainder, and
/// each of the rest none, so that no letter is more likely than another.
pub proof fn law_letters_are_even(bytes: Seq<u8>, b: u8)
    ensures
        letters(Seq::empty()).len() == 0,
        b < 248 ==> letters(bytes.push(b)) == letters(bytes).push(ALPHABET@[b as int % 31]),
        b >= 248 ==> letters(bytes.push(b)) == letters(bytes),
        ALPHABET@.len() == 31,
        forall|i: int, j: int| 0 <= i < j < 31 ==> #[trigger] ALPHABET@[i] != #[trigger] ALPHABET@[j],
{
    reveal_strlit("ABCDEFGHJKMNPQRSTUVWXYZ23456789");
    assert(ALPHABET@ =~= seq![
        'A', 'B', 'C', 'D', 'E', 'F', 'G', 'H', 'J', 'K', 'M', 'N', 'P', 'Q', 'R', 'S', 'T', 'U',
        'V', 'W', 'X', 'Y', 'Z', '2', '3', '4', '5', '6', '7', '8', '9',
    ]);
    assert(bytes.push(b).drop_last() =~= bytes);
}

/// A code that was drawn is the front of the letters of all the bytes that were drawn for it.
pub proof fn law_drawn_codes(rounds: Seq<Seq<u8>>, round: Seq<u8>, code: Seq<char>)
    ensures
        spelled(Seq::empty()).len() == 0,
        spelled(rounds).len() + letters(round).len() <= 8 ==> spelled(rounds.push(round)) == spelled(
            rounds,
        ) + letters(round),
        spelled(rounds).len() + letters(round).len() > 8 ==> spelled(rounds.push(round)) == (
        spelled(rounds) + letters(round)).take(8),
        draw_follows(rounds, Some(code)) ==> code == spelled(rounds) && code.len() == 8,
{
    assert(rounds.push(round).drop_last() =~= rounds);
}

/// What somebody typed is taken exactly where, without the white space around it and in upper case, it
/// is a code that was issued and has not expired.
pub proof fn law_typed_codes_are_taken(codes: Seq<CodeSpec>, presented: Seq<char>, now: u64)
    ensures
        crate::daemon::enroll::redeems(codes, presented, now) <==> holds_at(
            codes,
            uppercased(trimmed(presented)),
            now,
        ),
{
    law_live_codes_are_taken(codes, uppercased(trimmed(presented)), now);
}

}
