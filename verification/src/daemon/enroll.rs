//! One-time enrollment codes.
//!
//! The bearer token on the approval page only proves someone has the address. Enrolling a
//! passkey makes a *new approver*, so it also takes a code that the operator reads off their
//! own terminal. Codes are for one use and short-lived, and compared without an early exit.
use vstd::prelude::*;
use vstd::string::*;

use crate::codec::{random_bytes, secret_equal};
use crate::daemon::state::SECOND;
use crate::text::{is_white, opt_text, to_ascii_uppercase, trim, trimmed, uppercased};

verus! {

/// Long enough that guessing within the time of a code is hopeless, short enough to type on
/// a phone.
pub const CODE_LEN: usize = 8;

/// How many seconds a code stays valid.
pub const CODE_TTL: u64 = 300;

/// Unambiguous on a phone keyboard: no 0 and O, no 1, I and L.
pub const ALPHABET: &'static str = "ABCDEFGHJKMNPQRSTUVWXYZ23456789";

/// Random bytes from here on are thrown away, so that no letter is more likely than another.
pub const LIMIT: u8 = 248;

/// A code and until when it holds, on the daemon's clock.
pub struct Code {
    pub value: String,
    pub expires: u128,
}

/// What is known of a code.
#[verifier::ext_equal]
pub struct CodeSpec {
    pub value: Seq<char>,
    pub expires: u128,
}

impl View for Code {
    type V = CodeSpec;

    open spec fn view(&self) -> CodeSpec {
        CodeSpec { value: self.value@, expires: self.expires }
    }
}

/// The codes that have been issued.
pub struct EnrollCodes {
    pub codes: Vec<Code>,
}

impl View for EnrollCodes {
    type V = Seq<CodeSpec>;

    open spec fn view(&self) -> Seq<CodeSpec> {
        self.codes@.map_values(|c: Code| c@)
    }
}

/// The codes that still hold at a given time.
pub open spec fn live_codes(codes: Seq<CodeSpec>, now: u64) -> Seq<CodeSpec>
    decreases codes.len(),
{
    if codes.len() == 0 {
        Seq::empty()
    } else if codes.last().expires > now {
        live_codes(codes.drop_last(), now).push(codes.last())
    } else {
        live_codes(codes.drop_last(), now)
    }
}

/// The letters that random bytes stand for: each byte below the limit is one letter.
pub open spec fn letters(bytes: Seq<u8>) -> Seq<char>
    decreases bytes.len(),
{
    if bytes.len() == 0 {
        Seq::empty()
    } else if bytes.last() < LIMIT {
        letters(bytes.drop_last()).push(ALPHABET@[bytes.last() as int % ALPHABET@.len() as int])
    } else {
        letters(bytes.drop_last())
    }
}

/// At most as many letters as a code has.
pub open spec fn code_so_far(letters: Seq<char>) -> Seq<char> {
    crate::text::first_chars(letters, CODE_LEN as int)
}

/// How many random bytes are drawn at a time.
pub const ROUND_LEN: usize = 16;

/// The code, complete or not, that rounds of random bytes spell: their letters in order, as many as
/// a code has.
pub open spec fn spelled(rounds: Seq<Seq<u8>>) -> Seq<char>
    decreases rounds.len(),
{
    if rounds.len() == 0 {
        Seq::empty()
    } else {
        code_so_far(spelled(rounds.drop_last()) + letters(rounds.last()))
    }
}

/// Whether a draw that saw these rounds of random bytes comes to a result: bytes are drawn until
/// they spell a code, which is the result; there is none only where the largest number of rounds
/// spelled none.
pub open spec fn draw_follows(rounds: Seq<Seq<u8>>, r: Option<Seq<char>>) -> bool {
    &&& forall|k: int| 0 <= k < rounds.len() ==> (#[trigger] rounds[k]).len() == ROUND_LEN
    &&& forall|k: int|
        0 <= k < rounds.len() ==> spelled(#[trigger] rounds.take(k)).len() < CODE_LEN
    &&& match r {
        Some(code) => code == spelled(rounds) && code.len() == CODE_LEN,
        None => rounds.len() == u64::MAX && spelled(rounds).len() < CODE_LEN,
    }
}

/// Whether a text could be a code: eight letters of the alphabet.
pub open spec fn code_shaped(code: Seq<char>) -> bool {
    &&& code.len() == CODE_LEN
    &&& forall|i: int| 0 <= i < code.len() ==> ALPHABET@.contains(#[trigger] code[i])
}

/// The code that somebody typed, without white space around it and in upper case.
pub open spec fn typed_code(presented: Seq<char>) -> Seq<char> {
    uppercased(trimmed(presented))
}

/// The codes after one was minted: those that still hold, and the new one for the lifetime of a code.
pub open spec fn minted(codes: Seq<CodeSpec>, code: Seq<char>, now: u64) -> Seq<CodeSpec> {
    live_codes(codes, now).push(
        CodeSpec { value: code, expires: (now + CODE_TTL * SECOND) as u128 },
    )
}

/// Whether what somebody typed is a code that still holds.
pub open spec fn redeems(codes: Seq<CodeSpec>, presented: Seq<char>, now: u64) -> bool {
    has_code(live_codes(codes, now), typed_code(presented))
}

/// Whether a code stands at a position and at none after it.
pub open spec fn last_code_at(codes: Seq<CodeSpec>, code: Seq<char>, at: int) -> bool {
    &&& 0 <= at < codes.len()
    &&& codes[at].value == code
    &&& forall|k: int| at < k < codes.len() ==> (#[trigger] codes[k]).value != code
}

/// Whether a code is among some codes.
pub open spec fn has_code(codes: Seq<CodeSpec>, code: Seq<char>) -> bool {
    exists|i: int| 0 <= i < codes.len() && (#[trigger] codes[i]).value == code
}

/// A code that is presented when its time is up is not among the live ones.
pub proof fn law_codes_expire(codes: Seq<CodeSpec>, now: u64)
    ensures
        forall|c: CodeSpec| #[trigger] live_codes(codes, now).contains(c) ==> c.expires > now
            && codes.contains(c),
    decreases codes.len(),
{
    if codes.len() > 0 {
        law_codes_expire(codes.drop_last(), now);
        let rest = live_codes(codes.drop_last(), now);
        assert forall|c: CodeSpec| #[trigger] live_codes(codes, now).contains(c) implies c.expires
            > now && codes.contains(c) by {
            if rest.contains(c) {
                let k = choose|k: int| 0 <= k < codes.drop_last().len() && codes.drop_last()[k] == c;
                assert(codes[k] == c);
            } else {
                let k = choose|k: int|
                    0 <= k < live_codes(codes, now).len() && live_codes(codes, now)[k] == c;
                if k < rest.len() {
                    assert(rest[k] == c);
                }
                assert(codes[codes.len() - 1] == codes.last());
            }
        }
    }
}

/// A code that was issued once is gone after it was redeemed.
pub proof fn law_codes_are_for_one_use(codes: Seq<CodeSpec>, code: Seq<char>, at: int)
    requires
        last_code_at(codes, code, at),
        forall|k: int| 0 <= k < at ==> (#[trigger] codes[k]).value != code,
    ensures
        !has_code(codes.remove(at), code),
{
    let rest = codes.remove(at);
    assert forall|k: int| 0 <= k < rest.len() implies (#[trigger] rest[k]).value != code by {
        if k < at {
            assert(rest[k] == codes[k]);
        } else {
            assert(rest[k] == codes[k + 1]);
        }
    }
}

proof fn lemma_alphabet()
    ensures
        ALPHABET@.len() == 31,
        forall|i: int|
            0 <= i < 31 ==> 'A' <= #[trigger] ALPHABET@[i] <= 'Z' || '2' <= ALPHABET@[i] <= '9',
{
    reveal_strlit("ABCDEFGHJKMNPQRSTUVWXYZ23456789");
    assert(ALPHABET@ =~= seq![
        'A', 'B', 'C', 'D', 'E', 'F', 'G', 'H', 'J', 'K', 'M', 'N', 'P', 'Q', 'R', 'S', 'T', 'U',
        'V', 'W', 'X', 'Y', 'Z', '2', '3', '4', '5', '6', '7', '8', '9',
    ]);
}

/// A code that is typed as it was issued is taken for itself.
pub proof fn law_code_is_typed_as_issued(code: Seq<char>)
    requires
        code_shaped(code),
    ensures
        typed_code(code) == code,
{
    lemma_alphabet();
    assert forall|i: int| 0 <= i < code.len() implies 'A' <= #[trigger] code[i] <= 'Z' || '2'
        <= code[i] <= '9' by {
        let k = choose|k: int| 0 <= k < ALPHABET@.len() && ALPHABET@[k] == code[i];
        assert(ALPHABET@[k] == code[i]);
    }
    assert(!is_white(code[0]));
    assert(!is_white(code[7]));
    assert(trimmed(code) == code);
    assert(uppercased(code) =~= code);
}

proof fn lemma_letters_shaped(bytes: Seq<u8>)
    ensures
        forall|i: int|
            0 <= i < letters(bytes).len() ==> ALPHABET@.contains(#[trigger] letters(bytes)[i]),
    decreases bytes.len(),
{
    if bytes.len() > 0 {
        lemma_alphabet();
        lemma_letters_shaped(bytes.drop_last());
        let rest = letters(bytes.drop_last());
        assert forall|i: int| 0 <= i < letters(bytes).len() implies ALPHABET@.contains(
            #[trigger] letters(bytes)[i],
        ) by {
            if i < rest.len() {
                assert(letters(bytes)[i] == rest[i]);
            }
        }
    }
}

/// Puts the letters that some random bytes stand for behind a code that is not complete.
pub fn extend_code(value: &mut String, bytes: &Vec<u8>)
    requires
        old(value)@.len() <= CODE_LEN,
    ensures
        final(value)@ == code_so_far(old(value)@ + letters(bytes@)),
{
    proof {
        lemma_alphabet();
    }
    let alphabet = crate::text::chars_of(ALPHABET);
    let ghost start = value@;
    let mut n: usize = crate::text::chars_of(value.as_str()).len();
    let mut i: usize = 0;
    assert(start + letters(bytes@.take(0)) =~= start);
    while i < bytes.len()
        invariant
            i <= bytes@.len(),
            alphabet@ == ALPHABET@,
            alphabet@.len() == 31,
            n == value@.len(),
            n <= CODE_LEN,
            value@ == code_so_far(start + letters(bytes@.take(i as int))),
        decreases bytes@.len() - i,
    {
        let b: u8 = bytes[i];
        let ghost before = start + letters(bytes@.take(i as int));
        assert(bytes@.take(i + 1).drop_last() =~= bytes@.take(i as int));
        assert(bytes@.take(i + 1).last() == b);
        if b < LIMIT {
            let c = alphabet[b as usize % 31];
            assert(start + letters(bytes@.take(i + 1)) =~= before.push(c));
            if n < CODE_LEN {
                value.push(c);
                n += 1;
                assert(value@ =~= code_so_far(before.push(c)));
            } else {
                assert(value@ =~= code_so_far(before.push(c)));
            }
        }
        i += 1;
    }
    assert(bytes@.take(bytes@.len() as int) =~= bytes@);
}

impl EnrollCodes {
    /// No code has been issued.
    pub fn new() -> (r: EnrollCodes)
        ensures
            r@ == Seq::<CodeSpec>::empty(),
    {
        let r = EnrollCodes { codes: Vec::new() };
        assert(r@ =~= Seq::empty());
        r
    }

    fn prune(&mut self, now: u64)
        ensures
            final(self)@ == live_codes(old(self)@, now),
    {
        let ghost all = self@;
        let mut live: Vec<Code> = Vec::new();
        let mut i: usize = 0;
        assert(live@.map_values(|c: Code| c@) =~= live_codes(all.take(0), now));
        while i < self.codes.len()
            invariant
                all == self.codes@.map_values(|c: Code| c@),
                i <= self.codes@.len(),
                live@.map_values(|c: Code| c@) == live_codes(all.take(i as int), now),
            decreases self.codes@.len() - i,
        {
            let ghost before = live@.map_values(|c: Code| c@);
            assert(all.take(i + 1).drop_last() =~= all.take(i as int));
            assert(all.take(i + 1).last() == self.codes@[i as int]@);
            if self.codes[i].expires > now as u128 {
                live.push(
                    Code { value: self.codes[i].value.clone(), expires: self.codes[i].expires },
                );
                assert(live@.map_values(|c: Code| c@) =~= before.push(all[i as int]));
            }
            i += 1;
        }
        assert(all.take(self.codes@.len() as int) =~= all);
        self.codes = live;
    }

    /// Makes a given code valid for the lifetime of a code. Unused codes stay valid until
    /// they expire: asking again must not lock out an operator who is typing.
    pub fn add(&mut self, value: &str, now: u64)
        ensures
            final(self)@ == live_codes(old(self)@, now).push(
                CodeSpec { value: value@, expires: (now + CODE_TTL * SECOND) as u128 },
            ),
    {
        self.add_with_ttl(value, CODE_TTL as u128 * SECOND as u128, now);
    }

    /// Makes a given code valid for some nanoseconds.
    pub fn add_with_ttl(&mut self, value: &str, ttl: u128, now: u64)
        requires
            now + ttl <= u128::MAX,
        ensures
            final(self)@ == live_codes(old(self)@, now).push(
                CodeSpec { value: value@, expires: (now + ttl) as u128 },
            ),
    {
        self.prune(now);
        let ghost before = self@;
        self.codes.push(Code { value: value.to_owned(), expires: now as u128 + ttl });
        assert(self@ =~= before.push(CodeSpec { value: value@, expires: (now + ttl) as u128 }));
    }

    /// A new code, drawn letter by letter; nothing where the random source did not spell one in
    /// 2^64 - 1 rounds.
    pub fn draw() -> (r: Option<String>)
        ensures
            r matches Some(code) ==> code_shaped(code@),
            exists|rounds: Seq<Seq<u8>>| #[trigger] draw_follows(rounds, opt_text(r)),
    {
        let ghost mut seen: Seq<Seq<u8>> = Seq::empty();
        let mut value = String::new();
        let mut rounds: u64 = 0;
        let mut n: usize = 0;
        while n < CODE_LEN && rounds < u64::MAX
            invariant
                n == value@.len(),
                n <= CODE_LEN,
                forall|i: int| 0 <= i < value@.len() ==> ALPHABET@.contains(#[trigger] value@[i]),
                value@ == spelled(seen),
                seen.len() == rounds,
                forall|k: int| 0 <= k < seen.len() ==> (#[trigger] seen[k]).len() == ROUND_LEN,
                forall|k: int|
                    0 <= k < seen.len() ==> spelled(#[trigger] seen.take(k)).len() < CODE_LEN,
            decreases u64::MAX - rounds,
        {
            let buf = random_bytes(ROUND_LEN);
            let ghost before = value@;
            extend_code(&mut value, &buf);
            proof {
                lemma_letters_shaped(buf@);
                let all = before + letters(buf@);
                assert forall|i: int| 0 <= i < value@.len() implies ALPHABET@.contains(
                    #[trigger] value@[i],
                ) by {
                    assert(value@[i] == all[i]);
                    if i < before.len() {
                        assert(all[i] == before[i]);
                    } else {
                        assert(all[i] == letters(buf@)[i - before.len()]);
                    }
                }
            }
            proof {
                let more = seen.push(buf@);
                assert(more.drop_last() =~= seen);
                assert forall|k: int| 0 <= k < more.len() implies spelled(
                    #[trigger] more.take(k),
                ).len() < CODE_LEN by {
                    if k < seen.len() {
                        assert(more.take(k) =~= seen.take(k));
                    } else {
                        assert(more.take(k) =~= seen);
                    }
                }
                seen = more;
            }
            n = crate::text::chars_of(value.as_str()).len();
            rounds += 1;
        }
        let r = if n == CODE_LEN {
            Some(value)
        } else {
            None
        };
        assert(draw_follows(seen, opt_text(r)));
        r
    }

    /// Mints a code that was drawn, which is then valid for the lifetime of a code; where none
    /// was drawn, nothing changes.
    pub fn issue_given(&mut self, drawn: Option<String>, now: u64) -> (r: Option<String>)
        ensures
            opt_text(r) == opt_text(drawn),
            drawn matches Some(code) ==> final(self)@ == minted(old(self)@, code@, now),
            final(self)@ == (match drawn {
                Some(code) => live_codes(old(self)@, now).push(
                    CodeSpec { value: code@, expires: (now + CODE_TTL * SECOND) as u128 },
                ),
                None => old(self)@,
            }),
    {
        if let Some(code) = &drawn {
            self.add(code.as_str(), now);
        }
        drawn
    }

    /// Mints a code that is valid for the lifetime of a code; see [`EnrollCodes::draw`] for
    /// when there is none.
    pub fn issue(&mut self, now: u64) -> (r: Option<String>)
        ensures
            exists|rounds: Seq<Seq<u8>>| #[trigger] draw_follows(rounds, opt_text(r)),
            match r {
                Some(code) => {
                    &&& code_shaped(code@)
                    &&& final(self)@ == live_codes(old(self)@, now).push(
                        CodeSpec { value: code@, expires: (now + CODE_TTL * SECOND) as u128 },
                    )
                },
                None => final(self)@ == old(self)@,
            },
    {
        let drawn = EnrollCodes::draw();
        self.issue_given(drawn, now)
    }

    /// Consumes the presented code if it is among the live ones. A code works once.
    pub fn redeem(&mut self, presented: &str, now: u64) -> (r: bool)
        ensures
            r == redeems(old(self)@, presented@, now),
            r == has_code(live_codes(old(self)@, now), typed_code(presented@)),
            !r ==> final(self)@ == live_codes(old(self)@, now),
            r ==> exists|at: int|
                #[trigger] last_code_at(
                    live_codes(old(self)@, now),
                    typed_code(presented@),
                    at,
                ) && final(self)@ == live_codes(old(self)@, now).remove(at),
    {
        let code = to_ascii_uppercase(trim(presented).as_str());
        self.prune(now);
        let ghost live = self@;
        // Every live code is looked at, so the work does not depend on which one hits.
        let mut hit: Option<usize> = None;
        let mut i: usize = 0;
        while i < self.codes.len()
            invariant
                live == self.codes@.map_values(|c: Code| c@),
                live == live_codes(old(self)@, now),
                i <= self.codes@.len(),
                match hit {
                    Some(at) => at < i && live[at as int].value == code@ && forall|k: int|
                        at < k < i ==> (#[trigger] live[k]).value != code@,
                    None => forall|k: int| 0 <= k < i ==> (#[trigger] live[k]).value != code@,
                },
            decreases self.codes@.len() - i,
        {
            assert(live[i as int] == self.codes@[i as int]@);
            if secret_equal(self.codes[i].value.as_str(), code.as_str()) {
                hit = Some(i);
            }
            i += 1;
        }
        match hit {
            Some(at) => {
                self.codes.remove(at);
                assert(last_code_at(
                    live_codes(old(self)@, now),
                    typed_code(presented@),
                    at as int,
                ));
                assert(self@ =~= live.remove(at as int));
                true
            },
            None => false,
        }
    }

    /// The number of live codes.
    pub fn live(&mut self, now: u64) -> (r: usize)
        ensures
            final(self)@ == live_codes(old(self)@, now),
            r == live_codes(old(self)@, now).len(),
    {
        self.prune(now);
        self.codes.len()
    }
}

}
