//! The proof-of-work challenge: a difficulty, a random text and a counter,
//! exchanged as the text `difficulty:text:counter`. An answer solves the
//! challenge when the SHA-256 digest of its text starts with `difficulty`
//! bytes equal to the character `0`.

use vstd::prelude::*;
use vstd::utf8::encode_utf8;

use crate::number::{dec, parse_unsigned, push_decimal, parse_unsigned_range, IntErrorKind};
use crate::text::{
    lemma_split_pieces_have_no_separator, lemma_split_then_piece, lemma_split_without_separator,
    push_char, push_str, split_bounds, split_on, str_chars, string_from_range, trim, trim_bounds,
};

use sha2::{Digest, Sha256};
use rand::distributions::Alphanumeric;
use rand::Rng;

verus! {

/// The value of a challenge: its difficulty, its text and its counter.
pub struct ChallengeView {
    pub num_zeros: u8,
    pub text: Seq<char>,
    pub counter: u128,
}

/// A proof-of-work challenge, or an answer to one (the same challenge with
/// the counter that solves it).
pub struct Challenge {
    num_zeros: u8,
    text: String,
    counter: u128,
}

impl View for Challenge {
    type V = ChallengeView;

    closed spec fn view(&self) -> ChallengeView {
        ChallengeView { num_zeros: self.num_zeros, text: self.text@, counter: self.counter }
    }
}

/// The byte that a solved digest starts with, `difficulty` times: the
/// character `0`.
pub const ZERO_BYTE: u8 = 0x30;

/// Whether `c` is one of the 62 ASCII letters and digits.
pub open spec fn is_alphanumeric(c: char) -> bool {
    ('0' <= c <= '9') || ('A' <= c <= 'Z') || ('a' <= c <= 'z')
}

/// Whether `text` can stand between the separators of a challenge.
pub open spec fn is_field_text(text: Seq<char>) -> bool {
    !text.contains(':')
}

/// The text `difficulty:text:counter` of a challenge.
pub open spec fn render(v: ChallengeView) -> Seq<char> {
    dec(v.num_zeros as nat) + seq![':'] + v.text + seq![':'] + dec(v.counter as nat)
}

/// The challenge that a text describes, as `Challenge::from_str` reads it:
/// the trimmed text must split on `:` into exactly three pieces, a
/// difficulty that fits in `u8`, a text, and a counter that fits in `u128`.
/// A wrong number of pieces is reported as an empty number.
pub open spec fn parse_challenge(s: Seq<char>) -> Result<ChallengeView, IntErrorKind> {
    let parts = split_on(trim(s), ':');
    if parts.len() != 3 {
        Err(IntErrorKind::Empty)
    } else {
        match parse_unsigned(parts[0], u8::MAX as nat) {
            Err(e) => Err(e),
            Ok(n) => match parse_unsigned(parts[2], u128::MAX as nat) {
                Err(e) => Err(e),
                Ok(c) => Ok(ChallengeView { num_zeros: n as u8, text: parts[1], counter: c as u128 }),
            },
        }
    }
}

/// The SHA-256 digest of `data`. Nothing is stated of its value but its
/// length, which `sha256_digest` gives.
pub uninterp spec fn sha256(data: Seq<u8>) -> Seq<u8>;

/// Whether `digest` starts with `n` bytes equal to the character `0`.
pub open spec fn starts_with_zeros(digest: Seq<u8>, n: nat) -> bool {
    n <= digest.len() && forall|i: int| 0 <= i < n ==> digest[i] == ZERO_BYTE
}

/// Whether the counter of `v` solves it: the digest of the UTF-8 bytes of
/// its text starts with as many zero characters as its difficulty asks.
pub open spec fn solves(v: ChallengeView) -> bool {
    starts_with_zeros(sha256(encode_utf8(render(v))), v.num_zeros as nat)
}

/// The SHA-256 digest of `data`, computed by `sha2::Sha256::digest` (the
/// `digest::Digest` method). Trusted: the result is the digest named
/// `sha256` of the bytes given, and it has 32 bytes, the output size of
/// `Sha256`.
#[verifier::external_body]
fn sha256_digest(data: &[u8]) -> (d: Vec<u8>)
    ensures
        d@ == sha256(data@),
        d@.len() == 32,
{
    Sha256::digest(data).to_vec()
}

/// Whether `digest` starts with `num_zeros` bytes equal to the character
/// `0`, as `digest.starts_with(pattern)` decides for the pattern of
/// `num_zeros` zero characters.
pub fn meets_difficulty(digest: &[u8], num_zeros: u8) -> (b: bool)
    ensures
        b == starts_with_zeros(digest@, num_zeros as nat),
{
    let n = num_zeros as usize;
    if n > digest.len() {
        return false;
    }
    let mut i: usize = 0;
    while i < n
        invariant
            n == num_zeros,
            n <= digest@.len(),
            i <= n,
            forall|j: int| 0 <= j < i ==> digest@[j] == ZERO_BYTE,
        decreases n - i,
    {
        if digest[i] != ZERO_BYTE {
            return false;
        }
        i = i + 1;
    }
    true
}

/// Why an answer was refused.
#[derive(Debug, Clone, Copy, PartialEq, Eq, Structural)]
pub enum VerifyError {
    /// The answer is not the text of a challenge.
    Parse(IntErrorKind),
    /// The answer's difficulty or text differ from the challenge's.
    Mismatch,
    /// The answer's counter does not solve the challenge.
    NotSolved,
}

/// Why no answer was found.
#[derive(Debug, Clone, Copy, PartialEq, Eq, Structural)]
pub enum SolveError {
    /// The challenge is not the text of a challenge.
    Parse(IntErrorKind),
    /// No counter from the given one up to `u128::MAX` solves the challenge.
    Exhausted,
}

/// `v` with its counter replaced by `k`.
pub open spec fn with_counter(v: ChallengeView, k: u128) -> ChallengeView {
    ChallengeView { counter: k, ..v }
}

/// What checking `answer` against the challenge `c` gives: the answer must
/// read as a challenge with the same difficulty and text, and its counter
/// must solve it.
pub open spec fn verify_outcome(c: ChallengeView, answer: Seq<char>) -> Result<(), VerifyError> {
    match parse_challenge(answer) {
        Err(e) => Err(VerifyError::Parse(e)),
        Ok(a) => if a.num_zeros != c.num_zeros || a.text != c.text {
            Err(VerifyError::Mismatch)
        } else if !solves(a) {
            Err(VerifyError::NotSolved)
        } else {
            Ok(())
        },
    }
}

/// What solving the challenge text `s` gives: the challenge with the
/// smallest counter, from the given one on, that solves it.
pub open spec fn solve_outcome(s: Seq<char>, r: Result<ChallengeView, SolveError>) -> bool {
    match parse_challenge(s) {
        Err(e) => r == Err::<ChallengeView, SolveError>(SolveError::Parse(e)),
        Ok(c) => match r {
            Ok(a) => {
                &&& a.num_zeros == c.num_zeros
                &&& a.text == c.text
                &&& c.counter <= a.counter
                &&& solves(a)
                &&& forall|k: u128| c.counter <= k < a.counter ==> !solves(#[trigger] with_counter(c, k))
            },
            Err(e) => {
                &&& e == SolveError::Exhausted
                &&& forall|k: u128| c.counter <= k ==> !solves(#[trigger] with_counter(c, k))
            },
        },
    }
}

/// One character drawn at random from the ASCII letters and digits, by
/// sampling `rand::distributions::Alphanumeric` with `rand::thread_rng()`
/// and turning the byte into a `char`. Trusted: the character is an ASCII
/// letter or digit, as `Alphanumeric` documents; which one is left open.
#[verifier::external_body]
fn random_alphanumeric() -> (c: char)
    ensures
        is_alphanumeric(c),
{
    char::from(rand::thread_rng().sample(Alphanumeric))
}

/// The length of the random text of a challenge.
pub const TEXT_LEN: usize = 30;

/// 30 characters drawn at random from the ASCII letters and digits.
pub(crate) fn generate_random_text() -> (t: String)
    ensures
        t@.len() == 30,
        forall|i: int| 0 <= i < 30 ==> is_alphanumeric(#[trigger] t@[i]),
{
    let mut t = String::new();
    let mut k: usize = 0;
    while k < TEXT_LEN
        invariant
            k <= TEXT_LEN,
            t@.len() == k,
            forall|i: int| 0 <= i < k ==> is_alphanumeric(#[trigger] t@[i]),
        decreases TEXT_LEN - k,
    {
        let c = random_alphanumeric();
        push_char(&mut t, c);
        k = k + 1;
    }
    t
}

impl Challenge {
    #[verifier::type_invariant]
    spec fn inv(self) -> bool {
        is_field_text(self.text@)
    }

    /// A fresh challenge of the given difficulty: 30 random ASCII letters and
    /// digits, and the counter at 0.
    pub fn new(num_zeros: u8) -> (c: Self)
        ensures
            c@.num_zeros == num_zeros,
            c@.counter == 0,
            c@.text.len() == 30,
            forall|i: int| 0 <= i < 30 ==> is_alphanumeric(#[trigger] c@.text[i]),
    {
        let text = generate_random_text();
        assert(!text@.contains(':')) by {
            if text@.contains(':') {
                let i = choose|i: int| 0 <= i < text@.len() && text@[i] == ':';
                assert(is_alphanumeric(text@[i]));
            }
        }
        Challenge { num_zeros, text, counter: 0 }
    }

    /// The text `difficulty:text:counter` of this challenge.
    pub fn to_string(&self) -> (s: String)
        ensures
            s@ == render(self@),
    {
        let mut s = String::new();
        push_decimal(&mut s, self.num_zeros as u128);
        push_char(&mut s, ':');
        push_str(&mut s, self.text.as_str());
        push_char(&mut s, ':');
        push_decimal(&mut s, self.counter);
        s
    }

    /// Reads a challenge from its text `difficulty:text:counter`, ignoring
    /// whitespace around it.
    pub fn from_str(s: &str) -> (r: Result<Self, IntErrorKind>)
        ensures
            match r {
                Ok(c) => parse_challenge(s@) == Ok::<ChallengeView, IntErrorKind>(c@),
                Err(e) => parse_challenge(s@) == Err::<ChallengeView, IntErrorKind>(e),
            },
    {
        let chars = str_chars(s);
        assert(chars@.subrange(0, chars@.len() as int) =~= s@);
        let (a, b) = trim_bounds(&chars, 0, chars.len());
        let parts = split_bounds(&chars, a, b, ':');
        let ghost pieces = split_on(trim(s@), ':');
        if parts.len() != 3 {
            return Err(IntErrorKind::Empty);
        }
        let (n_lo, n_hi) = parts[0];
        let (t_lo, t_hi) = parts[1];
        let (c_lo, c_hi) = parts[2];
        let num_zeros = match parse_unsigned_range(&chars, n_lo, n_hi, 255) {
            Ok(v) => v,
            Err(e) => {
                return Err(e);
            },
        };
        let text = string_from_range(&chars, t_lo, t_hi);
        let counter = match parse_unsigned_range(&chars, c_lo, c_hi, u128::MAX) {
            Ok(v) => v,
            Err(e) => {
                return Err(e);
            },
        };
        proof {
            lemma_split_pieces_have_no_separator(trim(s@), ':');
            assert(pieces[1] == text@);
        }
        Ok(Challenge { num_zeros: num_zeros as u8, text, counter })
    }

    /// The difficulty: how many leading `0` bytes a solved digest has.
    pub fn num_zeros(&self) -> (n: u8)
        ensures
            n == self@.num_zeros,
    {
        self.num_zeros
    }

    /// The random text of the challenge.
    pub fn text(&self) -> (t: &str)
        ensures
            t@ == self@.text,
    {
        self.text.as_str()
    }

    /// The counter of the challenge.
    pub fn counter(&self) -> (c: u128)
        ensures
            c == self@.counter,
    {
        self.counter
    }

    /// Whether the counter of this challenge solves it.
    pub fn is_solved(&self) -> (b: bool)
        ensures
            b == solves(self@),
            self@.num_zeros > 32 ==> !b,
    {
        let msg = self.to_string();
        let digest = sha256_digest(msg.as_str().as_bytes());
        meets_difficulty(digest.as_slice(), self.num_zeros)
    }

    /// Checks `answer` against this challenge: it must read as the same
    /// challenge with a counter that solves it.
    pub fn verify(&self, answer: &str) -> (r: Result<(), VerifyError>)
        ensures
            r == verify_outcome(self@, answer@),
            r is Ok ==> self@.num_zeros <= 32,
    {
        let answer = match Challenge::from_str(answer) {
            Ok(a) => a,
            Err(e) => {
                return Err(VerifyError::Parse(e));
            },
        };
        if self.num_zeros != answer.num_zeros || self.text != answer.text {
            return Err(VerifyError::Mismatch);
        }
        if !answer.is_solved() {
            return Err(VerifyError::NotSolved);
        }
        Ok(())
    }

    /// Finds the answer to the challenge text `challenge`: counting up from
    /// its counter, the first counter that solves it.
    pub fn solve(challenge: &str) -> (r: Result<Self, SolveError>)
        ensures
            solve_outcome(
                challenge@,
                match r {
                    Ok(a) => Ok::<ChallengeView, SolveError>(a@),
                    Err(e) => Err::<ChallengeView, SolveError>(e),
                },
            ),
            r matches Ok(a) ==> a@.num_zeros <= 32,
            parse_challenge(challenge@) matches Ok(c) && c.num_zeros > 32 ==> r == Err::<
                Challenge,
                SolveError,
            >(SolveError::Exhausted),
    {
        let start = match Challenge::from_str(challenge) {
            Ok(a) => a,
            Err(e) => {
                return Err(SolveError::Parse(e));
            },
        };
        let ghost c = start@;
        let mut answer = start;
        loop
            invariant
                parse_challenge(challenge@) == Ok::<ChallengeView, IntErrorKind>(c),
                answer@ == with_counter(c, answer@.counter),
                c.counter <= answer@.counter,
                forall|k: u128| c.counter <= k < answer@.counter ==> !solves(#[trigger] with_counter(c, k)),
            decreases u128::MAX - answer@.counter,
        {
            if answer.is_solved() {
                return Ok(answer);
            }
            if answer.counter == u128::MAX {
                assert forall|k: u128| c.counter <= k implies !solves(#[trigger] with_counter(c, k)) by {
                    if k == u128::MAX {
                        assert(with_counter(c, k) == answer@);
                    }
                }
                return Err(SolveError::Exhausted);
            }
            proof {
                use_type_invariant(&answer);
            }
            answer.counter = answer.counter + 1;
        }
    }
}

/// A rendered number holds no separator and no whitespace.
proof fn lemma_dec_plain(n: nat)
    ensures
        !dec(n).contains(':'),
        !crate::text::is_white_space(dec(n)[0]),
        !crate::text::is_white_space(dec(n).last()),
{
    crate::number::lemma_dec_digits(n);
    assert(!dec(n).contains(':')) by {
        if dec(n).contains(':') {
            let i = choose|i: int| 0 <= i < dec(n).len() && dec(n)[i] == ':';
            assert(crate::number::is_digit(dec(n)[i]));
        }
    }
    assert(crate::number::is_digit(dec(n)[dec(n).len() - 1]));
}

/// Reading back the text of a challenge gives the challenge, whenever its
/// text holds no separator.
pub proof fn law_parse_render(v: ChallengeView)
    requires
        is_field_text(v.text),
    ensures
        parse_challenge(render(v)) == Ok::<ChallengeView, IntErrorKind>(v),
{
    let a = dec(v.num_zeros as nat);
    let b = dec(v.counter as nat);
    let s = render(v);
    lemma_dec_plain(v.num_zeros as nat);
    lemma_dec_plain(v.counter as nat);
    assert(s[0] == a[0]);
    assert(s.last() == b.last()) by {
        assert(s[s.len() - 1] == b[b.len() - 1]);
    }
    assert(trim(s) == s) by {
        assert(crate::text::trim_start(s) == s);
        assert(crate::text::trim_end(s) == s);
    }
    lemma_split_without_separator(a, ':');
    lemma_split_then_piece(a, ':', v.text);
    lemma_split_then_piece(a + seq![':'] + v.text, ':', b);
    assert(split_on(s, ':') =~= seq![a, v.text, b]);
    crate::number::lemma_parse_dec(v.num_zeros as nat, u8::MAX as nat);
    crate::number::lemma_parse_dec(v.counter as nat, u128::MAX as nat);
    assert(parse_challenge(s) =~= Ok::<ChallengeView, IntErrorKind>(v));
}

/// The text of a challenge followed by a newline reads back as the
/// challenge too: the newline is trimmed.
pub proof fn law_parse_render_line(v: ChallengeView)
    requires
        is_field_text(v.text),
    ensures
        parse_challenge(render(v).push('\n')) == Ok::<ChallengeView, IntErrorKind>(v),
{
    let s = render(v);
    let l = s.push('\n');
    lemma_dec_plain(v.num_zeros as nat);
    lemma_dec_plain(v.counter as nat);
    law_parse_render(v);
    assert(l[0] == s[0]);
    assert(s.last() == dec(v.counter as nat).last()) by {
        assert(s[s.len() - 1] == dec(v.counter as nat)[dec(v.counter as nat).len() - 1]);
    }
    assert(crate::text::trim_start(l) == l);
    assert(crate::text::trim_start(s) == s);
    assert(l.drop_last() =~= s);
    assert(crate::text::is_white_space(l.last()));
    assert(crate::text::trim_end(l) == crate::text::trim_end(s));
    assert(trim(l) == trim(s));
}

/// Every challenge read from text has a text without separators.
pub proof fn lemma_parsed_text_is_field_text(s: Seq<char>)
    ensures
        parse_challenge(s) is Ok ==> is_field_text(parse_challenge(s)->Ok_0.text),
{
    lemma_split_pieces_have_no_separator(trim(s), ':');
}

/// An answer is accepted exactly when it reads as the challenge with some
/// counter, and that counter solves the challenge.
pub proof fn law_accepted_iff_solved(c: ChallengeView, answer: Seq<char>)
    ensures
        verify_outcome(c, answer) is Ok <==> exists|k: u128|
            parse_challenge(answer) == Ok::<ChallengeView, IntErrorKind>(#[trigger] with_counter(c, k))
                && solves(with_counter(c, k)),
{
    if verify_outcome(c, answer) is Ok {
        let a = parse_challenge(answer)->Ok_0;
        assert(a == with_counter(c, a.counter));
    }
}

/// The text of a counter that solves a challenge is accepted by that
/// challenge.
pub proof fn law_solution_accepted(c: ChallengeView, k: u128)
    requires
        is_field_text(c.text),
        solves(with_counter(c, k)),
    ensures
        verify_outcome(c, render(with_counter(c, k))) == Ok::<(), VerifyError>(()),
{
    law_parse_render(with_counter(c, k));
}

/// What solving a challenge text gives is accepted by the challenge that
/// the text describes.
pub proof fn law_solve_then_verify(s: Seq<char>, a: ChallengeView)
    requires
        solve_outcome(s, Ok::<ChallengeView, SolveError>(a)),
    ensures
        parse_challenge(s) is Ok,
        verify_outcome(parse_challenge(s)->Ok_0, render(a)) == Ok::<(), VerifyError>(()),
{
    lemma_parsed_text_is_field_text(s);
    let c = parse_challenge(s)->Ok_0;
    assert(a == with_counter(c, a.counter));
    law_solution_accepted(c, a.counter);
}

} // verus!
