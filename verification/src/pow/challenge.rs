//! The challenge of the first server version, whose only accepted answer
//! is the text `123`.

use vstd::prelude::*;

use crate::challenge::{generate_random_text, is_alphanumeric};
use crate::number::{dec, lemma_parse_dec, parse_unsigned, push_decimal};
use crate::text::{
    lemma_split_then_piece, lemma_split_without_separator, push_char, push_str, split_on,
};

verus! {

/// The value of a challenge: its difficulty, its text and its counter.
pub struct ChallengeView {
    pub num_zeros: usize,
    pub text: Seq<char>,
    pub counter: u128,
}

/// A challenge of the first server version.
pub struct Challenge {
    num_zeros: usize,
    text: String,
    counter: u128,
}

impl View for Challenge {
    type V = ChallengeView;

    closed spec fn view(&self) -> ChallengeView {
        ChallengeView { num_zeros: self.num_zeros, text: self.text@, counter: self.counter }
    }
}

/// The text `difficulty:text:counter` of a challenge.
pub open spec fn render(v: ChallengeView) -> Seq<char> {
    dec(v.num_zeros as nat) + seq![':'] + v.text + seq![':'] + dec(v.counter as nat)
}

/// The one answer that this version accepts.
pub open spec fn accepted_answer() -> Seq<char> {
    seq!['1', '2', '3']
}

/// The answer did not solve the challenge.
#[derive(Debug, Clone, Copy, PartialEq, Eq, Structural)]
pub enum VerifyError {
    /// The answer is not the accepted one.
    Failed,
}

impl Challenge {
    /// A fresh challenge of the given difficulty: 30 random ASCII letters and
    /// digits, and the counter at 0.
    pub fn new(num_zeros: usize) -> (c: Self)
        ensures
            c@.num_zeros == num_zeros,
            c@.counter == 0,
            c@.text.len() == 30,
            forall|i: int| 0 <= i < 30 ==> is_alphanumeric(#[trigger] c@.text[i]),
    {
        Challenge { num_zeros, text: generate_random_text(), counter: 0 }
    }

    /// The difficulty of the challenge.
    pub fn num_zeros(&self) -> (n: usize)
        ensures
            n == self@.num_zeros,
    {
        self.num_zeros
    }

    /// The random text of the challenge.
    pub fn text(&self) -> (t: &str)
        ensures
            t@ == self@.text,
    {
        self.text.as_str()
    }

    /// The counter of the challenge.
    pub fn counter(&self) -> (c: u128)
        ensures
            c == self@.counter,
    {
        self.counter
    }

    /// Accepts exactly the answer `123`.
    pub fn verify(&self, answer: &str) -> (r: Result<(), VerifyError>)
        ensures
            r is Ok <==> answer@ == accepted_answer(),
            r is Err ==> r == Err::<(), VerifyError>(VerifyError::Failed),
    {
        let expected = "123";
        proof {
            reveal_strlit("123");
            assert(expected@ =~= accepted_answer());
        }
        if answer.to_owned() != expected.to_owned() {
            return Err(VerifyError::Failed);
        }
        Ok(())
    }

    /// The text `difficulty:text:counter` of this challenge.
    pub fn to_string(&self) -> (s: String)
        ensures
            s@ == render(self@),
    {
        let mut s = String::new();
        push_decimal(&mut s, self.num_zeros as u128);
        push_char(&mut s, ':');
        push_str(&mut s, self.text.as_str());
        push_char(&mut s, ':');
        push_decimal(&mut s, self.counter);
        s
    }
}

/// The text of a challenge holds its three fields in order: split on `:`
/// it gives the difficulty, the random text and the counter, and the two
/// numbers read back as the challenge's own, whenever the text holds no
/// `:` (the random text never does).
pub proof fn law_render_holds_fields(v: ChallengeView)
    requires
        !v.text.contains(':'),
    ensures
        split_on(render(v), ':') == seq![dec(v.num_zeros as nat), v.text, dec(v.counter as nat)],
        parse_unsigned(split_on(render(v), ':')[0], usize::MAX as nat) == Ok::<
            nat,
            crate::number::IntErrorKind,
        >(v.num_zeros as nat),
        split_on(render(v), ':')[1] == v.text,
        parse_unsigned(split_on(render(v), ':')[2], u128::MAX as nat) == Ok::<
            nat,
            crate::number::IntErrorKind,
        >(v.counter as nat),
{
    let a = dec(v.num_zeros as nat);
    let b = dec(v.counter as nat);
    crate::number::lemma_dec_digits(v.num_zeros as nat);
    crate::number::lemma_dec_digits(v.counter as nat);
    assert(!a.contains(':')) by {
        if a.contains(':') {
            let i = choose|i: int| 0 <= i < a.len() && a[i] == ':';
            assert(crate::number::is_digit(a[i]));
        }
    }
    assert(!b.contains(':')) by {
        if b.contains(':') {
            let i = choose|i: int| 0 <= i < b.len() && b[i] == ':';
            assert(crate::number::is_digit(b[i]));
        }
    }
    lemma_split_without_separator(a, ':');
    lemma_split_then_piece(a, ':', v.text);
    lemma_split_then_piece(a + seq![':'] + v.text, ':', b);
    assert(split_on(render(v), ':') =~= seq![a, v.text, b]);
    lemma_parse_dec(v.num_zeros as nat, usize::MAX as nat);
    lemma_parse_dec(v.counter as nat, u128::MAX as nat);
}

/// A fresh challenge's text holds no `:`.
pub proof fn lemma_fresh_text_has_no_separator(text: Seq<char>)
    requires
        text.len() == 30,
        forall|i: int| 0 <= i < 30 ==> is_alphanumeric(#[trigger] text[i]),
    ensures
        !text.contains(':'),
{
    if text.contains(':') {
        let i = choose|i: int| 0 <= i < text.len() && text[i] == ':';
        assert(is_alphanumeric(text[i]));
    }
}

} // verus!
