//! The client's side of the exchange: reading the server's lines, solving
//! the challenge, and the interactive prompt's answer.

use vstd::prelude::*;
use vstd::string::StringSliceAdditionalSpecFns;
use vstd::utf8::{encode_utf8, is_char_boundary};

use crate::challenge::{
    is_field_text, law_parse_render_line, parse_challenge, render, solve_outcome, verify_outcome,
    with_counter, Challenge, ChallengeView, SolveError, VerifyError,
};
use crate::command::{command_text, Command};
use crate::number::IntErrorKind;
use crate::state::{challenge_reply, quote_reply};
use crate::text::{push_char, str_chars, trim, trim_bounds};

verus! {

broadcast use vstd::utf8::group_utf8_lib;

/// The bytes of `SLV`.
pub open spec fn slv_bytes() -> Seq<u8> {
    seq![0x53u8, 0x4Cu8, 0x56u8]
}

/// The bytes of `QUO`.
pub open spec fn quo_bytes() -> Seq<u8> {
    seq![0x51u8, 0x55u8, 0x4Fu8]
}

/// The text `unknown command` and a newline.
pub open spec fn unknown_command_text() -> Seq<char> {
    seq!['u', 'n', 'k', 'n', 'o', 'w', 'n', ' ', 'c', 'o', 'm', 'm', 'a', 'n', 'd', '\n']
}

/// The content of a line from the server, given as its UTF-8 bytes: the
/// first three bytes name the command and the fifth byte starts the
/// content; for `SLV` the content is the rest of the line, for `QUO` the
/// rest without its last byte (the newline); other commands have none.
pub open spec fn line_content(b: Seq<u8>) -> Option<Seq<u8>> {
    if b.subrange(0, 3) == slv_bytes() {
        Some(b.subrange(4, b.len() as int))
    } else if b.subrange(0, 3) == quo_bytes() {
        Some(b.subrange(4, b.len() - 1))
    } else {
        None
    }
}

/// Whether a line from the server, given as its UTF-8 bytes, can be cut as
/// `parse` cuts it: at least four bytes, characters starting at the fourth
/// and the fifth byte, and for `QUO` a content that ends with a one-byte
/// character.
pub open spec fn can_parse(b: Seq<u8>) -> bool {
    &&& b.len() >= 4
    &&& is_char_boundary(b, 3)
    &&& is_char_boundary(b, 4)
    &&& b.subrange(0, 3) == quo_bytes() ==> b.len() >= 5 && is_char_boundary(b, b.len() - 1)
}

/// Decodes a line from the server into its content: the challenge of an
/// `SLV` line (with its newline), the quote of a `QUO` line (without it),
/// and `unknown command` for anything else.
pub fn parse(line: &str) -> (r: String)
    requires
        can_parse(line.spec_bytes()),
    ensures
        match line_content(line.spec_bytes()) {
            Some(c) => encode_utf8(r@) == c,
            None => r@ == unknown_command_text(),
        },
{
    let bytes = line.as_bytes();
    let ghost b = line.spec_bytes();
    let (_command, _) = line.split_at(3);
    let (_, content) = line.split_at(4);
    if bytes[0] == 0x53 && bytes[1] == 0x4C && bytes[2] == 0x56 {
        assert(b.subrange(0, 3) =~= slv_bytes());
        return content.to_owned();
    }
    assert(b.subrange(0, 3) != slv_bytes()) by {
        if b.subrange(0, 3) == slv_bytes() {
            assert(b[0] == b.subrange(0, 3)[0]);
            assert(b[1] == b.subrange(0, 3)[1]);
            assert(b[2] == b.subrange(0, 3)[2]);
        }
    }
    if bytes[0] == 0x51 && bytes[1] == 0x55 && bytes[2] == 0x4F {
        assert(b.subrange(0, 3) =~= quo_bytes());
        let n = content.len();
        let ghost cb = content.spec_bytes();
        assert(cb =~= b.subrange(4, b.len() as int));
        assert(is_char_boundary(cb, n - 1)) by {
            vstd::utf8::encode_utf8_valid_utf8(line@);
            vstd::utf8::encode_utf8_valid_utf8(content@);
            vstd::utf8::is_char_boundary_iff_not_is_continuation_byte(b, b.len() - 1);
            vstd::utf8::is_char_boundary_iff_not_is_continuation_byte(cb, n - 1);
            assert(cb[n - 1] == b[b.len() - 1]);
        }
        let (body, _) = content.split_at(n - 1);
        assert(body.spec_bytes() =~= b.subrange(4, b.len() - 1));
        return body.to_owned();
    }
    assert(b.subrange(0, 3) != quo_bytes()) by {
        if b.subrange(0, 3) == quo_bytes() {
            assert(b[0] == b.subrange(0, 3)[0]);
            assert(b[1] == b.subrange(0, 3)[1]);
            assert(b[2] == b.subrange(0, 3)[2]);
        }
    }
    let unknown = "unknown command\n";
    proof {
        reveal_strlit("unknown command\n");
        assert(unknown@ =~= unknown_command_text());
    }
    unknown.to_owned()
}

/// Solves the challenge text `challenge` and gives the answer's text and a
/// newline, ready to be sent.
pub fn solve(challenge: &str) -> (r: Result<String, SolveError>)
    ensures
        match r {
            Ok(s) => exists|a: ChallengeView|
                #[trigger] solve_outcome(challenge@, Ok::<ChallengeView, SolveError>(a)) && s@
                    == render(a).push('\n'),
            Err(e) => solve_outcome(challenge@, Err::<ChallengeView, SolveError>(e)),
        },
{
    match Challenge::solve(challenge) {
        Ok(answer) => {
            let mut s = answer.to_string();
            push_char(&mut s, '\n');
            Ok(s)
        },
        Err(e) => Err(e),
    }
}

/// `c` with an ASCII capital letter turned into its small letter.
pub open spec fn ascii_lower(c: char) -> char {
    if 'A' <= c <= 'Z' {
        ((c as u32) + 32) as char
    } else {
        c
    }
}

/// Whether `s` reads `y` or `yes` once lower-cased; only ASCII letters
/// lower-case to these letters.
pub open spec fn is_yes(s: Seq<char>) -> bool {
    ||| s.len() == 1 && ascii_lower(s[0]) == 'y'
    ||| s.len() == 3 && ascii_lower(s[0]) == 'y' && ascii_lower(s[1]) == 'e' && ascii_lower(s[2])
        == 's'
}

/// Whether the answer to the prompt `quote? (yes/no)` asks for a quote: the
/// answer, trimmed and lower-cased, is `y` or `yes`.
pub fn wants_quote(input: &str) -> (b: bool)
    ensures
        b == is_yes(trim(input@)),
{
    let chars = str_chars(input);
    assert(chars@.subrange(0, chars@.len() as int) =~= input@);
    let (a, z) = trim_bounds(&chars, 0, chars.len());
    let ghost t = chars@.subrange(a as int, z as int);
    if z - a == 1 {
        return lower(chars[a]) == 'y';
    }
    if z - a == 3 {
        assert(t[0] == chars@[a as int] && t[1] == chars@[a + 1] && t[2] == chars@[a + 2]);
        return lower(chars[a]) == 'y' && lower(chars[a + 1]) == 'e' && lower(chars[a + 2]) == 's';
    }
    false
}

/// `c` with an ASCII capital letter turned into its small letter.
fn lower(c: char) -> (l: char)
    ensures
        l == ascii_lower(c),
{
    if 'A' <= c && c <= 'Z' {
        ((c as u8) + 32) as char
    } else {
        c
    }
}

/// The UTF-8 encoding of two texts one after the other is the encoding of
/// the first followed by that of the second.
pub proof fn lemma_encode_concat(a: Seq<char>, b: Seq<char>)
    ensures
        encode_utf8(a + b) == encode_utf8(a) + encode_utf8(b),
    decreases a.len(),
{
    if a.len() > 0 {
        lemma_encode_concat(a.drop_first(), b);
        assert((a + b).drop_first() =~= a.drop_first() + b);
        assert((a + b)[0] == a[0]);
        assert(encode_utf8(a + b) =~= encode_utf8(a) + encode_utf8(b));
    } else {
        assert(a + b =~= b);
        assert(encode_utf8(a) =~= Seq::<u8>::empty());
    }
}

/// A line made of a command of three letters, a space, a text and a
/// newline can be cut as `parse` cuts it, and its content is the text with
/// or without the newline as the command asks.
proof fn lemma_cut_line(cmd: Seq<char>, body: Seq<char>)
    requires
        cmd.len() == 3,
        vstd::utf8::is_ascii_chars(cmd),
    ensures
        ({
            let line = cmd + seq![' '] + body + seq!['\n'];
            let b = encode_utf8(line);
            &&& can_parse(b)
            &&& b.subrange(0, 3) == encode_utf8(cmd)
            &&& b.subrange(4, b.len() as int) == encode_utf8(body + seq!['\n'])
            &&& b.subrange(4, b.len() - 1) == encode_utf8(body)
        }),
{
    let head = cmd + seq![' '];
    let line = cmd + seq![' '] + body + seq!['\n'];
    let b = encode_utf8(line);
    let hb = encode_utf8(head);
    let bb = encode_utf8(body);
    let nl = encode_utf8(seq!['\n']);
    assert(vstd::utf8::is_ascii_chars(head));
    vstd::utf8::is_ascii_chars_encode_utf8(head);
    assert(vstd::utf8::is_ascii_chars(seq!['\n']));
    vstd::utf8::is_ascii_chars_encode_utf8(seq!['\n']);
    vstd::utf8::is_ascii_chars_encode_utf8(cmd);
    lemma_encode_concat(head + body, seq!['\n']);
    lemma_encode_concat(head, body);
    lemma_encode_concat(body, seq!['\n']);
    lemma_encode_concat(cmd, seq![' ']);
    assert(line =~= (head + body) + seq!['\n']);
    assert(b =~= hb + bb + nl);
    assert(hb.len() == 4);
    assert(nl.len() == 1);
    assert(b.subrange(0, 3) =~= encode_utf8(cmd));
    assert(b.subrange(4, b.len() as int) =~= bb + nl);
    assert(b.subrange(4, b.len() - 1) =~= bb);
    vstd::utf8::encode_utf8_valid_utf8(line);
    vstd::utf8::encode_utf8_valid_utf8(body);
    assert(b[3] == hb[3]);
    assert(hb[3] == (' ' as u8));
    vstd::utf8::is_char_boundary_iff_not_is_continuation_byte(b, 3);
    vstd::utf8::is_char_boundary_iff_not_is_continuation_byte(b, b.len() - 1);
    assert(b[b.len() - 1] == nl[0]);
    assert(nl[0] == ('\n' as u8));
    if bb.len() > 0 {
        assert(b[4] == bb[0]);
        vstd::utf8::is_char_boundary_iff_not_is_continuation_byte(b, 4);
        vstd::utf8::is_char_boundary_iff_not_is_continuation_byte(bb, 0);
        vstd::utf8::is_char_boundary_start_end_of_seq(bb);
    } else {
        assert(b[4] == nl[0]);
        vstd::utf8::is_char_boundary_iff_not_is_continuation_byte(b, 4);
    }
}

/// Texts with the same UTF-8 encoding are the same text.
pub proof fn lemma_encode_injective(x: Seq<char>, y: Seq<char>)
    requires
        encode_utf8(x) == encode_utf8(y),
    ensures
        x == y,
{
    vstd::utf8::encode_utf8_decode_utf8(x);
    vstd::utf8::encode_utf8_decode_utf8(y);
}

/// The client reads the server's challenge line (`SLV`, the challenge, a
/// newline) back into the challenge the server sent.
pub proof fn law_client_reads_challenge(c: ChallengeView)
    requires
        is_field_text(c.text),
    ensures
        ({
            let b = encode_utf8(challenge_reply(c).push('\n'));
            &&& can_parse(b)
            &&& line_content(b) == Some(encode_utf8(render(c).push('\n')))
            &&& forall|r: Seq<char>|
                #[trigger] encode_utf8(r) == encode_utf8(render(c).push('\n')) ==> parse_challenge(r)
                    == Ok::<ChallengeView, IntErrorKind>(c)
        }),
{
    let cmd = command_text(Command::SLV);
    assert(vstd::utf8::is_ascii_chars(cmd));
    lemma_cut_line(cmd, render(c));
    assert(challenge_reply(c).push('\n') =~= cmd + seq![' '] + render(c) + seq!['\n']);
    assert(render(c) + seq!['\n'] =~= render(c).push('\n'));
    vstd::utf8::is_ascii_chars_encode_utf8(cmd);
    assert(encode_utf8(cmd) =~= slv_bytes());
    law_parse_render_line(c);
    assert forall|r: Seq<char>|
        #[trigger] encode_utf8(r) == encode_utf8(render(c).push('\n')) implies parse_challenge(r)
        == Ok::<ChallengeView, IntErrorKind>(c) by {
        lemma_encode_injective(r, render(c).push('\n'));
    }
}

/// The client reads the server's quote line (`QUO`, the quote, a newline)
/// back into the quote.
pub proof fn law_client_reads_quote(q: Seq<char>)
    ensures
        ({
            let b = encode_utf8(quote_reply(q).push('\n'));
            &&& can_parse(b)
            &&& line_content(b) == Some(encode_utf8(q))
            &&& forall|r: Seq<char>| #[trigger] encode_utf8(r) == encode_utf8(q) ==> r == q
        }),
{
    let cmd = command_text(Command::QUO);
    assert(vstd::utf8::is_ascii_chars(cmd));
    lemma_cut_line(cmd, q);
    assert(quote_reply(q).push('\n') =~= cmd + seq![' '] + q + seq!['\n']);
    vstd::utf8::is_ascii_chars_encode_utf8(cmd);
    assert(encode_utf8(cmd) =~= quo_bytes());
    assert(encode_utf8(cmd) != slv_bytes()) by {
        assert(encode_utf8(cmd)[0] != slv_bytes()[0]);
    }
    assert forall|r: Seq<char>| #[trigger] encode_utf8(r) == encode_utf8(q) implies r == q by {
        lemma_encode_injective(r, q);
    }
}

/// The exchange works: when the client solves the challenge line the
/// server sent, the answer line it sends back (the answer and a newline) is
/// accepted by the server's challenge.
pub proof fn law_exchange(c: ChallengeView, a: ChallengeView)
    requires
        is_field_text(c.text),
        solve_outcome(render(c).push('\n'), Ok::<ChallengeView, SolveError>(a)),
    ensures
        a.num_zeros == c.num_zeros,
        a.text == c.text,
        c.counter <= a.counter,
        verify_outcome(c, render(a).push('\n')) == Ok::<(), VerifyError>(()),
{
    law_parse_render_line(c);
    assert(a == with_counter(c, a.counter));
    law_parse_render_line(a);
}

/// Whether `c` is the small letter `w`, or its capital.
pub open spec fn is_letter_any_case(c: char, w: char) -> bool {
    c == w || ('A' <= c <= 'Z' && (c as u32) + 32 == w as u32)
}

/// Whether `s` spells the small-letter word `w`, each letter small or
/// capital.
pub open spec fn spells_any_case(s: Seq<char>, w: Seq<char>) -> bool {
    s.len() == w.len() && forall|i: int| 0 <= i < s.len() ==> is_letter_any_case(s[i], #[trigger] w[i])
}

/// The prompt's answer asks for a quote exactly when, trimmed, it spells
/// `y` or `yes` in any mix of small and capital letters; in particular the
/// decision does not change when a letter changes case.
pub proof fn law_yes_in_any_case(s: Seq<char>)
    ensures
        is_yes(s) <==> (spells_any_case(s, seq!['y']) || spells_any_case(s, seq!['y', 'e', 's'])),
{
    assert(forall|c: char, w: char|
        'a' <= w <= 'z' ==> (#[trigger] is_letter_any_case(c, w) <==> ascii_lower(c) == w)) by {
        assert forall|c: char, w: char| 'a' <= w <= 'z' implies (#[trigger] is_letter_any_case(c, w)
            <==> ascii_lower(c) == w) by {
            if 'A' <= c <= 'Z' {
                assert((((c as u32) + 32) as char) as u32 == (c as u32) + 32);
                assert(((w as u32) as char) == w);
            }
        }
    }
    if s.len() == 1 {
        assert(is_letter_any_case(s[0], seq!['y'][0]) <==> ascii_lower(s[0]) == 'y');
    }
    if s.len() == 3 {
        assert(is_letter_any_case(s[0], seq!['y', 'e', 's'][0]) <==> ascii_lower(s[0]) == 'y');
        assert(is_letter_any_case(s[1], seq!['y', 'e', 's'][1]) <==> ascii_lower(s[1]) == 'e');
        assert(is_letter_any_case(s[2], seq!['y', 'e', 's'][2]) <==> ascii_lower(s[2]) == 's');
    }
}

} // verus!
