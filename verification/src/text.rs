//! Character-level text handling: the whitespace that `str::trim` removes,
//! splitting on a separator, and moving between `str`, `String` and
//! vectors of characters.

use vstd::prelude::*;
use vstd::string::StringExecFns;

verus! {

/// The characters with the Unicode `White_Space` property, which
/// `char::is_whitespace` accepts and `str::trim` removes.
pub open spec fn is_white_space(c: char) -> bool {
    let u = c as u32;
    ||| 0x09 <= u <= 0x0D
    ||| u == 0x20
    ||| u == 0x85
    ||| u == 0xA0
    ||| u == 0x1680
    ||| 0x2000 <= u <= 0x200A
    ||| u == 0x2028
    ||| u == 0x2029
    ||| u == 0x202F
    ||| u == 0x205F
    ||| u == 0x3000
}

/// `s` without its leading whitespace.
pub open spec fn trim_start(s: Seq<char>) -> Seq<char>
    decreases s.len(),
{
    if s.len() > 0 && is_white_space(s[0]) {
        trim_start(s.drop_first())
    } else {
        s
    }
}

/// `s` without its trailing whitespace.
pub open spec fn trim_end(s: Seq<char>) -> Seq<char>
    decreases s.len(),
{
    if s.len() > 0 && is_white_space(s.last()) {
        trim_end(s.drop_last())
    } else {
        s
    }
}

/// `s` without leading or trailing whitespace, as `str::trim` gives it.
pub open spec fn trim(s: Seq<char>) -> Seq<char> {
    trim_end(trim_start(s))
}

/// The pieces of `s` between occurrences of `sep`, as `str::split` yields
/// them for a character pattern: always at least one piece, empty pieces
/// included.
pub open spec fn split_on(s: Seq<char>, sep: char) -> Seq<Seq<char>>
    decreases s.len(),
{
    if s.len() == 0 {
        seq![Seq::<char>::empty()]
    } else {
        let init = split_on(s.drop_last(), sep);
        if s.last() == sep {
            init.push(Seq::<char>::empty())
        } else {
            init.update(init.len() - 1, init.last().push(s.last()))
        }
    }
}

/// `s` without one trailing carriage return.
pub open spec fn strip_cr(s: Seq<char>) -> Seq<char> {
    if s.len() > 0 && s.last() == '\r' {
        s.drop_last()
    } else {
        s
    }
}

/// The lines of `s`, as `BufRead::lines` yields them: the pieces between
/// newlines, each without the newline and a carriage return just before
/// it; a last piece with no newline after it counts only if it is not
/// empty, and keeps its carriage return.
pub open spec fn lines(s: Seq<char>) -> Seq<Seq<char>> {
    let pieces = split_on(s, '\n');
    let ended = pieces.drop_last().map_values(|p: Seq<char>| strip_cr(p));
    if pieces.last().len() == 0 {
        ended
    } else {
        ended.push(pieces.last())
    }
}

/// Whether `c` is whitespace in the sense of `char::is_whitespace`.
pub fn is_whitespace(c: char) -> (b: bool)
    ensures
        b == is_white_space(c),
{
    let u = c as u32;
    (0x09 <= u && u <= 0x0D) || u == 0x20 || u == 0x85 || u == 0xA0 || u == 0x1680 || (0x2000 <= u
        && u <= 0x200A) || u == 0x2028 || u == 0x2029 || u == 0x202F || u == 0x205F || u == 0x3000
}

/// Appends one character to a string with `String::push`. Trusted: the
/// string afterwards is the old one followed by the character.
#[verifier::external_body]
pub(crate) fn push_char(s: &mut String, c: char)
    ensures
        final(s)@ == old(s)@.push(c),
{
    s.push(c);
}

/// Appends a string slice to a string.
pub(crate) fn push_str(s: &mut String, t: &str)
    ensures
        final(s)@ == old(s)@ + t@,
{
    s.append(t);
}

/// The characters of `s`, in order.
pub fn str_chars(s: &str) -> (v: Vec<char>)
    ensures
        v@ == s@,
{
    broadcast use vstd::string::group_string_axioms;
    let mut v: Vec<char> = Vec::new();
    for c in it: s.chars()
        invariant
            it.seq() == s@,
            v@ == s@.take(it.index() as int),
    {
        v.push(c);
    }
    v
}

/// The bounds of `chars[lo..hi]` with its leading and trailing whitespace
/// removed.
pub fn trim_bounds(chars: &Vec<char>, lo: usize, hi: usize) -> (r: (usize, usize))
    requires
        lo <= hi <= chars@.len(),
    ensures
        lo <= r.0 <= r.1 <= hi,
        chars@.subrange(r.0 as int, r.1 as int) == trim(chars@.subrange(lo as int, hi as int)),
{
    let ghost s = chars@.subrange(lo as int, hi as int);
    let mut a = lo;
    while a < hi && is_whitespace(chars[a])
        invariant
            lo <= a <= hi <= chars@.len(),
            s == chars@.subrange(lo as int, hi as int),
            trim_start(chars@.subrange(a as int, hi as int)) == trim_start(s),
        decreases hi - a,
    {
        let ghost cur = chars@.subrange(a as int, hi as int);
        assert(cur.drop_first() =~= chars@.subrange(a + 1, hi as int));
        a = a + 1;
    }
    assert(trim_start(chars@.subrange(a as int, hi as int)) == chars@.subrange(a as int, hi as int));
    let mut b = hi;
    while b > a && is_whitespace(chars[b - 1])
        invariant
            lo <= a <= b <= hi <= chars@.len(),
            s == chars@.subrange(lo as int, hi as int),
            trim_start(s) == chars@.subrange(a as int, hi as int),
            trim_end(chars@.subrange(a as int, b as int)) == trim(s),
        decreases b - a,
    {
        let ghost cur = chars@.subrange(a as int, b as int);
        assert(cur.drop_last() =~= chars@.subrange(a as int, b - 1));
        b = b - 1;
    }
    (a, b)
}

/// The bounds, within `chars`, of the pieces of `chars[lo..hi]` between
/// occurrences of `sep`.
pub fn split_bounds(chars: &Vec<char>, lo: usize, hi: usize, sep: char) -> (parts: Vec<
    (usize, usize),
>)
    requires
        lo <= hi <= chars@.len(),
    ensures
        parts@.len() == split_on(chars@.subrange(lo as int, hi as int), sep).len(),
        forall|k: int|
            0 <= k < parts@.len() ==> {
                &&& lo <= (#[trigger] parts@[k]).0 <= parts@[k].1 <= hi
                &&& chars@.subrange(parts@[k].0 as int, parts@[k].1 as int) == split_on(
                    chars@.subrange(lo as int, hi as int),
                    sep,
                )[k]
            },
{
    let mut parts: Vec<(usize, usize)> = Vec::new();
    parts.push((lo, lo));
    let mut i = lo;
    assert(chars@.subrange(lo as int, lo as int) =~= Seq::<char>::empty());
    while i < hi
        invariant
            lo <= i <= hi <= chars@.len(),
            parts@.len() == split_on(chars@.subrange(lo as int, i as int), sep).len(),
            parts@.len() >= 1,
            parts@.last().1 == i,
            forall|k: int|
                0 <= k < parts@.len() ==> {
                    &&& lo <= (#[trigger] parts@[k]).0 <= parts@[k].1 <= i
                    &&& chars@.subrange(parts@[k].0 as int, parts@[k].1 as int) == split_on(
                        chars@.subrange(lo as int, i as int),
                        sep,
                    )[k]
                },
        decreases hi - i,
    {
        let ghost prev = chars@.subrange(lo as int, i as int);
        let ghost next = chars@.subrange(lo as int, i + 1);
        assert(next.drop_last() =~= prev);
        assert(next.last() == chars@[i as int]);
        let ghost old_parts = parts@;
        if chars[i] == sep {
            parts.push((i + 1, i + 1));
            assert(chars@.subrange(i + 1, i + 1) =~= Seq::<char>::empty());
        } else {
            let last = parts.len() - 1;
            let start = parts[last].0;
            parts.set(last, (start, i + 1));
            assert(chars@.subrange(start as int, i + 1) =~= chars@.subrange(
                start as int,
                i as int,
            ).push(chars@[i as int]));
        }
        i = i + 1;
    }
    parts
}

/// A string holding the characters `chars[lo..hi]`.
pub fn string_from_range(chars: &Vec<char>, lo: usize, hi: usize) -> (s: String)
    requires
        lo <= hi <= chars@.len(),
    ensures
        s@ == chars@.subrange(lo as int, hi as int),
{
    let mut s = String::new();
    let mut i = lo;
    while i < hi
        invariant
            lo <= i <= hi <= chars@.len(),
            s@ == chars@.subrange(lo as int, i as int),
        decreases hi - i,
    {
        push_char(&mut s, chars[i]);
        assert(chars@.subrange(lo as int, i + 1) =~= chars@.subrange(lo as int, i as int).push(
            chars@[i as int],
        ));
        i = i + 1;
    }
    s
}

/// No piece of a split holds the separator.
pub proof fn lemma_split_pieces_have_no_separator(s: Seq<char>, sep: char)
    ensures
        forall|k: int|
            0 <= k < split_on(s, sep).len() ==> !(#[trigger] split_on(s, sep)[k]).contains(sep),
        split_on(s, sep).len() >= 1,
    decreases s.len(),
{
    if s.len() > 0 {
        lemma_split_pieces_have_no_separator(s.drop_last(), sep);
        let init = split_on(s.drop_last(), sep);
        if s.last() != sep {
            let grown = init.last().push(s.last());
            assert(!grown.contains(sep)) by {
                if grown.contains(sep) {
                    let i = choose|i: int| 0 <= i < grown.len() && grown[i] == sep;
                    if i < init.last().len() {
                        assert(init.last()[i] == sep);
                    }
                }
            }
        } else {
            assert(!Seq::<char>::empty().contains(sep));
        }
    } else {
        assert(!Seq::<char>::empty().contains(sep));
    }
}

/// Splitting a text that does not hold the separator gives the text alone.
pub proof fn lemma_split_without_separator(s: Seq<char>, sep: char)
    requires
        !s.contains(sep),
    ensures
        split_on(s, sep) == seq![s],
    decreases s.len(),
{
    if s.len() > 0 {
        assert(!s.drop_last().contains(sep)) by {
            if s.drop_last().contains(sep) {
                let i = choose|i: int| 0 <= i < s.drop_last().len() && s.drop_last()[i] == sep;
                assert(s[i] == sep);
            }
        }
        lemma_split_without_separator(s.drop_last(), sep);
        assert(s.last() != sep) by {
            assert(s[s.len() - 1] == s.last());
        }
        assert(s.drop_last().push(s.last()) =~= s);
        assert(split_on(s, sep) =~= seq![s]);
    } else {
        assert(s =~= Seq::<char>::empty());
    }
}

/// Splitting `x`, the separator, then a text `y` without it, gives the
/// pieces of `x` followed by `y`.
pub proof fn lemma_split_then_piece(x: Seq<char>, sep: char, y: Seq<char>)
    requires
        !y.contains(sep),
    ensures
        split_on(x + seq![sep] + y, sep) == split_on(x, sep).push(y),
    decreases y.len(),
{
    let s = x + seq![sep] + y;
    if y.len() == 0 {
        assert(s.drop_last() =~= x);
        assert(y =~= Seq::<char>::empty());
    } else {
        let y0 = y.drop_last();
        assert(!y0.contains(sep)) by {
            if y0.contains(sep) {
                let i = choose|i: int| 0 <= i < y0.len() && y0[i] == sep;
                assert(y[i] == sep);
            }
        }
        lemma_split_then_piece(x, sep, y0);
        assert(s.drop_last() =~= x + seq![sep] + y0);
        assert(s.last() == y[y.len() - 1]);
        assert(y0.push(y.last()) =~= y);
        assert(split_on(s, sep) =~= split_on(x, sep).push(y));
    }
}

/// The lines of `s`, without their line endings.
pub fn lines_of(s: &str) -> (v: Vec<String>)
    ensures
        v@.map_values(|l: String| l@) == lines(s@),
{
    let chars = str_chars(s);
    assert(chars@.subrange(0, chars@.len() as int) =~= s@);
    let parts = split_bounds(&chars, 0, chars.len(), '\n');
    let ghost pieces = split_on(s@, '\n');
    let mut v: Vec<String> = Vec::new();
    proof {
        lemma_split_pieces_have_no_separator(s@, '\n');
    }
    let last = parts.len() - 1;
    let mut k: usize = 0;
    while k < last
        invariant
            last + 1 == parts@.len(),
            parts@.len() == pieces.len(),
            k <= last,
            forall|j: int|
                0 <= j < parts@.len() ==> {
                    &&& 0 <= (#[trigger] parts@[j]).0 <= parts@[j].1 <= chars@.len()
                    &&& chars@.subrange(parts@[j].0 as int, parts@[j].1 as int) == pieces[j]
                },
            v@.len() == k,
            forall|j: int| 0 <= j < k ==> (#[trigger] v@[j])@ == strip_cr(pieces[j]),
        decreases last - k,
    {
        let (a, b) = parts[k];
        let end = if a < b && chars[b - 1] == '\r' {
            b - 1
        } else {
            b
        };
        let line = string_from_range(&chars, a, end);
        proof {
            let p = chars@.subrange(a as int, b as int);
            if a < b && chars@[b - 1] == '\r' {
                assert(p.drop_last() =~= chars@.subrange(a as int, end as int));
            }
        }
        v.push(line);
        k = k + 1;
    }
    let (a, b) = parts[last];
    if a < b {
        let line = string_from_range(&chars, a, b);
        v.push(line);
    }
    assert(v@.map_values(|l: String| l@) =~= lines(s@));
    v
}

} // verus!
