//! Tokens and what stands between them: literals, identifiers, keywords, comments,
//! white space, annotations and numbers.
use crate::parser::chars::{
    is_ascii_letter, is_letter, is_space, is_whitespace, lemma_run_end, run_end, skip_run,
    CharClass,
};
use crate::text::string_of;
use vstd::prelude::*;

verus! {

/// Whether an executable end position says what a specified one says.
pub open spec fn same_end(r: Option<usize>, e: Option<int>) -> bool {
    match r {
        Some(q) => e == Some(q as int),
        None => e is None,
    }
}

/// Whether the text holds `c` at `p`.
pub open spec fn char_at(s: Seq<char>, p: int, c: char) -> bool {
    0 <= p < s.len() && s[p] == c
}

/// Whether the text holds the characters `a`, `b` at `p` and `p + 1`.
pub open spec fn pair_at(s: Seq<char>, p: int, a: char, b: char) -> bool {
    char_at(s, p, a) && char_at(s, p + 1, b)
}

/// Where `lit` ends if the text holds it at `p`.
pub open spec fn literal_end(s: Seq<char>, p: int, lit: Seq<char>) -> Option<int> {
    if 0 <= p && p + lit.len() <= s.len() && s.subrange(p, p + lit.len()) == lit {
        Some(p + lit.len())
    } else {
        None
    }
}

/// Where the identifier that starts at `p` ends: a letter or `'_'`, then
/// letters, digits and `'_'`, as many as there are.
pub open spec fn ident_end(s: Seq<char>, p: int) -> Option<int> {
    if 0 <= p < s.len() && (is_letter(s[p]) || s[p] == '_') {
        Some(run_end(s, p + 1, CharClass::Word))
    } else {
        None
    }
}

/// Where the keyword `kw` ends if the identifier at `p` is exactly `kw`.
pub open spec fn keyword_end(s: Seq<char>, p: int, kw: Seq<char>) -> Option<int> {
    match ident_end(s, p) {
        Some(q) => if s.subrange(p, q) == kw {
            Some(q)
        } else {
            None
        },
        None => None,
    }
}

/// Position of the first `*/` at or after `p`.
pub open spec fn close_at(s: Seq<char>, p: int) -> Option<int>
    decreases s.len() - p,
{
    if p < 0 || p + 2 > s.len() {
        None
    } else if s[p] == '*' && s[p + 1] == '/' {
        Some(p)
    } else {
        close_at(s, p + 1)
    }
}

/// The comment that starts at `p`, as the end of its content and its own
/// end. A line comment is `//` and the rest of the line, without the line
/// feed. A block comment is `/*`, then everything up to the first `*/`, and
/// that `*/`. The content starts at `p + 2`.
pub open spec fn comment_span(s: Seq<char>, p: int) -> Option<(int, int)> {
    if pair_at(s, p, '/', '/') {
        let e = run_end(s, p + 2, CharClass::NotNewline);
        Some((e, e))
    } else if pair_at(s, p, '/', '*') {
        match close_at(s, p + 2) {
            Some(q) => Some((q, q + 2)),
            None => None,
        }
    } else {
        None
    }
}

/// Where the comment that starts at `p` ends.
pub open spec fn comment_end(s: Seq<char>, p: int) -> Option<int> {
    match comment_span(s, p) {
        Some((_, e)) => Some(e),
        None => None,
    }
}

/// First position in `[from, to)` that holds no white space, or `to`.
pub open spec fn trim_start(s: Seq<char>, from: int, to: int) -> int
    decreases to - from,
{
    if 0 <= from < to && from < s.len() && is_space(s[from]) {
        trim_start(s, from + 1, to)
    } else {
        from
    }
}

/// End of the last character in `[from, to)` that is no white space, or
/// `from`.
pub open spec fn trim_end(s: Seq<char>, from: int, to: int) -> int
    decreases to - from,
{
    if 0 <= from < to && to <= s.len() && is_space(s[to - 1]) {
        trim_end(s, from, to - 1)
    } else {
        to
    }
}

/// The text in `[from, to)` without the white space at its two ends.
pub open spec fn trimmed(s: Seq<char>, from: int, to: int) -> Seq<char> {
    let a = trim_start(s, from, to);
    s.subrange(a, trim_end(s, a, to))
}

/// The comment that starts at `p`: its content, trimmed, and its end.
pub open spec fn comment_at(s: Seq<char>, p: int) -> Option<(Seq<char>, int)> {
    match comment_span(s, p) {
        Some((c, e)) => Some((trimmed(s, p + 2, c), e)),
        None => None,
    }
}

/// Where the white space and comments that start at `p` end: the position
/// of the next token.
pub open spec fn trivia_end(s: Seq<char>, p: int) -> int
    decreases s.len() - p,
{
    if p < 0 || p >= s.len() {
        p
    } else if is_space(s[p]) {
        trivia_end(s, p + 1)
    } else {
        match comment_end(s, p) {
            Some(q) => if p < q <= s.len() {
                trivia_end(s, q)
            } else {
                p
            },
            None => p,
        }
    }
}

/// Where the annotation that starts at `p` ends: `#[`, anything but `']'`,
/// and `']'`.
pub open spec fn attr_end(s: Seq<char>, p: int) -> Option<int> {
    if pair_at(s, p, '#', '[') {
        let r = run_end(s, p + 2, CharClass::NotBracket);
        if r < s.len() {
            Some(r + 1)
        } else {
            None
        }
    } else {
        None
    }
}

/// The number that decimal digits spell.
pub open spec fn decimal_value(digits: Seq<char>) -> nat
    decreases digits.len(),
{
    if digits.len() == 0 {
        0
    } else {
        (decimal_value(digits.drop_last()) * 10 + (digits.last() as nat - '0' as nat)) as nat
    }
}

/// The number that starts at `p`: a run of at least one digit whose value
/// fits 64 bits; and its end.
pub open spec fn number_at(s: Seq<char>, p: int) -> Option<(u64, int)> {
    let e = run_end(s, p, CharClass::Digit);
    if 0 <= p < e && decimal_value(s.subrange(p, e)) <= u64::MAX {
        Some((decimal_value(s.subrange(p, e)) as u64, e))
    } else {
        None
    }
}

/// `close_at` finds a `*/` at or after `p`, within the text.
pub proof fn lemma_close_at(s: Seq<char>, p: int)
    requires
        0 <= p,
    ensures
        close_at(s, p) matches Some(q) ==> p <= q && q + 2 <= s.len() && pair_at(s, q, '*', '/'),
    decreases s.len() - p,
{
    if p + 2 <= s.len() && !(s[p] == '*' && s[p + 1] == '/') {
        lemma_close_at(s, p + 1);
    }
}

/// A comment is at least two characters long and ends within the text.
pub proof fn lemma_comment_span(s: Seq<char>, p: int)
    requires
        0 <= p,
    ensures
        comment_span(s, p) matches Some((c, e)) ==> p + 2 <= c <= e <= s.len(),
{
    if pair_at(s, p, '/', '/') {
        lemma_run_end(s, p + 2, CharClass::NotNewline);
    } else if pair_at(s, p, '/', '*') {
        lemma_close_at(s, p + 2);
    }
}

/// Trivia end within the text, at a character that is neither white space
/// nor the start of a comment, or at the end of the text.
pub proof fn lemma_trivia_end(s: Seq<char>, p: int)
    requires
        0 <= p <= s.len(),
    ensures
        p <= trivia_end(s, p) <= s.len(),
        trivia_end(s, p) < s.len() ==> !is_space(s[trivia_end(s, p)]),
        comment_end(s, trivia_end(s, p)) is None,
        trivia_end(s, trivia_end(s, p)) == trivia_end(s, p),
    decreases s.len() - p,
{
    if p < s.len() {
        if is_space(s[p]) {
            lemma_trivia_end(s, p + 1);
        } else {
            lemma_comment_span(s, p);
            match comment_end(s, p) {
                Some(q) => {
                    lemma_trivia_end(s, q);
                },
                None => {},
            }
        }
    }
}

/// The two ends of a trimmed range lie within the range, in order.
pub proof fn lemma_trim(s: Seq<char>, from: int, to: int)
    requires
        0 <= from <= to <= s.len(),
    ensures
        from <= trim_start(s, from, to) <= to,
        from <= trim_end(s, from, to) <= to,
    decreases to - from,
{
    if from < to {
        if is_space(s[from]) {
            lemma_trim(s, from + 1, to);
        }
        if is_space(s[to - 1]) {
            lemma_trim(s, from, to - 1);
        }
    }
}

/// Matches the literal `lit` at `pos`.
pub fn literal(text: &[char], pos: usize, lit: &str) -> (r: Option<usize>)
    requires
        pos <= text@.len(),
    ensures
        same_end(r, literal_end(text@, pos as int, lit@)),
        r matches Some(e) ==> pos <= e <= text@.len(),
{
    let mut q: usize = pos;
    for c in it: lit.chars()
        invariant
            it.seq() == lit@,
            q == pos + it.index(),
            q <= text@.len(),
            text@.subrange(pos as int, q as int) == lit@.take(it.index() as int),
    {
        if q >= text.len() || text[q] != c {
            proof {
                let n = lit@.len() as int;
                if pos + n <= text@.len() && text@.subrange(pos as int, pos + n) == lit@ {
                    assert(text@.subrange(pos as int, pos + n)[q - pos] == lit@[q - pos]);
                }
            }
            return None;
        }
        q += 1;
        assert(text@.subrange(pos as int, q as int) =~= lit@.take(it.index() + 1));
    }
    assert(lit@.take(lit@.len() as int) =~= lit@);
    Some(q)
}

/// Whether the text holds `c` at `pos`.
pub fn has_char(text: &[char], pos: usize, c: char) -> (r: bool)
    ensures
        r == char_at(text@, pos as int, c),
        r ==> pos < text@.len() <= usize::MAX,
{
    pos < text.len() && text[pos] == c
}

/// Whether the text holds `a`, `b` at `pos` and the position after it.
pub fn has_pair(text: &[char], pos: usize, a: char, b: char) -> (r: bool)
    ensures
        r == pair_at(text@, pos as int, a, b),
        r ==> pos + 1 < text@.len() <= usize::MAX,
{
    pos < text.len() && text[pos] == a && pos + 1 < text.len() && text[pos + 1] == b
}

/// Matches an identifier at `pos` and gives its end.
pub fn ident(text: &[char], pos: usize) -> (r: Option<usize>)
    requires
        pos <= text@.len(),
    ensures
        same_end(r, ident_end(text@, pos as int)),
        r matches Some(q) ==> pos < q <= text@.len(),
{
    if pos < text.len() && (is_ascii_letter(text[pos]) || text[pos] == '_') {
        Some(skip_run(text, pos + 1, CharClass::Word))
    } else {
        None
    }
}

/// Matches the keyword `kw` at `pos`: an identifier that is exactly `kw`.
pub fn keyword(text: &[char], pos: usize, kw: &str) -> (r: Option<usize>)
    requires
        pos <= text@.len(),
    ensures
        same_end(r, keyword_end(text@, pos as int, kw@)),
        r matches Some(q) ==> pos < q <= text@.len(),
{
    match ident(text, pos) {
        Some(q) => {
            match literal(text, pos, kw) {
                Some(e) => {
                    if e == q {
                        Some(q)
                    } else {
                        proof {
                            if text@.subrange(pos as int, q as int) == kw@ {
                                assert(text@.subrange(pos as int, q as int).len() == kw@.len());
                            }
                        }
                        None
                    }
                },
                None => {
                    proof {
                        if text@.subrange(pos as int, q as int) == kw@ {
                            assert(text@.subrange(pos as int, q as int).len() == kw@.len());
                        }
                    }
                    None
                },
            }
        },
        None => None,
    }
}

/// Finds the first `*/` at or after `pos`.
pub fn find_close(text: &[char], pos: usize) -> (r: Option<usize>)
    requires
        pos <= text@.len(),
    ensures
        same_end(r, close_at(text@, pos as int)),
        r matches Some(q) ==> pos <= q && q + 2 <= text@.len(),
{
    let mut i: usize = pos;
    while i < text.len() && i + 1 < text.len()
        invariant
            pos <= i <= text@.len(),
            close_at(text@, pos as int) == close_at(text@, i as int),
        decreases text@.len() - i,
    {
        if text[i] == '*' && text[i + 1] == '/' {
            return Some(i);
        }
        i += 1;
    }
    None
}

/// Gives the end of the content and the end of the comment at `pos`.
pub fn comment_bounds(text: &[char], pos: usize) -> (r: Option<(usize, usize)>)
    requires
        pos <= text@.len(),
    ensures
        match r {
            Some((c, e)) => comment_span(text@, pos as int) == Some((c as int, e as int)) && pos
                + 2 <= c <= e <= text@.len(),
            None => comment_span(text@, pos as int) is None,
        },
{
    proof {
        lemma_comment_span(text@, pos as int);
    }
    let _ = text.len();
    if has_pair(text, pos, '/', '/') {
        let e = skip_run(text, pos + 2, CharClass::NotNewline);
        Some((e, e))
    } else if has_pair(text, pos, '/', '*') {
        match find_close(text, pos + 2) {
            Some(q) => Some((q, q + 2)),
            None => None,
        }
    } else {
        None
    }
}

/// The text in `[from, to)` without the white space at its two ends.
pub fn trimmed_text(text: &[char], from: usize, to: usize) -> (r: String)
    requires
        from <= to <= text@.len(),
    ensures
        r@ == trimmed(text@, from as int, to as int),
{
    let mut a: usize = from;
    while a < to && is_whitespace(text[a])
        invariant
            from <= a <= to <= text@.len(),
            trim_start(text@, from as int, to as int) == trim_start(text@, a as int, to as int),
        decreases to - a,
    {
        a += 1;
    }
    let mut b: usize = to;
    while a < b && is_whitespace(text[b - 1])
        invariant
            a <= b <= to <= text@.len(),
            trim_end(text@, a as int, to as int) == trim_end(text@, a as int, b as int),
        decreases b - a,
    {
        b -= 1;
    }
    string_of(text, a, b)
}

/// Matches a comment at `pos` and gives its content, trimmed, and its end.
pub fn comment(text: &[char], pos: usize) -> (r: Option<(String, usize)>)
    requires
        pos <= text@.len(),
    ensures
        match r {
            Some((c, e)) => comment_at(text@, pos as int) == Some((c@, e as int)) && pos + 2 <= e
                <= text@.len(),
            None => comment_at(text@, pos as int) is None,
        },
{
    match comment_bounds(text, pos) {
        Some((c, e)) => Some((trimmed_text(text, pos + 2, c), e)),
        None => None,
    }
}

/// Skips white space and comments from `pos` on.
pub fn skip_trivia(text: &[char], pos: usize) -> (r: usize)
    requires
        pos <= text@.len(),
    ensures
        r == trivia_end(text@, pos as int),
        pos <= r <= text@.len(),
{
    let mut i: usize = pos;
    loop
        invariant
            pos <= i <= text@.len(),
            trivia_end(text@, pos as int) == trivia_end(text@, i as int),
        ensures
            pos <= i <= text@.len(),
            trivia_end(text@, pos as int) == i,
        decreases text@.len() - i,
    {
        if i >= text.len() {
            break;
        }
        if is_whitespace(text[i]) {
            i += 1;
        } else {
            match comment_bounds(text, i) {
                Some((_, e)) => {
                    i = e;
                },
                None => {
                    break;
                },
            }
        }
    }
    i
}

/// Matches an annotation at `pos` and gives its end.
pub fn attr(text: &[char], pos: usize) -> (r: Option<usize>)
    requires
        pos <= text@.len(),
    ensures
        same_end(r, attr_end(text@, pos as int)),
        r matches Some(q) ==> pos < q <= text@.len(),
{
    let _ = text.len();
    if has_pair(text, pos, '#', '[') {
        let e = skip_run(text, pos + 2, CharClass::NotBracket);
        if e < text.len() {
            Some(e + 1)
        } else {
            None
        }
    } else {
        None
    }
}

/// The value of a run of digits does not shrink as the run goes on.
pub proof fn lemma_decimal_grows(s: Seq<char>, p: int, i: int, e: int)
    requires
        0 <= p <= i <= e <= s.len(),
        forall|j: int| p <= j < e ==> crate::parser::chars::is_digit(#[trigger] s[j]),
    ensures
        decimal_value(s.subrange(p, i)) <= decimal_value(s.subrange(p, e)),
    decreases e - i,
{
    if i < e {
        lemma_decimal_grows(s, p, i, e - 1);
        assert(s.subrange(p, e).drop_last() =~= s.subrange(p, e - 1));
        assert(s.subrange(p, e).last() == s[e - 1]);
    }
}

/// Matches a decimal number at `pos` and gives its value and its end.
pub fn number(text: &[char], pos: usize) -> (r: Option<(u64, usize)>)
    requires
        pos <= text@.len(),
    ensures
        match r {
            Some((n, e)) => number_at(text@, pos as int) == Some((n, e as int)) && pos < e
                <= text@.len(),
            None => number_at(text@, pos as int) is None,
        },
{
    let e = skip_run(text, pos, CharClass::Digit);
    proof {
        lemma_run_end(text@, pos as int, CharClass::Digit);
    }
    if e == pos {
        return None;
    }
    let mut acc: u64 = 0;
    let mut i: usize = pos;
    assert(text@.subrange(pos as int, pos as int) =~= Seq::empty());
    while i < e
        invariant
            pos <= i <= e <= text@.len(),
            e == run_end(text@, pos as int, CharClass::Digit),
            forall|j: int| pos <= j < e ==> crate::parser::chars::is_digit(#[trigger] text@[j]),
            acc == decimal_value(text@.subrange(pos as int, i as int)),
        decreases e - i,
    {
        let c = text[i];
        assert(crate::parser::chars::is_digit(text@[i as int]));
        let d: u64 = (c as u64) - ('0' as u64);
        proof {
            assert(text@.subrange(pos as int, i + 1).drop_last() =~= text@.subrange(
                pos as int,
                i as int,
            ));
            assert(text@.subrange(pos as int, i + 1).last() == c);
            lemma_decimal_grows(text@, pos as int, i + 1, e as int);
        }
        if acc > (u64::MAX - d) / 10 {
            return None;
        }
        acc = acc * 10 + d;
        i += 1;
    }
    Some((acc, e))
}

} // verus!
