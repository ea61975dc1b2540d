//! Classes of characters and runs of them.
use vstd::prelude::*;

verus! {

/// Whether `c` is white space: the characters with the Unicode property
/// `White_Space`.
pub open spec fn is_space(c: char) -> bool {
    ||| '\u{9}' <= c <= '\u{D}'
    ||| c == ' '
    ||| c == '\u{85}'
    ||| c == '\u{A0}'
    ||| c == '\u{1680}'
    ||| '\u{2000}' <= c <= '\u{200A}'
    ||| c == '\u{2028}'
    ||| c == '\u{2029}'
    ||| c == '\u{202F}'
    ||| c == '\u{205F}'
    ||| c == '\u{3000}'
}

/// Whether `c` is an ASCII letter.
pub open spec fn is_letter(c: char) -> bool {
    ('a' <= c <= 'z') || ('A' <= c <= 'Z')
}

/// Whether `c` is an ASCII decimal digit.
pub open spec fn is_digit(c: char) -> bool {
    '0' <= c <= '9'
}

/// Whether an identifier can go on with `c`: a letter, a digit or `'_'`.
pub open spec fn is_word(c: char) -> bool {
    is_letter(c) || is_digit(c) || c == '_'
}

/// Sets of characters that the grammar scans runs of.
#[derive(Debug, Clone, Copy, PartialEq, Eq, Structural)]
pub enum CharClass {
    /// White space.
    Space,
    /// Letters, digits and `'_'`.
    Word,
    /// Decimal digits.
    Digit,
    /// Everything but the line feed.
    NotNewline,
    /// Everything but `']'`.
    NotBracket,
}

/// Whether `c` belongs to `class`.
pub open spec fn in_class(c: char, class: CharClass) -> bool {
    match class {
        CharClass::Space => is_space(c),
        CharClass::Word => is_word(c),
        CharClass::Digit => is_digit(c),
        CharClass::NotNewline => c != '\n',
        CharClass::NotBracket => c != ']',
    }
}

/// Where the run of `class` characters that starts at `p` ends: the first
/// position from `p` on that holds no character of the class, or the end of
/// the text.
pub open spec fn run_end(s: Seq<char>, p: int, class: CharClass) -> int
    decreases s.len() - p,
{
    if 0 <= p < s.len() && in_class(s[p], class) {
        run_end(s, p + 1, class)
    } else {
        p
    }
}

/// A run ends within the text, on a character outside the class or at the
/// end, and holds only characters of the class.
pub proof fn lemma_run_end(s: Seq<char>, p: int, class: CharClass)
    requires
        0 <= p <= s.len(),
    ensures
        p <= run_end(s, p, class) <= s.len(),
        run_end(s, p, class) < s.len() ==> !in_class(s[run_end(s, p, class)], class),
        forall|j: int| p <= j < run_end(s, p, class) ==> in_class(#[trigger] s[j], class),
    decreases s.len() - p,
{
    if p < s.len() && in_class(s[p], class) {
        lemma_run_end(s, p + 1, class);
    }
}

/// Whether `c` is white space.
pub fn is_whitespace(c: char) -> (r: bool)
    ensures
        r == is_space(c),
{
    (c >= '\u{9}' && c <= '\u{D}') || c == ' ' || c == '\u{85}' || c == '\u{A0}' || c
        == '\u{1680}' || (c >= '\u{2000}' && c <= '\u{200A}') || c == '\u{2028}' || c == '\u{2029}'
        || c == '\u{202F}' || c == '\u{205F}' || c == '\u{3000}'
}

/// Whether `c` is an ASCII letter.
pub fn is_ascii_letter(c: char) -> (r: bool)
    ensures
        r == is_letter(c),
{
    (c >= 'a' && c <= 'z') || (c >= 'A' && c <= 'Z')
}

/// Whether `c` is an ASCII decimal digit.
pub fn is_ascii_digit(c: char) -> (r: bool)
    ensures
        r == is_digit(c),
{
    c >= '0' && c <= '9'
}

/// Whether `c` belongs to `class`.
pub fn class_has(class: CharClass, c: char) -> (r: bool)
    ensures
        r == in_class(c, class),
{
    match class {
        CharClass::Space => is_whitespace(c),
        CharClass::Word => is_ascii_letter(c) || is_ascii_digit(c) || c == '_',
        CharClass::Digit => is_ascii_digit(c),
        CharClass::NotNewline => c != '\n',
        CharClass::NotBracket => c != ']',
    }
}

/// Skips the run of `class` characters that starts at `pos`.
pub fn skip_run(text: &[char], pos: usize, class: CharClass) -> (r: usize)
    requires
        pos <= text@.len(),
    ensures
        r == run_end(text@, pos as int, class),
        pos <= r <= text@.len(),
{
    let mut i: usize = pos;
    while i < text.len() && class_has(class, text[i])
        invariant
            pos <= i <= text@.len(),
            run_end(text@, pos as int, class) == run_end(text@, i as int, class),
        decreases text@.len() - i,
    {
        i += 1;
    }
    i
}

} // verus!
