//! The gaps between tokens: white space and comments, and the places in them
//! where more can be put in.
use crate::parser::chars::{is_space, lemma_run_end, CharClass};
use crate::parser::lexical::{comment_end, comment_span, lemma_comment_span, pair_at, trivia_end};
use crate::parser::locality::{agree, lemma_local_block_comment, lemma_local_comment};
use vstd::prelude::*;

verus! {

/// Whether the search for the next token that starts at `p` comes by `q`:
/// `q` is `p`, or white space or a whole comment stands at `p` and the
/// search goes on behind it and comes by `q`.
pub open spec fn in_gap(s: Seq<char>, p: int, q: int) -> bool
    decreases s.len() - p,
{
    if p == q {
        true
    } else if p < 0 || p >= s.len() || q < p {
        false
    } else if is_space(s[p]) {
        in_gap(s, p + 1, q)
    } else {
        match comment_end(s, p) {
            Some(e) => p < e <= s.len() && in_gap(s, e, q),
            None => false,
        }
    }
}

/// A comment is skipped as a whole: the next token behind the start of a
/// comment is the next token behind its end.
pub proof fn law_comment_is_skipped(s: Seq<char>, p: int)
    requires
        0 <= p,
        comment_end(s, p) is Some,
    ensures
        trivia_end(s, p) == trivia_end(s, comment_end(s, p)->0),
        in_gap(s, p, comment_end(s, p)->0),
{
    lemma_comment_span(s, p);
    let e = comment_end(s, p)->0;
    if is_space(s[p]) {
        assert(s[p] == '/');
    }
    assert(in_gap(s, e, e));
}

/// White space is skipped: the next token behind a white space character
/// is the next token behind the position after it.
pub proof fn law_space_is_skipped(s: Seq<char>, p: int)
    requires
        0 <= p < s.len(),
        is_space(s[p]),
    ensures
        trivia_end(s, p) == trivia_end(s, p + 1),
        in_gap(s, p, p + 1),
{
    assert(in_gap(s, p + 1, p + 1));
}

/// From everywhere in a gap between two tokens the next token is the same.
pub proof fn law_gap_leads_to_one_token(s: Seq<char>, p: int, q: int)
    requires
        in_gap(s, p, q),
    ensures
        trivia_end(s, p) == trivia_end(s, q),
        p <= q,
    decreases s.len() - p,
{
    if p != q {
        if is_space(s[p]) {
            law_gap_leads_to_one_token(s, p + 1, q);
        } else {
            law_gap_leads_to_one_token(s, comment_end(s, p)->0, q);
        }
    }
}

/// Whether `g` is a place between two tokens in the gap that starts at
/// `p`: `g` is `p`, or it is such a place behind the white space at `p`,
/// behind the block comment at `p`, or behind the line comment at `p` and
/// the line feed that ends its line.
pub open spec fn between_tokens(s: Seq<char>, p: int, g: int) -> bool
    decreases s.len() - p,
{
    if p == g {
        true
    } else if p < 0 || p >= s.len() || g < p {
        false
    } else if is_space(s[p]) {
        between_tokens(s, p + 1, g)
    } else {
        match comment_span(s, p) {
            Some((_, e)) => if pair_at(s, p, '/', '/') {
                p < e < s.len() && between_tokens(s, e + 1, g)
            } else {
                p < e <= s.len() && between_tokens(s, e, g)
            },
            None => false,
        }
    }
}

/// A place between two tokens lies in the gap, and the search for the next
/// token comes by it.
pub proof fn lemma_between_tokens(s: Seq<char>, p: int, g: int)
    requires
        0 <= p,
        between_tokens(s, p, g),
    ensures
        in_gap(s, p, g),
        p <= g <= s.len() || p == g,
    decreases s.len() - p,
{
    if p != g {
        if is_space(s[p]) {
            lemma_between_tokens(s, p + 1, g);
        } else {
            lemma_comment_span(s, p);
            let e = comment_end(s, p)->0;
            if pair_at(s, p, '/', '/') {
                lemma_between_tokens(s, e + 1, g);
                lemma_run_end(s, p + 2, CharClass::NotNewline);
                assert(is_space(s[e]));
                if e + 1 != g {
                    assert(in_gap(s, e, g));
                } else {
                    assert(in_gap(s, e + 1, g));
                    assert(in_gap(s, e, g));
                }
            } else {
                lemma_between_tokens(s, e, g);
            }
        }
    }
}

/// In a text that is the same up to a place between two tokens, the search
/// for the next token comes by that place too.
pub proof fn lemma_between_tokens_local(s: Seq<char>, s2: Seq<char>, p: int, g: int)
    requires
        0 <= p,
        between_tokens(s, p, g),
        agree(s, s2, g),
    ensures
        in_gap(s2, p, g),
    decreases s.len() - p,
{
    if p != g {
        lemma_between_tokens(s, p, g);
        assert(s[p] == s2[p]);
        if is_space(s[p]) {
            lemma_between_tokens_local(s, s2, p + 1, g);
        } else {
            lemma_comment_span(s, p);
            let e = comment_end(s, p)->0;
            if pair_at(s, p, '/', '/') {
                lemma_between_tokens(s, e + 1, g);
                lemma_local_comment(s, s2, g, p);
                lemma_between_tokens_local(s, s2, e + 1, g);
                lemma_run_end(s, p + 2, CharClass::NotNewline);
                assert(s[e] == s2[e]);
                assert(is_space(s2[e]));
                if e + 1 != g {
                    assert(in_gap(s2, e, g));
                } else {
                    assert(in_gap(s2, e + 1, g));
                    assert(in_gap(s2, e, g));
                }
            } else {
                lemma_between_tokens(s, e, g);
                lemma_local_block_comment(s, s2, g, p);
                lemma_between_tokens_local(s, s2, e, g);
            }
        }
    }
}

/// The text `s` with `c` put in at position `p`.
pub open spec fn with_inserted(s: Seq<char>, p: int, c: Seq<char>) -> Seq<char> {
    s.take(p) + c + s.skip(p)
}

/// Behind an inserted text, the text goes on as it did without it.
pub proof fn lemma_rest_behind_inserted(s: Seq<char>, p: int, c: Seq<char>)
    requires
        0 <= p <= s.len(),
    ensures
        with_inserted(s, p, c).skip(p + c.len()) == s.skip(p),
        with_inserted(s, p, c).len() == s.len() + c.len(),
{
    assert(with_inserted(s, p, c).skip(p + c.len()) =~= s.skip(p));
}

/// The text with something put in at `g` is the same up to `g`.
pub proof fn lemma_agree_with_inserted(s: Seq<char>, g: int, c: Seq<char>)
    requires
        0 <= g <= s.len(),
    ensures
        agree(s, with_inserted(s, g, c), g),
{
}

} // verus!
