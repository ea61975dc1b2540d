//! The bodies of procedures: blocks in balanced braces, read for their extent.
use crate::parser::chars::{lemma_run_end, run_end, skip_run, CharClass};
use crate::parser::lexical::{
    char_at, comment, comment_at, has_char, has_pair, pair_at, trimmed, trimmed_text,
};
use vstd::prelude::*;

verus! {

/// One piece of a procedure's body. The body is not interpreted: it is cut
/// into comments, nested blocks and the text between them, so that its end
/// can be found.
#[derive(Debug, PartialEq, Eq)]
pub enum ExprBlock {
    /// A comment, without its marks and trimmed.
    Comment(String),
    /// Text that is neither a brace nor a comment, trimmed.
    Body(String),
    /// A block in braces, by its pieces.
    Nested(Vec<ExprBlock>),
}

/// Mathematical value of an [`ExprBlock`].
pub enum ExprBlockView {
    Comment(Seq<char>),
    Body(Seq<char>),
    Nested(Seq<ExprBlockView>),
}

impl View for ExprBlock {
    type V = ExprBlockView;

    open spec fn view(&self) -> ExprBlockView
        decreases self,
    {
        match self {
            ExprBlock::Comment(text) => ExprBlockView::Comment(text@),
            ExprBlock::Body(text) => ExprBlockView::Body(text@),
            ExprBlock::Nested(items) => ExprBlockView::Nested(blocks_view(items@)),
        }
    }
}

/// The values of a sequence of pieces, in order.
pub open spec fn blocks_view(v: Seq<ExprBlock>) -> Seq<ExprBlockView>
    decreases v,
{
    Seq::new(
        v.len(),
        |i: int|
            if 0 <= i < v.len() {
                v[i]@
            } else {
                arbitrary()
            },
    )
}

/// Where the body text that starts at `p` ends: at the next brace, at the
/// next `//` or `/*`, or at the end of the text.
pub open spec fn body_end(s: Seq<char>, p: int) -> int
    decreases s.len() - p,
{
    if p < 0 || p >= s.len() {
        p
    } else if s[p] == '{' || s[p] == '}' || pair_at(s, p, '/', '/') || pair_at(s, p, '/', '*') {
        p
    } else {
        body_end(s, p + 1)
    }
}

/// `items` before what `rest` holds, where `rest` holds anything.
pub open spec fn items_then(
    items: Seq<ExprBlockView>,
    rest: Option<(Seq<ExprBlockView>, int)>,
) -> Option<(Seq<ExprBlockView>, int)> {
    match rest {
        Some((more, end)) => Some((items + more, end)),
        None => None,
    }
}

/// The pieces of a block from `q` on, up to the `'}'` that closes it, and
/// the position after that `'}'`. White space between pieces is skipped. A
/// piece is a comment, a nested block in braces, or body text. A brace
/// inside a comment is part of the comment and closes nothing.
pub open spec fn block_items(s: Seq<char>, q: int) -> Option<(Seq<ExprBlockView>, int)>
    decreases s.len() - q,
{
    let c = run_end(s, q, CharClass::Space);
    if q < 0 || c < q || c >= s.len() {
        None
    } else if s[c] == '}' {
        Some((Seq::empty(), c + 1))
    } else if s[c] == '{' {
        match block_items(s, c + 1) {
            Some((inner, e)) => if c < e <= s.len() {
                items_then(seq![ExprBlockView::Nested(inner)], block_items(s, e))
            } else {
                None
            },
            None => None,
        }
    } else {
        match comment_at(s, c) {
            Some((text, e)) => if c < e <= s.len() {
                items_then(seq![ExprBlockView::Comment(text)], block_items(s, e))
            } else {
                None
            },
            None => {
                let b = body_end(s, c);
                if c < b <= s.len() {
                    items_then(seq![ExprBlockView::Body(trimmed(s, c, b))], block_items(s, b))
                } else {
                    None
                }
            },
        }
    }
}

/// The block at `p`: `'{'`, its pieces, and the `'}'` that balances it.
pub open spec fn block_at(s: Seq<char>, p: int) -> Option<(Seq<ExprBlockView>, int)> {
    if char_at(s, p, '{') {
        block_items(s, p + 1)
    } else {
        None
    }
}

/// Body text ends within the text.
pub proof fn lemma_body_end(s: Seq<char>, p: int)
    requires
        0 <= p <= s.len(),
    ensures
        p <= body_end(s, p) <= s.len(),
    decreases s.len() - p,
{
    if p < s.len() && !(s[p] == '{' || s[p] == '}' || pair_at(s, p, '/', '/') || pair_at(
        s,
        p,
        '/',
        '*',
    )) {
        lemma_body_end(s, p + 1);
    }
}

/// A block that matches ends within the text, after where it starts.
pub proof fn lemma_block_items(s: Seq<char>, q: int)
    requires
        0 <= q <= s.len(),
    ensures
        block_items(s, q) matches Some((_, e)) ==> q < e <= s.len(),
    decreases s.len() - q,
{
    let c = run_end(s, q, CharClass::Space);
    lemma_run_end(s, q, CharClass::Space);
    if c < s.len() && s[c] != '}' {
        if s[c] == '{' {
            lemma_block_items(s, c + 1);
            match block_items(s, c + 1) {
                Some((_, e)) => {
                    lemma_block_items(s, e);
                },
                None => {},
            }
        } else {
            match comment_at(s, c) {
                Some((_, e)) => {
                    if c < e <= s.len() {
                        lemma_block_items(s, e);
                    }
                },
                None => {
                    let b = body_end(s, c);
                    if c < b <= s.len() {
                        lemma_block_items(s, b);
                    }
                },
            }
        }
    }
}

/// Skips body text from `pos` on.
fn skip_body(text: &[char], pos: usize) -> (r: usize)
    requires
        pos <= text@.len(),
    ensures
        r == body_end(text@, pos as int),
        pos <= r <= text@.len(),
{
    let mut i: usize = pos;
    while i < text.len() && !(text[i] == '{' || text[i] == '}' || has_pair(text, i, '/', '/')
        || has_pair(text, i, '/', '*'))
        invariant
            pos <= i <= text@.len(),
            body_end(text@, pos as int) == body_end(text@, i as int),
        decreases text@.len() - i,
    {
        i += 1;
    }
    i
}

/// Reads the pieces of a block from `pos` on, up to the `'}'` that closes
/// it.
pub fn block_rest(text: &[char], pos: usize) -> (r: Option<(Vec<ExprBlock>, usize)>)
    requires
        pos <= text@.len(),
    ensures
        match r {
            Some((items, e)) => block_items(text@, pos as int) == Some(
                (blocks_view(items@), e as int),
            ) && pos < e <= text@.len(),
            None => block_items(text@, pos as int) is None,
        },
    decreases text@.len() - pos,
{
    let mut items: Vec<ExprBlock> = Vec::new();
    let mut q: usize = pos;
    assert(blocks_view(items@) =~= Seq::empty());
    loop
        invariant
            pos <= q <= text@.len(),
            block_items(text@, pos as int) == items_then(
                blocks_view(items@),
                block_items(text@, q as int),
            ),
        decreases text@.len() - q,
    {
        let ghost before = blocks_view(items@);
        let ghost s = text@;
        let c = skip_run(text, q, CharClass::Space);
        if c >= text.len() {
            return None;
        }
        if text[c] == '}' {
            assert(before + Seq::<ExprBlockView>::empty() =~= before);
            return Some((items, c + 1));
        }
        if text[c] == '{' {
            match block_rest(text, c + 1) {
                Some((inner, e)) => {
                    let ghost piece = ExprBlockView::Nested(blocks_view(inner@));
                    items.push(ExprBlock::Nested(inner));
                    proof {
                        assert(blocks_view(items@) =~= before.push(piece));
                        match block_items(s, e as int) {
                            Some((more, _)) => {
                                assert(before + (seq![piece] + more) =~= before.push(piece) + more);
                            },
                            None => {},
                        }
                    }
                    q = e;
                },
                None => {
                    return None;
                },
            }
        } else {
            match comment(text, c) {
                Some((content, e)) => {
                    let ghost piece = ExprBlockView::Comment(content@);
                    items.push(ExprBlock::Comment(content));
                    proof {
                        assert(blocks_view(items@) =~= before.push(piece));
                        match block_items(s, e as int) {
                            Some((more, _)) => {
                                assert(before + (seq![piece] + more) =~= before.push(piece) + more);
                            },
                            None => {},
                        }
                    }
                    q = e;
                },
                None => {
                    let b = skip_body(text, c);
                    if b == c {
                        return None;
                    }
                    let content = trimmed_text(text, c, b);
                    let ghost piece = ExprBlockView::Body(content@);
                    items.push(ExprBlock::Body(content));
                    proof {
                        assert(blocks_view(items@) =~= before.push(piece));
                        match block_items(s, b as int) {
                            Some((more, _)) => {
                                assert(before + (seq![piece] + more) =~= before.push(piece) + more);
                            },
                            None => {},
                        }
                    }
                    q = b;
                },
            }
        }
    }
}

/// Matches a block in braces at `pos`. Its braces must balance; braces in
/// comments do not count.
pub fn expr_block(text: &[char], pos: usize) -> (r: Option<(Vec<ExprBlock>, usize)>)
    requires
        pos <= text@.len(),
    ensures
        match r {
            Some((items, e)) => block_at(text@, pos as int) == Some((blocks_view(items@), e as int))
                && pos < e <= text@.len(),
            None => block_at(text@, pos as int) is None,
        },
{
    if has_char(text, pos, '{') {
        block_rest(text, pos + 1)
    } else {
        None
    }
}

} // verus!
