//! What holds of the grammar over many changes to a text: any number of
//! comments put in, one after the other, and bodies exchanged.
use crate::parser::block::block_at;
use crate::parser::bounds::lemma_rpc_head_end;
use crate::parser::config::UserTypeView;
use crate::parser::decl::{dto_at, rpc_at, rpc_head_at};
use crate::parser::gaps::{
    in_gap, lemma_agree_with_inserted, lemma_rest_behind_inserted, with_inserted,
};
use crate::parser::insertion::{
    chunk_fits, dto_fits, inserted, lemma_ins_dto, type_like_patterns, up, up_with,
};
use crate::parser::laws::{
    body_start, law_body_does_not_reach_the_signature, law_comments_between_tokens_change_nothing,
};
use crate::parser::lexical::{lemma_trivia_end, trivia_end};
use crate::parser::locality::{agree, plain_patterns};
use crate::parser::rust::chunk_children;
use vstd::prelude::*;

verus! {

/// The text `s` after the insertions of `ins` were made, one after the
/// other in their order: each gives a place in the text as it stands when
/// its turn comes, and what is put in there.
pub open spec fn with_all_inserted(s: Seq<char>, ins: Seq<(int, Seq<char>)>) -> Seq<char>
    decreases ins.len(),
{
    if ins.len() == 0 {
        s
    } else {
        with_inserted(with_all_inserted(s, ins.drop_last()), ins.last().0, ins.last().1)
    }
}

/// Whether each of the insertions, when its turn comes, is white space
/// and comments that are skipped as a whole at their place, and fits the
/// chunk as it stands then: it stands between two tokens, before the first
/// or behind the last, and not within the body of a procedure.
pub open spec fn all_fit(types: Seq<UserTypeView>, s: Seq<char>, ins: Seq<(int, Seq<char>)>)
    -> bool
    decreases ins.len(),
{
    ins.len() == 0 || {
        let before = with_all_inserted(s, ins.drop_last());
        let (at, text) = ins.last();
        &&& all_fit(types, s, ins.drop_last())
        &&& 0 <= at <= before.len()
        &&& chunk_fits(types, before, at)
        &&& in_gap(with_inserted(before, at, text), at, at + text.len())
    }
}

/// Any number of comments put in between tokens change nothing of what a
/// chunk declares: a chunk that parses declares the same after white
/// space and comments were put in, one after the other, each between two
/// tokens of the chunk as it stands then. The patterns of the user types
/// must spell types.
pub proof fn law_any_number_of_comments_change_nothing(
    types: Seq<UserTypeView>,
    s: Seq<char>,
    ins: Seq<(int, Seq<char>)>,
)
    requires
        type_like_patterns(types),
        chunk_children(types, s) is Some,
        all_fit(types, s, ins),
    ensures
        chunk_children(types, with_all_inserted(s, ins)) == chunk_children(types, s),
    decreases ins.len(),
{
    if ins.len() > 0 {
        let before = with_all_inserted(s, ins.drop_last());
        law_any_number_of_comments_change_nothing(types, s, ins.drop_last());
        law_comments_between_tokens_change_nothing(types, before, ins.last().0, ins.last().1);
    }
}

/// A text with nothing put in is the text.
proof fn lemma_nothing_inserted(s: Seq<char>, g: int, c: Seq<char>)
    requires
        0 <= g <= s.len(),
        c.len() == 0,
    ensures
        with_inserted(s, g, c) == s,
{
    assert(with_inserted(s, g, c) =~= s);
}

/// A text with white space and comments put in is the text with that
/// insertion.
proof fn lemma_something_inserted(s: Seq<char>, g: int, c: Seq<char>)
    requires
        0 <= g <= s.len(),
        c.len() > 0,
        in_gap(with_inserted(s, g, c), g, g + c.len()),
    ensures
        inserted(s, g, c.len() as int, with_inserted(s, g, c)),
{
    lemma_agree_with_inserted(s, g, c);
    lemma_rest_behind_inserted(s, g, c);
}

/// White space and comments put in between the tokens of a record change
/// nothing of the record: where the insertion `c` is skipped as a whole at
/// `g` and fits the record read at `p`, the text with the insertion holds
/// the same record, with the same fields in the same order, at the place
/// that `p` has moved to. The patterns of the user types must spell types.
pub proof fn law_comments_in_a_record_change_nothing(
    types: Seq<UserTypeView>,
    s: Seq<char>,
    p: int,
    g: int,
    c: Seq<char>,
)
    requires
        type_like_patterns(types),
        0 <= p,
        0 <= g <= s.len(),
        dto_at(types, s, p) is Some,
        dto_fits(types, s, g, p),
        in_gap(with_inserted(s, g, c), g, g + c.len()),
    ensures
        dto_at(types, with_inserted(s, g, c), up(g, c.len() as int, p)) == up_with(
            g,
            c.len() as int,
            dto_at(types, s, p),
        ),
{
    if c.len() == 0 {
        lemma_nothing_inserted(s, g, c);
    } else {
        lemma_something_inserted(s, g, c);
        lemma_ins_dto(types, s, g, c.len() as int, with_inserted(s, g, c), p);
    }
}

/// Where the record that starts at `p` starts after the insertions of
/// `ins` were made.
pub open spec fn moved_start(p: int, ins: Seq<(int, Seq<char>)>) -> int
    decreases ins.len(),
{
    if ins.len() == 0 {
        p
    } else {
        up(ins.last().0, ins.last().1.len() as int, moved_start(p, ins.drop_last()))
    }
}

/// Whether each of the insertions, when its turn comes, is white space
/// and comments that are skipped as a whole at their place, and fits the
/// record that started at `p`, as it stands then.
pub open spec fn all_fit_record(
    types: Seq<UserTypeView>,
    s: Seq<char>,
    p: int,
    ins: Seq<(int, Seq<char>)>,
) -> bool
    decreases ins.len(),
{
    ins.len() == 0 || {
        let before = with_all_inserted(s, ins.drop_last());
        let (at, text) = ins.last();
        &&& all_fit_record(types, s, p, ins.drop_last())
        &&& 0 <= at <= before.len()
        &&& dto_fits(types, before, at, moved_start(p, ins.drop_last()))
        &&& in_gap(with_inserted(before, at, text), at, at + text.len())
    }
}

/// Any number of comments put in between the tokens of a record change
/// nothing of the record: before or behind a brace, a `','`, a field, or
/// between any two other tokens of it. The text holds the same record
/// afterwards: the same name and the same fields, in the same order and of
/// the same types, and nothing of a comment. The patterns of the user
/// types must spell types.
pub proof fn law_any_number_of_comments_in_a_record(
    types: Seq<UserTypeView>,
    s: Seq<char>,
    p: int,
    ins: Seq<(int, Seq<char>)>,
)
    requires
        type_like_patterns(types),
        0 <= p,
        dto_at(types, s, p) is Some,
        all_fit_record(types, s, p, ins),
    ensures
        0 <= moved_start(p, ins),
        dto_at(types, with_all_inserted(s, ins), moved_start(p, ins)) matches Some((after, _))
            && dto_at(types, s, p) matches Some((first, _)) && after == first,
    decreases ins.len(),
{
    if ins.len() > 0 {
        let before = with_all_inserted(s, ins.drop_last());
        law_any_number_of_comments_in_a_record(types, s, p, ins.drop_last());
        law_comments_in_a_record_change_nothing(
            types,
            before,
            moved_start(p, ins.drop_last()),
            ins.last().0,
            ins.last().1,
        );
    }
}

/// Nothing of a body reaches a procedure: one signature before two bodies
/// gives the same procedure. `sig` is the text up to the body; `b1` and
/// `b2` are bodies. Where `sig` and `b1` hold a procedure whose body starts
/// with `b1`, and the braces of `b2` balance, `sig` and `b2` hold a
/// procedure of the same name, parameters and return type. The patterns
/// of the user types must be plain: one that holds a brace could reach
/// into the body.
pub proof fn law_one_signature_two_bodies(
    types: Seq<UserTypeView>,
    sig: Seq<char>,
    b1: Seq<char>,
    b2: Seq<char>,
)
    requires
        plain_patterns(types),
        rpc_at(types, sig + b1, 0) is Some,
        body_start(types, sig + b1, 0) == sig.len(),
        block_at(sig + b2, sig.len() as int) is Some,
    ensures
        rpc_at(types, sig + b2, 0) matches Some((second, _)) && rpc_at(
            types,
            sig + b1,
            0,
        ) matches Some((first, _)) && first == second,
{
    let s1 = sig + b1;
    let s2 = sig + b2;
    let b = sig.len() as int;
    assert(block_at(s1, b) is Some);
    assert(s1[b] == '{' && s2[b] == '{');
    assert(agree(s1, s2, b + 1));
    law_body_does_not_reach_the_signature(types, s1, s2, 0);
}

} // verus!
