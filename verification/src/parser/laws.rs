//! What holds of the grammar as a whole.
use crate::parser::block::block_at;
use crate::parser::bounds::{
    lemma_child_end, lemma_child_is_no_import, lemma_child_start, lemma_children_end,
    lemma_fields_end, lemma_imports_end, lemma_rpc_head_end, lemma_use_bounds,
};
use crate::parser::config::UserTypeView;
use crate::parser::decl::{child_at, children_at, enum_values_at, fields_at, rpc_at, rpc_head_at};
use crate::parser::gaps::{
    between_tokens, in_gap, law_gap_leads_to_one_token, lemma_agree_with_inserted,
    lemma_between_tokens, lemma_between_tokens_local, lemma_rest_behind_inserted, with_inserted,
};
use crate::parser::insertion::{chunk_fits, inserted, lemma_ins_chunk, type_like_patterns};
use crate::parser::lexical::{lemma_trivia_end, literal_end, trivia_end};
use crate::parser::locality::{
    agree, lemma_local_child, lemma_local_rpc_head, lemma_local_trivia, lemma_local_use,
    plain_patterns,
};
use crate::parser::rust::{chunk_children, imports_end, use_end};
use crate::parser::shift::{
    lemma_shift_children, lemma_shift_fields, lemma_shift_imports, lemma_shift_trivia,
    lemma_shift_use, moved_list,
};
use crate::parser::types::{user_type_at, user_type_from};
use vstd::prelude::*;

verus! {

/// Of the user types whose pattern the text holds at `p`, the one that the
/// caller configured first is read, whatever the others are.
pub proof fn law_first_user_type_wins(types: Seq<UserTypeView>, s: Seq<char>, p: int, k: int)
    requires
        0 <= k < types.len(),
        literal_end(s, p, types[k].parse) is Some,
        forall|j: int| 0 <= j < k ==> literal_end(s, p, (#[trigger] types[j]).parse) is None,
    ensures
        user_type_at(types, s, p) == Some((types[k].name, p + types[k].parse.len())),
{
    lemma_user_type_from(types, s, p, k, 0);
}

/// Skipping candidates that do not match leads to the first that does.
proof fn lemma_user_type_from(types: Seq<UserTypeView>, s: Seq<char>, p: int, k: int, from: int)
    requires
        0 <= from <= k < types.len(),
        literal_end(s, p, types[k].parse) is Some,
        forall|j: int| 0 <= j < k ==> literal_end(s, p, (#[trigger] types[j]).parse) is None,
    ensures
        user_type_from(types, s, p, from) == Some((types[k].name, p + types[k].parse.len())),
    decreases k - from,
{
    if from < k {
        assert(literal_end(s, p, types[from].parse) is None);
        lemma_user_type_from(types, s, p, k, from + 1);
    }
}

/// No user type is read where the text holds none of the patterns.
pub proof fn law_no_user_type_matches(types: Seq<UserTypeView>, s: Seq<char>, p: int, from: int)
    requires
        0 <= from,
        forall|j: int|
            0 <= j < types.len() ==> literal_end(s, p, (#[trigger] types[j]).parse) is None,
    ensures
        user_type_from(types, s, p, from) is None,
    decreases types.len() - from,
{
    if from < types.len() {
        assert(literal_end(s, p, types[from].parse) is None);
        law_no_user_type_matches(types, s, p, from + 1);
    }
}

/// A procedure is what its signature says: the body gives the position
/// where the procedure ends, and nothing of its value.
pub proof fn law_procedure_is_its_signature(types: Seq<UserTypeView>, s: Seq<char>, p: int)
    ensures
        match rpc_at(types, s, p) {
            Some((rpc, e)) => {
                &&& rpc_head_at(types, s, p) matches Some((head, q))
                &&& head == rpc
                &&& block_at(s, trivia_end(s, q)) matches Some((_, end))
                &&& end == e
            },
            None => match rpc_head_at(types, s, p) {
                Some((_, q)) => block_at(s, trivia_end(s, q)) is None,
                None => true,
            },
        },
{
}

/// Where the body of the procedure at `p` starts: the position of its
/// opening brace, behind the signature.
pub open spec fn body_start(types: Seq<UserTypeView>, s: Seq<char>, p: int) -> int {
    match rpc_head_at(types, s, p) {
        Some((_, r)) => trivia_end(s, r),
        None => -1,
    }
}

/// What a body holds does not reach the procedure. Of two texts that are
/// the same up to the opening brace of a procedure's body, and that brace,
/// the second gives the procedure that the first gives, unless its body
/// does not balance. The patterns of the user types must be plain: one
/// that holds a brace could reach into the body.
pub proof fn law_body_does_not_reach_the_signature(
    types: Seq<UserTypeView>,
    s1: Seq<char>,
    s2: Seq<char>,
    p: int,
)
    requires
        plain_patterns(types),
        0 <= p,
        rpc_at(types, s1, p) is Some,
        agree(s1, s2, body_start(types, s1, p) + 1),
    ensures
        match rpc_at(types, s2, p) {
            Some((rpc, _)) => rpc_at(types, s1, p) matches Some((first, _)) && first == rpc,
            None => block_at(s2, body_start(types, s1, p)) is None,
        },
        body_start(types, s2, p) == body_start(types, s1, p),
{
    lemma_rpc_head_end(types, s1, p);
    let b = body_start(types, s1, p);
    match rpc_head_at(types, s1, p) {
        Some((_, r)) => {
            lemma_trivia_end(s1, r);
        },
        None => {},
    }
    lemma_local_rpc_head(types, s1, s2, b + 1, p);
}

/// Declarations read from anywhere in the gap before them are the same
/// declarations, and the next token behind them is the same: the white
/// space and the comments of the gap change nothing.
pub proof fn law_declarations_ignore_gap(types: Seq<UserTypeView>, s: Seq<char>, p: int, q: int)
    requires
        0 <= p,
        in_gap(s, p, q),
        q <= s.len(),
    ensures
        children_at(types, s, p).0 == children_at(types, s, q).0,
        trivia_end(s, children_at(types, s, p).1) == trivia_end(s, children_at(types, s, q).1),
{
    law_gap_leads_to_one_token(s, p, q);
    lemma_trivia_end(s, p);
    lemma_trivia_end(s, q);
}

/// Fields read from anywhere in the gap before them are the same fields,
/// and the next token behind them is the same.
pub proof fn law_fields_ignore_gap(types: Seq<UserTypeView>, s: Seq<char>, p: int, q: int)
    requires
        in_gap(s, p, q),
    ensures
        fields_at(types, s, p).0 == fields_at(types, s, q).0,
        trivia_end(s, fields_at(types, s, p).1) == trivia_end(s, fields_at(types, s, q).1),
{
    law_gap_leads_to_one_token(s, p, q);
}

/// Variants read from anywhere in the gap before them are the same
/// variants, and the next token behind them is the same.
pub proof fn law_enum_values_ignore_gap(s: Seq<char>, p: int, q: int)
    requires
        in_gap(s, p, q),
    ensures
        enum_values_at(s, p).0 == enum_values_at(s, q).0,
        trivia_end(s, enum_values_at(s, p).1) == trivia_end(s, enum_values_at(s, q).1),
{
    law_gap_leads_to_one_token(s, p, q);
}

/// Imports skipped from anywhere in the gap before them end before the
/// same token.
pub proof fn law_imports_ignore_gap(s: Seq<char>, p: int, q: int)
    requires
        0 <= p,
        in_gap(s, p, q),
        q <= s.len(),
    ensures
        trivia_end(s, imports_end(s, p)) == trivia_end(s, imports_end(s, q)),
{
    law_gap_leads_to_one_token(s, p, q);
    lemma_trivia_end(s, p);
    lemma_trivia_end(s, q);
}

/// Declarations are read alike wherever they stand: reading at `p` in a
/// text without its first `k` characters gives what reading at `p + k` in
/// the whole text gives, `k` positions earlier.
pub proof fn law_reading_is_position_independent(
    types: Seq<UserTypeView>,
    s: Seq<char>,
    k: int,
    p: int,
)
    requires
        0 <= k <= s.len(),
        0 <= p <= s.len() - k,
    ensures
        children_at(types, s, p + k) == moved_list(children_at(types, s.skip(k), p), k),
{
    lemma_shift_children(types, s, k, p);
}

/// Declarations with the same next token before them are the same
/// declarations, and the next token behind them is the same.
proof fn lemma_children_of_one_token(types: Seq<UserTypeView>, s: Seq<char>, p: int, q: int)
    requires
        0 <= p <= s.len(),
        0 <= q <= s.len(),
        trivia_end(s, p) == trivia_end(s, q),
    ensures
        children_at(types, s, p).0 == children_at(types, s, q).0,
        trivia_end(s, children_at(types, s, p).1) == trivia_end(s, children_at(types, s, q).1),
{
    lemma_trivia_end(s, p);
    lemma_trivia_end(s, q);
}

/// White space and comments put in before declarations change nothing of
/// what is read: where the inserted text `c` is skipped as a whole at `p`,
/// reading from `p` gives the same declarations as in the text without
/// `c`, and the token behind them is the same one, `c.len()` further on.
pub proof fn law_inserted_comments_before_declarations(
    types: Seq<UserTypeView>,
    s: Seq<char>,
    p: int,
    c: Seq<char>,
)
    requires
        0 <= p <= s.len(),
        in_gap(with_inserted(s, p, c), p, p + c.len()),
    ensures
        children_at(types, with_inserted(s, p, c), p).0 == children_at(types, s, p).0,
        trivia_end(with_inserted(s, p, c), children_at(types, with_inserted(s, p, c), p).1)
            == trivia_end(s, children_at(types, s, p).1) + c.len(),
{
    let n = c.len() as int;
    let s2 = with_inserted(s, p, c);
    let u = s.skip(p);
    assert(s2.skip(p + n) =~= u);
    lemma_shift_children(types, s2, p + n, 0);
    lemma_shift_children(types, s, p, 0);
    law_gap_leads_to_one_token(s2, p, p + n);
    lemma_children_of_one_token(types, s2, p, p + n);
    lemma_children_end(types, u, 0);
    let e = children_at(types, u, 0).1;
    lemma_shift_trivia(s2, p + n, e);
    lemma_shift_trivia(s, p, e);
}

/// Fields with the same next token before them are the same fields, and
/// the next token behind them is the same.
proof fn lemma_fields_of_one_token(types: Seq<UserTypeView>, s: Seq<char>, p: int, q: int)
    requires
        trivia_end(s, p) == trivia_end(s, q),
    ensures
        fields_at(types, s, p).0 == fields_at(types, s, q).0,
        trivia_end(s, fields_at(types, s, p).1) == trivia_end(s, fields_at(types, s, q).1),
{
}

/// Fields are read alike in two texts that go on alike: what is read at
/// `a2` in `s2` is what is read at `a1` in `s1`, where the rest of `s2` from
/// `a2` on is the rest of `s1` from `a1` on.
proof fn lemma_fields_of_one_rest(
    types: Seq<UserTypeView>,
    s1: Seq<char>,
    a1: int,
    s2: Seq<char>,
    a2: int,
)
    requires
        0 <= a1 <= s1.len(),
        0 <= a2 <= s2.len(),
        s1.skip(a1) == s2.skip(a2),
    ensures
        fields_at(types, s2, a2) == moved_list(fields_at(types, s1, a1), a2 - a1),
        a1 <= fields_at(types, s1, a1).1 <= s1.len(),
        trivia_end(s2, fields_at(types, s1, a1).1 + a2 - a1) == trivia_end(
            s1,
            fields_at(types, s1, a1).1,
        ) + a2 - a1,
{
    let u = s1.skip(a1);
    lemma_shift_fields(types, s2, a2, 0);
    lemma_shift_fields(types, s1, a1, 0);
    lemma_fields_end(types, u, 0);
    let e = fields_at(types, u, 0).1;
    lemma_shift_trivia(s2, a2, e);
    lemma_shift_trivia(s1, a1, e);
}

/// White space and comments put in before the fields of a list change
/// nothing of what is read.
pub proof fn law_inserted_comments_before_fields(
    types: Seq<UserTypeView>,
    s: Seq<char>,
    p: int,
    c: Seq<char>,
)
    requires
        0 <= p <= s.len(),
        in_gap(with_inserted(s, p, c), p, p + c.len()),
    ensures
        fields_at(types, with_inserted(s, p, c), p).0 == fields_at(types, s, p).0,
        trivia_end(with_inserted(s, p, c), fields_at(types, with_inserted(s, p, c), p).1)
            == trivia_end(s, fields_at(types, s, p).1) + c.len(),
{
    let n = c.len() as int;
    let s2 = with_inserted(s, p, c);
    lemma_rest_behind_inserted(s, p, c);
    lemma_fields_of_one_rest(types, s, p, s2, p + n);
    law_gap_leads_to_one_token(s2, p, p + n);
    lemma_fields_of_one_token(types, s2, p, p + n);
}

/// White space and comments at the start of a chunk change nothing of
/// what the chunk declares, nor whether it parses.
pub proof fn law_leading_comments_change_nothing(
    types: Seq<UserTypeView>,
    c: Seq<char>,
    t: Seq<char>,
)
    requires
        in_gap(c + t, 0, c.len() as int),
    ensures
        chunk_children(types, c + t) == chunk_children(types, t),
{
    let n = c.len() as int;
    let s2 = c + t;
    assert(s2.skip(n) =~= t);
    law_gap_leads_to_one_token(s2, 0, n);
    lemma_trivia_end(s2, 0);
    lemma_trivia_end(s2, n);
    lemma_shift_imports(s2, n, 0);
    let i0 = imports_end(s2, 0);
    let i1 = imports_end(s2, n);
    assert(trivia_end(s2, i0) == trivia_end(s2, i1)) by {
        law_imports_ignore_gap(s2, 0, n);
    }
    lemma_imports_end(s2, 0);
    lemma_children_of_one_token(types, s2, i0, i1);
    let j = imports_end(t, 0);
    lemma_shift_children(types, s2, n, j);
    lemma_children_end(types, t, j);
    lemma_shift_trivia(s2, n, children_at(types, t, j).1);
}

/// Whether `g` is a place between two tokens in a gap before, between or
/// behind the declarations that are read from `p` on.
pub open spec fn between_declarations(types: Seq<UserTypeView>, s: Seq<char>, p: int, g: int)
    -> bool
    decreases s.len() - p,
{
    ||| between_tokens(s, p, g)
    ||| {
        &&& 0 <= p <= trivia_end(s, p)
        &&& child_at(types, s, trivia_end(s, p)) matches Some((_, e))
        &&& trivia_end(s, p) < e <= s.len()
        &&& e <= g
        &&& between_declarations(types, s, e, g)
    }
}

/// White space and comments put in between declarations change nothing of
/// what is read: where `g` is a place between two tokens before, between
/// or behind the declarations read from `p` on, and the inserted text `c`
/// is skipped as a whole at `g`, reading from `p` gives the same
/// declarations as in the text without `c`, and the token behind them is
/// the same one, `c.len()` further on. The patterns of the user types must
/// be plain.
pub proof fn law_inserted_comments_between_declarations(
    types: Seq<UserTypeView>,
    s: Seq<char>,
    p: int,
    g: int,
    c: Seq<char>,
)
    requires
        plain_patterns(types),
        0 <= p <= g <= s.len(),
        between_declarations(types, s, p, g),
        in_gap(with_inserted(s, g, c), g, g + c.len()),
    ensures
        children_at(types, with_inserted(s, g, c), p).0 == children_at(types, s, p).0,
        trivia_end(with_inserted(s, g, c), children_at(types, with_inserted(s, g, c), p).1)
            == trivia_end(s, children_at(types, s, p).1) + c.len(),
    decreases s.len() - p,
{
    let s2 = with_inserted(s, g, c);
    lemma_agree_with_inserted(s, g, c);
    lemma_rest_behind_inserted(s, g, c);
    if between_tokens(s, p, g) {
        lemma_between_tokens_local(s, s2, p, g);
        law_gap_leads_to_one_token(s2, p, g);
        lemma_children_of_one_token(types, s2, p, g);
        law_inserted_comments_before_declarations(types, s, g, c);
        lemma_between_tokens(s, p, g);
        law_gap_leads_to_one_token(s, p, g);
        lemma_children_of_one_token(types, s, p, g);
    } else {
        let t = trivia_end(s, p);
        let e = (child_at(types, s, t)->0).1;
        lemma_child_start(types, s, t);
        lemma_local_trivia(s, s2, g, p);
        lemma_local_child(types, s, s2, g, t);
        law_inserted_comments_between_declarations(types, s, e, g, c);
    }
}

/// The next token and the import at it are the same in two texts that go
/// on alike: in `s2` from `a2` on as in `s1` from `a1` on.
proof fn lemma_import_of_one_rest(s1: Seq<char>, a1: int, s2: Seq<char>, a2: int)
    requires
        0 <= a1 <= s1.len(),
        0 <= a2 <= s2.len(),
        s1.skip(a1) == s2.skip(a2),
    ensures
        trivia_end(s2, a2) == trivia_end(s1, a1) + a2 - a1,
        use_end(s1, trivia_end(s1, a1)) is None ==> use_end(s2, trivia_end(s2, a2)) is None,
{
    let u = s1.skip(a1);
    lemma_shift_trivia(s2, a2, 0);
    lemma_shift_trivia(s1, a1, 0);
    lemma_trivia_end(u, 0);
    let d = trivia_end(u, 0);
    lemma_shift_use(s2, a2, d);
    lemma_shift_use(s1, a1, d);
}

/// Where no import stands behind a gap, none stands there with white space
/// and comments put into the gap.
proof fn lemma_no_import_behind_inserted(s: Seq<char>, p: int, g: int, c: Seq<char>)
    requires
        0 <= p <= g <= s.len(),
        between_tokens(s, p, g),
        in_gap(with_inserted(s, g, c), g, g + c.len()),
        use_end(s, trivia_end(s, p)) is None,
    ensures
        use_end(with_inserted(s, g, c), trivia_end(with_inserted(s, g, c), p)) is None,
{
    let s2 = with_inserted(s, g, c);
    let n = c.len() as int;
    lemma_agree_with_inserted(s, g, c);
    lemma_rest_behind_inserted(s, g, c);
    lemma_between_tokens(s, p, g);
    law_gap_leads_to_one_token(s, p, g);
    lemma_between_tokens_local(s, s2, p, g);
    law_gap_leads_to_one_token(s2, p, g);
    law_gap_leads_to_one_token(s2, g, g + n);
    lemma_import_of_one_rest(s, g, s2, g + n);
}

/// Where a declaration stands behind a gap and ends before `g`, no import
/// stands there in a text that is the same up to `g`.
proof fn lemma_no_import_before_inserted(
    types: Seq<UserTypeView>,
    s: Seq<char>,
    s2: Seq<char>,
    p: int,
    g: int,
)
    requires
        plain_patterns(types),
        0 <= p <= s.len(),
        agree(s, s2, g),
        child_at(types, s, trivia_end(s, p)) matches Some((_, e)) && e <= g,
    ensures
        trivia_end(s2, p) == trivia_end(s, p),
        use_end(s2, trivia_end(s2, p)) is None,
{
    lemma_trivia_end(s, p);
    let t = trivia_end(s, p);
    lemma_child_start(types, s, t);
    lemma_child_end(types, s, t);
    lemma_local_trivia(s, s2, g, p);
    lemma_local_child(types, s, s2, g, t);
    lemma_child_is_no_import(types, s2, t);
}

/// With white space and comments put in between declarations behind the
/// imports, the imports end where they ended.
proof fn lemma_imports_with_inserted(
    types: Seq<UserTypeView>,
    s: Seq<char>,
    p: int,
    g: int,
    c: Seq<char>,
)
    requires
        plain_patterns(types),
        0 <= p <= imports_end(s, p) <= g <= s.len(),
        between_declarations(types, s, imports_end(s, p), g),
        in_gap(with_inserted(s, g, c), g, g + c.len()),
    ensures
        imports_end(with_inserted(s, g, c), p) == imports_end(s, p),
    decreases s.len() - p,
{
    let s2 = with_inserted(s, g, c);
    lemma_agree_with_inserted(s, g, c);
    lemma_rest_behind_inserted(s, g, c);
    lemma_trivia_end(s, p);
    let t = trivia_end(s, p);
    match use_end(s, t) {
        Some(e) => {
            lemma_use_bounds(s, t);
            lemma_imports_end(s, e);
            lemma_local_trivia(s, s2, g, p);
            lemma_local_use(s, s2, g, t);
            lemma_imports_with_inserted(types, s, e, g, c);
        },
        None => {
            assert(imports_end(s, p) == p);
            if between_tokens(s, p, g) {
                lemma_no_import_behind_inserted(s, p, g, c);
            } else {
                lemma_no_import_before_inserted(types, s, s2, p, g);
            }
            lemma_trivia_behind_inserted(s, p, g, c);
        },
    }
}

/// The next token behind a position before an inserted text stands within
/// the text with the insertion.
proof fn lemma_trivia_behind_inserted(s: Seq<char>, p: int, g: int, c: Seq<char>)
    requires
        0 <= p <= g <= s.len(),
    ensures
        p <= trivia_end(with_inserted(s, g, c), p) <= with_inserted(s, g, c).len(),
{
    lemma_rest_behind_inserted(s, g, c);
    lemma_trivia_end(with_inserted(s, g, c), p);
}

/// White space and comments put in between the declarations of a chunk
/// change nothing of what the chunk declares, nor whether it parses: `g`
/// is a place between two tokens before, between or behind the
/// declarations that follow the imports. The patterns of the user types
/// must be plain.
pub proof fn law_inserted_comments_change_no_chunk(
    types: Seq<UserTypeView>,
    s: Seq<char>,
    g: int,
    c: Seq<char>,
)
    requires
        plain_patterns(types),
        imports_end(s, 0) <= g <= s.len(),
        between_declarations(types, s, imports_end(s, 0), g),
        in_gap(with_inserted(s, g, c), g, g + c.len()),
    ensures
        chunk_children(types, with_inserted(s, g, c)) == chunk_children(types, s),
{
    lemma_imports_end(s, 0);
    lemma_imports_with_inserted(types, s, 0, g, c);
    law_inserted_comments_between_declarations(types, s, imports_end(s, 0), g, c);
    lemma_rest_behind_inserted(s, g, c);
}

/// White space and comments put in between any two tokens change nothing
/// of what a chunk declares. The chunk parses; the insertion `c` is
/// skipped as a whole at `g`; and it fits the chunk: `g` parts no token
/// and is a place between two tokens, before the first or behind the last,
/// outside the bodies of procedures. The patterns of the user types must
/// spell types: one that holds white space or `'/'` could reach over the
/// gap that the insertion is made in.
pub proof fn law_comments_between_tokens_change_nothing(
    types: Seq<UserTypeView>,
    s: Seq<char>,
    g: int,
    c: Seq<char>,
)
    requires
        type_like_patterns(types),
        chunk_children(types, s) is Some,
        0 <= g <= s.len(),
        chunk_fits(types, s, g),
        in_gap(with_inserted(s, g, c), g, g + c.len()),
    ensures
        chunk_children(types, with_inserted(s, g, c)) == chunk_children(types, s),
{
    let s2 = with_inserted(s, g, c);
    if c.len() == 0 {
        assert(s2 =~= s);
    } else {
        lemma_agree_with_inserted(s, g, c);
        lemma_rest_behind_inserted(s, g, c);
        assert(inserted(s, g, c.len() as int, s2));
        lemma_ins_chunk(types, s, g, c.len() as int, s2);
    }
}

} // verus!
