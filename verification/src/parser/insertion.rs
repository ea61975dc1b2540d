//! White space and comments put in between two tokens: every rule reads the text
//! with the insertion as it reads the text without.
use crate::parser::block::{block_at, lemma_block_items};
use crate::parser::bounds::{
    lemma_after_pub, lemma_child_end, lemma_child_is_no_import, lemma_child_start,
    lemma_children_end, lemma_entity_id_tail_end, lemma_enum_list_next, lemma_enum_value_end,
    lemma_enum_values_end, lemma_enum_values_more_end, lemma_field_end, lemma_field_list_end,
    lemma_fields_end, lemma_fields_more_end, lemma_imports_end, lemma_keywords_differ,
    lemma_literal_start, lemma_named_end, lemma_named_start, lemma_namespace_shape,
    lemma_no_child_at_brace, lemma_only_keyword, lemma_rpc_head_end, lemma_type_end,
    lemma_use_bounds, lemma_use_path_bounds,
};
use crate::parser::chars::{
    in_class, is_digit, is_space, is_word, lemma_run_end, run_end, CharClass,
};
use crate::parser::config::UserTypeView;
use crate::parser::decl::{
    after_attr, after_pub, child_at, children_at, dto_at, enum_at, enum_value_at, enum_values_at,
    enum_values_more, field_at, field_list_at, fields_at, fields_more, named_at, namespace_at,
    return_type_at, rpc_at, rpc_head_at,
};
use crate::parser::gaps::{
    between_tokens, in_gap, law_gap_leads_to_one_token, lemma_between_tokens,
    lemma_between_tokens_local,
};
use crate::parser::lexical::{
    attr_end, char_at, ident_end, keyword_end, lemma_comment_span, lemma_trivia_end, literal_end,
    number_at, pair_at, trivia_end,
};
use crate::parser::locality::{
    agree, lemma_agree_subrange, lemma_local_attr, lemma_local_block_items, lemma_local_run,
    lemma_local_trivia,
};
use crate::parser::rust::{chunk_children, imports_end, use_end, use_path_end};
use crate::parser::shift::{
    lemma_shift_attr, lemma_shift_block, lemma_shift_entity_id_tail, lemma_shift_ident,
    lemma_shift_literal, lemma_shift_number, lemma_shift_trivia, lemma_shift_type_name,
};
use crate::parser::types::{
    base_end, base_name, builtin_at, entity_id_at, entity_id_tail, first_base, spelling_end,
    type_at, type_name_end, user_type_at, user_type_from, BASE_TYPES,
};
use vstd::prelude::*;

verus! {

/// Whether `s2` is `s` with `n` characters of white space and comments put
/// in at `g`: the two are the same up to `g`, `s2` goes on behind the
/// insertion as `s` goes on from `g`, and the search for a token in `s2`
/// from `g` on skips the insertion as a whole.
pub open spec fn inserted(s: Seq<char>, g: int, n: int, s2: Seq<char>) -> bool {
    &&& 0 <= g <= s.len()
    &&& n > 0
    &&& s2.len() == s.len() + n
    &&& agree(s, s2, g)
    &&& s2.skip(g + n) == s.skip(g)
    &&& in_gap(s2, g, g + n)
}

/// Where a token that starts at `q` in `s` starts in the text with the
/// insertion: at `q` if it starts before the insertion, and else behind it.
pub open spec fn up(g: int, n: int, q: int) -> int {
    if q < g {
        q
    } else {
        q + n
    }
}

/// Where a token that ends at `e` in `s` ends in the text with the
/// insertion: at `e` if it ends at or before the insertion.
pub open spec fn upe(g: int, n: int, e: int) -> int {
    if e <= g {
        e
    } else {
        e + n
    }
}

/// An end position in the text with the insertion.
pub open spec fn up_end(g: int, n: int, r: Option<int>) -> Option<int> {
    match r {
        Some(e) => Some(upe(g, n, e)),
        None => None,
    }
}

/// What was read, and its end in the text with the insertion.
pub open spec fn up_with<T>(g: int, n: int, r: Option<(T, int)>) -> Option<(T, int)> {
    match r {
        Some((v, e)) => Some((v, upe(g, n, e))),
        None => None,
    }
}

/// The list that was read, and its end in the text with the insertion.
pub open spec fn up_list<T>(g: int, n: int, r: (Seq<T>, int)) -> (Seq<T>, int) {
    (r.0, upe(g, n, r.1))
}

/// Whether the insertion leaves the token whole that starts at `p` and
/// ends where `r` says: it does not stand inside it.
pub open spec fn whole(g: int, p: int, r: Option<int>) -> bool {
    match r {
        Some(e) => !(p < g < e),
        None => true,
    }
}

/// What the characters of the text with the insertion are.
pub proof fn lemma_inserted(s: Seq<char>, g: int, n: int, s2: Seq<char>)
    requires
        inserted(s, g, n, s2),
    ensures
        forall|i: int| 0 <= i < g ==> s2[i] == s[i],
        forall|i: int| g <= i < s.len() ==> s2[i + n] == s[i],
        is_space(s2[g]) || s2[g] == '/',
        !is_word(s2[g]),
{
    assert forall|i: int| g <= i < s.len() implies s2[i + n] == s[i] by {
        assert(s2.skip(g + n)[i - g] == s.skip(g)[i - g]);
    }
    if !is_space(s2[g]) {
        lemma_comment_span(s2, g);
    }
}

/// A stretch before the insertion is the same in both texts, and one
/// behind it is the same, further on.
pub proof fn lemma_ins_subrange(s: Seq<char>, g: int, n: int, s2: Seq<char>, a: int, b: int)
    requires
        inserted(s, g, n, s2),
        0 <= a < b <= s.len(),
        b <= g || g <= a,
    ensures
        s2.subrange(up(g, n, a), upe(g, n, b)) == s.subrange(a, b),
{
    lemma_inserted(s, g, n, s2);
    assert(s2.subrange(up(g, n, a), upe(g, n, b)) =~= s.subrange(a, b));
}

/// A character is the same in both texts, where a token starts.
pub proof fn lemma_ins_char(s: Seq<char>, g: int, n: int, s2: Seq<char>, p: int, c: char)
    requires
        inserted(s, g, n, s2),
        0 <= p,
    ensures
        char_at(s2, up(g, n, p), c) == char_at(s, p, c),
{
    lemma_inserted(s, g, n, s2);
}

/// A pair of characters that the insertion does not part is the same in
/// both texts.
pub proof fn lemma_ins_pair(s: Seq<char>, g: int, n: int, s2: Seq<char>, p: int, a: char, b: char)
    requires
        inserted(s, g, n, s2),
        0 <= p,
        g != p + 1 || !char_at(s, p, a) || (b != '/' && !is_space(b)),
        pair_at(s, p, a, b) ==> g != p + 1,
    ensures
        pair_at(s2, up(g, n, p), a, b) == pair_at(s, p, a, b),
{
    lemma_inserted(s, g, n, s2);
}

/// A run that reaches `hi` in one text ends there in another that is the
/// same up to `hi` and holds a character outside the class at `hi`.
pub proof fn lemma_run_to_boundary(
    s1: Seq<char>,
    s2: Seq<char>,
    hi: int,
    p: int,
    class: CharClass,
)
    requires
        agree(s1, s2, hi),
        0 <= p <= hi,
        run_end(s1, p, class) >= hi,
        hi < s2.len(),
        !in_class(s2[hi], class),
    ensures
        run_end(s2, p, class) == hi,
    decreases hi - p,
{
    if p < hi {
        lemma_run_end(s1, p + 1, class);
        assert(s1[p] == s2[p]);
        lemma_run_to_boundary(s1, s2, hi, p + 1, class);
    }
}

/// An identifier that the insertion does not part is read alike in both
/// texts.
pub proof fn lemma_ins_ident(s: Seq<char>, g: int, n: int, s2: Seq<char>, p: int)
    requires
        inserted(s, g, n, s2),
        0 <= p,
        whole(g, p, ident_end(s, p)),
    ensures
        ident_end(s2, up(g, n, p)) == up_end(g, n, ident_end(s, p)),
{
    lemma_inserted(s, g, n, s2);
    if p >= g {
        lemma_shift_ident(s2, g + n, p - g);
        lemma_shift_ident(s, g, p - g);
        if p < s.len() {
            lemma_run_end(s, p + 1, CharClass::Word);
        }
    } else {
        match ident_end(s, p) {
            Some(e) => {
                lemma_run_end(s, p + 1, CharClass::Word);
                if e < g {
                    lemma_local_run(s, s2, g, p + 1, CharClass::Word);
                } else {
                    lemma_run_to_boundary(s, s2, g, p + 1, CharClass::Word);
                }
            },
            None => {},
        }
    }
}

/// A keyword is read alike in both texts where the insertion does not part
/// the identifier at its place.
pub proof fn lemma_ins_keyword(
    s: Seq<char>,
    g: int,
    n: int,
    s2: Seq<char>,
    p: int,
    kw: Seq<char>,
)
    requires
        inserted(s, g, n, s2),
        0 <= p,
        whole(g, p, ident_end(s, p)),
    ensures
        keyword_end(s2, up(g, n, p), kw) == up_end(g, n, keyword_end(s, p, kw)),
{
    lemma_ins_ident(s, g, n, s2, p);
    match ident_end(s, p) {
        Some(e) => {
            lemma_run_end(s, p + 1, CharClass::Word);
            lemma_ins_subrange(s, g, n, s2, p, e);
        },
        None => {},
    }
}

/// Whether `c` can stand in the spelling of a type: a letter, a digit,
/// `'_'`, `'&'`, `'<'`, `'>'`, `'['` or `']'`.
pub open spec fn type_char(c: char) -> bool {
    is_word(c) || c == '&' || c == '<' || c == '>' || c == '[' || c == ']'
}

/// Whether a literal spells a type: it is not empty and holds characters
/// of types only.
pub open spec fn type_like(lit: Seq<char>) -> bool {
    &&& lit.len() > 0
    &&& forall|i: int| 0 <= i < lit.len() ==> type_char(#[trigger] lit[i])
}

/// A literal that spells a type and that the insertion does not part is
/// read alike in both texts.
pub proof fn lemma_ins_literal(
    s: Seq<char>,
    g: int,
    n: int,
    s2: Seq<char>,
    p: int,
    lit: Seq<char>,
)
    requires
        inserted(s, g, n, s2),
        0 <= p,
        type_like(lit),
        whole(g, p, literal_end(s, p, lit)),
    ensures
        literal_end(s2, up(g, n, p), lit) == up_end(g, n, literal_end(s, p, lit)),
{
    lemma_inserted(s, g, n, s2);
    let k = lit.len() as int;
    if p >= g {
        lemma_shift_literal(s2, g + n, p - g, lit);
        lemma_shift_literal(s, g, p - g, lit);
    } else if p + k <= g {
        lemma_agree_subrange(s, s2, g, p, p + k);
    } else {
        assert(type_char(lit[g - p]));
        if p + k <= s2.len() && s2.subrange(p, p + k) == lit {
            assert(s2.subrange(p, p + k)[g - p] == lit[g - p]);
        }
    }
}

/// Whether the insertion fits the gap behind `e`: where it stands in the
/// gap, it stands between two tokens.
pub open spec fn gap_fits(s: Seq<char>, g: int, e: int) -> bool {
    e <= g <= trivia_end(s, e) ==> between_tokens(s, e, g)
}

/// The next token behind `e` is the same token in the text with the
/// insertion.
pub proof fn lemma_ins_trivia(s: Seq<char>, g: int, n: int, s2: Seq<char>, e: int)
    requires
        inserted(s, g, n, s2),
        0 <= e <= s.len(),
        gap_fits(s, g, e),
        trivia_end(s, e) < g ==> s[trivia_end(s, e)] != '/',
    ensures
        trivia_end(s2, upe(g, n, e)) == up(g, n, trivia_end(s, e)),
        e <= trivia_end(s, e) <= s.len(),
{
    lemma_trivia_end(s, e);
    let t = trivia_end(s, e);
    if e > g {
        lemma_shift_trivia(s2, g + n, e - g);
        lemma_shift_trivia(s, g, e - g);
    } else if t < g {
        lemma_local_trivia(s, s2, g, e);
    } else {
        lemma_between_tokens(s, e, g);
        law_gap_leads_to_one_token(s, e, g);
        lemma_between_tokens_local(s, s2, e, g);
        law_gap_leads_to_one_token(s2, e, g);
        law_gap_leads_to_one_token(s2, g, g + n);
        lemma_shift_trivia(s2, g + n, 0);
        lemma_shift_trivia(s, g, 0);
    }
}

/// Whether the patterns of all user types spell types.
pub open spec fn type_like_patterns(types: Seq<UserTypeView>) -> bool {
    forall|k: int| 0 <= k < types.len() ==> type_like(#[trigger] types[k].parse)
}

/// The spellings of the built-in types spell types.
pub proof fn lemma_builtins_type_like()
    ensures
        forall|k: int| 0 <= k < BASE_TYPES ==> type_like(#[trigger] base_name(k)),
        type_like("bool"@),
        type_like("&str"@),
        type_like("&[u8]"@),
{
    reveal_strlit("bool");
    reveal_strlit("&str");
    reveal_strlit("&[u8]");
    reveal_strlit("u8");
    reveal_strlit("u16");
    reveal_strlit("u32");
    reveal_strlit("u64");
    reveal_strlit("u128");
    reveal_strlit("i8");
    reveal_strlit("i16");
    reveal_strlit("i32");
    reveal_strlit("i64");
    reveal_strlit("i128");
    reveal_strlit("f8");
    reveal_strlit("f16");
    reveal_strlit("f32");
    reveal_strlit("f64");
    reveal_strlit("f128");
    reveal_strlit("String");
    reveal_strlit("Vec<u8>");
}

/// The end of what was read with its index, in the text with the
/// insertion.
pub open spec fn up_indexed(g: int, n: int, r: Option<(int, int)>) -> Option<(int, int)> {
    match r {
        Some((k, e)) => Some((k, upe(g, n, e))),
        None => None,
    }
}

/// Whether the insertion stands clear of the name that starts at `p`: it
/// does not stand behind characters of types, from `p` on, at a letter, a
/// digit or `'_'` that goes on with them.
pub open spec fn clear_of_name(s: Seq<char>, g: int, p: int) -> bool {
    !(p < g < s.len() && is_word(s[g]) && forall|i: int| p <= i < g ==> type_char(#[trigger] s[i]))
}

/// A built-in spelling is read alike in both texts where the insertion
/// does not part it and stands clear of the name at its place.
pub proof fn lemma_ins_spelling(
    s: Seq<char>,
    g: int,
    n: int,
    s2: Seq<char>,
    p: int,
    lit: Seq<char>,
)
    requires
        inserted(s, g, n, s2),
        0 <= p,
        type_like(lit),
        whole(g, p, spelling_end(s, p, lit)),
        clear_of_name(s, g, p),
    ensures
        spelling_end(s2, up(g, n, p), lit) == up_end(g, n, spelling_end(s, p, lit)),
{
    lemma_inserted(s, g, n, s2);
    let k = lit.len() as int;
    match literal_end(s, p, lit) {
        Some(e) => {
            if p < g < e {
                assert(type_char(lit[g - p]));
                if p + k <= s2.len() && s2.subrange(p, p + k) == lit {
                    assert(s2.subrange(p, p + k)[g - p] == lit[g - p]);
                }
            } else {
                lemma_ins_literal(s, g, n, s2, p, lit);
                if e == g {
                    assert forall|i: int| p <= i < g implies type_char(#[trigger] s[i]) by {
                        assert(s.subrange(p, p + k)[i - p] == lit[i - p]);
                    }
                }
            }
        },
        None => {
            lemma_ins_literal(s, g, n, s2, p, lit);
        },
    }
}

/// One spelling of a built-in type, by value or by reference, is read
/// alike in both texts where the insertion does not part it and stands
/// clear of the name at its place.
proof fn lemma_ins_base(s: Seq<char>, g: int, n: int, s2: Seq<char>, p: int, k: int)
    requires
        inserted(s, g, n, s2),
        0 <= p,
        0 <= k < BASE_TYPES,
        whole(g, p, base_end(s, p, k)),
        clear_of_name(s, g, p),
    ensures
        base_end(s2, up(g, n, p), k) == up_end(g, n, base_end(s, p, k)),
{
    lemma_inserted(s, g, n, s2);
    lemma_builtins_type_like();
    let lit = base_name(k);
    lemma_literal_start(s, p, lit);
    lemma_literal_start(s2, up(g, n, p), lit);
    assert(type_char(lit[0]));
    lemma_ins_spelling(s, g, n, s2, p, lit);
    if spelling_end(s, p, lit) is None && char_at(s, p, '&') {
        if p + 1 == g {
            lemma_literal_start(s2, g, lit);
            lemma_literal_start(s, p + 1, lit);
        } else {
            assert(clear_of_name(s, g, p + 1)) by {
                if p + 1 < g < s.len() && is_word(s[g]) && (forall|i: int|
                    p + 1 <= i < g ==> type_char(#[trigger] s[i])) {
                    assert forall|i: int| p <= i < g implies type_char(#[trigger] s[i]) by {}
                }
            }
            lemma_ins_spelling(s, g, n, s2, p + 1, lit);
        }
    }
}

/// The first built-in spelling that matches is read alike in both texts
/// where the insertion does not part it and stands clear of the name at
/// its place.
proof fn lemma_ins_first_base(s: Seq<char>, g: int, n: int, s2: Seq<char>, p: int, k: int)
    requires
        inserted(s, g, n, s2),
        0 <= p,
        0 <= k,
        first_base(s, p, k) matches Some((_, e)) ==> !(p < g < e),
        clear_of_name(s, g, p),
    ensures
        first_base(s2, up(g, n, p), k) == up_indexed(g, n, first_base(s, p, k)),
    decreases BASE_TYPES - k,
{
    if k < BASE_TYPES {
        lemma_ins_base(s, g, n, s2, p, k);
        if base_end(s, p, k) is None {
            lemma_ins_first_base(s, g, n, s2, p, k + 1);
        }
    }
}

/// A built-in type is read alike in both texts where the insertion does
/// not part it and stands clear of the name at its place.
pub proof fn lemma_ins_builtin(s: Seq<char>, g: int, n: int, s2: Seq<char>, p: int)
    requires
        inserted(s, g, n, s2),
        0 <= p,
        builtin_at(s, p) matches Some((_, e)) ==> !(p < g < e),
        clear_of_name(s, g, p),
    ensures
        builtin_at(s2, up(g, n, p)) == up_with(g, n, builtin_at(s, p)),
{
    lemma_builtins_type_like();
    lemma_ins_spelling(s, g, n, s2, p, "bool"@);
    if spelling_end(s, p, "bool"@) is None {
        lemma_ins_first_base(s, g, n, s2, p, 0);
        if first_base(s, p, 0) is None {
            lemma_ins_spelling(s, g, n, s2, p, "&str"@);
            if spelling_end(s, p, "&str"@) is None {
                lemma_ins_spelling(s, g, n, s2, p, "&[u8]"@);
            }
        }
    }
}

/// A user type is read alike in both texts where its pattern spells a type
/// and the insertion does not part it.
pub proof fn lemma_ins_user_type(
    types: Seq<UserTypeView>,
    s: Seq<char>,
    g: int,
    n: int,
    s2: Seq<char>,
    p: int,
    k: int,
)
    requires
        inserted(s, g, n, s2),
        type_like_patterns(types),
        0 <= p,
        0 <= k,
        user_type_from(types, s, p, k) matches Some((_, e)) ==> !(p < g < e),
    ensures
        user_type_from(types, s2, up(g, n, p), k) == up_with(
            g,
            n,
            user_type_from(types, s, p, k),
        ),
    decreases types.len() - k,
{
    if k < types.len() {
        assert(type_like(types[k].parse));
        lemma_ins_literal(s, g, n, s2, p, types[k].parse);
        if literal_end(s, p, types[k].parse) is None {
            lemma_ins_user_type(types, s, g, n, s2, p, k + 1);
        }
    }
}

/// A type name is read alike in both texts where the insertion does not
/// part it.
pub proof fn lemma_ins_type_name(s: Seq<char>, g: int, n: int, s2: Seq<char>, p: int)
    requires
        inserted(s, g, n, s2),
        0 <= p,
        whole(g, p, type_name_end(s, p)),
    ensures
        type_name_end(s2, up(g, n, p)) == up_end(g, n, type_name_end(s, p)),
{
    lemma_inserted(s, g, n, s2);
    if p >= g {
        lemma_shift_type_name(s2, g + n, p - g);
        lemma_shift_type_name(s, g, p - g);
        if p < s.len() {
            lemma_run_end(s, p + 1, CharClass::Word);
        }
    } else {
        match type_name_end(s, p) {
            Some(e) => {
                lemma_run_end(s, p + 1, CharClass::Word);
                if e < g {
                    lemma_local_run(s, s2, g, p + 1, CharClass::Word);
                } else {
                    lemma_run_to_boundary(s, s2, g, p + 1, CharClass::Word);
                }
            },
            None => {},
        }
    }
}

/// The segments behind a type name are read alike in both texts where the
/// insertion does not stand among them.
pub proof fn lemma_ins_entity_id_tail(s: Seq<char>, g: int, n: int, s2: Seq<char>, q: int)
    requires
        inserted(s, g, n, s2),
        0 <= q <= s.len(),
        entity_id_tail(s, q).1 > q ==> !(q <= g < entity_id_tail(s, q).1),
    ensures
        entity_id_tail(s2, upe(g, n, q)) == up_list(g, n, entity_id_tail(s, q)),
    decreases s.len() - q,
{
    lemma_inserted(s, g, n, s2);
    lemma_entity_id_tail_end(s, q);
    let end = entity_id_tail(s, q).1;
    if q > g {
        lemma_shift_entity_id_tail(s2, g + n, q - g);
        lemma_shift_entity_id_tail(s, g, q - g);
    } else if end == q {
        if pair_at(s, q, ':', ':') {
            match type_name_end(s, q + 2) {
                Some(e) => {
                    lemma_run_end(s, q + 3, CharClass::Word);
                    lemma_entity_id_tail_end(s, e);
                },
                None => {},
            }
        }
        if pair_at(s2, q, ':', ':') && q + 2 < g {
            assert(s2[q + 2] == s[q + 2]);
        }
    } else {
        let e = type_name_end(s, q + 2)->0;
        lemma_run_end(s, q + 3, CharClass::Word);
        lemma_entity_id_tail_end(s, e);
        assert(s2[q] == s[q]);
        assert(s2[q + 1] == s[q + 1]);
        lemma_ins_type_name(s, g, n, s2, q + 2);
        lemma_ins_entity_id_tail(s, g, n, s2, e);
        lemma_ins_subrange(s, g, n, s2, q + 2, e);
    }
}

/// A qualified name is read alike in both texts where the insertion does
/// not part it.
pub proof fn lemma_ins_entity_id(s: Seq<char>, g: int, n: int, s2: Seq<char>, p: int)
    requires
        inserted(s, g, n, s2),
        0 <= p,
        entity_id_at(s, p) matches Some((_, e)) ==> !(p < g < e),
    ensures
        entity_id_at(s2, up(g, n, p)) == up_with(g, n, entity_id_at(s, p)),
{
    lemma_inserted(s, g, n, s2);
    match type_name_end(s, p) {
        Some(q) => {
            lemma_run_end(s, p + 1, CharClass::Word);
            lemma_entity_id_tail_end(s, q);
            lemma_ins_type_name(s, g, n, s2, p);
            lemma_ins_entity_id_tail(s, g, n, s2, q);
            lemma_ins_subrange(s, g, n, s2, p, q);
        },
        None => {
            lemma_ins_type_name(s, g, n, s2, p);
        },
    }
}

/// A type is read alike in both texts where the patterns of the user types
/// spell types, the insertion does not part the type, and no character of
/// types follows the type.
pub proof fn lemma_ins_type(
    types: Seq<UserTypeView>,
    s: Seq<char>,
    g: int,
    n: int,
    s2: Seq<char>,
    t: int,
)
    requires
        inserted(s, g, n, s2),
        type_like_patterns(types),
        0 <= t,
        type_at(types, s, t) matches Some((_, e)) && !(t < g < e) && (e == s.len() || !type_char(
            s[e],
        )),
    ensures
        type_at(types, s2, up(g, n, t)) == up_with(g, n, type_at(types, s, t)),
{
    lemma_type_start(types, s, t);
    lemma_type_end(types, s, t);
    reveal(type_at);
    lemma_ins_builtin(s, g, n, s2, t);
    if builtin_at(s, t) is None {
        lemma_ins_user_type(types, s, g, n, s2, t, 0);
        if user_type_at(types, s, t) is None {
            lemma_ins_entity_id(s, g, n, s2, t);
        }
    }
}

/// A type starts with a character of types where the patterns of the
/// user types spell types.
pub proof fn lemma_type_start(types: Seq<UserTypeView>, s: Seq<char>, t: int)
    requires
        type_like_patterns(types),
        0 <= t,
        type_at(types, s, t) is Some,
    ensures
        t < s.len(),
        type_char(s[t]),
{
    reveal(type_at);
    lemma_builtins_type_like();
    lemma_literal_start(s, t, "bool"@);
    lemma_literal_start(s, t, "&str"@);
    lemma_literal_start(s, t, "&[u8]"@);
    lemma_first_base_start(s, t, 0);
    lemma_user_type_start(types, s, t, 0);
}

/// A built-in type starts with a character of types.
proof fn lemma_first_base_start(s: Seq<char>, t: int, k: int)
    requires
        0 <= t,
        0 <= k,
    ensures
        first_base(s, t, k) is Some ==> t < s.len() && type_char(s[t]),
    decreases BASE_TYPES - k,
{
    if k < BASE_TYPES {
        lemma_builtins_type_like();
        assert(type_char(base_name(k)[0]));
        lemma_literal_start(s, t, base_name(k));
        lemma_first_base_start(s, t, k + 1);
    }
}

/// A user type whose pattern spells a type starts with a character of
/// types.
proof fn lemma_user_type_start(types: Seq<UserTypeView>, s: Seq<char>, t: int, k: int)
    requires
        type_like_patterns(types),
        0 <= t,
        0 <= k,
    ensures
        user_type_from(types, s, t, k) is Some ==> t < s.len() && type_char(s[t]),
    decreases types.len() - k,
{
    if k < types.len() {
        assert(type_like(types[k].parse));
        assert(type_char(types[k].parse[0]));
        lemma_literal_start(s, t, types[k].parse);
        lemma_user_type_start(types, s, t, k + 1);
    }
}

/// Behind a token whose gap ends at a character that no type holds, no
/// character of types stands.
pub proof fn lemma_behind_token(s: Seq<char>, e: int)
    requires
        0 <= e <= s.len(),
        trivia_end(s, e) == s.len() || !type_char(s[trivia_end(s, e)]),
    ensures
        e == s.len() || !type_char(s[e]),
{
    lemma_trivia_end(s, e);
    if e < trivia_end(s, e) && !is_space(s[e]) {
        lemma_comment_span(s, e);
    }
}

/// Whether the insertion fits the field read at `p`: it parts neither its
/// name nor its type, and where it stands in a gap of the field, it stands
/// between two tokens.
pub open spec fn field_fits(types: Seq<UserTypeView>, s: Seq<char>, g: int, p: int) -> bool {
    match ident_end(s, p) {
        Some(n1) => {
            let c = trivia_end(s, n1);
            let t = trivia_end(s, c + 1);
            &&& !(p < g < n1)
            &&& gap_fits(s, g, n1)
            &&& gap_fits(s, g, c + 1)
            &&& type_at(types, s, t) matches Some((_, e)) ==> !(t < g < e)
        },
        None => true,
    }
}

/// A field is read alike in both texts where the insertion fits it and no
/// character of types follows the field.
pub proof fn lemma_ins_field(
    types: Seq<UserTypeView>,
    s: Seq<char>,
    g: int,
    n: int,
    s2: Seq<char>,
    p: int,
)
    requires
        inserted(s, g, n, s2),
        type_like_patterns(types),
        0 <= p,
        field_at(types, s, p) matches Some((_, e)) && (e == s.len() || !type_char(s[e])),
        field_fits(types, s, g, p),
    ensures
        field_at(types, s2, up(g, n, p)) == up_with(g, n, field_at(types, s, p)),
{
    let n1 = ident_end(s, p)->0;
    lemma_run_end(s, p + 1, CharClass::Word);
    lemma_trivia_end(s, n1);
    let c = trivia_end(s, n1);
    lemma_trivia_end(s, c + 1);
    let t = trivia_end(s, c + 1);
    lemma_type_start(types, s, t);
    lemma_ins_ident(s, g, n, s2, p);
    lemma_ins_trivia(s, g, n, s2, n1);
    lemma_ins_char(s, g, n, s2, c, ':');
    lemma_ins_trivia(s, g, n, s2, c + 1);
    lemma_ins_type(types, s, g, n, s2, t);
    lemma_ins_subrange(s, g, n, s2, p, n1);
}

/// No field starts where no identifier does, in neither text.
pub proof fn lemma_ins_no_field(
    types: Seq<UserTypeView>,
    s: Seq<char>,
    g: int,
    n: int,
    s2: Seq<char>,
    p: int,
)
    requires
        inserted(s, g, n, s2),
        0 <= p,
        ident_end(s, p) is None,
    ensures
        field_at(types, s2, up(g, n, p)) is None,
{
    lemma_ins_ident(s, g, n, s2, p);
}

/// Behind a field of a list that is closed, no character of types stands:
/// white space, a comment, a `','` or the closing delimiter follows.
pub proof fn lemma_behind_field(types: Seq<UserTypeView>, s: Seq<char>, e: int, close: char)
    requires
        0 <= e <= s.len(),
        close == ')' || close == '}',
        char_at(s, trivia_end(s, fields_more(types, s, e).1), close),
    ensures
        e == s.len() || !type_char(s[e]),
{
    lemma_trivia_end(s, e);
    lemma_behind_token(s, e);
}

/// Whether the insertion fits the rest of a list of fields, read from `q`
/// on.
pub open spec fn fields_more_fit(types: Seq<UserTypeView>, s: Seq<char>, g: int, q: int) -> bool
    decreases s.len() - q,
{
    let c = trivia_end(s, q);
    &&& gap_fits(s, g, q)
    &&& char_at(s, c, ',') ==> {
        let t = trivia_end(s, c + 1);
        &&& gap_fits(s, g, c + 1)
        &&& field_at(types, s, t) matches Some((_, e)) ==> {
            &&& field_fits(types, s, g, t)
            &&& q < e <= s.len() ==> fields_more_fit(types, s, g, e)
        }
    }
}

/// The rest of a list of fields is read alike in both texts where the
/// insertion fits it and the list is closed.
pub proof fn lemma_ins_fields_more(
    types: Seq<UserTypeView>,
    s: Seq<char>,
    g: int,
    n: int,
    s2: Seq<char>,
    q: int,
    close: char,
)
    requires
        inserted(s, g, n, s2),
        type_like_patterns(types),
        0 <= q <= s.len(),
        close == ')' || close == '}',
        char_at(s, trivia_end(s, fields_more(types, s, q).1), close),
        fields_more_fit(types, s, g, q),
    ensures
        fields_more(types, s2, upe(g, n, q)) == up_list(g, n, fields_more(types, s, q)),
    decreases s.len() - q,
{
    lemma_trivia_end(s, q);
    let c = trivia_end(s, q);
    lemma_fields_more_end(types, s, q);
    lemma_ins_trivia(s, g, n, s2, q);
    lemma_ins_char(s, g, n, s2, c, ',');
    if char_at(s, c, ',') {
        lemma_trivia_end(s, c + 1);
        let t = trivia_end(s, c + 1);
        lemma_field_end(types, s, t);
        match field_at(types, s, t) {
            Some((field, e)) => {
                lemma_behind_field(types, s, e, close);
                lemma_ins_trivia(s, g, n, s2, c + 1);
                lemma_ins_field(types, s, g, n, s2, t);
                lemma_ins_fields_more(types, s, g, n, s2, e, close);
            },
            None => {
                lemma_ins_trivia(s, g, n, s2, c + 1);
                lemma_ins_no_field(types, s, g, n, s2, t);
            },
        }
    }
}

/// Whether the insertion fits a list of fields, read from `p` on.
pub open spec fn fields_fit(types: Seq<UserTypeView>, s: Seq<char>, g: int, p: int) -> bool {
    let t = trivia_end(s, p);
    &&& gap_fits(s, g, p)
    &&& field_at(types, s, t) matches Some((_, e)) ==> {
        &&& field_fits(types, s, g, t)
        &&& fields_more_fit(types, s, g, e)
    }
}

/// A list of fields is read alike in both texts where the insertion fits
/// it and the list is closed.
pub proof fn lemma_ins_fields(
    types: Seq<UserTypeView>,
    s: Seq<char>,
    g: int,
    n: int,
    s2: Seq<char>,
    p: int,
    close: char,
)
    requires
        inserted(s, g, n, s2),
        type_like_patterns(types),
        0 <= p <= s.len(),
        close == ')' || close == '}',
        char_at(s, trivia_end(s, fields_at(types, s, p).1), close),
        fields_fit(types, s, g, p),
    ensures
        fields_at(types, s2, upe(g, n, p)) == up_list(g, n, fields_at(types, s, p)),
{
    lemma_trivia_end(s, p);
    let t = trivia_end(s, p);
    lemma_field_end(types, s, t);
    match field_at(types, s, t) {
        Some((field, e)) => {
            lemma_behind_field(types, s, e, close);
            lemma_ins_trivia(s, g, n, s2, p);
            lemma_ins_field(types, s, g, n, s2, t);
            lemma_ins_fields_more(types, s, g, n, s2, e, close);
        },
        None => {
            lemma_ins_trivia(s, g, n, s2, p);
            lemma_ins_no_field(types, s, g, n, s2, t);
        },
    }
}

/// Whether the insertion fits the list of fields in delimiters at `p`.
pub open spec fn field_list_fits(types: Seq<UserTypeView>, s: Seq<char>, g: int, p: int) -> bool {
    &&& fields_fit(types, s, g, p + 1)
    &&& gap_fits(s, g, fields_at(types, s, p + 1).1)
}

/// A list of fields in delimiters is read alike in both texts where the
/// insertion fits it.
pub proof fn lemma_ins_field_list(
    types: Seq<UserTypeView>,
    s: Seq<char>,
    g: int,
    n: int,
    s2: Seq<char>,
    p: int,
    open: char,
    close: char,
)
    requires
        inserted(s, g, n, s2),
        type_like_patterns(types),
        0 <= p,
        close == ')' || close == '}',
        field_list_at(types, s, p, open, close) is Some,
        field_list_fits(types, s, g, p),
    ensures
        field_list_at(types, s2, up(g, n, p), open, close) == up_with(
            g,
            n,
            field_list_at(types, s, p, open, close),
        ),
{
    lemma_fields_end(types, s, p + 1);
    let q = fields_at(types, s, p + 1).1;
    lemma_trivia_end(s, q);
    lemma_ins_char(s, g, n, s2, p, open);
    lemma_ins_fields(types, s, g, n, s2, p + 1, close);
    lemma_ins_trivia(s, g, n, s2, q);
    lemma_ins_char(s, g, n, s2, trivia_end(s, q), close);
}

/// Whether the insertion fits the start of a declaration at `p`: it parts
/// neither `pub`, the keyword nor the name, and where it stands in a gap
/// between them, it stands between two tokens.
pub open spec fn named_fits(s: Seq<char>, g: int, p: int, kw: Seq<char>) -> bool {
    let a = after_pub(s, p);
    &&& whole(g, p, ident_end(s, p))
    &&& keyword_end(s, p, "pub"@) matches Some(pe) ==> gap_fits(s, g, pe)
    &&& keyword_end(s, a, kw) matches Some(e) ==> {
        let m = trivia_end(s, e);
        &&& !(a < g < e)
        &&& gap_fits(s, g, e)
        &&& whole(g, m, ident_end(s, m))
    }
}

/// The start of a declaration is read alike in both texts where the
/// insertion fits it.
pub proof fn lemma_ins_named(s: Seq<char>, g: int, n: int, s2: Seq<char>, p: int, kw: Seq<char>)
    requires
        inserted(s, g, n, s2),
        0 <= p,
        named_at(s, p, kw) is Some,
        named_fits(s, g, p, kw),
    ensures
        named_at(s2, up(g, n, p), kw) == up_with(g, n, named_at(s, p, kw)),
{
    lemma_after_pub(s, p);
    let a = after_pub(s, p);
    let e = keyword_end(s, a, kw)->0;
    lemma_run_end(s, a + 1, CharClass::Word);
    lemma_trivia_end(s, e);
    let m = trivia_end(s, e);
    let ne = ident_end(s, m)->0;
    lemma_run_end(s, m + 1, CharClass::Word);
    lemma_ins_keyword(s, g, n, s2, p, "pub"@);
    match keyword_end(s, p, "pub"@) {
        Some(pe) => {
            lemma_run_end(s, p + 1, CharClass::Word);
            lemma_trivia_end(s, pe);
            lemma_ins_trivia(s, g, n, s2, pe);
        },
        None => {},
    }
    lemma_ins_keyword(s, g, n, s2, a, kw);
    lemma_ins_trivia(s, g, n, s2, e);
    lemma_ins_ident(s, g, n, s2, m);
    lemma_ins_subrange(s, g, n, s2, m, ne);
}

/// An annotation that the insertion does not part is read alike in both
/// texts.
pub proof fn lemma_ins_attr(s: Seq<char>, g: int, n: int, s2: Seq<char>, p: int)
    requires
        inserted(s, g, n, s2),
        0 <= p,
        attr_end(s, p) matches Some(e) && !(p < g < e),
    ensures
        attr_end(s2, up(g, n, p)) == up_end(g, n, attr_end(s, p)),
{
    lemma_run_end(s, p + 2, CharClass::NotBracket);
    if p >= g {
        lemma_shift_attr(s2, g + n, p - g);
        lemma_shift_attr(s, g, p - g);
    } else {
        lemma_local_attr(s, s2, g, p);
    }
}

/// Whether the insertion fits the record read at `p`.
pub open spec fn dto_fits(types: Seq<UserTypeView>, s: Seq<char>, g: int, p: int) -> bool {
    let a = after_attr(s, p);
    &&& attr_end(s, p) matches Some(ae) ==> !(p < g < ae) && gap_fits(s, g, ae)
    &&& named_fits(s, g, a, "struct"@)
    &&& named_at(s, a, "struct"@) matches Some((_, ne)) ==> {
        &&& gap_fits(s, g, ne)
        &&& field_list_fits(types, s, g, trivia_end(s, ne))
    }
}

/// A record is read alike in both texts where the insertion fits it.
pub proof fn lemma_ins_dto(
    types: Seq<UserTypeView>,
    s: Seq<char>,
    g: int,
    n: int,
    s2: Seq<char>,
    p: int,
)
    requires
        inserted(s, g, n, s2),
        type_like_patterns(types),
        0 <= p,
        dto_at(types, s, p) is Some,
        dto_fits(types, s, g, p),
    ensures
        dto_at(types, s2, up(g, n, p)) == up_with(g, n, dto_at(types, s, p)),
{
    lemma_inserted(s, g, n, s2);
    let a = after_attr(s, p);
    match attr_end(s, p) {
        Some(ae) => {
            lemma_run_end(s, p + 2, CharClass::NotBracket);
            lemma_trivia_end(s, ae);
            lemma_ins_attr(s, g, n, s2, p);
            lemma_ins_trivia(s, g, n, s2, ae);
        },
        None => {
            lemma_named_start(s, p, "struct"@);
            assert(attr_end(s2, up(g, n, p)) is None);
        },
    }
    lemma_named_end(s, a, "struct"@);
    let ne = (named_at(s, a, "struct"@)->0).1;
    lemma_trivia_end(s, ne);
    lemma_ins_named(s, g, n, s2, a, "struct"@);
    lemma_ins_trivia(s, g, n, s2, ne);
    lemma_ins_field_list(types, s, g, n, s2, trivia_end(s, ne), '{', '}');
}

/// Whether the insertion fits what a procedure returns, read behind the
/// parameter list that ends at `q`.
pub open spec fn return_type_fits(types: Seq<UserTypeView>, s: Seq<char>, g: int, q: int) -> bool {
    let a = trivia_end(s, q);
    &&& gap_fits(s, g, q)
    &&& pair_at(s, a, '-', '>') ==> {
        let t = trivia_end(s, a + 2);
        &&& g != a + 1
        &&& gap_fits(s, g, a + 2)
        &&& type_at(types, s, t) matches Some((_, e)) ==> !(t < g < e)
    }
}

/// What a procedure returns is read alike in both texts where the
/// insertion fits it and the body's opening brace follows.
pub proof fn lemma_ins_return_type(
    types: Seq<UserTypeView>,
    s: Seq<char>,
    g: int,
    n: int,
    s2: Seq<char>,
    q: int,
)
    requires
        inserted(s, g, n, s2),
        type_like_patterns(types),
        0 <= q <= s.len(),
        char_at(s, trivia_end(s, return_type_at(types, s, q).1), '{'),
        return_type_fits(types, s, g, q),
    ensures
        return_type_at(types, s2, upe(g, n, q)) == (
            return_type_at(types, s, q).0,
            upe(g, n, return_type_at(types, s, q).1),
        ),
{
    lemma_inserted(s, g, n, s2);
    lemma_trivia_end(s, q);
    let a = trivia_end(s, q);
    lemma_ins_trivia(s, g, n, s2, q);
    if pair_at(s, a, '-', '>') {
        lemma_trivia_end(s, a + 2);
        let t = trivia_end(s, a + 2);
        lemma_type_end(types, s, t);
        lemma_ins_pair(s, g, n, s2, a, '-', '>');
        match type_at(types, s, t) {
            Some((ty, e)) => {
                lemma_type_start(types, s, t);
                lemma_ins_trivia(s, g, n, s2, a + 2);
                lemma_ins_type(types, s, g, n, s2, t);
            },
            None => {},
        }
    } else {
        lemma_ins_char(s, g, n, s2, a, '{');
    }
}

/// Whether the insertion fits the signature read at `p`.
pub open spec fn rpc_head_fits(types: Seq<UserTypeView>, s: Seq<char>, g: int, p: int) -> bool {
    &&& named_fits(s, g, p, "fn"@)
    &&& named_at(s, p, "fn"@) matches Some((_, ne)) ==> {
        let o = trivia_end(s, ne);
        &&& gap_fits(s, g, ne)
        &&& field_list_fits(types, s, g, o)
        &&& field_list_at(types, s, o, '(', ')') matches Some((_, e)) ==> return_type_fits(
            types,
            s,
            g,
            e,
        )
    }
}

/// A signature is read alike in both texts where the insertion fits it
/// and the body's opening brace follows.
pub proof fn lemma_ins_rpc_head(
    types: Seq<UserTypeView>,
    s: Seq<char>,
    g: int,
    n: int,
    s2: Seq<char>,
    p: int,
)
    requires
        inserted(s, g, n, s2),
        type_like_patterns(types),
        0 <= p,
        rpc_head_at(types, s, p) matches Some((_, r)) && char_at(s, trivia_end(s, r), '{'),
        rpc_head_fits(types, s, g, p),
    ensures
        rpc_head_at(types, s2, up(g, n, p)) == up_with(g, n, rpc_head_at(types, s, p)),
{
    lemma_named_end(s, p, "fn"@);
    let ne = (named_at(s, p, "fn"@)->0).1;
    lemma_trivia_end(s, ne);
    let o = trivia_end(s, ne);
    lemma_field_list_end(types, s, o, '(', ')');
    let e = (field_list_at(types, s, o, '(', ')')->0).1;
    lemma_ins_named(s, g, n, s2, p, "fn"@);
    lemma_ins_trivia(s, g, n, s2, ne);
    lemma_ins_field_list(types, s, g, n, s2, o, '(', ')');
    lemma_ins_return_type(types, s, g, n, s2, e);
}

/// A block that the insertion does not stand in is read alike in both
/// texts.
pub proof fn lemma_ins_block(s: Seq<char>, g: int, n: int, s2: Seq<char>, b: int)
    requires
        inserted(s, g, n, s2),
        0 <= b,
        block_at(s, b) matches Some((_, e)) && !(b < g < e),
    ensures
        block_at(s2, up(g, n, b)) == up_with(g, n, block_at(s, b)),
{
    lemma_inserted(s, g, n, s2);
    lemma_block_items(s, b + 1);
    if b >= g {
        lemma_shift_block(s2, g + n, b - g);
        lemma_shift_block(s, g, b - g);
    } else {
        lemma_local_block_items(s, s2, g, b + 1);
    }
}

/// Whether the insertion fits the procedure read at `p`: it fits the
/// signature and the gap behind it, and does not stand in the body.
pub open spec fn rpc_fits(types: Seq<UserTypeView>, s: Seq<char>, g: int, p: int) -> bool {
    &&& rpc_head_fits(types, s, g, p)
    &&& rpc_head_at(types, s, p) matches Some((_, r)) ==> {
        let b = trivia_end(s, r);
        &&& gap_fits(s, g, r)
        &&& block_at(s, b) matches Some((_, e)) ==> !(b < g < e)
    }
}

/// A procedure is read alike in both texts where the insertion fits it.
pub proof fn lemma_ins_rpc(
    types: Seq<UserTypeView>,
    s: Seq<char>,
    g: int,
    n: int,
    s2: Seq<char>,
    p: int,
)
    requires
        inserted(s, g, n, s2),
        type_like_patterns(types),
        0 <= p,
        rpc_at(types, s, p) is Some,
        rpc_fits(types, s, g, p),
    ensures
        rpc_at(types, s2, up(g, n, p)) == up_with(g, n, rpc_at(types, s, p)),
{
    lemma_rpc_head_end(types, s, p);
    let r = (rpc_head_at(types, s, p)->0).1;
    lemma_trivia_end(s, r);
    let b = trivia_end(s, r);
    lemma_ins_rpc_head(types, s, g, n, s2, p);
    lemma_ins_trivia(s, g, n, s2, r);
    lemma_ins_block(s, g, n, s2, b);
}

/// A number that the insertion does not part is read alike in both texts.
pub proof fn lemma_ins_number(s: Seq<char>, g: int, n: int, s2: Seq<char>, p: int)
    requires
        inserted(s, g, n, s2),
        0 <= p,
        number_at(s, p) matches Some((_, e)) && !(p < g < e),
    ensures
        number_at(s2, up(g, n, p)) == up_with(g, n, number_at(s, p)),
{
    lemma_inserted(s, g, n, s2);
    lemma_run_end(s, p, CharClass::Digit);
    let e = run_end(s, p, CharClass::Digit);
    if p >= g {
        lemma_shift_number(s2, g + n, p - g);
        lemma_shift_number(s, g, p - g);
    } else {
        if e < g {
            lemma_local_run(s, s2, g, p, CharClass::Digit);
        } else {
            assert(!is_digit(s2[g]));
            lemma_run_to_boundary(s, s2, g, p, CharClass::Digit);
        }
        lemma_agree_subrange(s, s2, g, p, e);
    }
}

/// Whether the insertion fits the enumeration variant read at `p`.
pub open spec fn enum_value_fits(s: Seq<char>, g: int, p: int) -> bool {
    match ident_end(s, p) {
        Some(n1) => {
            let c = trivia_end(s, n1);
            let t = trivia_end(s, c + 1);
            &&& !(p < g < n1)
            &&& char_at(s, c, '=') ==> {
                &&& gap_fits(s, g, n1)
                &&& gap_fits(s, g, c + 1)
                &&& number_at(s, t) matches Some((_, e)) ==> !(t < g < e)
            }
        },
        None => true,
    }
}

/// An enumeration variant is read alike in both texts where the insertion
/// fits it and a `','` or the closing brace follows the variant.
pub proof fn lemma_ins_enum_value(s: Seq<char>, g: int, n: int, s2: Seq<char>, p: int)
    requires
        inserted(s, g, n, s2),
        0 <= p,
        enum_value_at(s, p) matches Some((_, e)) && (char_at(s, trivia_end(s, e), ',') || char_at(
            s,
            trivia_end(s, e),
            '}',
        )),
        enum_value_fits(s, g, p),
        gap_fits(s, g, (enum_value_at(s, p)->0).1),
    ensures
        enum_value_at(s2, up(g, n, p)) == up_with(g, n, enum_value_at(s, p)),
{
    lemma_inserted(s, g, n, s2);
    let n1 = ident_end(s, p)->0;
    lemma_run_end(s, p + 1, CharClass::Word);
    lemma_trivia_end(s, n1);
    let c = trivia_end(s, n1);
    lemma_ins_ident(s, g, n, s2, p);
    lemma_ins_subrange(s, g, n, s2, p, n1);
    if char_at(s, c, '=') {
        lemma_trivia_end(s, c + 1);
        let t = trivia_end(s, c + 1);
        lemma_ins_trivia(s, g, n, s2, n1);
        lemma_ins_char(s, g, n, s2, c, '=');
        lemma_run_end(s, t, CharClass::Digit);
        lemma_ins_trivia(s, g, n, s2, c + 1);
        lemma_ins_number(s, g, n, s2, t);
    } else {
        lemma_ins_trivia(s, g, n, s2, n1);
        lemma_ins_char(s, g, n, s2, c, '=');
    }
}

/// No enumeration variant starts where no identifier does, in neither
/// text.
pub proof fn lemma_ins_no_enum_value(s: Seq<char>, g: int, n: int, s2: Seq<char>, p: int)
    requires
        inserted(s, g, n, s2),
        0 <= p,
        ident_end(s, p) is None,
    ensures
        enum_value_at(s2, up(g, n, p)) is None,
{
    lemma_ins_ident(s, g, n, s2, p);
}

/// Whether the insertion fits the rest of a list of variants, read from
/// `q` on.
pub open spec fn enum_values_more_fit(s: Seq<char>, g: int, q: int) -> bool
    decreases s.len() - q,
{
    let c = trivia_end(s, q);
    &&& gap_fits(s, g, q)
    &&& char_at(s, c, ',') ==> {
        let t = trivia_end(s, c + 1);
        &&& gap_fits(s, g, c + 1)
        &&& enum_value_at(s, t) matches Some((_, e)) ==> {
            &&& enum_value_fits(s, g, t)
            &&& q < e <= s.len() ==> enum_values_more_fit(s, g, e)
        }
    }
}

/// The rest of a list of variants is read alike in both texts where the
/// insertion fits it and the list is closed.
pub proof fn lemma_ins_enum_values_more(s: Seq<char>, g: int, n: int, s2: Seq<char>, q: int)
    requires
        inserted(s, g, n, s2),
        0 <= q <= s.len(),
        char_at(s, trivia_end(s, enum_values_more(s, q).1), '}'),
        enum_values_more_fit(s, g, q),
    ensures
        enum_values_more(s2, upe(g, n, q)) == up_list(g, n, enum_values_more(s, q)),
    decreases s.len() - q,
{
    lemma_trivia_end(s, q);
    let c = trivia_end(s, q);
    lemma_enum_values_more_end(s, q);
    lemma_ins_trivia(s, g, n, s2, q);
    lemma_ins_char(s, g, n, s2, c, ',');
    if char_at(s, c, ',') {
        lemma_trivia_end(s, c + 1);
        let t = trivia_end(s, c + 1);
        lemma_enum_value_end(s, t);
        lemma_ins_trivia(s, g, n, s2, c + 1);
        match enum_value_at(s, t) {
            Some((value, e)) => {
                lemma_enum_list_next(s, e);
                lemma_enum_values_more_end(s, e);
                assert(enum_values_more_fit(s, g, e));
                assert(gap_fits(s, g, e));
                lemma_ins_enum_value(s, g, n, s2, t);
                lemma_ins_enum_values_more(s, g, n, s2, e);
            },
            None => {
                lemma_ins_no_enum_value(s, g, n, s2, t);
            },
        }
    }
}

/// Whether the insertion fits the enumeration read at `p`.
pub open spec fn enum_fits(s: Seq<char>, g: int, p: int) -> bool {
    &&& named_fits(s, g, p, "enum"@)
    &&& named_at(s, p, "enum"@) matches Some((_, ne)) ==> {
        let o = trivia_end(s, ne);
        let t = trivia_end(s, o + 1);
        &&& gap_fits(s, g, ne)
        &&& gap_fits(s, g, o + 1)
        &&& gap_fits(s, g, enum_values_at(s, o + 1).1)
        &&& enum_value_at(s, t) matches Some((_, e)) ==> {
            &&& enum_value_fits(s, g, t)
            &&& enum_values_more_fit(s, g, e)
        }
    }
}

/// An enumeration is read alike in both texts where the insertion fits it.
pub proof fn lemma_ins_enum(s: Seq<char>, g: int, n: int, s2: Seq<char>, p: int)
    requires
        inserted(s, g, n, s2),
        0 <= p,
        enum_at(s, p) is Some,
        enum_fits(s, g, p),
    ensures
        enum_at(s2, up(g, n, p)) == up_with(g, n, enum_at(s, p)),
{
    lemma_named_end(s, p, "enum"@);
    let ne = (named_at(s, p, "enum"@)->0).1;
    lemma_trivia_end(s, ne);
    let o = trivia_end(s, ne);
    lemma_trivia_end(s, o + 1);
    let t = trivia_end(s, o + 1);
    lemma_enum_values_end(s, o + 1);
    let q = enum_values_at(s, o + 1).1;
    lemma_trivia_end(s, q);
    lemma_enum_value_end(s, t);
    lemma_ins_named(s, g, n, s2, p, "enum"@);
    lemma_ins_trivia(s, g, n, s2, ne);
    lemma_ins_char(s, g, n, s2, o, '{');
    lemma_ins_trivia(s, g, n, s2, o + 1);
    match enum_value_at(s, t) {
        Some((value, e)) => {
            lemma_enum_list_next(s, e);
            lemma_enum_values_more_end(s, e);
            assert(enum_values_more_fit(s, g, e));
            assert(gap_fits(s, g, e));
            lemma_ins_enum_value(s, g, n, s2, t);
            lemma_ins_enum_values_more(s, g, n, s2, e);
        },
        None => {
            lemma_ins_no_enum_value(s, g, n, s2, t);
        },
    }
    lemma_ins_trivia(s, g, n, s2, q);
    lemma_ins_char(s, g, n, s2, trivia_end(s, q), '}');
}

/// Whether the insertion fits the namespace read at `p`.
pub open spec fn namespace_fits(types: Seq<UserTypeView>, s: Seq<char>, g: int, p: int) -> bool
    decreases s.len() - p, 0nat,
{
    &&& named_fits(s, g, p, "mod"@)
    &&& named_at(s, p, "mod"@) matches Some((_, ne)) ==> {
        let c = trivia_end(s, ne);
        &&& gap_fits(s, g, ne)
        &&& !char_at(s, c, ';') && char_at(s, c, '{') && p <= c ==> {
            &&& children_fit(types, s, g, c + 1)
            &&& gap_fits(s, g, children_at(types, s, c + 1).1)
        }
    }
}

/// Whether the insertion fits the declaration read at `p`.
pub open spec fn child_fits(types: Seq<UserTypeView>, s: Seq<char>, g: int, p: int) -> bool
    decreases s.len() - p, 1nat,
{
    if dto_at(types, s, p) is Some {
        dto_fits(types, s, g, p)
    } else if rpc_at(types, s, p) is Some {
        rpc_fits(types, s, g, p)
    } else if enum_at(s, p) is Some {
        enum_fits(s, g, p)
    } else {
        namespace_fits(types, s, g, p)
    }
}

/// Whether the insertion fits the declarations read from `p` on: it fits
/// each of them, and where it stands in a gap before, between or behind
/// them, it stands between two tokens.
pub open spec fn children_fit(types: Seq<UserTypeView>, s: Seq<char>, g: int, p: int) -> bool
    decreases s.len() - p, 2nat,
{
    let t = trivia_end(s, p);
    &&& gap_fits(s, g, p)
    &&& 0 <= p <= t <= s.len() ==> (child_at(types, s, t) matches Some((_, e)) ==> {
        &&& child_fits(types, s, g, t)
        &&& t < e <= s.len() ==> children_fit(types, s, g, e)
    })
}

/// No declaration starts at the end of the text.
pub proof fn lemma_no_child_at_end(types: Seq<UserTypeView>, s: Seq<char>, p: int)
    requires
        p >= s.len(),
        0 <= p,
    ensures
        child_at(types, s, p) is None,
{
}

/// The name of a namespace and the token behind it are read alike in both
/// texts where the insertion fits the namespace.
proof fn lemma_ins_namespace_name(
    types: Seq<UserTypeView>,
    s: Seq<char>,
    g: int,
    n: int,
    s2: Seq<char>,
    p: int,
)
    requires
        inserted(s, g, n, s2),
        0 <= p,
        namespace_at(types, s, p) is Some,
        namespace_fits(types, s, g, p),
    ensures
        named_at(s, p, "mod"@) matches Some((name, ne)) && ({
            let c = trivia_end(s, ne);
            let c2 = up(g, n, c);
            &&& named_at(s2, up(g, n, p), "mod"@) == Some((name, upe(g, n, ne)))
            &&& trivia_end(s2, upe(g, n, ne)) == c2
            &&& char_at(s2, c2, ';') == char_at(s, c, ';')
            &&& char_at(s2, c2, '{') == char_at(s, c, '{')
            &&& upe(g, n, c + 1) == c2 + 1
            &&& up(g, n, p) <= c2
        }),
{
    lemma_namespace_shape(types, s, p);
    let ne = (named_at(s, p, "mod"@)->0).1;
    let c = trivia_end(s, ne);
    lemma_ins_named(s, g, n, s2, p, "mod"@);
    lemma_ins_trivia(s, g, n, s2, ne);
    lemma_ins_char(s, g, n, s2, c, ';');
    lemma_ins_char(s, g, n, s2, c, '{');
}

/// A namespace is read alike in both texts where the insertion fits it.
#[verifier::rlimit(40)]
pub proof fn lemma_ins_namespace(
    types: Seq<UserTypeView>,
    s: Seq<char>,
    g: int,
    n: int,
    s2: Seq<char>,
    p: int,
)
    requires
        inserted(s, g, n, s2),
        type_like_patterns(types),
        0 <= p,
        namespace_at(types, s, p) is Some,
        namespace_fits(types, s, g, p),
    ensures
        namespace_at(types, s2, up(g, n, p)) == up_with(g, n, namespace_at(types, s, p)),
    decreases s.len() - p, 0nat,
{
    lemma_namespace_shape(types, s, p);
    lemma_ins_namespace_name(types, s, g, n, s2, p);
    let ne = (named_at(s, p, "mod"@)->0).1;
    let c = trivia_end(s, ne);
    if !char_at(s, c, ';') {
        let q = children_at(types, s, c + 1).1;
        let d = trivia_end(s, q);
        lemma_ins_children(types, s, g, n, s2, c + 1);
        lemma_ins_trivia(s, g, n, s2, q);
        lemma_ins_char(s, g, n, s2, d, '}');
        assert(upe(g, n, d + 1) == up(g, n, d) + 1);
    }
}

/// A declaration is read alike in both texts where the insertion fits it.
pub proof fn lemma_ins_child(
    types: Seq<UserTypeView>,
    s: Seq<char>,
    g: int,
    n: int,
    s2: Seq<char>,
    p: int,
)
    requires
        inserted(s, g, n, s2),
        type_like_patterns(types),
        0 <= p,
        child_at(types, s, p) is Some,
        child_fits(types, s, g, p),
    ensures
        child_at(types, s2, up(g, n, p)) == up_with(g, n, child_at(types, s, p)),
    decreases s.len() - p, 1nat,
{
    lemma_keywords_differ();
    let p2 = up(g, n, p);
    if dto_at(types, s, p) is Some {
        lemma_ins_dto(types, s, g, n, s2, p);
    } else if rpc_at(types, s, p) is Some {
        lemma_ins_rpc(types, s, g, n, s2, p);
        lemma_only_keyword(s2, p2, "fn"@, "struct"@);
    } else if enum_at(s, p) is Some {
        lemma_ins_enum(s, g, n, s2, p);
        lemma_only_keyword(s2, p2, "enum"@, "struct"@);
        lemma_only_keyword(s2, p2, "enum"@, "fn"@);
    } else {
        lemma_ins_namespace(types, s, g, n, s2, p);
        lemma_only_keyword(s2, p2, "mod"@, "struct"@);
        lemma_only_keyword(s2, p2, "mod"@, "fn"@);
        lemma_only_keyword(s2, p2, "mod"@, "enum"@);
    }
}

/// The declarations read from `p` on are read alike in both texts where
/// the insertion fits them and a closing brace or the end of the text
/// follows them.
pub proof fn lemma_ins_children(
    types: Seq<UserTypeView>,
    s: Seq<char>,
    g: int,
    n: int,
    s2: Seq<char>,
    p: int,
)
    requires
        inserted(s, g, n, s2),
        type_like_patterns(types),
        0 <= p <= s.len(),
        children_fit(types, s, g, p),
        trivia_end(s, children_at(types, s, p).1) == s.len() || char_at(
            s,
            trivia_end(s, children_at(types, s, p).1),
            '}',
        ),
    ensures
        children_at(types, s2, upe(g, n, p)) == up_list(g, n, children_at(types, s, p)),
    decreases s.len() - p, 2nat,
{
    lemma_inserted(s, g, n, s2);
    lemma_trivia_end(s, p);
    let t = trivia_end(s, p);
    lemma_children_end(types, s, p);
    lemma_child_end(types, s, t);
    match child_at(types, s, t) {
        Some((child, e)) => {
            lemma_child_start(types, s, t);
            lemma_ins_trivia(s, g, n, s2, p);
            lemma_ins_child(types, s, g, n, s2, t);
            lemma_ins_children(types, s, g, n, s2, e);
        },
        None => {
            lemma_ins_trivia(s, g, n, s2, p);
            if t == s.len() {
                lemma_no_child_at_end(types, s2, up(g, n, t));
            } else {
                lemma_no_child_at_brace(types, s2, up(g, n, t));
            }
        },
    }
}

/// Whether the insertion fits the path of an import, read from `q` on.
pub open spec fn use_path_fits(s: Seq<char>, g: int, q: int) -> bool
    decreases s.len() - q,
{
    let a = trivia_end(s, q);
    &&& gap_fits(s, g, q)
    &&& pair_at(s, a, ':', ':') ==> {
        let m = trivia_end(s, a + 2);
        &&& g != a + 1
        &&& gap_fits(s, g, a + 2)
        &&& whole(g, m, ident_end(s, m))
        &&& ident_end(s, m) matches Some(e) ==> (q < e <= s.len() ==> use_path_fits(s, g, e))
    }
}

/// The path of an import is read alike in both texts where the insertion
/// fits it and the `';'` of the import follows.
pub proof fn lemma_ins_use_path(s: Seq<char>, g: int, n: int, s2: Seq<char>, q: int)
    requires
        inserted(s, g, n, s2),
        0 <= q <= s.len(),
        char_at(s, trivia_end(s, use_path_end(s, q)), ';'),
        use_path_fits(s, g, q),
    ensures
        use_path_end(s2, upe(g, n, q)) == upe(g, n, use_path_end(s, q)),
    decreases s.len() - q,
{
    lemma_inserted(s, g, n, s2);
    lemma_trivia_end(s, q);
    let a = trivia_end(s, q);
    lemma_use_path_bounds(s, q);
    lemma_ins_trivia(s, g, n, s2, q);
    if pair_at(s, a, ':', ':') {
        lemma_trivia_end(s, a + 2);
        let m = trivia_end(s, a + 2);
        lemma_ins_pair(s, g, n, s2, a, ':', ':');
        match ident_end(s, m) {
            Some(e) => {
                lemma_run_end(s, m + 1, CharClass::Word);
                lemma_ins_trivia(s, g, n, s2, a + 2);
                lemma_ins_ident(s, g, n, s2, m);
                lemma_ins_use_path(s, g, n, s2, e);
            },
            None => {},
        }
    } else {
        lemma_ins_char(s, g, n, s2, a, ';');
    }
}

/// Whether the insertion fits the import read at `p`.
pub open spec fn use_fits(s: Seq<char>, g: int, p: int) -> bool {
    &&& named_fits(s, g, p, "use"@)
    &&& named_at(s, p, "use"@) matches Some((_, q)) ==> {
        &&& use_path_fits(s, g, q)
        &&& gap_fits(s, g, use_path_end(s, q))
    }
}

/// An import is read alike in both texts where the insertion fits it.
pub proof fn lemma_ins_use(s: Seq<char>, g: int, n: int, s2: Seq<char>, p: int)
    requires
        inserted(s, g, n, s2),
        0 <= p,
        use_end(s, p) is Some,
        use_fits(s, g, p),
    ensures
        use_end(s2, up(g, n, p)) == up_end(g, n, use_end(s, p)),
{
    lemma_named_end(s, p, "use"@);
    let q = (named_at(s, p, "use"@)->0).1;
    lemma_use_path_bounds(s, q);
    let r = use_path_end(s, q);
    lemma_trivia_end(s, r);
    lemma_ins_named(s, g, n, s2, p, "use"@);
    lemma_ins_use_path(s, g, n, s2, q);
    lemma_ins_trivia(s, g, n, s2, r);
    lemma_ins_char(s, g, n, s2, trivia_end(s, r), ';');
}

/// Whether the insertion fits the imports read from `p` on.
pub open spec fn imports_fit(s: Seq<char>, g: int, p: int) -> bool
    decreases s.len() - p,
{
    let t = trivia_end(s, p);
    &&& gap_fits(s, g, p)
    &&& 0 <= p <= t <= s.len() ==> (use_end(s, t) matches Some(e) ==> {
        &&& use_fits(s, g, t)
        &&& t < e <= s.len() ==> imports_fit(s, g, e)
    })
}

/// The imports read from `p` on end at the same place in both texts where
/// the insertion fits them, and a declaration that the insertion fits or
/// the end of the text follows them.
pub proof fn lemma_ins_imports(
    types: Seq<UserTypeView>,
    s: Seq<char>,
    g: int,
    n: int,
    s2: Seq<char>,
    p: int,
)
    requires
        inserted(s, g, n, s2),
        type_like_patterns(types),
        0 <= p <= s.len(),
        imports_fit(s, g, p),
        ({
            let t = trivia_end(s, imports_end(s, p));
            t == s.len() || (child_at(types, s, t) is Some && child_fits(types, s, g, t))
        }),
    ensures
        imports_end(s2, upe(g, n, p)) == upe(g, n, imports_end(s, p)),
    decreases s.len() - p,
{
    lemma_inserted(s, g, n, s2);
    lemma_trivia_end(s, p);
    let t = trivia_end(s, p);
    lemma_imports_end(s, p);
    match use_end(s, t) {
        Some(e) => {
            lemma_use_bounds(s, t);
            lemma_imports_end(s, e);
            lemma_ins_trivia(s, g, n, s2, p);
            lemma_ins_use(s, g, n, s2, t);
            lemma_ins_imports(types, s, g, n, s2, e);
        },
        None => {
            if t == s.len() {
                lemma_ins_trivia(s, g, n, s2, p);
                assert(use_end(s2, up(g, n, t)) is None);
            } else {
                lemma_child_start(types, s, t);
                lemma_ins_trivia(s, g, n, s2, p);
                lemma_ins_child(types, s, g, n, s2, t);
                lemma_child_is_no_import(types, s2, up(g, n, t));
            }
        },
    }
}

/// Whether white space and comments put in at `g` fit the chunk: they part
/// no token of it and stand between two of its tokens, before the first or
/// behind the last, and not within the body of a procedure.
pub open spec fn chunk_fits(types: Seq<UserTypeView>, s: Seq<char>, g: int) -> bool {
    let i = imports_end(s, 0);
    &&& imports_fit(s, g, 0)
    &&& children_fit(types, s, g, i)
    &&& gap_fits(s, g, children_at(types, s, i).1)
}

/// A chunk that parses declares the same in the text with the insertion
/// where the insertion fits the chunk.
pub proof fn lemma_ins_chunk(types: Seq<UserTypeView>, s: Seq<char>, g: int, n: int, s2: Seq<char>)
    requires
        inserted(s, g, n, s2),
        type_like_patterns(types),
        chunk_children(types, s) is Some,
        chunk_fits(types, s, g),
    ensures
        chunk_children(types, s2) == chunk_children(types, s),
{
    let i = imports_end(s, 0);
    lemma_imports_end(s, 0);
    lemma_children_end(types, s, i);
    let q = children_at(types, s, i).1;
    lemma_trivia_end(s, i);
    let t = trivia_end(s, i);
    lemma_child_end(types, s, t);
    lemma_ins_imports(types, s, g, n, s2, 0);
    lemma_ins_children(types, s, g, n, s2, i);
    lemma_ins_trivia(s, g, n, s2, q);
}

} // verus!
