//! The grammar reads no further than it must: what a rule gives in one text it
//! gives in every text that is the same up to the end of what was read.
use crate::parser::block::{block_items, body_end, lemma_block_items, lemma_body_end};
use crate::parser::bounds::{
    lemma_after_pub, lemma_block_first, lemma_body_stop, lemma_child_start, lemma_children_end,
    lemma_entity_id_tail_end, lemma_enum_list_next, lemma_enum_value_end, lemma_enum_values_end,
    lemma_enum_values_more_end, lemma_field_end, lemma_field_list_end, lemma_fields_end,
    lemma_fields_more_end, lemma_keywords_differ, lemma_literal_start, lemma_named_end,
    lemma_named_start, lemma_namespace_shape, lemma_no_child_at_brace, lemma_only_keyword,
    lemma_return_type_end, lemma_rpc_head_end, lemma_slash_in_block, lemma_type_end,
    lemma_use_path_bounds,
};
use crate::parser::chars::{in_class, is_space, lemma_run_end, run_end, CharClass};
use crate::parser::config::UserTypeView;
use crate::parser::decl::{
    after_attr, after_pub, child_at, children_at, dto_at, enum_at, enum_value_at, enum_values_at,
    enum_values_more, field_at, field_list_at, fields_at, fields_more, named_at, namespace_at,
    return_type_at, rpc_at, rpc_head_at,
};
use crate::parser::lexical::{
    attr_end, char_at, close_at, comment_at, comment_end, comment_span, ident_end, keyword_end,
    lemma_close_at, lemma_comment_span, lemma_trim, lemma_trivia_end, literal_end, number_at,
    pair_at, trim_end, trim_start, trimmed, trivia_end,
};
use crate::parser::rust::{use_end, use_path_end};
use crate::parser::types::{
    base_name, builtin_at, entity_id_tail, first_base, type_at, type_name_end, user_type_at,
    user_type_from, BASE_TYPES,
};
use vstd::prelude::*;

verus! {

/// Whether two texts are the same up to position `hi`.
pub open spec fn agree(s1: Seq<char>, s2: Seq<char>, hi: int) -> bool {
    &&& 0 <= hi <= s1.len()
    &&& hi <= s2.len()
    &&& forall|i: int| 0 <= i < hi ==> s1[i] == s2[i]
}

/// Whether `lit` holds the character `c` nowhere.
pub open spec fn avoids(lit: Seq<char>, c: char) -> bool {
    forall|i: int| 0 <= i < lit.len() ==> lit[i] != c
}

/// Two texts that are the same up to `hi` have the same stretches there.
pub proof fn lemma_agree_subrange(s1: Seq<char>, s2: Seq<char>, hi: int, a: int, b: int)
    requires
        agree(s1, s2, hi),
        0 <= a <= b <= hi,
    ensures
        s1.subrange(a, b) == s2.subrange(a, b),
{
    assert(s1.subrange(a, b) =~= s2.subrange(a, b));
}

/// A run that ends before `hi` ends at the same place in both texts.
pub proof fn lemma_local_run(s1: Seq<char>, s2: Seq<char>, hi: int, p: int, class: CharClass)
    requires
        agree(s1, s2, hi),
        0 <= p,
        run_end(s1, p, class) < hi,
    ensures
        run_end(s2, p, class) == run_end(s1, p, class),
    decreases hi - p,
{
    lemma_run_end(s1, p, class);
    if p < hi && in_class(s1[p], class) {
        lemma_local_run(s1, s2, hi, p + 1, class);
    }
}

/// An identifier that ends before `hi`, or that cannot start before `hi`,
/// is read alike in both texts.
pub proof fn lemma_local_ident(s1: Seq<char>, s2: Seq<char>, hi: int, p: int)
    requires
        agree(s1, s2, hi),
        0 <= p < hi,
        ident_end(s1, p) matches Some(e) ==> e < hi,
    ensures
        ident_end(s2, p) == ident_end(s1, p),
{
    if ident_end(s1, p) is Some {
        lemma_local_run(s1, s2, hi, p + 1, CharClass::Word);
    }
}

/// A keyword is read alike in both texts where the identifier at its
/// place ends before `hi`.
pub proof fn lemma_local_keyword(s1: Seq<char>, s2: Seq<char>, hi: int, p: int, kw: Seq<char>)
    requires
        agree(s1, s2, hi),
        0 <= p < hi,
        ident_end(s1, p) matches Some(e) ==> e < hi,
    ensures
        keyword_end(s2, p, kw) == keyword_end(s1, p, kw),
{
    lemma_local_ident(s1, s2, hi, p);
    match ident_end(s1, p) {
        Some(e) => {
            lemma_run_end(s1, p + 1, CharClass::Word);
            lemma_agree_subrange(s1, s2, hi, p, e);
        },
        None => {},
    }
}

/// A literal that holds the character before `hi` nowhere is read alike in
/// both texts, and ends before that character where it is read.
pub proof fn lemma_local_literal(s1: Seq<char>, s2: Seq<char>, hi: int, p: int, lit: Seq<char>)
    requires
        agree(s1, s2, hi),
        0 <= p < hi,
        avoids(lit, s1[hi - 1]),
    ensures
        literal_end(s2, p, lit) == literal_end(s1, p, lit),
        literal_end(s1, p, lit) matches Some(e) ==> e < hi,
{
    let n = lit.len() as int;
    if p + n >= hi {
        if p + n <= s1.len() && s1.subrange(p, p + n) == lit {
            assert(s1.subrange(p, p + n)[hi - 1 - p] == lit[hi - 1 - p]);
        }
        if p + n <= s2.len() && s2.subrange(p, p + n) == lit {
            assert(s2.subrange(p, p + n)[hi - 1 - p] == lit[hi - 1 - p]);
        }
    } else {
        lemma_agree_subrange(s1, s2, hi, p, p + n);
    }
}

/// The end of a block comment that lies before `hi` is found alike in both
/// texts.
pub proof fn lemma_local_close(s1: Seq<char>, s2: Seq<char>, hi: int, p: int)
    requires
        agree(s1, s2, hi),
        0 <= p,
        close_at(s1, p) matches Some(q) && q + 2 <= hi,
    ensures
        close_at(s2, p) == close_at(s1, p),
    decreases hi - p,
{
    lemma_close_at(s1, p);
    if !(s1[p] == '*' && s1[p + 1] == '/') {
        lemma_local_close(s1, s2, hi, p + 1);
    }
}

/// A comment that ends before `hi` is read alike in both texts.
pub proof fn lemma_local_comment(s1: Seq<char>, s2: Seq<char>, hi: int, p: int)
    requires
        agree(s1, s2, hi),
        0 <= p,
        comment_span(s1, p) matches Some((_, e)) && e < hi,
    ensures
        comment_span(s2, p) == comment_span(s1, p),
{
    lemma_comment_span(s1, p);
    if pair_at(s1, p, '/', '/') {
        lemma_local_run(s1, s2, hi, p + 2, CharClass::NotNewline);
    } else {
        lemma_local_close(s1, s2, hi, p + 2);
    }
}

/// The next token is found alike in both texts where it starts before `hi`
/// and with another character than `'/'`.
pub proof fn lemma_local_trivia(s1: Seq<char>, s2: Seq<char>, hi: int, p: int)
    requires
        agree(s1, s2, hi),
        0 <= p <= s1.len(),
        trivia_end(s1, p) < hi,
        s1[trivia_end(s1, p)] != '/',
    ensures
        trivia_end(s2, p) == trivia_end(s1, p),
    decreases hi - p,
{
    lemma_trivia_end(s1, p);
    let t = trivia_end(s1, p);
    if p < t {
        if is_space(s1[p]) {
            lemma_local_trivia(s1, s2, hi, p + 1);
        } else {
            lemma_comment_span(s1, p);
            let e = comment_end(s1, p)->0;
            lemma_trivia_end(s1, e);
            lemma_local_comment(s1, s2, hi, p);
            lemma_local_trivia(s1, s2, hi, e);
        }
    }
}

/// Whether `c` closes or opens a block, or ends a declaration: a
/// character that no built-in type is spelled with.
pub open spec fn is_fence(c: char) -> bool {
    c == '{' || c == '}' || c == ';'
}

/// Whether a user type's pattern is plain: not empty, and without the
/// characters `{`, `}`, `;` and `/`.
pub open spec fn plain_pattern(pattern: Seq<char>) -> bool {
    &&& pattern.len() > 0
    &&& forall|i: int|
        0 <= i < pattern.len() ==> pattern[i] != '{' && pattern[i] != '}' && pattern[i] != ';'
            && pattern[i] != '/'
}

/// Whether the patterns of all user types are plain.
pub open spec fn plain_patterns(types: Seq<UserTypeView>) -> bool {
    forall|k: int| 0 <= k < types.len() ==> plain_pattern(#[trigger] types[k].parse)
}

/// The spellings of the built-in types are not empty, hold no fence, and
/// do not start with `'/'`.
pub proof fn lemma_builtin_spellings(c: char)
    requires
        is_fence(c),
    ensures
        forall|k: int| 0 <= k < BASE_TYPES ==> avoids(#[trigger] base_name(k), c),
        forall|k: int|
            0 <= k < BASE_TYPES ==> (#[trigger] base_name(k)).len() > 0 && base_name(k)[0] != '/',
        avoids("bool"@, c) && "bool"@.len() > 0 && "bool"@[0] != '/',
        avoids("&str"@, c) && "&str"@.len() > 0 && "&str"@[0] != '/',
        avoids("&[u8]"@, c) && "&[u8]"@.len() > 0 && "&[u8]"@[0] != '/',
{
    reveal_strlit("bool");
    reveal_strlit("&str");
    reveal_strlit("&[u8]");
    reveal_strlit("u8");
    reveal_strlit("u16");
    reveal_strlit("u32");
    reveal_strlit("u64");
    reveal_strlit("u128");
    reveal_strlit("i8");
    reveal_strlit("i16");
    reveal_strlit("i32");
    reveal_strlit("i64");
    reveal_strlit("i128");
    reveal_strlit("f8");
    reveal_strlit("f16");
    reveal_strlit("f32");
    reveal_strlit("f64");
    reveal_strlit("f128");
    reveal_strlit("String");
    reveal_strlit("Vec<u8>");
}

/// A built-in type is read alike in both texts where the character before
/// `hi` is a fence.
pub proof fn lemma_local_builtin(s1: Seq<char>, s2: Seq<char>, hi: int, p: int)
    requires
        agree(s1, s2, hi),
        0 <= p < hi,
        is_fence(s1[hi - 1]),
    ensures
        builtin_at(s2, p) == builtin_at(s1, p),
        builtin_at(s1, p) matches Some((_, e)) ==> e < hi && s1[p] != '/',
{
    lemma_builtin_spellings(s1[hi - 1]);
    lemma_local_literal(s1, s2, hi, p, "bool"@);
    lemma_local_first_base(s1, s2, hi, p, 0);
    lemma_local_literal(s1, s2, hi, p, "&str"@);
    lemma_local_literal(s1, s2, hi, p, "&[u8]"@);
    lemma_literal_start(s1, p, "bool"@);
    lemma_literal_start(s1, p, "&str"@);
    lemma_literal_start(s1, p, "&[u8]"@);
}

/// The first built-in spelling that matches is found alike in both texts
/// where the character before `hi` is a fence.
proof fn lemma_local_first_base(s1: Seq<char>, s2: Seq<char>, hi: int, p: int, n: int)
    requires
        agree(s1, s2, hi),
        0 <= p < hi,
        0 <= n,
        is_fence(s1[hi - 1]),
    ensures
        first_base(s2, p, n) == first_base(s1, p, n),
        first_base(s1, p, n) matches Some((_, e)) ==> e < hi && s1[p] != '/',
    decreases BASE_TYPES - n,
{
    if n < BASE_TYPES {
        lemma_builtin_spellings(s1[hi - 1]);
        lemma_local_literal(s1, s2, hi, p, base_name(n));
        lemma_literal_start(s1, p, base_name(n));
        if p + 1 < hi {
            lemma_local_literal(s1, s2, hi, p + 1, base_name(n));
        }
        lemma_local_first_base(s1, s2, hi, p, n + 1);
    }
}

/// A user type is read alike in both texts where the patterns are plain
/// and the character before `hi` is a fence.
pub proof fn lemma_local_user_type(
    types: Seq<UserTypeView>,
    s1: Seq<char>,
    s2: Seq<char>,
    hi: int,
    p: int,
    n: int,
)
    requires
        agree(s1, s2, hi),
        plain_patterns(types),
        0 <= p < hi,
        0 <= n,
        is_fence(s1[hi - 1]),
    ensures
        user_type_from(types, s2, p, n) == user_type_from(types, s1, p, n),
        user_type_from(types, s1, p, n) matches Some((_, e)) ==> e < hi && s1[p] != '/',
    decreases types.len() - n,
{
    if n < types.len() {
        assert(plain_pattern(types[n].parse));
        lemma_local_literal(s1, s2, hi, p, types[n].parse);
        lemma_literal_start(s1, p, types[n].parse);
        lemma_local_user_type(types, s1, s2, hi, p, n + 1);
    }
}

/// The segments behind a type name are read alike in both texts where
/// they end before `hi` and no `':'` follows them.
proof fn lemma_local_entity_id_tail(s1: Seq<char>, s2: Seq<char>, hi: int, q: int)
    requires
        agree(s1, s2, hi),
        0 <= q,
        entity_id_tail(s1, q).1 < hi,
        s1[entity_id_tail(s1, q).1] != ':',
    ensures
        entity_id_tail(s2, q) == entity_id_tail(s1, q),
    decreases hi - q,
{
    if pair_at(s1, q, ':', ':') {
        match type_name_end(s1, q + 2) {
            Some(e) => {
                lemma_run_end(s1, q + 3, CharClass::Word);
                lemma_entity_id_tail_end(s1, e);
                lemma_local_run(s1, s2, hi, q + 3, CharClass::Word);
                lemma_local_entity_id_tail(s1, s2, hi, e);
                lemma_agree_subrange(s1, s2, hi, q + 2, e);
            },
            None => {},
        }
    }
}

/// A type is read alike in both texts where it ends before `hi`, no `':'`
/// follows it, the patterns are plain and the character before `hi` is a
/// fence. It starts with another character than `'/'`.
pub proof fn lemma_local_type(
    types: Seq<UserTypeView>,
    s1: Seq<char>,
    s2: Seq<char>,
    hi: int,
    t: int,
)
    requires
        agree(s1, s2, hi),
        plain_patterns(types),
        0 <= t < hi,
        is_fence(s1[hi - 1]),
        type_at(types, s1, t) matches Some((_, e)) && e < hi && s1[e] != ':',
    ensures
        type_at(types, s2, t) == type_at(types, s1, t),
        s1[t] != '/',
{
    reveal(type_at);
    lemma_local_builtin(s1, s2, hi, t);
    lemma_local_user_type(types, s1, s2, hi, t, 0);
    if builtin_at(s1, t) is None && user_type_at(types, s1, t) is None {
        let q = type_name_end(s1, t)->0;
        lemma_run_end(s1, t + 1, CharClass::Word);
        lemma_entity_id_tail_end(s1, q);
        lemma_local_run(s1, s2, hi, t + 1, CharClass::Word);
        lemma_local_entity_id_tail(s1, s2, hi, q);
        lemma_agree_subrange(s1, s2, hi, t, q);
    }
}

/// A field is read alike in both texts where it ends before `hi` and no
/// `':'` follows it.
pub proof fn lemma_local_field(
    types: Seq<UserTypeView>,
    s1: Seq<char>,
    s2: Seq<char>,
    hi: int,
    p: int,
)
    requires
        agree(s1, s2, hi),
        plain_patterns(types),
        0 <= p < hi,
        is_fence(s1[hi - 1]),
        field_at(types, s1, p) matches Some((_, e)) && e < hi && s1[e] != ':',
    ensures
        field_at(types, s2, p) == field_at(types, s1, p),
{
    let n = ident_end(s1, p)->0;
    lemma_run_end(s1, p + 1, CharClass::Word);
    lemma_trivia_end(s1, n);
    let c = trivia_end(s1, n);
    lemma_trivia_end(s1, c + 1);
    let t = trivia_end(s1, c + 1);
    lemma_type_end(types, s1, t);
    lemma_local_ident(s1, s2, hi, p);
    lemma_local_trivia(s1, s2, hi, n);
    lemma_local_type(types, s1, s2, hi, t);
    lemma_local_trivia(s1, s2, hi, c + 1);
    lemma_agree_subrange(s1, s2, hi, p, n);
}

/// The rest of a list of fields is read alike in both texts where the
/// delimiter that closes the list stands before `hi`.
pub proof fn lemma_local_fields_more(
    types: Seq<UserTypeView>,
    s1: Seq<char>,
    s2: Seq<char>,
    hi: int,
    q: int,
    close: char,
)
    requires
        agree(s1, s2, hi),
        plain_patterns(types),
        0 <= q <= s1.len(),
        is_fence(s1[hi - 1]),
        close == ')' || close == '}',
        trivia_end(s1, fields_more(types, s1, q).1) < hi,
        s1[trivia_end(s1, fields_more(types, s1, q).1)] == close,
    ensures
        fields_more(types, s2, q) == fields_more(types, s1, q),
    decreases hi - q,
{
    lemma_trivia_end(s1, q);
    let c = trivia_end(s1, q);
    let end = fields_more(types, s1, q).1;
    lemma_fields_more_end(types, s1, q);
    lemma_trivia_end(s1, end);
    if char_at(s1, c, ',') {
        lemma_trivia_end(s1, c + 1);
        let t = trivia_end(s1, c + 1);
        lemma_field_end(types, s1, t);
        match field_at(types, s1, t) {
            Some((field, e)) => {
                lemma_fields_more_end(types, s1, e);
                lemma_trivia_end(s1, e);
                lemma_trivia_end(s1, fields_more(types, s1, e).1);
                lemma_local_trivia(s1, s2, hi, q);
                lemma_local_field(types, s1, s2, hi, t);
                lemma_local_trivia(s1, s2, hi, c + 1);
                lemma_local_fields_more(types, s1, s2, hi, e, close);
            },
            None => {
                lemma_local_trivia(s1, s2, hi, q);
                lemma_local_trivia(s1, s2, hi, c + 1);
            },
        }
    } else {
        lemma_local_trivia(s1, s2, hi, q);
    }
}

/// A list of fields in delimiters is read alike in both texts where it
/// ends before `hi`.
pub proof fn lemma_local_field_list(
    types: Seq<UserTypeView>,
    s1: Seq<char>,
    s2: Seq<char>,
    hi: int,
    p: int,
    open: char,
    close: char,
)
    requires
        agree(s1, s2, hi),
        plain_patterns(types),
        0 <= p < hi,
        is_fence(s1[hi - 1]),
        close == ')' || close == '}',
        field_list_at(types, s1, p, open, close) matches Some((_, e)) && e <= hi,
    ensures
        field_list_at(types, s2, p, open, close) == field_list_at(types, s1, p, open, close),
{
    lemma_trivia_end(s1, p + 1);
    let t = trivia_end(s1, p + 1);
    lemma_fields_end(types, s1, p + 1);
    let q = fields_at(types, s1, p + 1).1;
    lemma_trivia_end(s1, q);
    lemma_field_end(types, s1, t);
    match field_at(types, s1, t) {
        Some((field, e)) => {
            lemma_fields_more_end(types, s1, e);
            lemma_trivia_end(s1, e);
            lemma_local_field(types, s1, s2, hi, t);
            lemma_local_trivia(s1, s2, hi, p + 1);
            lemma_local_fields_more(types, s1, s2, hi, e, close);
            lemma_local_trivia(s1, s2, hi, q);
        },
        None => {
            lemma_local_trivia(s1, s2, hi, p + 1);
        },
    }
}

/// The start of a declaration is read alike in both texts where its name
/// ends before `hi`.
pub proof fn lemma_local_named(s1: Seq<char>, s2: Seq<char>, hi: int, p: int, kw: Seq<char>)
    requires
        agree(s1, s2, hi),
        0 <= p < hi,
        named_at(s1, p, kw) matches Some((_, ne)) && ne < hi,
    ensures
        named_at(s2, p, kw) == named_at(s1, p, kw),
{
    lemma_after_pub(s1, p);
    let a = after_pub(s1, p);
    let e = keyword_end(s1, a, kw)->0;
    lemma_run_end(s1, a + 1, CharClass::Word);
    lemma_trivia_end(s1, e);
    let n = trivia_end(s1, e);
    let ne = ident_end(s1, n)->0;
    lemma_run_end(s1, n + 1, CharClass::Word);
    match keyword_end(s1, p, "pub"@) {
        Some(pe) => {
            lemma_run_end(s1, p + 1, CharClass::Word);
            lemma_trivia_end(s1, pe);
            lemma_local_keyword(s1, s2, hi, p, "pub"@);
            lemma_local_trivia(s1, s2, hi, pe);
        },
        None => {
            lemma_local_keyword(s1, s2, hi, p, "pub"@);
        },
    }
    lemma_local_keyword(s1, s2, hi, a, kw);
    lemma_local_trivia(s1, s2, hi, e);
    lemma_local_ident(s1, s2, hi, n);
    lemma_agree_subrange(s1, s2, hi, n, ne);
}

/// What a procedure returns is read alike in both texts where the body's
/// opening brace stands before `hi`.
pub proof fn lemma_local_return_type(
    types: Seq<UserTypeView>,
    s1: Seq<char>,
    s2: Seq<char>,
    hi: int,
    q: int,
)
    requires
        agree(s1, s2, hi),
        plain_patterns(types),
        0 <= q <= s1.len(),
        is_fence(s1[hi - 1]),
        trivia_end(s1, return_type_at(types, s1, q).1) < hi,
        s1[trivia_end(s1, return_type_at(types, s1, q).1)] == '{',
    ensures
        return_type_at(types, s2, q) == return_type_at(types, s1, q),
{
    lemma_trivia_end(s1, q);
    let a = trivia_end(s1, q);
    if pair_at(s1, a, '-', '>') {
        lemma_trivia_end(s1, a + 2);
        let t = trivia_end(s1, a + 2);
        lemma_type_end(types, s1, t);
        match type_at(types, s1, t) {
            Some((ty, e)) => {
                lemma_trivia_end(s1, e);
                lemma_local_trivia(s1, s2, hi, q);
                lemma_local_type(types, s1, s2, hi, t);
                lemma_local_trivia(s1, s2, hi, a + 2);
            },
            None => {},
        }
    } else {
        lemma_local_trivia(s1, s2, hi, q);
    }
}

/// A signature is read alike in both texts where the body's opening brace
/// stands before `hi`.
pub proof fn lemma_local_rpc_head(
    types: Seq<UserTypeView>,
    s1: Seq<char>,
    s2: Seq<char>,
    hi: int,
    p: int,
)
    requires
        agree(s1, s2, hi),
        plain_patterns(types),
        0 <= p < hi,
        is_fence(s1[hi - 1]),
        rpc_head_at(types, s1, p) matches Some((_, r)) && trivia_end(s1, r) < hi && s1[trivia_end(
            s1,
            r,
        )] == '{',
    ensures
        rpc_head_at(types, s2, p) == rpc_head_at(types, s1, p),
        rpc_head_at(types, s1, p) matches Some((_, r)) ==> trivia_end(s2, r) == trivia_end(s1, r),
{
    lemma_named_end(s1, p, "fn"@);
    let ne = (named_at(s1, p, "fn"@)->0).1;
    lemma_trivia_end(s1, ne);
    let o = trivia_end(s1, ne);
    lemma_field_list_end(types, s1, o, '(', ')');
    let e = (field_list_at(types, s1, o, '(', ')')->0).1;
    lemma_return_type_end(types, s1, e);
    let r = return_type_at(types, s1, e).1;
    lemma_trivia_end(s1, r);
    lemma_local_named(s1, s2, hi, p, "fn"@);
    lemma_local_trivia(s1, s2, hi, ne);
    lemma_local_field_list(types, s1, s2, hi, o, '(', ')');
    lemma_local_return_type(types, s1, s2, hi, e);
    lemma_local_trivia(s1, s2, hi, r);
}

/// An annotation that ends at or before `hi` is read alike in both texts.
pub proof fn lemma_local_attr(s1: Seq<char>, s2: Seq<char>, hi: int, p: int)
    requires
        agree(s1, s2, hi),
        0 <= p,
        attr_end(s1, p) matches Some(e) && e <= hi,
    ensures
        attr_end(s2, p) == attr_end(s1, p),
{
    lemma_run_end(s1, p + 2, CharClass::NotBracket);
    lemma_local_run(s1, s2, hi, p + 2, CharClass::NotBracket);
}

/// A record is read alike in both texts where it ends at `hi`.
pub proof fn lemma_local_dto(
    types: Seq<UserTypeView>,
    s1: Seq<char>,
    s2: Seq<char>,
    hi: int,
    p: int,
)
    requires
        agree(s1, s2, hi),
        plain_patterns(types),
        0 <= p,
        dto_at(types, s1, p) matches Some((_, e)) && e == hi,
    ensures
        dto_at(types, s2, p) == dto_at(types, s1, p),
{
    let a = after_attr(s1, p);
    match attr_end(s1, p) {
        Some(ae) => {
            lemma_run_end(s1, p + 2, CharClass::NotBracket);
            lemma_trivia_end(s1, ae);
        },
        None => {},
    }
    lemma_named_end(s1, a, "struct"@);
    let ne = (named_at(s1, a, "struct"@)->0).1;
    lemma_trivia_end(s1, ne);
    let o = trivia_end(s1, ne);
    lemma_field_list_end(types, s1, o, '{', '}');
    lemma_named_start(s1, a, "struct"@);
    match attr_end(s1, p) {
        Some(ae) => {
            lemma_local_attr(s1, s2, hi, p);
            lemma_local_trivia(s1, s2, hi, ae);
        },
        None => {
            assert(attr_end(s2, p) is None);
        },
    }
    lemma_local_named(s1, s2, hi, a, "struct"@);
    lemma_local_trivia(s1, s2, hi, ne);
    lemma_local_field_list(types, s1, s2, hi, o, '{', '}');
}

/// A number that ends before `hi` is read alike in both texts.
pub proof fn lemma_local_number(s1: Seq<char>, s2: Seq<char>, hi: int, p: int)
    requires
        agree(s1, s2, hi),
        0 <= p,
        number_at(s1, p) matches Some((_, e)) && e < hi,
    ensures
        number_at(s2, p) == number_at(s1, p),
{
    lemma_run_end(s1, p, CharClass::Digit);
    lemma_local_run(s1, s2, hi, p, CharClass::Digit);
    lemma_agree_subrange(s1, s2, hi, p, run_end(s1, p, CharClass::Digit));
}

/// An enumeration variant is read alike in both texts where a `','` or the
/// closing brace follows it before `hi`.
pub proof fn lemma_local_enum_value(s1: Seq<char>, s2: Seq<char>, hi: int, p: int)
    requires
        agree(s1, s2, hi),
        0 <= p,
        enum_value_at(s1, p) matches Some((_, e)) && trivia_end(s1, e) < hi && (s1[trivia_end(
            s1,
            e,
        )] == ',' || s1[trivia_end(s1, e)] == '}'),
    ensures
        enum_value_at(s2, p) == enum_value_at(s1, p),
{
    let n = ident_end(s1, p)->0;
    lemma_run_end(s1, p + 1, CharClass::Word);
    lemma_trivia_end(s1, n);
    let c = trivia_end(s1, n);
    let e = (enum_value_at(s1, p)->0).1;
    lemma_enum_value_end(s1, p);
    lemma_trivia_end(s1, e);
    if char_at(s1, c, '=') {
        lemma_trivia_end(s1, c + 1);
        let t = trivia_end(s1, c + 1);
        match number_at(s1, t) {
            Some((v, ve)) => {
                lemma_run_end(s1, t, CharClass::Digit);
                lemma_local_ident(s1, s2, hi, p);
                lemma_local_trivia(s1, s2, hi, n);
                lemma_local_trivia(s1, s2, hi, c + 1);
                lemma_local_number(s1, s2, hi, t);
            },
            None => {},
        }
    } else {
        lemma_local_ident(s1, s2, hi, p);
        lemma_local_trivia(s1, s2, hi, n);
    }
    lemma_agree_subrange(s1, s2, hi, p, n);
}

/// The rest of a list of variants is read alike in both texts where the
/// closing brace of the list stands before `hi`.
pub proof fn lemma_local_enum_values_more(s1: Seq<char>, s2: Seq<char>, hi: int, q: int)
    requires
        agree(s1, s2, hi),
        0 <= q <= s1.len(),
        trivia_end(s1, enum_values_more(s1, q).1) < hi,
        s1[trivia_end(s1, enum_values_more(s1, q).1)] == '}',
    ensures
        enum_values_more(s2, q) == enum_values_more(s1, q),
    decreases hi - q,
{
    lemma_trivia_end(s1, q);
    let c = trivia_end(s1, q);
    let end = enum_values_more(s1, q).1;
    lemma_enum_values_more_end(s1, q);
    lemma_trivia_end(s1, end);
    if char_at(s1, c, ',') {
        lemma_trivia_end(s1, c + 1);
        let t = trivia_end(s1, c + 1);
        lemma_enum_value_end(s1, t);
        match enum_value_at(s1, t) {
            Some((value, e)) => {
                lemma_enum_values_more_end(s1, e);
                lemma_trivia_end(s1, e);
                lemma_trivia_end(s1, enum_values_more(s1, e).1);
                lemma_enum_list_next(s1, e);
                lemma_local_trivia(s1, s2, hi, q);
                lemma_local_enum_value(s1, s2, hi, t);
                lemma_local_trivia(s1, s2, hi, c + 1);
                lemma_local_enum_values_more(s1, s2, hi, e);
            },
            None => {
                lemma_local_trivia(s1, s2, hi, q);
                lemma_local_trivia(s1, s2, hi, c + 1);
            },
        }
    } else {
        lemma_local_trivia(s1, s2, hi, q);
    }
}

/// An enumeration is read alike in both texts where it ends at or before
/// `hi`.
pub proof fn lemma_local_enum(s1: Seq<char>, s2: Seq<char>, hi: int, p: int)
    requires
        agree(s1, s2, hi),
        0 <= p,
        enum_at(s1, p) matches Some((_, e)) && e <= hi,
    ensures
        enum_at(s2, p) == enum_at(s1, p),
{
    lemma_named_end(s1, p, "enum"@);
    let ne = (named_at(s1, p, "enum"@)->0).1;
    lemma_trivia_end(s1, ne);
    let o = trivia_end(s1, ne);
    lemma_trivia_end(s1, o + 1);
    let t = trivia_end(s1, o + 1);
    lemma_enum_values_end(s1, o + 1);
    let q = enum_values_at(s1, o + 1).1;
    lemma_trivia_end(s1, q);
    lemma_enum_value_end(s1, t);
    lemma_local_named(s1, s2, hi, p, "enum"@);
    lemma_local_trivia(s1, s2, hi, ne);
    match enum_value_at(s1, t) {
        Some((value, e)) => {
            lemma_enum_values_more_end(s1, e);
            lemma_trivia_end(s1, e);
            lemma_enum_list_next(s1, e);
            lemma_local_enum_values_more(s1, s2, hi, e);
            lemma_local_enum_value(s1, s2, hi, t);
            lemma_local_trivia(s1, s2, hi, o + 1);
            lemma_local_trivia(s1, s2, hi, q);
        },
        None => {
            lemma_local_trivia(s1, s2, hi, o + 1);
        },
    }
}

/// A stretch before `hi` is trimmed alike in both texts.
pub proof fn lemma_local_trimmed(s1: Seq<char>, s2: Seq<char>, hi: int, from: int, to: int)
    requires
        agree(s1, s2, hi),
        0 <= from <= to <= hi,
    ensures
        trimmed(s2, from, to) == trimmed(s1, from, to),
{
    lemma_local_trim(s1, s2, hi, from, to);
    let a = trim_start(s1, from, to);
    lemma_trim(s1, from, to);
    lemma_local_trim(s1, s2, hi, a, to);
    lemma_trim(s1, a, to);
    lemma_agree_subrange(s1, s2, hi, a, trim_end(s1, a, to));
}

/// The two ends of a trimmed stretch before `hi` are the same in both
/// texts.
proof fn lemma_local_trim(s1: Seq<char>, s2: Seq<char>, hi: int, from: int, to: int)
    requires
        agree(s1, s2, hi),
        0 <= from <= to <= hi,
    ensures
        trim_start(s2, from, to) == trim_start(s1, from, to),
        trim_end(s2, from, to) == trim_end(s1, from, to),
    decreases to - from,
{
    if from < to {
        if is_space(s1[from]) {
            lemma_local_trim(s1, s2, hi, from + 1, to);
        }
        if is_space(s1[to - 1]) {
            lemma_local_trim(s1, s2, hi, from, to - 1);
        }
    }
}

/// Body text ends at the same place in both texts where what ends it
/// stands before `hi`.
pub proof fn lemma_local_body(s1: Seq<char>, s2: Seq<char>, hi: int, p: int)
    requires
        agree(s1, s2, hi),
        0 <= p,
        body_end(s1, p) < hi,
        s1[body_end(s1, p)] == '/' ==> body_end(s1, p) + 1 < hi,
    ensures
        body_end(s2, p) == body_end(s1, p),
    decreases hi - p,
{
    lemma_body_end(s1, p);
    lemma_body_stop(s1, p);
    let b = body_end(s1, p);
    if p <= s1.len() {
        assert(s1[p] == s2[p]);
        if p < b {
            assert(s1[p + 1] == s2[p + 1]);
            assert(body_end(s1, p) == body_end(s1, p + 1));
            lemma_local_body(s1, s2, hi, p + 1);
            assert(body_end(s2, p) == body_end(s2, p + 1));
        } else {
            if s1[p] == '/' {
                assert(s1[p + 1] == s2[p + 1]);
            }
            assert(body_end(s2, p) == p);
        }
    }
}

/// The pieces of a block are read alike in both texts where the block
/// ends at or before `hi`.
pub proof fn lemma_local_block_items(s1: Seq<char>, s2: Seq<char>, hi: int, q: int)
    requires
        agree(s1, s2, hi),
        0 <= q <= s1.len(),
        block_items(s1, q) matches Some((_, e)) && e <= hi,
    ensures
        block_items(s2, q) == block_items(s1, q),
    decreases hi - q,
{
    lemma_run_end(s1, q, CharClass::Space);
    let c = run_end(s1, q, CharClass::Space);
    lemma_block_first(s1, q);
    lemma_local_run(s1, s2, hi, q, CharClass::Space);
    assert(s1[c] == s2[c]);
    if s1[c] == '}' {
    } else if s1[c] == '{' {
        lemma_block_first(s1, c + 1);
        let e = (block_items(s1, c + 1)->0).1;
        lemma_block_first(s1, e);
        lemma_local_block_items(s1, s2, hi, c + 1);
        lemma_local_block_items(s1, s2, hi, e);
    } else {
        match comment_at(s1, c) {
            Some((text, e)) => {
                lemma_comment_span(s1, c);
                lemma_block_first(s1, e);
                lemma_local_comment(s1, s2, hi, c);
                let ce = (comment_span(s1, c)->0).0;
                lemma_local_trimmed(s1, s2, hi, c + 2, ce);
                lemma_local_block_items(s1, s2, hi, e);
            },
            None => {
                let b = body_end(s1, c);
                lemma_body_end(s1, c);
                lemma_block_first(s1, b);
                lemma_run_end(s1, b, CharClass::Space);
                if s1[b] == '/' {
                    lemma_body_stop(s1, c);
                    lemma_slash_in_block(s1, b);
                }
                lemma_local_body(s1, s2, hi, c);
                lemma_local_trimmed(s1, s2, hi, c, b);
                lemma_local_block_items(s1, s2, hi, b);
                assert(s1[c + 1] == s2[c + 1]);
                assert(comment_span(s2, c) is None);
            },
        }
    }
}

/// A procedure is read alike in both texts where it ends at or before
/// `hi`.
pub proof fn lemma_local_rpc(
    types: Seq<UserTypeView>,
    s1: Seq<char>,
    s2: Seq<char>,
    hi: int,
    p: int,
)
    requires
        agree(s1, s2, hi),
        plain_patterns(types),
        0 <= p,
        rpc_at(types, s1, p) matches Some((_, e)) && e <= hi,
    ensures
        rpc_at(types, s2, p) == rpc_at(types, s1, p),
{
    lemma_rpc_head_end(types, s1, p);
    let r = (rpc_head_at(types, s1, p)->0).1;
    lemma_trivia_end(s1, r);
    let b = trivia_end(s1, r);
    lemma_block_items(s1, b + 1);
    lemma_local_rpc_head(types, s1, s2, b + 1, p);
    lemma_local_block_items(s1, s2, hi, b + 1);
}

/// A namespace is read alike in both texts where it ends at or before
/// `hi`.
pub proof fn lemma_local_namespace(
    types: Seq<UserTypeView>,
    s1: Seq<char>,
    s2: Seq<char>,
    hi: int,
    p: int,
)
    requires
        agree(s1, s2, hi),
        plain_patterns(types),
        0 <= p,
        namespace_at(types, s1, p) matches Some((_, e)) && e <= hi,
    ensures
        namespace_at(types, s2, p) == namespace_at(types, s1, p),
    decreases hi - p, 0nat,
{
    lemma_namespace_shape(types, s1, p);
    let ne = (named_at(s1, p, "mod"@)->0).1;
    let c = trivia_end(s1, ne);
    lemma_local_named(s1, s2, hi, p, "mod"@);
    lemma_local_trivia(s1, s2, hi, ne);
    assert(s1[c] == s2[c]);
    if !char_at(s1, c, ';') {
        let q = children_at(types, s1, c + 1).1;
        lemma_local_children(types, s1, s2, hi, c + 1);
        lemma_local_trivia(s1, s2, hi, q);
        let d = trivia_end(s1, q);
        assert(s1[d] == s2[d]);
    }
}

/// A declaration is read alike in both texts where it ends at or before
/// `hi`.
pub proof fn lemma_local_child(
    types: Seq<UserTypeView>,
    s1: Seq<char>,
    s2: Seq<char>,
    hi: int,
    p: int,
)
    requires
        agree(s1, s2, hi),
        plain_patterns(types),
        0 <= p,
        child_at(types, s1, p) matches Some((_, e)) && e <= hi,
    ensures
        child_at(types, s2, p) == child_at(types, s1, p),
    decreases hi - p, 1nat,
{
    lemma_keywords_differ();
    match dto_at(types, s1, p) {
        Some((dto, e)) => {
            lemma_local_dto(types, s1, s2, e, p);
        },
        None => match rpc_at(types, s1, p) {
            Some((rpc, e)) => {
                lemma_local_rpc(types, s1, s2, hi, p);
                lemma_only_keyword(s2, p, "fn"@, "struct"@);
            },
            None => match enum_at(s1, p) {
                Some((en, e)) => {
                    lemma_local_enum(s1, s2, hi, p);
                    lemma_only_keyword(s2, p, "enum"@, "struct"@);
                    lemma_only_keyword(s2, p, "enum"@, "fn"@);
                },
                None => {
                    lemma_local_namespace(types, s1, s2, hi, p);
                    lemma_only_keyword(s2, p, "mod"@, "struct"@);
                    lemma_only_keyword(s2, p, "mod"@, "fn"@);
                    lemma_only_keyword(s2, p, "mod"@, "enum"@);
                },
            },
        },
    }
}

/// The declarations of a block are read alike in both texts where the
/// closing brace of the block stands before `hi`.
pub proof fn lemma_local_children(
    types: Seq<UserTypeView>,
    s1: Seq<char>,
    s2: Seq<char>,
    hi: int,
    p: int,
)
    requires
        agree(s1, s2, hi),
        plain_patterns(types),
        0 <= p <= s1.len(),
        trivia_end(s1, children_at(types, s1, p).1) < hi,
        s1[trivia_end(s1, children_at(types, s1, p).1)] == '}',
    ensures
        children_at(types, s2, p) == children_at(types, s1, p),
    decreases hi - p, 2nat,
{
    lemma_trivia_end(s1, p);
    let t = trivia_end(s1, p);
    lemma_children_end(types, s1, p);
    lemma_trivia_end(s1, children_at(types, s1, p).1);
    match child_at(types, s1, t) {
        Some((child, e)) => {
            if t < e <= s1.len() {
                lemma_children_end(types, s1, e);
                lemma_trivia_end(s1, children_at(types, s1, e).1);
                lemma_child_start(types, s1, t);
                lemma_local_trivia(s1, s2, hi, p);
                lemma_local_child(types, s1, s2, hi, t);
                lemma_local_children(types, s1, s2, hi, e);
            } else {
                lemma_local_trivia(s1, s2, hi, p);
                lemma_no_child_at_brace(types, s1, t);
            }
        },
        None => {
            lemma_local_trivia(s1, s2, hi, p);
            assert(s1[t] == s2[t]);
            lemma_no_child_at_brace(types, s2, t);
        },
    }
}

/// A block comment that ends at or before `hi` is read alike in both
/// texts.
pub proof fn lemma_local_block_comment(s1: Seq<char>, s2: Seq<char>, hi: int, p: int)
    requires
        agree(s1, s2, hi),
        0 <= p,
        pair_at(s1, p, '/', '*'),
        comment_span(s1, p) matches Some((_, e)) && e <= hi,
    ensures
        comment_span(s2, p) == comment_span(s1, p),
{
    lemma_comment_span(s1, p);
    lemma_local_close(s1, s2, hi, p + 2);
}

/// The path of an import is read alike in both texts where the `';'` that
/// ends the import stands before `hi`.
proof fn lemma_local_use_path(s1: Seq<char>, s2: Seq<char>, hi: int, q: int)
    requires
        agree(s1, s2, hi),
        0 <= q <= s1.len(),
        trivia_end(s1, use_path_end(s1, q)) < hi,
        s1[trivia_end(s1, use_path_end(s1, q))] == ';',
    ensures
        use_path_end(s2, q) == use_path_end(s1, q),
    decreases hi - q,
{
    lemma_trivia_end(s1, q);
    let a = trivia_end(s1, q);
    lemma_use_path_bounds(s1, q);
    lemma_trivia_end(s1, use_path_end(s1, q));
    if pair_at(s1, a, ':', ':') {
        lemma_trivia_end(s1, a + 2);
        let n = trivia_end(s1, a + 2);
        match ident_end(s1, n) {
            Some(e) => {
                lemma_run_end(s1, n + 1, CharClass::Word);
                lemma_use_path_bounds(s1, e);
                lemma_trivia_end(s1, use_path_end(s1, e));
                lemma_local_trivia(s1, s2, hi, q);
                assert(s1[a + 1] == s2[a + 1]);
                lemma_local_trivia(s1, s2, hi, a + 2);
                lemma_local_ident(s1, s2, hi, n);
                lemma_local_use_path(s1, s2, hi, e);
            },
            None => {},
        }
    } else {
        lemma_local_trivia(s1, s2, hi, q);
        assert(s1[a] == s2[a]);
    }
}

/// An import is read alike in both texts where it ends at or before `hi`.
pub proof fn lemma_local_use(s1: Seq<char>, s2: Seq<char>, hi: int, p: int)
    requires
        agree(s1, s2, hi),
        0 <= p,
        use_end(s1, p) matches Some(e) && e <= hi,
    ensures
        use_end(s2, p) == use_end(s1, p),
{
    lemma_named_end(s1, p, "use"@);
    let q = (named_at(s1, p, "use"@)->0).1;
    lemma_use_path_bounds(s1, q);
    let r = use_path_end(s1, q);
    lemma_trivia_end(s1, r);
    lemma_local_named(s1, s2, hi, p, "use"@);
    lemma_local_use_path(s1, s2, hi, q);
    lemma_local_trivia(s1, s2, hi, r);
    assert(s1[trivia_end(s1, r)] == s2[trivia_end(s1, r)]);
}

} // verus!
