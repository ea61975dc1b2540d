//! The grammar reads alike wherever a text stands: every rule gives at `p + k` in
//! a text what it gives at `p` in the text without its first `k` characters.
use crate::parser::block::{block_at, block_items, body_end};
use crate::parser::bounds::{
    lemma_after_pub, lemma_children_end, lemma_enum_value_end, lemma_enum_values_end,
    lemma_field_end, lemma_field_list_end, lemma_fields_end, lemma_named_end, lemma_rpc_head_end,
};
use crate::parser::chars::{in_class, is_space, lemma_run_end, run_end, CharClass};
use crate::parser::config::UserTypeView;
use crate::parser::decl::{
    after_attr, after_pub, child_at, children_at, dto_at, enum_at, enum_value_at, enum_values_at,
    enum_values_more, field_at, field_list_at, fields_at, fields_more, named_at, namespace_at,
    return_type_at, rpc_at, rpc_head_at,
};
use crate::parser::lexical::{
    attr_end, char_at, close_at, comment_at, comment_end, comment_span, ident_end, keyword_end,
    lemma_comment_span, lemma_trim, lemma_trivia_end, literal_end, number_at, pair_at, trim_end,
    trim_start, trimmed, trivia_end,
};
use crate::parser::rust::{imports_end, use_end, use_path_end};
use crate::parser::types::{
    base_name, builtin_at, entity_id_at, entity_id_tail, first_base, type_at, type_name_end,
    user_type_from, BASE_TYPES,
};
use vstd::prelude::*;

verus! {

/// An end position, `k` characters further on.
pub open spec fn moved(r: Option<int>, k: int) -> Option<int> {
    match r {
        Some(e) => Some(e + k),
        None => None,
    }
}

/// What was read, and its end `k` characters further on.
pub open spec fn moved_with<T>(r: Option<(T, int)>, k: int) -> Option<(T, int)> {
    match r {
        Some((v, e)) => Some((v, e + k)),
        None => None,
    }
}

/// The list that was read, and its end `k` characters further on.
pub open spec fn moved_list<T>(r: (Seq<T>, int), k: int) -> (Seq<T>, int) {
    (r.0, r.1 + k)
}

/// A stretch of a text is the same stretch of the text without its first
/// `k` characters, `k` positions earlier.
pub proof fn lemma_shift_subrange(s: Seq<char>, k: int, a: int, b: int)
    requires
        0 <= k <= s.len(),
        0 <= a <= b <= s.len() - k,
    ensures
        s.subrange(a + k, b + k) == s.skip(k).subrange(a, b),
{
    assert(s.subrange(a + k, b + k) =~= s.skip(k).subrange(a, b));
}

/// A character reads alike at `p + k` in `s` and at `p` in `s` without its first
/// `k` characters.
pub proof fn lemma_shift_char(s: Seq<char>, k: int, p: int, c: char)
    requires
        0 <= k <= s.len(),
        0 <= p,
    ensures
        char_at(s, p + k, c) == char_at(s.skip(k), p, c),
{
}

/// A pair of characters reads alike at `p + k` in `s` and at `p` in `s` without its first
/// `k` characters.
pub proof fn lemma_shift_pair(s: Seq<char>, k: int, p: int, a: char, b: char)
    requires
        0 <= k <= s.len(),
        0 <= p,
    ensures
        pair_at(s, p + k, a, b) == pair_at(s.skip(k), p, a, b),
{
}

/// A run of characters reads alike at `p + k` in `s` and at `p` in `s` without its first
/// `k` characters.
pub proof fn lemma_shift_run(s: Seq<char>, k: int, p: int, class: CharClass)
    requires
        0 <= k <= s.len(),
        0 <= p,
    ensures
        run_end(s, p + k, class) == run_end(s.skip(k), p, class) + k,
    decreases s.len() - k - p,
{
    let u = s.skip(k);
    if p < u.len() && in_class(u[p], class) {
        lemma_shift_run(s, k, p + 1, class);
    }
}

/// A literal reads alike at `p + k` in `s` and at `p` in `s` without its first
/// `k` characters.
pub proof fn lemma_shift_literal(s: Seq<char>, k: int, p: int, lit: Seq<char>)
    requires
        0 <= k <= s.len(),
        0 <= p,
    ensures
        literal_end(s, p + k, lit) == moved(literal_end(s.skip(k), p, lit), k),
{
    let u = s.skip(k);
    if p + lit.len() <= u.len() {
        lemma_shift_subrange(s, k, p, p + lit.len());
    }
}

/// An identifier reads alike at `p + k` in `s` and at `p` in `s` without its first
/// `k` characters.
pub proof fn lemma_shift_ident(s: Seq<char>, k: int, p: int)
    requires
        0 <= k <= s.len(),
        0 <= p,
    ensures
        ident_end(s, p + k) == moved(ident_end(s.skip(k), p), k),
{
    lemma_shift_run(s, k, p + 1, CharClass::Word);
}

/// A keyword reads alike at `p + k` in `s` and at `p` in `s` without its first
/// `k` characters.
pub proof fn lemma_shift_keyword(s: Seq<char>, k: int, p: int, kw: Seq<char>)
    requires
        0 <= k <= s.len(),
        0 <= p,
    ensures
        keyword_end(s, p + k, kw) == moved(keyword_end(s.skip(k), p, kw), k),
{
    lemma_shift_ident(s, k, p);
    let u = s.skip(k);
    match ident_end(u, p) {
        Some(q) => {
            lemma_run_end(u, p + 1, CharClass::Word);
            lemma_shift_subrange(s, k, p, q);
        },
        None => {},
    }
}

/// The end of a block comment reads alike at `p + k` in `s` and at `p` in `s` without its first
/// `k` characters.
pub proof fn lemma_shift_close(s: Seq<char>, k: int, p: int)
    requires
        0 <= k <= s.len(),
        0 <= p,
    ensures
        close_at(s, p + k) == moved(close_at(s.skip(k), p), k),
    decreases s.len() - k - p,
{
    let u = s.skip(k);
    if p + 2 <= u.len() && !(u[p] == '*' && u[p + 1] == '/') {
        lemma_shift_close(s, k, p + 1);
    }
}

/// The extent of a comment reads alike at `p + k` in `s` and at `p` in `s` without its first
/// `k` characters.
pub proof fn lemma_shift_comment_span(s: Seq<char>, k: int, p: int)
    requires
        0 <= k <= s.len(),
        0 <= p,
    ensures
        comment_span(s, p + k) == match comment_span(s.skip(k), p) {
            Some((c, e)) => Some((c + k, e + k)),
            None => None,
        },
        comment_end(s, p + k) == moved(comment_end(s.skip(k), p), k),
{
    lemma_shift_pair(s, k, p, '/', '/');
    lemma_shift_pair(s, k, p, '/', '*');
    lemma_shift_run(s, k, p + 2, CharClass::NotNewline);
    lemma_shift_close(s, k, p + 2);
}

/// The ends of a trimmed stretch reads alike at `p + k` in `s` and at `p` in `s` without its first
/// `k` characters.
pub proof fn lemma_shift_trim(s: Seq<char>, k: int, from: int, to: int)
    requires
        0 <= k <= s.len(),
        0 <= from <= to <= s.len() - k,
    ensures
        trim_start(s, from + k, to + k) == trim_start(s.skip(k), from, to) + k,
        trim_end(s, from + k, to + k) == trim_end(s.skip(k), from, to) + k,
    decreases to - from,
{
    let u = s.skip(k);
    if from < to {
        if is_space(u[from]) {
            lemma_shift_trim(s, k, from + 1, to);
        }
        if is_space(u[to - 1]) {
            lemma_shift_trim(s, k, from, to - 1);
        }
    }
}

/// A trimmed stretch reads alike at `p + k` in `s` and at `p` in `s` without its first
/// `k` characters.
pub proof fn lemma_shift_trimmed(s: Seq<char>, k: int, from: int, to: int)
    requires
        0 <= k <= s.len(),
        0 <= from <= to <= s.len() - k,
    ensures
        trimmed(s, from + k, to + k) == trimmed(s.skip(k), from, to),
{
    let u = s.skip(k);
    lemma_shift_trim(s, k, from, to);
    let a = trim_start(u, from, to);
    lemma_trim(u, from, to);
    lemma_shift_trim(s, k, a, to);
    lemma_trim(u, a, to);
    lemma_shift_subrange(s, k, a, trim_end(u, a, to));
}

/// A comment reads alike at `p + k` in `s` and at `p` in `s` without its first
/// `k` characters.
pub proof fn lemma_shift_comment(s: Seq<char>, k: int, p: int)
    requires
        0 <= k <= s.len(),
        0 <= p,
    ensures
        comment_at(s, p + k) == moved_with(comment_at(s.skip(k), p), k),
{
    let u = s.skip(k);
    lemma_shift_comment_span(s, k, p);
    lemma_comment_span(u, p);
    match comment_span(u, p) {
        Some((c, e)) => {
            lemma_shift_trimmed(s, k, p + 2, c);
        },
        None => {},
    }
}

/// The next token reads alike at `p + k` in `s` and at `p` in `s` without its first
/// `k` characters.
pub proof fn lemma_shift_trivia(s: Seq<char>, k: int, p: int)
    requires
        0 <= k <= s.len(),
        0 <= p,
    ensures
        trivia_end(s, p + k) == trivia_end(s.skip(k), p) + k,
    decreases s.len() - k - p,
{
    let u = s.skip(k);
    if p < u.len() {
        if is_space(u[p]) {
            lemma_shift_trivia(s, k, p + 1);
        } else {
            lemma_shift_comment_span(s, k, p);
            lemma_comment_span(u, p);
            match comment_end(u, p) {
                Some(q) => {
                    lemma_shift_trivia(s, k, q);
                },
                None => {},
            }
        }
    }
}

/// An annotation reads alike at `p + k` in `s` and at `p` in `s` without its first
/// `k` characters.
pub proof fn lemma_shift_attr(s: Seq<char>, k: int, p: int)
    requires
        0 <= k <= s.len(),
        0 <= p,
    ensures
        attr_end(s, p + k) == moved(attr_end(s.skip(k), p), k),
{
    lemma_shift_pair(s, k, p, '#', '[');
    lemma_shift_run(s, k, p + 2, CharClass::NotBracket);
}

/// A number reads alike at `p + k` in `s` and at `p` in `s` without its first
/// `k` characters.
pub proof fn lemma_shift_number(s: Seq<char>, k: int, p: int)
    requires
        0 <= k <= s.len(),
        0 <= p,
    ensures
        number_at(s, p + k) == moved_with(number_at(s.skip(k), p), k),
{
    let u = s.skip(k);
    lemma_shift_run(s, k, p, CharClass::Digit);
    let e = run_end(u, p, CharClass::Digit);
    if p <= u.len() {
        lemma_run_end(u, p, CharClass::Digit);
        lemma_shift_subrange(s, k, p, e);
    }
}

/// The first built-in spelling that matches reads alike at `p + k` in `s` and at
/// `p` in `s` without its first `k` characters.
pub proof fn lemma_shift_first_base(s: Seq<char>, k: int, p: int, n: int)
    requires
        0 <= k <= s.len(),
        0 <= p,
        0 <= n,
    ensures
        first_base(s, p + k, n) == match first_base(s.skip(k), p, n) {
            Some((i, e)) => Some((i, e + k)),
            None => None,
        },
    decreases BASE_TYPES - n,
{
    if n < BASE_TYPES {
        lemma_shift_literal(s, k, p, base_name(n));
        lemma_shift_literal(s, k, p + 1, base_name(n));
        lemma_shift_first_base(s, k, p, n + 1);
    }
}

/// A built-in type reads alike at `p + k` in `s` and at `p` in `s` without its first
/// `k` characters.
pub proof fn lemma_shift_builtin(s: Seq<char>, k: int, p: int)
    requires
        0 <= k <= s.len(),
        0 <= p,
    ensures
        builtin_at(s, p + k) == moved_with(builtin_at(s.skip(k), p), k),
{
    lemma_shift_literal(s, k, p, "bool"@);
    lemma_shift_first_base(s, k, p, 0);
    lemma_shift_literal(s, k, p, "&str"@);
    lemma_shift_literal(s, k, p, "&[u8]"@);
}

/// A user type reads alike at `p + k` in `s` and at `p` in `s` without its first
/// `k` characters.
pub proof fn lemma_shift_user_type(types: Seq<UserTypeView>, s: Seq<char>, k: int, p: int, n: int)
    requires
        0 <= k <= s.len(),
        0 <= p,
        0 <= n,
    ensures
        user_type_from(types, s, p + k, n) == moved_with(user_type_from(types, s.skip(k), p, n), k),
    decreases types.len() - n,
{
    if n < types.len() {
        lemma_shift_literal(s, k, p, types[n].parse);
        lemma_shift_user_type(types, s, k, p, n + 1);
    }
}

/// A type name reads alike at `p + k` in `s` and at `p` in `s` without its first
/// `k` characters.
pub proof fn lemma_shift_type_name(s: Seq<char>, k: int, p: int)
    requires
        0 <= k <= s.len(),
        0 <= p,
    ensures
        type_name_end(s, p + k) == moved(type_name_end(s.skip(k), p), k),
{
    lemma_shift_run(s, k, p + 1, CharClass::Word);
}

/// The segments behind a type name read alike at `p + k` in `s` and at
/// `p` in `s` without its first `k` characters.
pub proof fn lemma_shift_entity_id_tail(s: Seq<char>, k: int, q: int)
    requires
        0 <= k <= s.len(),
        0 <= q,
    ensures
        entity_id_tail(s, q + k) == moved_list(entity_id_tail(s.skip(k), q), k),
    decreases s.len() - k - q,
{
    let u = s.skip(k);
    lemma_shift_pair(s, k, q, ':', ':');
    if pair_at(u, q, ':', ':') {
        lemma_shift_type_name(s, k, q + 2);
        match type_name_end(u, q + 2) {
            Some(e) => {
                lemma_run_end(u, q + 3, CharClass::Word);
                if q < e <= u.len() {
                    lemma_shift_entity_id_tail(s, k, e);
                    lemma_shift_subrange(s, k, q + 2, e);
                }
            },
            None => {},
        }
    }
}

/// A qualified name reads alike at `p + k` in `s` and at `p` in `s` without its first
/// `k` characters.
pub proof fn lemma_shift_entity_id(s: Seq<char>, k: int, p: int)
    requires
        0 <= k <= s.len(),
        0 <= p,
    ensures
        entity_id_at(s, p + k) == moved_with(entity_id_at(s.skip(k), p), k),
{
    let u = s.skip(k);
    lemma_shift_type_name(s, k, p);
    match type_name_end(u, p) {
        Some(q) => {
            lemma_run_end(u, p + 1, CharClass::Word);
            lemma_shift_entity_id_tail(s, k, q);
            lemma_shift_subrange(s, k, p, q);
        },
        None => {},
    }
}

/// A type reads alike at `p + k` in `s` and at `p` in `s` without its first
/// `k` characters.
pub proof fn lemma_shift_type(types: Seq<UserTypeView>, s: Seq<char>, k: int, p: int)
    requires
        0 <= k <= s.len(),
        0 <= p,
    ensures
        type_at(types, s, p + k) == moved_with(type_at(types, s.skip(k), p), k),
{
    reveal(type_at);
    lemma_shift_builtin(s, k, p);
    lemma_shift_user_type(types, s, k, p, 0);
    lemma_shift_entity_id(s, k, p);
}

/// Body text reads alike at `p + k` in `s` and at `p` in `s` without its first
/// `k` characters.
pub proof fn lemma_shift_body(s: Seq<char>, k: int, p: int)
    requires
        0 <= k <= s.len(),
        0 <= p,
    ensures
        body_end(s, p + k) == body_end(s.skip(k), p) + k,
    decreases s.len() - k - p,
{
    let u = s.skip(k);
    if p < u.len() && !(u[p] == '{' || u[p] == '}' || pair_at(u, p, '/', '/') || pair_at(
        u,
        p,
        '/',
        '*',
    )) {
        lemma_shift_body(s, k, p + 1);
    }
}

/// The pieces of a block reads alike at `p + k` in `s` and at `p` in `s` without its first
/// `k` characters.
pub proof fn lemma_shift_block_items(s: Seq<char>, k: int, q: int)
    requires
        0 <= k <= s.len(),
        0 <= q,
    ensures
        block_items(s, q + k) == moved_with(block_items(s.skip(k), q), k),
    decreases s.len() - k - q,
{
    let u = s.skip(k);
    lemma_shift_run(s, k, q, CharClass::Space);
    let c = run_end(u, q, CharClass::Space);
    if q <= u.len() {
        lemma_run_end(u, q, CharClass::Space);
    }
    if q <= c < u.len() && u[c] != '}' {
        if u[c] == '{' {
            lemma_shift_block_items(s, k, c + 1);
            match block_items(u, c + 1) {
                Some((inner, e)) => {
                    if c < e <= u.len() {
                        lemma_shift_block_items(s, k, e);
                    }
                },
                None => {},
            }
        } else {
            lemma_shift_comment(s, k, c);
            match comment_at(u, c) {
                Some((text, e)) => {
                    if c < e <= u.len() {
                        lemma_shift_block_items(s, k, e);
                    }
                },
                None => {
                    lemma_shift_body(s, k, c);
                    let b = body_end(u, c);
                    if c < b <= u.len() {
                        lemma_shift_block_items(s, k, b);
                        lemma_shift_trimmed(s, k, c, b);
                    }
                },
            }
        }
    }
}

/// A block reads alike at `p + k` in `s` and at `p` in `s` without its first
/// `k` characters.
pub proof fn lemma_shift_block(s: Seq<char>, k: int, p: int)
    requires
        0 <= k <= s.len(),
        0 <= p,
    ensures
        block_at(s, p + k) == moved_with(block_at(s.skip(k), p), k),
{
    lemma_shift_block_items(s, k, p + 1);
}

/// A field reads alike at `p + k` in `s` and at `p` in `s` without its first
/// `k` characters.
pub proof fn lemma_shift_field(types: Seq<UserTypeView>, s: Seq<char>, k: int, p: int)
    requires
        0 <= k <= s.len(),
        0 <= p,
    ensures
        field_at(types, s, p + k) == moved_with(field_at(types, s.skip(k), p), k),
{
    let u = s.skip(k);
    lemma_shift_ident(s, k, p);
    match ident_end(u, p) {
        Some(n) => {
            lemma_run_end(u, p + 1, CharClass::Word);
            lemma_shift_trivia(s, k, n);
            let c = trivia_end(u, n);
            lemma_trivia_end(u, n);
            lemma_shift_trivia(s, k, c + 1);
            if c < u.len() {
                lemma_trivia_end(u, c + 1);
            }
            lemma_shift_type(types, s, k, trivia_end(u, c + 1));
            lemma_shift_subrange(s, k, p, n);
        },
        None => {},
    }
}

/// The rest of a list of fields reads alike at `p + k` in `s` and at `p` in `s` without its first
/// `k` characters.
pub proof fn lemma_shift_fields_more(types: Seq<UserTypeView>, s: Seq<char>, k: int, q: int)
    requires
        0 <= k <= s.len(),
        0 <= q,
    ensures
        fields_more(types, s, q + k) == moved_list(fields_more(types, s.skip(k), q), k),
    decreases s.len() - k - q,
{
    let u = s.skip(k);
    lemma_shift_trivia(s, k, q);
    let c = trivia_end(u, q);
    if q <= u.len() {
        lemma_trivia_end(u, q);
    }
    lemma_shift_char(s, k, c, ',');
    if char_at(u, c, ',') {
        lemma_shift_trivia(s, k, c + 1);
        lemma_trivia_end(u, c + 1);
        let t = trivia_end(u, c + 1);
        lemma_shift_field(types, s, k, t);
        match field_at(types, u, t) {
            Some((field, e)) => {
                if q < e <= u.len() {
                    lemma_shift_fields_more(types, s, k, e);
                }
            },
            None => {},
        }
    }
}

/// A list of fields reads alike at `p + k` in `s` and at `p` in `s` without its first
/// `k` characters.
pub proof fn lemma_shift_fields(types: Seq<UserTypeView>, s: Seq<char>, k: int, p: int)
    requires
        0 <= k <= s.len(),
        0 <= p <= s.len() - k,
    ensures
        fields_at(types, s, p + k) == moved_list(fields_at(types, s.skip(k), p), k),
{
    let u = s.skip(k);
    lemma_shift_trivia(s, k, p);
    lemma_trivia_end(u, p);
    let t = trivia_end(u, p);
    lemma_shift_field(types, s, k, t);
    match field_at(types, u, t) {
        Some((field, e)) => {
            lemma_field_end(types, u, t);
            lemma_shift_fields_more(types, s, k, e);
        },
        None => {},
    }
}

/// A list of fields in delimiters reads alike at `p + k` in `s` and at `p` in `s` without its first
/// `k` characters.
pub proof fn lemma_shift_field_list(
    types: Seq<UserTypeView>,
    s: Seq<char>,
    k: int,
    p: int,
    open: char,
    close: char,
)
    requires
        0 <= k <= s.len(),
        0 <= p,
    ensures
        field_list_at(types, s, p + k, open, close) == moved_with(
            field_list_at(types, s.skip(k), p, open, close),
            k,
        ),
{
    let u = s.skip(k);
    lemma_shift_char(s, k, p, open);
    if char_at(u, p, open) {
        lemma_shift_fields(types, s, k, p + 1);
        let q = fields_at(types, u, p + 1).1;
        lemma_fields_end(types, u, p + 1);
        lemma_shift_trivia(s, k, q);
        lemma_trivia_end(u, q);
        lemma_shift_char(s, k, trivia_end(u, q), close);
    }
}

/// What follows an optional `pub` reads alike at `p + k` in `s` and at `p` in `s` without its first
/// `k` characters.
pub proof fn lemma_shift_after_pub(s: Seq<char>, k: int, p: int)
    requires
        0 <= k <= s.len(),
        0 <= p,
    ensures
        after_pub(s, p + k) == after_pub(s.skip(k), p) + k,
{
    let u = s.skip(k);
    lemma_shift_keyword(s, k, p, "pub"@);
    match keyword_end(u, p, "pub"@) {
        Some(e) => {
            lemma_run_end(u, p + 1, CharClass::Word);
            lemma_shift_trivia(s, k, e);
        },
        None => {},
    }
}

/// The start of a declaration reads alike at `p + k` in `s` and at `p` in `s` without its first
/// `k` characters.
pub proof fn lemma_shift_named(s: Seq<char>, k: int, p: int, kw: Seq<char>)
    requires
        0 <= k <= s.len(),
        0 <= p,
    ensures
        named_at(s, p + k, kw) == moved_with(named_at(s.skip(k), p, kw), k),
{
    let u = s.skip(k);
    lemma_shift_after_pub(s, k, p);
    lemma_after_pub(u, p);
    let a = after_pub(u, p);
    lemma_shift_keyword(s, k, a, kw);
    match keyword_end(u, a, kw) {
        Some(e) => {
            lemma_run_end(u, a + 1, CharClass::Word);
            lemma_shift_trivia(s, k, e);
            lemma_trivia_end(u, e);
            let n = trivia_end(u, e);
            lemma_shift_ident(s, k, n);
            match ident_end(u, n) {
                Some(ne) => {
                    lemma_run_end(u, n + 1, CharClass::Word);
                    lemma_shift_subrange(s, k, n, ne);
                },
                None => {},
            }
        },
        None => {},
    }
}

/// What follows an optional annotation reads alike at `p + k` in `s` and at
/// `p` in `s` without its first `k` characters.
pub proof fn lemma_shift_after_attr(s: Seq<char>, k: int, p: int)
    requires
        0 <= k <= s.len(),
        0 <= p,
    ensures
        after_attr(s, p + k) == after_attr(s.skip(k), p) + k,
        p <= after_attr(s.skip(k), p),
{
    let u = s.skip(k);
    lemma_shift_attr(s, k, p);
    match attr_end(u, p) {
        Some(e) => {
            lemma_run_end(u, p + 2, CharClass::NotBracket);
            lemma_shift_trivia(s, k, e);
            lemma_trivia_end(u, e);
        },
        None => {},
    }
}

/// A record reads alike at `p + k` in `s` and at `p` in `s` without its first
/// `k` characters.
pub proof fn lemma_shift_dto(types: Seq<UserTypeView>, s: Seq<char>, k: int, p: int)
    requires
        0 <= k <= s.len(),
        0 <= p,
    ensures
        dto_at(types, s, p + k) == moved_with(dto_at(types, s.skip(k), p), k),
{
    let u = s.skip(k);
    lemma_shift_after_attr(s, k, p);
    let a = after_attr(u, p);
    lemma_shift_named(s, k, a, "struct"@);
    lemma_named_end(u, a, "struct"@);
    match named_at(u, a, "struct"@) {
        Some((name, ne)) => {
            lemma_shift_trivia(s, k, ne);
            lemma_trivia_end(u, ne);
            lemma_shift_field_list(types, s, k, trivia_end(u, ne), '{', '}');
        },
        None => {},
    }
}

/// What a procedure returns reads alike at `p + k` in `s` and at `p` in `s` without its first
/// `k` characters.
pub proof fn lemma_shift_return_type(types: Seq<UserTypeView>, s: Seq<char>, k: int, q: int)
    requires
        0 <= k <= s.len(),
        0 <= q <= s.len() - k,
    ensures
        return_type_at(types, s, q + k) == (
            return_type_at(types, s.skip(k), q).0,
            return_type_at(types, s.skip(k), q).1 + k,
        ),
{
    let u = s.skip(k);
    lemma_shift_trivia(s, k, q);
    lemma_trivia_end(u, q);
    let a = trivia_end(u, q);
    lemma_shift_pair(s, k, a, '-', '>');
    if pair_at(u, a, '-', '>') {
        lemma_shift_trivia(s, k, a + 2);
        lemma_trivia_end(u, a + 2);
        lemma_shift_type(types, s, k, trivia_end(u, a + 2));
    }
}

/// A signature reads alike at `p + k` in `s` and at `p` in `s` without its first
/// `k` characters.
pub proof fn lemma_shift_rpc_head(types: Seq<UserTypeView>, s: Seq<char>, k: int, p: int)
    requires
        0 <= k <= s.len(),
        0 <= p,
    ensures
        rpc_head_at(types, s, p + k) == moved_with(rpc_head_at(types, s.skip(k), p), k),
{
    let u = s.skip(k);
    lemma_shift_named(s, k, p, "fn"@);
    lemma_named_end(u, p, "fn"@);
    match named_at(u, p, "fn"@) {
        Some((name, ne)) => {
            lemma_shift_trivia(s, k, ne);
            lemma_trivia_end(u, ne);
            let o = trivia_end(u, ne);
            lemma_shift_field_list(types, s, k, o, '(', ')');
            match field_list_at(types, u, o, '(', ')') {
                Some((params, e)) => {
                    lemma_field_list_end(types, u, o, '(', ')');
                    lemma_shift_return_type(types, s, k, e);
                },
                None => {},
            }
        },
        None => {},
    }
}

/// A procedure reads alike at `p + k` in `s` and at `p` in `s` without its first
/// `k` characters.
pub proof fn lemma_shift_rpc(types: Seq<UserTypeView>, s: Seq<char>, k: int, p: int)
    requires
        0 <= k <= s.len(),
        0 <= p,
    ensures
        rpc_at(types, s, p + k) == moved_with(rpc_at(types, s.skip(k), p), k),
{
    let u = s.skip(k);
    lemma_shift_rpc_head(types, s, k, p);
    match rpc_head_at(types, u, p) {
        Some((rpc, r)) => {
            lemma_rpc_head_end(types, u, p);
            lemma_shift_trivia(s, k, r);
            lemma_trivia_end(u, r);
            lemma_shift_block(s, k, trivia_end(u, r));
        },
        None => {},
    }
}

/// An enumeration variant reads alike at `p + k` in `s` and at `p` in `s` without its first
/// `k` characters.
pub proof fn lemma_shift_enum_value(s: Seq<char>, k: int, p: int)
    requires
        0 <= k <= s.len(),
        0 <= p,
    ensures
        enum_value_at(s, p + k) == moved_with(enum_value_at(s.skip(k), p), k),
{
    let u = s.skip(k);
    lemma_shift_ident(s, k, p);
    match ident_end(u, p) {
        Some(n) => {
            lemma_run_end(u, p + 1, CharClass::Word);
            lemma_shift_subrange(s, k, p, n);
            lemma_shift_trivia(s, k, n);
            lemma_trivia_end(u, n);
            let c = trivia_end(u, n);
            lemma_shift_char(s, k, c, '=');
            if char_at(u, c, '=') {
                lemma_shift_trivia(s, k, c + 1);
                lemma_trivia_end(u, c + 1);
                lemma_shift_number(s, k, trivia_end(u, c + 1));
            }
        },
        None => {},
    }
}

/// The rest of a list of variants reads alike at `p + k` in `s` and at `p` in `s` without its first
/// `k` characters.
pub proof fn lemma_shift_enum_values_more(s: Seq<char>, k: int, q: int)
    requires
        0 <= k <= s.len(),
        0 <= q <= s.len() - k,
    ensures
        enum_values_more(s, q + k) == moved_list(enum_values_more(s.skip(k), q), k),
    decreases s.len() - k - q,
{
    let u = s.skip(k);
    lemma_shift_trivia(s, k, q);
    lemma_trivia_end(u, q);
    let c = trivia_end(u, q);
    lemma_shift_char(s, k, c, ',');
    if char_at(u, c, ',') {
        lemma_shift_trivia(s, k, c + 1);
        lemma_trivia_end(u, c + 1);
        let t = trivia_end(u, c + 1);
        lemma_shift_enum_value(s, k, t);
        match enum_value_at(u, t) {
            Some((value, e)) => {
                if q < e <= u.len() {
                    lemma_shift_enum_values_more(s, k, e);
                }
            },
            None => {},
        }
    }
}

/// A list of variants reads alike at `p + k` in `s` and at `p` in `s` without its first
/// `k` characters.
pub proof fn lemma_shift_enum_values(s: Seq<char>, k: int, p: int)
    requires
        0 <= k <= s.len(),
        0 <= p <= s.len() - k,
    ensures
        enum_values_at(s, p + k) == moved_list(enum_values_at(s.skip(k), p), k),
{
    let u = s.skip(k);
    lemma_shift_trivia(s, k, p);
    lemma_trivia_end(u, p);
    let t = trivia_end(u, p);
    lemma_shift_enum_value(s, k, t);
    lemma_enum_value_end(u, t);
    match enum_value_at(u, t) {
        Some((value, e)) => {
            lemma_shift_enum_values_more(s, k, e);
        },
        None => {},
    }
}

/// An enumeration reads alike at `p + k` in `s` and at `p` in `s` without its first
/// `k` characters.
pub proof fn lemma_shift_enum(s: Seq<char>, k: int, p: int)
    requires
        0 <= k <= s.len(),
        0 <= p,
    ensures
        enum_at(s, p + k) == moved_with(enum_at(s.skip(k), p), k),
{
    let u = s.skip(k);
    lemma_shift_named(s, k, p, "enum"@);
    lemma_named_end(u, p, "enum"@);
    match named_at(u, p, "enum"@) {
        Some((name, ne)) => {
            lemma_shift_trivia(s, k, ne);
            lemma_trivia_end(u, ne);
            let o = trivia_end(u, ne);
            lemma_shift_char(s, k, o, '{');
            if char_at(u, o, '{') {
                lemma_shift_enum_values(s, k, o + 1);
                lemma_enum_values_end(u, o + 1);
                let q = enum_values_at(u, o + 1).1;
                lemma_shift_trivia(s, k, q);
                lemma_trivia_end(u, q);
                lemma_shift_char(s, k, trivia_end(u, q), '}');
            }
        },
        None => {},
    }
}

/// A namespace reads alike at `p + k` in `s` and at `p` in `s` without its first
/// `k` characters.
pub proof fn lemma_shift_namespace(types: Seq<UserTypeView>, s: Seq<char>, k: int, p: int)
    requires
        0 <= k <= s.len(),
        0 <= p,
    ensures
        namespace_at(types, s, p + k) == moved_with(namespace_at(types, s.skip(k), p), k),
    decreases s.len() - k - p, 0nat,
{
    let u = s.skip(k);
    lemma_shift_named(s, k, p, "mod"@);
    lemma_named_end(u, p, "mod"@);
    match named_at(u, p, "mod"@) {
        Some((name, ne)) => {
            lemma_shift_trivia(s, k, ne);
            lemma_trivia_end(u, ne);
            let c = trivia_end(u, ne);
            lemma_shift_char(s, k, c, ';');
            lemma_shift_char(s, k, c, '{');
            if !char_at(u, c, ';') && char_at(u, c, '{') {
                lemma_shift_children(types, s, k, c + 1);
                lemma_children_end(types, u, c + 1);
                let q = children_at(types, u, c + 1).1;
                lemma_shift_trivia(s, k, q);
                lemma_trivia_end(u, q);
                lemma_shift_char(s, k, trivia_end(u, q), '}');
            }
        },
        None => {},
    }
}

/// A declaration reads alike at `p + k` in `s` and at `p` in `s` without its first
/// `k` characters.
pub proof fn lemma_shift_child(types: Seq<UserTypeView>, s: Seq<char>, k: int, p: int)
    requires
        0 <= k <= s.len(),
        0 <= p,
    ensures
        child_at(types, s, p + k) == moved_with(child_at(types, s.skip(k), p), k),
    decreases s.len() - k - p, 1nat,
{
    lemma_shift_dto(types, s, k, p);
    lemma_shift_rpc(types, s, k, p);
    lemma_shift_enum(s, k, p);
    lemma_shift_namespace(types, s, k, p);
}

/// A list of declarations reads alike at `p + k` in `s` and at `p` in `s` without its first
/// `k` characters.
pub proof fn lemma_shift_children(types: Seq<UserTypeView>, s: Seq<char>, k: int, p: int)
    requires
        0 <= k <= s.len(),
        0 <= p <= s.len() - k,
    ensures
        children_at(types, s, p + k) == moved_list(children_at(types, s.skip(k), p), k),
    decreases s.len() - k - p, 2nat,
{
    let u = s.skip(k);
    lemma_shift_trivia(s, k, p);
    lemma_trivia_end(u, p);
    let t = trivia_end(u, p);
    lemma_shift_child(types, s, k, t);
    match child_at(types, u, t) {
        Some((child, e)) => {
            if t < e <= u.len() {
                lemma_shift_children(types, s, k, e);
            }
        },
        None => {},
    }
}

/// The path of an import reads alike at `p + k` in `s` and at `p` in `s` without its first
/// `k` characters.
pub proof fn lemma_shift_use_path(s: Seq<char>, k: int, q: int)
    requires
        0 <= k <= s.len(),
        0 <= q <= s.len() - k,
    ensures
        use_path_end(s, q + k) == use_path_end(s.skip(k), q) + k,
        q <= use_path_end(s.skip(k), q) <= s.len() - k,
    decreases s.len() - k - q,
{
    let u = s.skip(k);
    lemma_shift_trivia(s, k, q);
    lemma_trivia_end(u, q);
    let a = trivia_end(u, q);
    lemma_shift_pair(s, k, a, ':', ':');
    if pair_at(u, a, ':', ':') {
        lemma_shift_trivia(s, k, a + 2);
        lemma_trivia_end(u, a + 2);
        let n = trivia_end(u, a + 2);
        lemma_shift_ident(s, k, n);
        match ident_end(u, n) {
            Some(e) => {
                if q < e <= u.len() {
                    lemma_shift_use_path(s, k, e);
                }
            },
            None => {},
        }
    }
}

/// An import reads alike at `p + k` in `s` and at `p` in `s` without its first
/// `k` characters.
pub proof fn lemma_shift_use(s: Seq<char>, k: int, p: int)
    requires
        0 <= k <= s.len(),
        0 <= p,
    ensures
        use_end(s, p + k) == moved(use_end(s.skip(k), p), k),
{
    let u = s.skip(k);
    lemma_shift_named(s, k, p, "use"@);
    lemma_named_end(u, p, "use"@);
    match named_at(u, p, "use"@) {
        Some((_, q)) => {
            lemma_shift_use_path(s, k, q);
            let e = use_path_end(u, q);
            lemma_shift_trivia(s, k, e);
            lemma_trivia_end(u, e);
            lemma_shift_char(s, k, trivia_end(u, e), ';');
        },
        None => {},
    }
}

/// The imports of a chunk reads alike at `p + k` in `s` and at `p` in `s` without its first
/// `k` characters.
pub proof fn lemma_shift_imports(s: Seq<char>, k: int, p: int)
    requires
        0 <= k <= s.len(),
        0 <= p <= s.len() - k,
    ensures
        imports_end(s, p + k) == imports_end(s.skip(k), p) + k,
        p <= imports_end(s.skip(k), p) <= s.len() - k,
    decreases s.len() - k - p,
{
    let u = s.skip(k);
    lemma_shift_trivia(s, k, p);
    lemma_trivia_end(u, p);
    let t = trivia_end(u, p);
    lemma_shift_use(s, k, t);
    match use_end(u, t) {
        Some(e) => {
            if t < e <= u.len() {
                lemma_shift_imports(s, k, e);
            }
        },
        None => {},
    }
}

} // verus!
