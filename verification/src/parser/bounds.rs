//! Where what the grammar reads starts and ends: every rule ends within the text,
//! at or behind its start.
use crate::parser::block::{block_items, body_end, lemma_block_items, lemma_body_end};
use crate::parser::chars::{is_letter, lemma_run_end, run_end, CharClass};
use crate::parser::config::UserTypeView;
use crate::parser::decl::{
    after_attr, after_pub, child_at, children_at, dto_at, enum_at, enum_value_at, enum_values_at,
    enum_values_more, field_at, field_list_at, fields_at, fields_more, named_at, namespace_at,
    return_type_at, rpc_at, rpc_head_at,
};
use crate::parser::lexical::{
    attr_end, char_at, comment_at, ident_end, keyword_end, lemma_comment_span, lemma_trivia_end,
    literal_end, pair_at, trivia_end,
};
use crate::parser::rust::{imports_end, use_end, use_path_end};
use crate::parser::types::{
    entity_id_tail, first_base, type_at, type_name_end, user_type_from, BASE_TYPES,
};
use vstd::prelude::*;

verus! {

/// A field that is read ends behind its start.
pub proof fn lemma_field_end(types: Seq<UserTypeView>, s: Seq<char>, p: int)
    requires
        0 <= p,
    ensures
        field_at(types, s, p) matches Some((_, e)) ==> p < e <= s.len(),
{
    match ident_end(s, p) {
        Some(n) => {
            lemma_run_end(s, p + 1, CharClass::Word);
            lemma_trivia_end(s, n);
            let c = trivia_end(s, n);
            if char_at(s, c, ':') {
                lemma_trivia_end(s, c + 1);
                lemma_type_end(types, s, trivia_end(s, c + 1));
            }
        },
        None => {},
    }
}

/// A type that is read ends at or behind its start.
pub proof fn lemma_type_end(types: Seq<UserTypeView>, s: Seq<char>, p: int)
    requires
        0 <= p <= s.len(),
    ensures
        type_at(types, s, p) matches Some((_, e)) ==> p <= e <= s.len(),
{
    reveal(type_at);
    lemma_first_base_end(s, p, 0);
    lemma_user_type_end(types, s, p, 0);
    match type_name_end(s, p) {
        Some(q) => {
            lemma_run_end(s, p + 1, CharClass::Word);
            lemma_entity_id_tail_end(s, q);
        },
        None => {},
    }
}

/// A built-in spelling that matches ends within the text, at or behind its
/// start.
pub proof fn lemma_first_base_end(s: Seq<char>, p: int, n: int)
    requires
        0 <= p,
        0 <= n,
    ensures
        first_base(s, p, n) matches Some((_, e)) ==> p <= e <= s.len(),
    decreases BASE_TYPES - n,
{
    if n < BASE_TYPES {
        lemma_first_base_end(s, p, n + 1);
    }
}

/// A user type that is read ends within the text, at or behind its start.
pub proof fn lemma_user_type_end(types: Seq<UserTypeView>, s: Seq<char>, p: int, n: int)
    requires
        0 <= p,
        0 <= n,
    ensures
        user_type_from(types, s, p, n) matches Some((_, e)) ==> p <= e <= s.len(),
    decreases types.len() - n,
{
    if n < types.len() {
        lemma_user_type_end(types, s, p, n + 1);
    }
}

/// The segments behind a type name end within the text, at or behind
/// where their reading starts.
pub proof fn lemma_entity_id_tail_end(s: Seq<char>, q: int)
    requires
        0 <= q <= s.len(),
    ensures
        q <= entity_id_tail(s, q).1 <= s.len(),
    decreases s.len() - q,
{
    if pair_at(s, q, ':', ':') {
        match type_name_end(s, q + 2) {
            Some(e) => {
                if q < e <= s.len() {
                    lemma_entity_id_tail_end(s, e);
                }
            },
            None => {},
        }
    }
}

/// A list of fields ends at or behind its start.
pub proof fn lemma_fields_end(types: Seq<UserTypeView>, s: Seq<char>, p: int)
    requires
        0 <= p <= s.len(),
    ensures
        p <= fields_at(types, s, p).1 <= s.len(),
{
    lemma_trivia_end(s, p);
    let t = trivia_end(s, p);
    lemma_field_end(types, s, t);
    match field_at(types, s, t) {
        Some((_, e)) => {
            lemma_fields_more_end(types, s, e);
        },
        None => {},
    }
}

/// The rest of a list of fields ends within the text, at or behind where
/// its reading starts.
pub proof fn lemma_fields_more_end(types: Seq<UserTypeView>, s: Seq<char>, q: int)
    requires
        0 <= q <= s.len(),
    ensures
        q <= fields_more(types, s, q).1 <= s.len(),
    decreases s.len() - q,
{
    let c = trivia_end(s, q);
    lemma_trivia_end(s, q);
    if char_at(s, c, ',') {
        match field_at(types, s, trivia_end(s, c + 1)) {
            Some((_, e)) => {
                if q < e <= s.len() {
                    lemma_fields_more_end(types, s, e);
                }
            },
            None => {},
        }
    }
}

/// What stands behind an optional `pub` starts at or behind it.
pub proof fn lemma_after_pub(s: Seq<char>, p: int)
    requires
        0 <= p,
    ensures
        p <= after_pub(s, p),
{
    match keyword_end(s, p, "pub"@) {
        Some(e) => {
            lemma_run_end(s, p + 1, CharClass::Word);
            lemma_trivia_end(s, e);
        },
        None => {},
    }
}

/// A declaration's name ends behind the start of the declaration.
pub proof fn lemma_named_end(s: Seq<char>, p: int, kw: Seq<char>)
    requires
        0 <= p,
    ensures
        named_at(s, p, kw) matches Some((_, e)) ==> p < e <= s.len(),
{
    lemma_after_pub(s, p);
    let a = after_pub(s, p);
    match keyword_end(s, a, kw) {
        Some(e) => {
            lemma_run_end(s, a + 1, CharClass::Word);
            lemma_trivia_end(s, e);
            let n = trivia_end(s, e);
            match ident_end(s, n) {
                Some(ne) => {
                    lemma_run_end(s, n + 1, CharClass::Word);
                },
                None => {},
            }
        },
        None => {},
    }
}

/// A list of fields in delimiters ends within the text, behind its start.
pub proof fn lemma_field_list_end(
    types: Seq<UserTypeView>,
    s: Seq<char>,
    p: int,
    open: char,
    close: char,
)
    requires
        0 <= p,
    ensures
        field_list_at(types, s, p, open, close) matches Some((_, e)) ==> p < e <= s.len(),
{
    if char_at(s, p, open) {
        lemma_fields_end(types, s, p + 1);
        lemma_trivia_end(s, fields_at(types, s, p + 1).1);
    }
}

/// What a procedure returns is read up to a position at or behind where
/// the reading starts.
pub proof fn lemma_return_type_end(types: Seq<UserTypeView>, s: Seq<char>, q: int)
    requires
        0 <= q <= s.len(),
    ensures
        q <= return_type_at(types, s, q).1 <= s.len(),
{
    lemma_trivia_end(s, q);
    let a = trivia_end(s, q);
    if pair_at(s, a, '-', '>') {
        lemma_trivia_end(s, a + 2);
        lemma_type_end(types, s, trivia_end(s, a + 2));
    }
}

/// A signature that is read ends within the text, behind its start.
pub proof fn lemma_rpc_head_end(types: Seq<UserTypeView>, s: Seq<char>, p: int)
    requires
        0 <= p,
    ensures
        rpc_head_at(types, s, p) matches Some((_, r)) ==> p < r <= s.len(),
{
    lemma_named_end(s, p, "fn"@);
    match named_at(s, p, "fn"@) {
        Some((name, ne)) => {
            lemma_trivia_end(s, ne);
            let o = trivia_end(s, ne);
            lemma_field_list_end(types, s, o, '(', ')');
            match field_list_at(types, s, o, '(', ')') {
                Some((params, e)) => {
                    lemma_return_type_end(types, s, e);
                },
                None => {},
            }
        },
        None => {},
    }
}

/// An enumeration variant that is read ends within the text, behind its
/// start.
pub proof fn lemma_enum_value_end(s: Seq<char>, p: int)
    requires
        0 <= p,
    ensures
        enum_value_at(s, p) matches Some((_, e)) ==> p < e <= s.len(),
{
    match ident_end(s, p) {
        Some(n) => {
            lemma_run_end(s, p + 1, CharClass::Word);
            lemma_trivia_end(s, n);
            let c = trivia_end(s, n);
            if char_at(s, c, '=') {
                lemma_trivia_end(s, c + 1);
                lemma_run_end(s, trivia_end(s, c + 1), CharClass::Digit);
            }
        },
        None => {},
    }
}

/// The rest of a list of variants ends within the text, at or behind where
/// its reading starts.
pub proof fn lemma_enum_values_more_end(s: Seq<char>, q: int)
    requires
        0 <= q <= s.len(),
    ensures
        q <= enum_values_more(s, q).1 <= s.len(),
    decreases s.len() - q,
{
    let c = trivia_end(s, q);
    lemma_trivia_end(s, q);
    if char_at(s, c, ',') {
        match enum_value_at(s, trivia_end(s, c + 1)) {
            Some((_, e)) => {
                if q < e <= s.len() {
                    lemma_enum_values_more_end(s, e);
                }
            },
            None => {},
        }
    }
}

/// A list of variants ends within the text, at or behind its start.
pub proof fn lemma_enum_values_end(s: Seq<char>, p: int)
    requires
        0 <= p <= s.len(),
    ensures
        p <= enum_values_at(s, p).1 <= s.len(),
{
    lemma_trivia_end(s, p);
    let t = trivia_end(s, p);
    lemma_enum_value_end(s, t);
    match enum_value_at(s, t) {
        Some((_, e)) => {
            lemma_enum_values_more_end(s, e);
        },
        None => {},
    }
}

/// A list of declarations ends within the text, at or behind its start.
pub proof fn lemma_children_end(types: Seq<UserTypeView>, s: Seq<char>, p: int)
    requires
        0 <= p <= s.len(),
    ensures
        p <= children_at(types, s, p).1 <= s.len(),
    decreases s.len() - p,
{
    lemma_trivia_end(s, p);
    let t = trivia_end(s, p);
    match child_at(types, s, t) {
        Some((_, e)) => {
            if t < e <= s.len() {
                lemma_children_end(types, s, e);
            }
        },
        None => {},
    }
}

/// A literal that is read starts with its first character.
pub proof fn lemma_literal_start(s: Seq<char>, p: int, lit: Seq<char>)
    requires
        lit.len() > 0,
    ensures
        literal_end(s, p, lit) is Some ==> p < s.len() && s[p] == lit[0],
{
    if literal_end(s, p, lit) is Some {
        assert(s.subrange(p, p + lit.len())[0] == lit[0]);
    }
}

/// A declaration that starts with `pub` or a keyword starts with a letter.
pub proof fn lemma_named_start(s: Seq<char>, p: int, kw: Seq<char>)
    requires
        0 <= p,
        named_at(s, p, kw) is Some,
    ensures
        p < s.len(),
        is_letter(s[p]) || s[p] == '_',
{
}

/// Behind a variant, a `','` follows or the list ends; in both cases the
/// next token stands at or before the token behind the list.
pub proof fn lemma_enum_list_next(s: Seq<char>, e: int)
    requires
        0 <= e <= s.len(),
    ensures
        trivia_end(s, e) <= trivia_end(s, enum_values_more(s, e).1),
        char_at(s, trivia_end(s, e), ',') || enum_values_more(s, e).1 == e,
{
    lemma_trivia_end(s, e);
    let c = trivia_end(s, e);
    lemma_enum_values_more_end(s, e);
    let end = enum_values_more(s, e).1;
    lemma_trivia_end(s, end);
    if char_at(s, c, ',') {
        lemma_trivia_end(s, c + 1);
        let t = trivia_end(s, c + 1);
        lemma_enum_value_end(s, t);
        match enum_value_at(s, t) {
            Some((_, e2)) => {
                lemma_enum_values_more_end(s, e2);
            },
            None => {},
        }
    }
}

/// Where the pieces of a block are read, white space is skipped up to a
/// position before the end of the block.
pub proof fn lemma_block_first(s: Seq<char>, q: int)
    requires
        0 <= q <= s.len(),
        block_items(s, q) is Some,
    ensures
        q <= run_end(s, q, CharClass::Space) < (block_items(s, q)->0).1 <= s.len(),
{
    lemma_run_end(s, q, CharClass::Space);
    let c = run_end(s, q, CharClass::Space);
    lemma_block_items(s, q);
    if s[c] == '}' {
    } else if s[c] == '{' {
        lemma_block_items(s, c + 1);
        match block_items(s, c + 1) {
            Some((_, e)) => {
                lemma_block_items(s, e);
            },
            None => {},
        }
    } else {
        match comment_at(s, c) {
            Some((_, e)) => {
                lemma_comment_span(s, c);
                lemma_block_items(s, e);
            },
            None => {
                lemma_body_end(s, c);
                if c < body_end(s, c) {
                    lemma_block_items(s, body_end(s, c));
                }
            },
        }
    }
}

/// Where the pieces of a block are read from the start of a comment on,
/// the block ends behind the two characters that start the comment.
pub proof fn lemma_slash_in_block(s: Seq<char>, b: int)
    requires
        0 <= b < s.len(),
        block_items(s, b) is Some,
        pair_at(s, b, '/', '/') || pair_at(s, b, '/', '*'),
    ensures
        b + 2 <= (block_items(s, b)->0).1,
{
    lemma_run_end(s, b, CharClass::Space);
    assert(run_end(s, b, CharClass::Space) == b);
    match comment_at(s, b) {
        Some((_, e)) => {
            lemma_comment_span(s, b);
            lemma_block_first(s, e);
        },
        None => {
            assert(body_end(s, b) == b);
        },
    }
}

/// Body text ends at a brace, at the start of a comment, or at the end of
/// the text.
pub proof fn lemma_body_stop(s: Seq<char>, p: int)
    requires
        0 <= p <= s.len(),
    ensures
        body_end(s, p) < s.len() ==> s[body_end(s, p)] == '{' || s[body_end(s, p)] == '}'
            || pair_at(s, body_end(s, p), '/', '/') || pair_at(s, body_end(s, p), '/', '*'),
    decreases s.len() - p,
{
    if p < s.len() && !(s[p] == '{' || s[p] == '}' || pair_at(s, p, '/', '/') || pair_at(
        s,
        p,
        '/',
        '*',
    )) {
        lemma_body_stop(s, p + 1);
    }
}

/// The keywords that start declarations differ from one another.
pub proof fn lemma_keywords_differ()
    ensures
        "struct"@ != "fn"@,
        "struct"@ != "enum"@,
        "struct"@ != "mod"@,
        "struct"@ != "use"@,
        "fn"@ != "enum"@,
        "fn"@ != "mod"@,
        "fn"@ != "use"@,
        "enum"@ != "mod"@,
        "enum"@ != "use"@,
        "mod"@ != "use"@,
{
    reveal_strlit("struct");
    reveal_strlit("fn");
    reveal_strlit("enum");
    reveal_strlit("mod");
    reveal_strlit("use");
    assert("struct"@.len() == 6);
    assert("fn"@.len() == 2);
    assert("enum"@.len() == 4);
    assert("mod"@.len() == 3);
    assert("use"@.len() == 3);
    assert("mod"@[0] == 'm');
    assert("use"@[0] == 'u');
}

/// Where a declaration starts with one keyword, it starts with no other,
/// and with no annotation.
pub proof fn lemma_only_keyword(s: Seq<char>, p: int, kw: Seq<char>, other: Seq<char>)
    requires
        0 <= p,
        named_at(s, p, kw) is Some,
        kw != other,
    ensures
        named_at(s, p, other) is None,
        attr_end(s, p) is None,
{
}

/// A declaration starts with `'#'`, a letter or `'_'`.
pub proof fn lemma_child_start(types: Seq<UserTypeView>, s: Seq<char>, p: int)
    requires
        0 <= p,
        child_at(types, s, p) is Some,
    ensures
        p < s.len(),
        s[p] == '#' || is_letter(s[p]) || s[p] == '_',
{
    if dto_at(types, s, p) is Some {
        if attr_end(s, p) is None {
            lemma_named_start(s, p, "struct"@);
        }
    } else if rpc_at(types, s, p) is Some {
        lemma_named_start(s, p, "fn"@);
    } else if enum_at(s, p) is Some {
        lemma_named_start(s, p, "enum"@);
    } else {
        lemma_named_start(s, p, "mod"@);
    }
}

/// No declaration starts with a closing brace.
pub proof fn lemma_no_child_at_brace(types: Seq<UserTypeView>, s: Seq<char>, p: int)
    requires
        0 <= p < s.len(),
        s[p] == '}',
    ensures
        child_at(types, s, p) is None,
{
}

/// How a namespace that is read is made up: behind its name stands `';'`,
/// where it ends, or `'{'`, its declarations and `'}'`, where it ends.
pub proof fn lemma_namespace_shape(types: Seq<UserTypeView>, s: Seq<char>, p: int)
    requires
        0 <= p,
        namespace_at(types, s, p) is Some,
    ensures
        named_at(s, p, "mod"@) matches Some((_, ne)) && ({
            let c = trivia_end(s, ne);
            let e = (namespace_at(types, s, p)->0).1;
            &&& p < ne <= c < e <= s.len()
            &&& char_at(s, c, ';') ==> e == c + 1
            &&& !char_at(s, c, ';') ==> {
                let q = children_at(types, s, c + 1).1;
                &&& char_at(s, c, '{')
                &&& c + 1 <= q <= trivia_end(s, q)
                &&& char_at(s, trivia_end(s, q), '}')
                &&& e == trivia_end(s, q) + 1
            }
        }),
{
    lemma_named_end(s, p, "mod"@);
    match named_at(s, p, "mod"@) {
        Some((_, ne)) => {
            lemma_trivia_end(s, ne);
            let c = trivia_end(s, ne);
            if !char_at(s, c, ';') {
                lemma_children_end(types, s, c + 1);
                lemma_trivia_end(s, children_at(types, s, c + 1).1);
            }
        },
        None => {},
    }
}

/// The path of an import ends within the text, at or behind where its
/// reading starts.
pub proof fn lemma_use_path_bounds(s: Seq<char>, q: int)
    requires
        0 <= q <= s.len(),
    ensures
        q <= use_path_end(s, q) <= s.len(),
    decreases s.len() - q,
{
    lemma_trivia_end(s, q);
    let a = trivia_end(s, q);
    if pair_at(s, a, ':', ':') {
        match ident_end(s, trivia_end(s, a + 2)) {
            Some(e) => {
                if q < e <= s.len() {
                    lemma_use_path_bounds(s, e);
                }
            },
            None => {},
        }
    }
}

/// An import that is read ends within the text, behind its start, and
/// starts with a letter or `'_'`.
pub proof fn lemma_use_bounds(s: Seq<char>, p: int)
    requires
        0 <= p,
        use_end(s, p) is Some,
    ensures
        p < use_end(s, p)->0 <= s.len(),
        is_letter(s[p]) || s[p] == '_',
{
    lemma_named_end(s, p, "use"@);
    let q = (named_at(s, p, "use"@)->0).1;
    lemma_use_path_bounds(s, q);
    lemma_trivia_end(s, use_path_end(s, q));
    lemma_named_start(s, p, "use"@);
}

/// Where a declaration is read, no import is.
pub proof fn lemma_child_is_no_import(types: Seq<UserTypeView>, s: Seq<char>, p: int)
    requires
        0 <= p,
        child_at(types, s, p) is Some,
    ensures
        use_end(s, p) is None,
{
    lemma_keywords_differ();
    if dto_at(types, s, p) is Some {
        if attr_end(s, p) is None {
            lemma_only_keyword(s, p, "struct"@, "use"@);
        }
    } else if rpc_at(types, s, p) is Some {
        lemma_only_keyword(s, p, "fn"@, "use"@);
    } else if enum_at(s, p) is Some {
        lemma_only_keyword(s, p, "enum"@, "use"@);
    } else {
        lemma_only_keyword(s, p, "mod"@, "use"@);
    }
}

/// Imports end within the text, at or behind where their reading starts.
pub proof fn lemma_imports_end(s: Seq<char>, p: int)
    requires
        0 <= p <= s.len(),
    ensures
        p <= imports_end(s, p) <= s.len(),
    decreases s.len() - p,
{
    lemma_trivia_end(s, p);
    let t = trivia_end(s, p);
    match use_end(s, t) {
        Some(e) => {
            if t < e <= s.len() {
                lemma_imports_end(s, e);
            }
        },
        None => {},
    }
}

/// A declaration that is read ends within the text, behind its start.
pub proof fn lemma_child_end(types: Seq<UserTypeView>, s: Seq<char>, p: int)
    requires
        0 <= p,
    ensures
        child_at(types, s, p) matches Some((_, e)) ==> p < e <= s.len(),
{
    if dto_at(types, s, p) is Some {
        match attr_end(s, p) {
            Some(ae) => {
                lemma_run_end(s, p + 2, CharClass::NotBracket);
                lemma_trivia_end(s, ae);
            },
            None => {},
        }
        let a = after_attr(s, p);
        lemma_named_end(s, a, "struct"@);
        let ne = (named_at(s, a, "struct"@)->0).1;
        lemma_trivia_end(s, ne);
        lemma_field_list_end(types, s, trivia_end(s, ne), '{', '}');
    } else if rpc_at(types, s, p) is Some {
        lemma_rpc_head_end(types, s, p);
        let r = (rpc_head_at(types, s, p)->0).1;
        lemma_trivia_end(s, r);
        lemma_block_items(s, trivia_end(s, r) + 1);
    } else if enum_at(s, p) is Some {
        lemma_named_end(s, p, "enum"@);
        let ne = (named_at(s, p, "enum"@)->0).1;
        lemma_trivia_end(s, ne);
        let o = trivia_end(s, ne);
        lemma_enum_values_end(s, o + 1);
        lemma_trivia_end(s, enum_values_at(s, o + 1).1);
    } else if namespace_at(types, s, p) is Some {
        lemma_namespace_shape(types, s, p);
    }
}

} // verus!
