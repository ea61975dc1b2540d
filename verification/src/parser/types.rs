//! The syntax of types: built-in types, user types and qualified names.
use crate::model::entity::{Type, TypeView};
use crate::model::entity_id::EntityId;
use crate::parser::chars::{
    class_has, is_ascii_letter, is_letter, is_word, run_end, skip_run, CharClass,
};
use crate::parser::config::{Config, UserTypeView};
use crate::parser::lexical::{
    char_at, has_char, has_pair, literal, literal_end, pair_at, same_end,
};
use crate::text::{string_of, strings_view};
use vstd::prelude::*;

verus! {

/// Number of built-in types that have a value spelling and a reference
/// spelling.
pub const BASE_TYPES: usize = 17;

/// The value spelling of the `k`-th such type, in the order in which the
/// grammar tries them.
pub open spec fn base_name(k: int) -> Seq<char> {
    if k == 0 {
        "u8"@
    } else if k == 1 {
        "u16"@
    } else if k == 2 {
        "u32"@
    } else if k == 3 {
        "u64"@
    } else if k == 4 {
        "u128"@
    } else if k == 5 {
        "i8"@
    } else if k == 6 {
        "i16"@
    } else if k == 7 {
        "i32"@
    } else if k == 8 {
        "i64"@
    } else if k == 9 {
        "i128"@
    } else if k == 10 {
        "f8"@
    } else if k == 11 {
        "f16"@
    } else if k == 12 {
        "f32"@
    } else if k == 13 {
        "f64"@
    } else if k == 14 {
        "f128"@
    } else if k == 15 {
        "String"@
    } else {
        "Vec<u8>"@
    }
}

/// The `k`-th such type.
pub open spec fn base_type(k: int) -> TypeView {
    if k == 0 {
        TypeView::U8
    } else if k == 1 {
        TypeView::U16
    } else if k == 2 {
        TypeView::U32
    } else if k == 3 {
        TypeView::U64
    } else if k == 4 {
        TypeView::U128
    } else if k == 5 {
        TypeView::I8
    } else if k == 6 {
        TypeView::I16
    } else if k == 7 {
        TypeView::I32
    } else if k == 8 {
        TypeView::I64
    } else if k == 9 {
        TypeView::I128
    } else if k == 10 {
        TypeView::F8
    } else if k == 11 {
        TypeView::F16
    } else if k == 12 {
        TypeView::F32
    } else if k == 13 {
        TypeView::F64
    } else if k == 14 {
        TypeView::F128
    } else if k == 15 {
        TypeView::String
    } else {
        TypeView::Bytes
    }
}

/// Where the built-in spelling `name` ends if the text holds it at `p`
/// and no letter, digit or `'_'` follows it: a name that only begins with
/// a built-in spelling is not that spelling.
pub open spec fn spelling_end(s: Seq<char>, p: int, name: Seq<char>) -> Option<int> {
    match literal_end(s, p, name) {
        Some(e) => if e < s.len() && is_word(s[e]) {
            None
        } else {
            Some(e)
        },
        None => None,
    }
}

/// Where the `k`-th such type ends if the text spells it at `p`, by value
/// or, with `'&'` before it, by reference.
pub open spec fn base_end(s: Seq<char>, p: int, k: int) -> Option<int> {
    match spelling_end(s, p, base_name(k)) {
        Some(e) => Some(e),
        None => if char_at(s, p, '&') {
            spelling_end(s, p + 1, base_name(k))
        } else {
            None
        },
    }
}

/// The first such type from the `k`-th on that the text spells at `p`, and
/// its end.
pub open spec fn first_base(s: Seq<char>, p: int, k: int) -> Option<(int, int)>
    decreases BASE_TYPES - k,
{
    if k < 0 || k >= BASE_TYPES {
        None
    } else {
        match base_end(s, p, k) {
            Some(e) => Some((k, e)),
            None => first_base(s, p, k + 1),
        }
    }
}

/// The built-in type that the text spells at `p`, and its end. The
/// spellings are keywords: one is read only where no letter, digit or
/// `'_'` follows it. They are tried in a fixed order.
pub open spec fn builtin_at(s: Seq<char>, p: int) -> Option<(TypeView, int)> {
    match spelling_end(s, p, "bool"@) {
        Some(e) => Some((TypeView::Bool, e)),
        None => match first_base(s, p, 0) {
            Some((k, e)) => Some((base_type(k), e)),
            None => match spelling_end(s, p, "&str"@) {
                Some(e) => Some((TypeView::String, e)),
                None => match spelling_end(s, p, "&[u8]"@) {
                    Some(e) => Some((TypeView::Bytes, e)),
                    None => None,
                },
            },
        },
    }
}

/// The first user type from the `k`-th on whose pattern the text holds at
/// `p`: its display name, and the end of the pattern.
pub open spec fn user_type_from(types: Seq<UserTypeView>, s: Seq<char>, p: int, k: int) -> Option<
    (Seq<char>, int),
>
    decreases types.len() - k,
{
    if k < 0 || k >= types.len() {
        None
    } else {
        match literal_end(s, p, types[k].parse) {
            Some(e) => Some((types[k].name, e)),
            None => user_type_from(types, s, p, k + 1),
        }
    }
}

/// The user type that the text spells at `p`: of the configured types, the
/// first in the caller's order whose pattern the text holds there.
pub open spec fn user_type_at(types: Seq<UserTypeView>, s: Seq<char>, p: int) -> Option<
    (Seq<char>, int),
> {
    user_type_from(types, s, p, 0)
}

/// Where the type name that starts at `p` ends: a letter, `'_'` or `'&'`,
/// then letters, digits and `'_'`, as many as there are.
pub open spec fn type_name_end(s: Seq<char>, p: int) -> Option<int> {
    if 0 <= p < s.len() && (is_letter(s[p]) || s[p] == '_' || s[p] == '&') {
        Some(run_end(s, p + 1, CharClass::Word))
    } else {
        None
    }
}

/// The segments that follow a type name which ends at `q`, each behind a
/// `::`, and where the last of them ends.
pub open spec fn entity_id_tail(s: Seq<char>, q: int) -> (Seq<Seq<char>>, int)
    decreases s.len() - q,
{
    if pair_at(s, q, ':', ':') {
        match type_name_end(s, q + 2) {
            Some(e) => if q < e <= s.len() {
                let (more, end) = entity_id_tail(s, e);
                (seq![s.subrange(q + 2, e)] + more, end)
            } else {
                (Seq::empty(), q)
            },
            None => (Seq::empty(), q),
        }
    } else {
        (Seq::empty(), q)
    }
}

/// The qualified name at `p`: one type name or more with `::` between
/// them, as a path, and its end.
pub open spec fn entity_id_at(s: Seq<char>, p: int) -> Option<(Seq<Seq<char>>, int)> {
    match type_name_end(s, p) {
        Some(q) => {
            let (more, end) = entity_id_tail(s, q);
            Some((seq![s.subrange(p, q)] + more, end))
        },
        None => None,
    }
}

/// The type at `p` and its end: a built-in type, else a user type, else a
/// qualified name that refers to an entity of the API.
#[verifier::opaque]
pub open spec fn type_at(types: Seq<UserTypeView>, s: Seq<char>, p: int) -> Option<
    (TypeView, int),
> {
    match builtin_at(s, p) {
        Some(found) => Some(found),
        None => match user_type_at(types, s, p) {
            Some((name, e)) => Some((TypeView::User(name), e)),
            None => match entity_id_at(s, p) {
                Some((path, e)) => Some((TypeView::Api(path), e)),
                None => None,
            },
        },
    }
}

/// The value spelling of the `k`-th built-in type.
fn base_spelling(k: usize) -> (r: &'static str)
    requires
        k < BASE_TYPES,
    ensures
        r@ == base_name(k as int),
{
    if k == 0 {
        "u8"
    } else if k == 1 {
        "u16"
    } else if k == 2 {
        "u32"
    } else if k == 3 {
        "u64"
    } else if k == 4 {
        "u128"
    } else if k == 5 {
        "i8"
    } else if k == 6 {
        "i16"
    } else if k == 7 {
        "i32"
    } else if k == 8 {
        "i64"
    } else if k == 9 {
        "i128"
    } else if k == 10 {
        "f8"
    } else if k == 11 {
        "f16"
    } else if k == 12 {
        "f32"
    } else if k == 13 {
        "f64"
    } else if k == 14 {
        "f128"
    } else if k == 15 {
        "String"
    } else {
        "Vec<u8>"
    }
}

/// The `k`-th built-in type.
fn base_kind(k: usize) -> (r: Type)
    requires
        k < BASE_TYPES,
    ensures
        r@ == base_type(k as int),
{
    if k == 0 {
        Type::U8
    } else if k == 1 {
        Type::U16
    } else if k == 2 {
        Type::U32
    } else if k == 3 {
        Type::U64
    } else if k == 4 {
        Type::U128
    } else if k == 5 {
        Type::I8
    } else if k == 6 {
        Type::I16
    } else if k == 7 {
        Type::I32
    } else if k == 8 {
        Type::I64
    } else if k == 9 {
        Type::I128
    } else if k == 10 {
        Type::F8
    } else if k == 11 {
        Type::F16
    } else if k == 12 {
        Type::F32
    } else if k == 13 {
        Type::F64
    } else if k == 14 {
        Type::F128
    } else if k == 15 {
        Type::String
    } else {
        Type::Bytes
    }
}

/// Matches the built-in spelling `name` at `pos`: the text holds it there,
/// and no letter, digit or `'_'` follows it.
pub fn spelling(text: &[char], pos: usize, name: &str) -> (r: Option<usize>)
    requires
        pos <= text@.len(),
    ensures
        same_end(r, spelling_end(text@, pos as int, name@)),
        r matches Some(e) ==> pos <= e <= text@.len(),
{
    match literal(text, pos, name) {
        Some(e) => if e < text.len() && class_has(CharClass::Word, text[e]) {
            None
        } else {
            Some(e)
        },
        None => None,
    }
}

/// Matches a built-in type at `pos`.
pub fn builtin_ty(text: &[char], pos: usize) -> (r: Option<(Type, usize)>)
    requires
        pos <= text@.len(),
    ensures
        match r {
            Some((t, e)) => builtin_at(text@, pos as int) == Some((t@, e as int)) && pos <= e
                <= text@.len(),
            None => builtin_at(text@, pos as int) is None,
        },
{
    let _ = text.len();
    if let Some(e) = spelling(text, pos, "bool") {
        return Some((Type::Bool, e));
    }
    let mut k: usize = 0;
    while k < BASE_TYPES
        invariant
            k <= BASE_TYPES,
            pos <= text@.len() <= usize::MAX,
            spelling_end(text@, pos as int, "bool"@) is None,
            first_base(text@, pos as int, 0) == first_base(text@, pos as int, k as int),
        decreases BASE_TYPES - k,
    {
        let name = base_spelling(k);
        if let Some(e) = spelling(text, pos, name) {
            return Some((base_kind(k), e));
        }
        if has_char(text, pos, '&') {
            if let Some(e) = spelling(text, pos + 1, name) {
                return Some((base_kind(k), e));
            }
        }
        k += 1;
    }
    if let Some(e) = spelling(text, pos, "&str") {
        return Some((Type::String, e));
    }
    if let Some(e) = spelling(text, pos, "&[u8]") {
        return Some((Type::Bytes, e));
    }
    None
}

/// Matches a user type at `pos` and gives its display name: of the
/// configured types, the first whose pattern the text holds there.
pub fn user_ty(config: &Config, text: &[char], pos: usize) -> (r: Option<(String, usize)>)
    requires
        pos <= text@.len(),
    ensures
        match r {
            Some((name, e)) => user_type_at(config@, text@, pos as int) == Some((name@, e as int))
                && pos <= e <= text@.len(),
            None => user_type_at(config@, text@, pos as int) is None,
        },
{
    let mut k: usize = 0;
    while k < config.user_types.len()
        invariant
            k <= config.user_types@.len(),
            pos <= text@.len(),
            user_type_at(config@, text@, pos as int) == user_type_from(
                config@,
                text@,
                pos as int,
                k as int,
            ),
        decreases config.user_types@.len() - k,
    {
        let candidate = &config.user_types[k];
        if let Some(e) = literal(text, pos, candidate.parse.as_str()) {
            return Some((candidate.name.clone(), e));
        }
        k += 1;
    }
    None
}

/// Matches a type name at `pos` and gives its end.
pub fn ty_name(text: &[char], pos: usize) -> (r: Option<usize>)
    requires
        pos <= text@.len(),
    ensures
        match r {
            Some(e) => type_name_end(text@, pos as int) == Some(e as int) && pos < e <= text@.len(),
            None => type_name_end(text@, pos as int) is None,
        },
{
    if pos < text.len() && (is_ascii_letter(text[pos]) || text[pos] == '_' || text[pos] == '&') {
        Some(skip_run(text, pos + 1, CharClass::Word))
    } else {
        None
    }
}

/// Matches a qualified name at `pos`: `a::b::c` is the path `a`, `b`, `c`.
pub fn entity_id(text: &[char], pos: usize) -> (r: Option<(EntityId, usize)>)
    requires
        pos <= text@.len(),
    ensures
        match r {
            Some((id, e)) => entity_id_at(text@, pos as int) == Some((id@, e as int)) && pos < e
                <= text@.len(),
            None => entity_id_at(text@, pos as int) is None,
        },
{
    let first = match ty_name(text, pos) {
        Some(q) => q,
        None => {
            return None;
        },
    };
    let _ = text.len();
    let mut path: Vec<String> = Vec::new();
    path.push(string_of(text, pos, first));
    let mut q: usize = first;
    let ghost whole = entity_id_tail(text@, first as int);
    assert(strings_view(path@) =~= seq![text@.subrange(pos as int, first as int)]);
    loop
        invariant
            pos < first <= q <= text@.len() <= usize::MAX,
            whole == entity_id_tail(text@, first as int),
            seq![text@.subrange(pos as int, first as int)] + whole.0 == strings_view(path@)
                + entity_id_tail(text@, q as int).0,
            whole.1 == entity_id_tail(text@, q as int).1,
        ensures
            pos < q <= text@.len(),
            seq![text@.subrange(pos as int, first as int)] + whole.0 == strings_view(path@),
            whole.1 == q,
        decreases text@.len() - q,
    {
        if !has_pair(text, q, ':', ':') {
            break;
        }
        match ty_name(text, q + 2) {
            Some(e) => {
                let ghost before = strings_view(path@);
                let ghost rest = entity_id_tail(text@, e as int).0;
                path.push(string_of(text, q + 2, e));
                proof {
                    let seg = text@.subrange(q + 2, e as int);
                    assert(strings_view(path@) =~= before.push(seg));
                    assert(before + (seq![seg] + rest) =~= before.push(seg) + rest);
                }
                q = e;
            },
            None => {
                break;
            },
        }
    }
    Some((EntityId { path }, q))
}

/// Matches a type at `pos`: a built-in type, else a user type, else a
/// qualified name.
pub fn ty(config: &Config, text: &[char], pos: usize) -> (r: Option<(Type, usize)>)
    requires
        pos <= text@.len(),
    ensures
        match r {
            Some((t, e)) => type_at(config@, text@, pos as int) == Some((t@, e as int)) && pos <= e
                <= text@.len(),
            None => type_at(config@, text@, pos as int) is None,
        },
{
    proof {
        reveal(type_at);
    }
    if let Some(found) = builtin_ty(text, pos) {
        return Some(found);
    }
    if let Some((name, e)) = user_ty(config, text, pos) {
        return Some((Type::User(name), e));
    }
    match entity_id(text, pos) {
        Some((id, e)) => Some((Type::Api(id), e)),
        None => None,
    }
}

} // verus!
