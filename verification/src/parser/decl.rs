//! Declarations: fields, records, procedures, enumerations and namespaces.
use crate::model::entity::{
    enum_values_view, fields_view, Attributes, Dto, DtoView, Enum, EnumValue, EnumValueView,
    EnumView, Field, FieldView, Rpc, RpcView, Type, TypeView,
};
use crate::model::namespace::{
    children_view, Namespace, NamespaceChild, NamespaceChildView, NamespaceView,
};
use crate::parser::block::{block_at, expr_block};
use crate::parser::config::{Config, UserTypeView};
use crate::parser::lexical::{
    attr, attr_end, char_at, has_char, has_pair, ident, ident_end, keyword, keyword_end, number,
    number_at, pair_at, skip_trivia, trivia_end,
};
use crate::parser::types::{ty, type_at};
use crate::text::string_of;
use vstd::prelude::*;

verus! {

/// The field at `p`: a name, `':'` and a type.
pub open spec fn field_at(types: Seq<UserTypeView>, s: Seq<char>, p: int) -> Option<
    (FieldView, int),
> {
    match ident_end(s, p) {
        Some(n) => {
            let c = trivia_end(s, n);
            if char_at(s, c, ':') {
                match type_at(types, s, trivia_end(s, c + 1)) {
                    Some((ty, e)) => Some((FieldView { name: s.subrange(p, n), ty }, e)),
                    None => None,
                }
            } else {
                None
            }
        },
        None => None,
    }
}

/// The fields that follow one which ends at `q`, each behind a `','`, and
/// where the list ends: after the last field, or after a `','` that no field
/// follows.
pub open spec fn fields_more(types: Seq<UserTypeView>, s: Seq<char>, q: int) -> (
    Seq<FieldView>,
    int,
)
    decreases s.len() - q,
{
    let c = trivia_end(s, q);
    if char_at(s, c, ',') {
        match field_at(types, s, trivia_end(s, c + 1)) {
            Some((field, e)) => if q < e <= s.len() {
                let (more, end) = fields_more(types, s, e);
                (seq![field] + more, end)
            } else {
                (Seq::empty(), c + 1)
            },
            None => (Seq::empty(), c + 1),
        }
    } else {
        (Seq::empty(), q)
    }
}

/// The fields from `p` on, in the order written, with `','` between them
/// and perhaps one after the last; and where the list ends. No field is a
/// list too, which ends where it starts.
pub open spec fn fields_at(types: Seq<UserTypeView>, s: Seq<char>, p: int) -> (
    Seq<FieldView>,
    int,
) {
    match field_at(types, s, trivia_end(s, p)) {
        Some((field, e)) => {
            let (more, end) = fields_more(types, s, e);
            (seq![field] + more, end)
        },
        None => (Seq::empty(), p),
    }
}

/// The list of fields between `open` at `p` and `close`.
pub open spec fn field_list_at(
    types: Seq<UserTypeView>,
    s: Seq<char>,
    p: int,
    open: char,
    close: char,
) -> Option<(Seq<FieldView>, int)> {
    if char_at(s, p, open) {
        let (fields, q) = fields_at(types, s, p + 1);
        let c = trivia_end(s, q);
        if char_at(s, c, close) {
            Some((fields, c + 1))
        } else {
            None
        }
    } else {
        None
    }
}

/// The position after an optional `pub` at `p` and what follows it up to
/// the next token.
pub open spec fn after_pub(s: Seq<char>, p: int) -> int {
    match keyword_end(s, p, "pub"@) {
        Some(e) => trivia_end(s, e),
        None => p,
    }
}

/// The start of a declaration at `p`: `pub` or not, the keyword `kw`, and
/// a name. Gives the name and its end.
pub open spec fn named_at(s: Seq<char>, p: int, kw: Seq<char>) -> Option<(Seq<char>, int)> {
    match keyword_end(s, after_pub(s, p), kw) {
        Some(e) => {
            let n = trivia_end(s, e);
            match ident_end(s, n) {
                Some(ne) => Some((s.subrange(n, ne), ne)),
                None => None,
            }
        },
        None => None,
    }
}

/// The position after an optional annotation at `p` and what follows it up
/// to the next token.
pub open spec fn after_attr(s: Seq<char>, p: int) -> int {
    match attr_end(s, p) {
        Some(e) => trivia_end(s, e),
        None => p,
    }
}

/// The record at `p`: an annotation or not, `pub` or not, `struct`, a name,
/// and the fields in braces.
pub open spec fn dto_at(types: Seq<UserTypeView>, s: Seq<char>, p: int) -> Option<(DtoView, int)> {
    match named_at(s, after_attr(s, p), "struct"@) {
        Some((name, ne)) => match field_list_at(types, s, trivia_end(s, ne), '{', '}') {
            Some((fields, e)) => Some((DtoView { name, fields }, e)),
            None => None,
        },
        None => None,
    }
}

/// What a procedure returns, read behind the parameter list that ends at
/// `q`: `->` and a type, or nothing; and where that ends.
pub open spec fn return_type_at(types: Seq<UserTypeView>, s: Seq<char>, q: int) -> (
    Option<TypeView>,
    int,
) {
    let a = trivia_end(s, q);
    if pair_at(s, a, '-', '>') {
        match type_at(types, s, trivia_end(s, a + 2)) {
            Some((ty, e)) => (Some(ty), e),
            None => (None, q),
        }
    } else {
        (None, q)
    }
}

/// The signature of the procedure at `p`: `pub` or not, `fn`, a name, the
/// parameters in round brackets and the return type, if any. Gives the
/// procedure and where its signature ends.
pub open spec fn rpc_head_at(types: Seq<UserTypeView>, s: Seq<char>, p: int) -> Option<
    (RpcView, int),
> {
    match named_at(s, p, "fn"@) {
        Some((name, ne)) => match field_list_at(types, s, trivia_end(s, ne), '(', ')') {
            Some((params, e)) => {
                let (return_type, r) = return_type_at(types, s, e);
                Some((RpcView { name, params, return_type }, r))
            },
            None => None,
        },
        None => None,
    }
}

/// The procedure at `p`: its signature, and a body in balanced braces. What
/// the body holds does not reach the result.
pub open spec fn rpc_at(types: Seq<UserTypeView>, s: Seq<char>, p: int) -> Option<(RpcView, int)> {
    match rpc_head_at(types, s, p) {
        Some((rpc, r)) => match block_at(s, trivia_end(s, r)) {
            Some((_, e)) => Some((rpc, e)),
            None => None,
        },
        None => None,
    }
}

/// The enumeration variant at `p`: a name, and `'='` and a number or not.
pub open spec fn enum_value_at(s: Seq<char>, p: int) -> Option<(EnumValueView, int)> {
    match ident_end(s, p) {
        Some(n) => {
            let name = s.subrange(p, n);
            let c = trivia_end(s, n);
            if char_at(s, c, '=') {
                match number_at(s, trivia_end(s, c + 1)) {
                    Some((v, e)) => Some((EnumValueView { name, number: Some(v) }, e)),
                    None => Some((EnumValueView { name, number: None }, n)),
                }
            } else {
                Some((EnumValueView { name, number: None }, n))
            }
        },
        None => None,
    }
}

/// The variants that follow one which ends at `q`, each behind a `','`,
/// and where the list ends.
pub open spec fn enum_values_more(s: Seq<char>, q: int) -> (Seq<EnumValueView>, int)
    decreases s.len() - q,
{
    let c = trivia_end(s, q);
    if char_at(s, c, ',') {
        match enum_value_at(s, trivia_end(s, c + 1)) {
            Some((value, e)) => if q < e <= s.len() {
                let (more, end) = enum_values_more(s, e);
                (seq![value] + more, end)
            } else {
                (Seq::empty(), c + 1)
            },
            None => (Seq::empty(), c + 1),
        }
    } else {
        (Seq::empty(), q)
    }
}

/// The variants from `p` on, with `','` between them and perhaps one after
/// the last; and where the list ends.
pub open spec fn enum_values_at(s: Seq<char>, p: int) -> (Seq<EnumValueView>, int) {
    match enum_value_at(s, trivia_end(s, p)) {
        Some((value, e)) => {
            let (more, end) = enum_values_more(s, e);
            (seq![value] + more, end)
        },
        None => (Seq::empty(), p),
    }
}

/// The enumeration at `p`: `pub` or not, `enum`, a name, and the variants
/// in braces.
pub open spec fn enum_at(s: Seq<char>, p: int) -> Option<(EnumView, int)> {
    match named_at(s, p, "enum"@) {
        Some((name, ne)) => {
            let o = trivia_end(s, ne);
            if char_at(s, o, '{') {
                let (values, q) = enum_values_at(s, o + 1);
                let c = trivia_end(s, q);
                if char_at(s, c, '}') {
                    Some((EnumView { name, values }, c + 1))
                } else {
                    None
                }
            } else {
                None
            }
        },
        None => None,
    }
}

/// The namespace at `p`: `pub` or not, `mod`, a name, and then either `';'`,
/// which declares the namespace without children, or its children in
/// braces.
pub open spec fn namespace_at(types: Seq<UserTypeView>, s: Seq<char>, p: int) -> Option<
    (NamespaceView, int),
>
    decreases s.len() - p, 0nat,
{
    match named_at(s, p, "mod"@) {
        Some((name, ne)) => {
            let c = trivia_end(s, ne);
            if char_at(s, c, ';') {
                Some((NamespaceView::empty(name), c + 1))
            } else if char_at(s, c, '{') && p <= c {
                let (children, q) = children_at(types, s, c + 1);
                let d = trivia_end(s, q);
                if char_at(s, d, '}') {
                    Some((NamespaceView { name, children }, d + 1))
                } else {
                    None
                }
            } else {
                None
            }
        },
        None => None,
    }
}

/// The declaration at `p`: a record, else a procedure, else an enumeration,
/// else a namespace.
pub open spec fn child_at(types: Seq<UserTypeView>, s: Seq<char>, p: int) -> Option<
    (NamespaceChildView, int),
>
    decreases s.len() - p, 1nat,
{
    match dto_at(types, s, p) {
        Some((dto, e)) => Some((NamespaceChildView::Dto(dto), e)),
        None => match rpc_at(types, s, p) {
            Some((rpc, e)) => Some((NamespaceChildView::Rpc(rpc), e)),
            None => match enum_at(s, p) {
                Some((en, e)) => Some((NamespaceChildView::Enum(en), e)),
                None => match namespace_at(types, s, p) {
                    Some((ns, e)) => Some((NamespaceChildView::Namespace(ns), e)),
                    None => None,
                },
            },
        },
    }
}

/// The declarations from `p` on, in the order written, as many as there
/// are, and where the last of them ends.
pub open spec fn children_at(types: Seq<UserTypeView>, s: Seq<char>, p: int) -> (
    Seq<NamespaceChildView>,
    int,
)
    decreases s.len() - p, 2nat,
{
    let t = trivia_end(s, p);
    if 0 <= p <= t <= s.len() {
        match child_at(types, s, t) {
            Some((child, e)) => if t < e <= s.len() {
                let (more, end) = children_at(types, s, e);
                (seq![child] + more, end)
            } else {
                (Seq::empty(), p)
            },
            None => (Seq::empty(), p),
        }
    } else {
        (Seq::empty(), p)
    }
}

/// Matches a field at `pos`: `name: type`.
pub fn field(config: &Config, text: &[char], pos: usize) -> (r: Option<(Field, usize)>)
    requires
        pos <= text@.len(),
    ensures
        match r {
            Some((f, e)) => field_at(config@, text@, pos as int) == Some((f@, e as int)) && pos < e
                <= text@.len(),
            None => field_at(config@, text@, pos as int) is None,
        },
{
    let n = match ident(text, pos) {
        Some(n) => n,
        None => {
            return None;
        },
    };
    let c = skip_trivia(text, n);
    if !has_char(text, c, ':') {
        return None;
    }
    let t = skip_trivia(text, c + 1);
    match ty(config, text, t) {
        Some((ty, e)) => Some(
            (Field { name: string_of(text, pos, n), ty, attributes: Attributes::new() }, e),
        ),
        None => None,
    }
}

/// Reads the fields from `pos` on: as many as there are, with `','`
/// between them and perhaps one after the last.
pub fn fields(config: &Config, text: &[char], pos: usize) -> (r: (Vec<Field>, usize))
    requires
        pos <= text@.len(),
    ensures
        fields_at(config@, text@, pos as int) == (fields_view(r.0@), r.1 as int),
        pos <= r.1 <= text@.len(),
{
    let mut out: Vec<Field> = Vec::new();
    let start = skip_trivia(text, pos);
    let mut q: usize = match field(config, text, start) {
        Some((f, e)) => {
            out.push(f);
            e
        },
        None => {
            assert(fields_view(out@) =~= Seq::empty());
            return (out, pos);
        },
    };
    let ghost first = out@[0]@;
    let ghost q0 = q as int;
    assert(fields_view(out@) =~= seq![first]);
    loop
        invariant
            pos <= q <= text@.len(),
            fields_at(config@, text@, pos as int) == (
                seq![first] + fields_more(config@, text@, q0).0,
                fields_more(config@, text@, q0).1,
            ),
            fields_more(config@, text@, q0).1 == fields_more(config@, text@, q as int).1,
            seq![first] + fields_more(config@, text@, q0).0 == fields_view(out@) + fields_more(
                config@,
                text@,
                q as int,
            ).0,
        decreases text@.len() - q,
    {
        let ghost before = fields_view(out@);
        let c = skip_trivia(text, q);
        if !has_char(text, c, ',') {
            assert(before + Seq::<FieldView>::empty() =~= before);
            return (out, q);
        }
        let t = skip_trivia(text, c + 1);
        match field(config, text, t) {
            Some((f, e)) => {
                let ghost rest = fields_more(config@, text@, e as int).0;
                let ghost fv = f@;
                out.push(f);
                proof {
                    assert(fields_view(out@) =~= before.push(fv));
                    assert(before + (seq![fv] + rest) =~= before.push(fv) + rest);
                }
                q = e;
            },
            None => {
                assert(before + Seq::<FieldView>::empty() =~= before);
                return (out, c + 1);
            },
        }
    }
}

/// Matches a list of fields at `pos`, between `open` and `close`.
pub fn field_list(config: &Config, text: &[char], pos: usize, open: char, close: char) -> (r:
    Option<(Vec<Field>, usize)>)
    requires
        pos <= text@.len(),
    ensures
        match r {
            Some((f, e)) => field_list_at(config@, text@, pos as int, open, close) == Some(
                (fields_view(f@), e as int),
            ) && pos < e <= text@.len(),
            None => field_list_at(config@, text@, pos as int, open, close) is None,
        },
{
    if !has_char(text, pos, open) {
        return None;
    }
    let (found, q) = fields(config, text, pos + 1);
    let c = skip_trivia(text, q);
    if has_char(text, c, close) {
        Some((found, c + 1))
    } else {
        None
    }
}

/// Skips `pub` at `pos`, if it is there, and what follows it up to the
/// next token.
pub fn skip_pub(text: &[char], pos: usize) -> (r: usize)
    requires
        pos <= text@.len(),
    ensures
        r == after_pub(text@, pos as int),
        pos <= r <= text@.len(),
{
    match keyword(text, pos, "pub") {
        Some(e) => skip_trivia(text, e),
        None => pos,
    }
}

/// Matches the start of a declaration at `pos`: `pub` or not, the keyword
/// `kw`, and a name. Gives the name and its end.
pub fn named(text: &[char], pos: usize, kw: &str) -> (r: Option<(String, usize)>)
    requires
        pos <= text@.len(),
    ensures
        match r {
            Some((name, e)) => named_at(text@, pos as int, kw@) == Some((name@, e as int)) && pos
                < e <= text@.len(),
            None => named_at(text@, pos as int, kw@) is None,
        },
{
    let k = skip_pub(text, pos);
    let e = match keyword(text, k, kw) {
        Some(e) => e,
        None => {
            return None;
        },
    };
    let n = skip_trivia(text, e);
    match ident(text, n) {
        Some(ne) => Some((string_of(text, n, ne), ne)),
        None => None,
    }
}

/// Matches a record at `pos`.
pub fn dto(config: &Config, text: &[char], pos: usize) -> (r: Option<(Dto, usize)>)
    requires
        pos <= text@.len(),
    ensures
        match r {
            Some((d, e)) => dto_at(config@, text@, pos as int) == Some((d@, e as int)) && pos < e
                <= text@.len(),
            None => dto_at(config@, text@, pos as int) is None,
        },
{
    let a = match attr(text, pos) {
        Some(e) => skip_trivia(text, e),
        None => pos,
    };
    let (name, ne) = match named(text, a, "struct") {
        Some(found) => found,
        None => {
            return None;
        },
    };
    let o = skip_trivia(text, ne);
    match field_list(config, text, o, '{', '}') {
        Some((found, e)) => Some((Dto { name, fields: found, attributes: Attributes::new() }, e)),
        None => None,
    }
}

/// Reads what a procedure returns, behind the parameter list that ends at
/// `pos`.
pub fn return_type(config: &Config, text: &[char], pos: usize) -> (r: (Option<Type>, usize))
    requires
        pos <= text@.len(),
    ensures
        return_type_at(config@, text@, pos as int) == (
            crate::model::entity::type_option_view(r.0),
            r.1 as int,
        ),
        pos <= r.1 <= text@.len(),
{
    let a = skip_trivia(text, pos);
    if !has_pair(text, a, '-', '>') {
        return (None, pos);
    }
    let t = skip_trivia(text, a + 2);
    match ty(config, text, t) {
        Some((ty, e)) => (Some(ty), e),
        None => (None, pos),
    }
}

/// Matches a procedure at `pos`. Its body is read for its balance only.
pub fn rpc(config: &Config, text: &[char], pos: usize) -> (r: Option<(Rpc, usize)>)
    requires
        pos <= text@.len(),
    ensures
        match r {
            Some((p, e)) => rpc_at(config@, text@, pos as int) == Some((p@, e as int)) && pos < e
                <= text@.len(),
            None => rpc_at(config@, text@, pos as int) is None,
        },
{
    let (name, ne) = match named(text, pos, "fn") {
        Some(found) => found,
        None => {
            return None;
        },
    };
    let o = skip_trivia(text, ne);
    let (params, e) = match field_list(config, text, o, '(', ')') {
        Some(found) => found,
        None => {
            return None;
        },
    };
    let (return_type, r) = return_type(config, text, e);
    let b = skip_trivia(text, r);
    match expr_block(text, b) {
        Some((_, end)) => Some(
            (Rpc { name, params, return_type, attributes: Attributes::new() }, end),
        ),
        None => None,
    }
}

/// Matches an enumeration variant at `pos`.
pub fn en_value(text: &[char], pos: usize) -> (r: Option<(EnumValue, usize)>)
    requires
        pos <= text@.len(),
    ensures
        match r {
            Some((v, e)) => enum_value_at(text@, pos as int) == Some((v@, e as int)) && pos < e
                <= text@.len(),
            None => enum_value_at(text@, pos as int) is None,
        },
{
    let n = match ident(text, pos) {
        Some(n) => n,
        None => {
            return None;
        },
    };
    let name = string_of(text, pos, n);
    let c = skip_trivia(text, n);
    if has_char(text, c, '=') {
        let t = skip_trivia(text, c + 1);
        if let Some((v, e)) = number(text, t) {
            return Some((EnumValue { name, number: Some(v), attributes: Attributes::new() }, e));
        }
    }
    Some((EnumValue { name, number: None, attributes: Attributes::new() }, n))
}

/// Reads the enumeration variants from `pos` on.
pub fn en_values(text: &[char], pos: usize) -> (r: (Vec<EnumValue>, usize))
    requires
        pos <= text@.len(),
    ensures
        enum_values_at(text@, pos as int) == (enum_values_view(r.0@), r.1 as int),
        pos <= r.1 <= text@.len(),
{
    let mut out: Vec<EnumValue> = Vec::new();
    let start = skip_trivia(text, pos);
    let mut q: usize = match en_value(text, start) {
        Some((v, e)) => {
            out.push(v);
            e
        },
        None => {
            assert(enum_values_view(out@) =~= Seq::empty());
            return (out, pos);
        },
    };
    let ghost first = out@[0]@;
    let ghost q0 = q as int;
    assert(enum_values_view(out@) =~= seq![first]);
    loop
        invariant
            pos <= q <= text@.len(),
            enum_values_at(text@, pos as int) == (
                seq![first] + enum_values_more(text@, q0).0,
                enum_values_more(text@, q0).1,
            ),
            enum_values_more(text@, q0).1 == enum_values_more(text@, q as int).1,
            seq![first] + enum_values_more(text@, q0).0 == enum_values_view(out@)
                + enum_values_more(text@, q as int).0,
        decreases text@.len() - q,
    {
        let ghost before = enum_values_view(out@);
        let c = skip_trivia(text, q);
        if !has_char(text, c, ',') {
            assert(before + Seq::<EnumValueView>::empty() =~= before);
            return (out, q);
        }
        let t = skip_trivia(text, c + 1);
        match en_value(text, t) {
            Some((v, e)) => {
                let ghost rest = enum_values_more(text@, e as int).0;
                let ghost vv = v@;
                out.push(v);
                proof {
                    assert(enum_values_view(out@) =~= before.push(vv));
                    assert(before + (seq![vv] + rest) =~= before.push(vv) + rest);
                }
                q = e;
            },
            None => {
                assert(before + Seq::<EnumValueView>::empty() =~= before);
                return (out, c + 1);
            },
        }
    }
}

/// Matches an enumeration at `pos`.
pub fn en(text: &[char], pos: usize) -> (r: Option<(Enum, usize)>)
    requires
        pos <= text@.len(),
    ensures
        match r {
            Some((en, e)) => enum_at(text@, pos as int) == Some((en@, e as int)) && pos < e
                <= text@.len(),
            None => enum_at(text@, pos as int) is None,
        },
{
    let (name, ne) = match named(text, pos, "enum") {
        Some(found) => found,
        None => {
            return None;
        },
    };
    let o = skip_trivia(text, ne);
    if !has_char(text, o, '{') {
        return None;
    }
    let (values, q) = en_values(text, o + 1);
    let c = skip_trivia(text, q);
    if has_char(text, c, '}') {
        Some((Enum { name, values, attributes: Attributes::new() }, c + 1))
    } else {
        None
    }
}

/// Matches a namespace at `pos`: a declaration by name alone, which has no
/// children, or one with its children in braces.
pub fn namespace(config: &Config, text: &[char], pos: usize) -> (r: Option<(Namespace, usize)>)
    requires
        pos <= text@.len(),
    ensures
        match r {
            Some((ns, e)) => namespace_at(config@, text@, pos as int) == Some((ns@, e as int))
                && pos < e <= text@.len(),
            None => namespace_at(config@, text@, pos as int) is None,
        },
    decreases text@.len() - pos, 0nat,
{
    let (name, ne) = match named(text, pos, "mod") {
        Some(found) => found,
        None => {
            return None;
        },
    };
    let c = skip_trivia(text, ne);
    if has_char(text, c, ';') {
        let ns = Namespace { name, children: Vec::new(), attributes: Attributes::new() };
        assert(ns@.children =~= Seq::empty());
        return Some((ns, c + 1));
    }
    if !has_char(text, c, '{') {
        return None;
    }
    let (children, q) = namespace_children(config, text, c + 1);
    let d = skip_trivia(text, q);
    if has_char(text, d, '}') {
        Some((Namespace { name, children, attributes: Attributes::new() }, d + 1))
    } else {
        None
    }
}

/// Matches a declaration at `pos`: a record, a procedure, an enumeration
/// or a namespace.
pub fn child(config: &Config, text: &[char], pos: usize) -> (r: Option<(NamespaceChild, usize)>)
    requires
        pos <= text@.len(),
    ensures
        match r {
            Some((c, e)) => child_at(config@, text@, pos as int) == Some((c@, e as int)) && pos < e
                <= text@.len(),
            None => child_at(config@, text@, pos as int) is None,
        },
    decreases text@.len() - pos, 1nat,
{
    if let Some((found, e)) = dto(config, text, pos) {
        return Some((NamespaceChild::Dto(found), e));
    }
    if let Some((found, e)) = rpc(config, text, pos) {
        return Some((NamespaceChild::Rpc(found), e));
    }
    if let Some((found, e)) = en(text, pos) {
        return Some((NamespaceChild::Enum(found), e));
    }
    match namespace(config, text, pos) {
        Some((found, e)) => Some((NamespaceChild::Namespace(found), e)),
        None => None,
    }
}

/// Reads the declarations from `pos` on, as many as there are.
pub fn namespace_children(config: &Config, text: &[char], pos: usize) -> (r: (
    Vec<NamespaceChild>,
    usize,
))
    requires
        pos <= text@.len(),
    ensures
        children_at(config@, text@, pos as int) == (children_view(r.0@), r.1 as int),
        pos <= r.1 <= text@.len(),
    decreases text@.len() - pos, 2nat,
{
    let mut out: Vec<NamespaceChild> = Vec::new();
    let mut q: usize = pos;
    assert(children_view(out@) =~= Seq::empty());
    loop
        invariant
            pos <= q <= text@.len(),
            children_at(config@, text@, pos as int).1 == children_at(config@, text@, q as int).1,
            children_at(config@, text@, pos as int).0 == children_view(out@) + children_at(
                config@,
                text@,
                q as int,
            ).0,
        decreases text@.len() - q,
    {
        let ghost before = children_view(out@);
        let t = skip_trivia(text, q);
        match child(config, text, t) {
            Some((c, e)) => {
                let ghost rest = children_at(config@, text@, e as int).0;
                let ghost cv = c@;
                out.push(c);
                proof {
                    assert(children_view(out@) =~= before.push(cv));
                    assert(before + (seq![cv] + rest) =~= before.push(cv) + rest);
                }
                q = e;
            },
            None => {
                assert(before + Seq::<NamespaceChildView>::empty() =~= before);
                return (out, q);
            },
        }
    }
}

} // verus!
