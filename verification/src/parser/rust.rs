//! Whole chunks, and the parser that reads chunks into a builder.
use crate::input::{ChunkBuffer, ChunkTextView};
use crate::model::builder::{Builder, BuilderView};
use crate::model::entity::Attributes;
use crate::model::namespace::{
    children_view, Namespace, NamespaceChild, NamespaceChildView, UNDEFINED_NAMESPACE,
};
use crate::parser::config::{Config, UserTypeView};
use crate::parser::decl::{children_at, named, named_at, namespace_children};
use crate::parser::lexical::{
    char_at, has_char, has_pair, ident, ident_end, pair_at, skip_trivia, trivia_end,
};
use crate::parser::path::{namespace_path, namespace_segments};
use crate::text::{chars_of, strings_view};
use vstd::prelude::*;

verus! {

/// Where the path of an import goes on to from `q`, the end of one of its
/// names: over each `::` that a name follows.
pub open spec fn use_path_end(s: Seq<char>, q: int) -> int
    decreases s.len() - q,
{
    let a = trivia_end(s, q);
    if pair_at(s, a, ':', ':') {
        match ident_end(s, trivia_end(s, a + 2)) {
            Some(e) => if q < e <= s.len() {
                use_path_end(s, e)
            } else {
                q
            },
            None => q,
        }
    } else {
        q
    }
}

/// Where the import at `p` ends: `pub` or not, `use`, names with `::`
/// between them, and `';'`.
pub open spec fn use_end(s: Seq<char>, p: int) -> Option<int> {
    match named_at(s, p, "use"@) {
        Some((_, q)) => {
            let c = trivia_end(s, use_path_end(s, q));
            if char_at(s, c, ';') {
                Some(c + 1)
            } else {
                None
            }
        },
        None => None,
    }
}

/// Where the imports that start a chunk end, from `p` on.
pub open spec fn imports_end(s: Seq<char>, p: int) -> int
    decreases s.len() - p,
{
    let t = trivia_end(s, p);
    if 0 <= p <= t <= s.len() {
        match use_end(s, t) {
            Some(e) => if t < e <= s.len() {
                imports_end(s, e)
            } else {
                p
            },
            None => p,
        }
    } else {
        p
    }
}

/// The declarations at the top of a chunk: those that follow its imports,
/// as many as match; and the position of the first token behind them.
pub open spec fn chunk_prefix(types: Seq<UserTypeView>, s: Seq<char>) -> (
    Seq<NamespaceChildView>,
    int,
) {
    let (children, q) = children_at(types, s, imports_end(s, 0));
    (children, trivia_end(s, q))
}

/// The declarations of a chunk, where all of its text matches: imports,
/// declarations, and nothing but white space and comments behind them.
pub open spec fn chunk_children(types: Seq<UserTypeView>, s: Seq<char>) -> Option<
    Seq<NamespaceChildView>,
> {
    let (children, end) = chunk_prefix(types, s);
    if end == s.len() {
        Some(children)
    } else {
        None
    }
}

/// Where reading stops inside the namespace that starts at `t`: the
/// namespace has a body, and its declarations end before a token that is
/// not the closing brace. Nothing where the token at `t` starts no such
/// namespace.
pub open spec fn inner_stop(types: Seq<UserTypeView>, s: Seq<char>, t: int) -> Option<int> {
    match named_at(s, t, "mod"@) {
        Some((_, ne)) => {
            let c = trivia_end(s, ne);
            let d = trivia_end(s, children_at(types, s, c + 1).1);
            if char_at(s, c, '{') && t <= c < d < s.len() && s[d] != '}' {
                Some(d)
            } else {
                None
            }
        },
        None => None,
    }
}

/// The innermost token at which reading stops, from the token at `t` on:
/// where the token at `t` starts a namespace within which reading stops,
/// the innermost token at which it stops there, and else the token at `t`.
/// With it, whether the token stands within a namespace.
pub open spec fn stop_from(types: Seq<UserTypeView>, s: Seq<char>, t: int, inside: bool) -> (
    int,
    bool,
)
    decreases s.len() - t,
{
    match inner_stop(types, s, t) {
        Some(d) => stop_from(types, s, d, true),
        None => (t, inside),
    }
}

/// Where a chunk that does not parse fails, and what was looked for there:
/// the innermost token that starts no declaration.
pub open spec fn failure(types: Seq<UserTypeView>, s: Seq<char>) -> (int, Expected) {
    let (at, inside) = stop_from(types, s, chunk_prefix(types, s).1, false);
    (
        at,
        if inside {
            Expected::DeclarationOrClose
        } else {
            Expected::DeclarationOrEnd
        },
    )
}

/// Number of line feeds in `s[..n]`.
pub open spec fn newlines_before(s: Seq<char>, n: int) -> nat
    decreases n,
{
    if n <= 0 || n > s.len() {
        0
    } else if s[n - 1] == '\n' {
        newlines_before(s, n - 1) + 1
    } else {
        newlines_before(s, n - 1)
    }
}

/// Where the line that holds position `n` starts.
pub open spec fn line_start(s: Seq<char>, n: int) -> int
    decreases n,
{
    if n <= 0 || n > s.len() {
        0
    } else if s[n - 1] == '\n' {
        n
    } else {
        line_start(s, n - 1)
    }
}

/// What the grammar looks for where it stops reading a chunk.
#[derive(Debug, Clone, Copy, PartialEq, Eq, Structural)]
pub enum Expected {
    /// A declaration, or the end of the chunk.
    DeclarationOrEnd,
    /// A declaration, or the `}` that closes the namespace.
    DeclarationOrClose,
}

/// Why a chunk did not parse: the place of the innermost token that starts
/// no declaration which the grammar can read, and what was looked for
/// there.
#[derive(Debug, Clone, PartialEq, Eq)]
pub struct ParseError {
    /// Index of the chunk among those given.
    pub chunk: usize,
    /// The file that the chunk came from, if known.
    pub path: Option<String>,
    /// Number of characters before the token.
    pub offset: usize,
    /// Line of the token, counted from 1.
    pub line: usize,
    /// Place of the token in its line, counted from 1 in characters.
    pub column: usize,
    /// The character that the token starts with.
    pub found: char,
    /// What the grammar looked for at the token.
    pub expected: Expected,
}

/// Skips the path of an import from `pos`, the end of one of its names.
fn use_path(text: &[char], pos: usize) -> (r: usize)
    requires
        pos <= text@.len(),
    ensures
        r == use_path_end(text@, pos as int),
        pos <= r <= text@.len(),
{
    let mut q: usize = pos;
    loop
        invariant
            pos <= q <= text@.len(),
            use_path_end(text@, pos as int) == use_path_end(text@, q as int),
        decreases text@.len() - q,
    {
        let a = skip_trivia(text, q);
        if !has_pair(text, a, ':', ':') {
            return q;
        }
        let n = skip_trivia(text, a + 2);
        match ident(text, n) {
            Some(e) => {
                q = e;
            },
            None => {
                return q;
            },
        }
    }
}

/// Matches an import at `pos` and gives its end. What it imports is of no
/// concern to the model.
pub fn use_decl(text: &[char], pos: usize) -> (r: Option<usize>)
    requires
        pos <= text@.len(),
    ensures
        match r {
            Some(e) => use_end(text@, pos as int) == Some(e as int) && pos < e <= text@.len(),
            None => use_end(text@, pos as int) is None,
        },
{
    let q = match named(text, pos, "use") {
        Some((_, q)) => q,
        None => {
            return None;
        },
    };
    let e = use_path(text, q);
    let c = skip_trivia(text, e);
    if has_char(text, c, ';') {
        Some(c + 1)
    } else {
        None
    }
}

/// Skips the imports that start a chunk.
pub fn skip_imports(text: &[char], pos: usize) -> (r: usize)
    requires
        pos <= text@.len(),
    ensures
        r == imports_end(text@, pos as int),
        pos <= r <= text@.len(),
{
    let mut q: usize = pos;
    loop
        invariant
            pos <= q <= text@.len(),
            imports_end(text@, pos as int) == imports_end(text@, q as int),
        decreases text@.len() - q,
    {
        let t = skip_trivia(text, q);
        match use_decl(text, t) {
            Some(e) => {
                q = e;
            },
            None => {
                return q;
            },
        }
    }
}

/// Reads a whole chunk. Gives its declarations where all of the text
/// matches, and else the position of the first token that does not.
pub fn parse_chunk(config: &Config, text: &[char]) -> (r: Result<Vec<NamespaceChild>, usize>)
    ensures
        match r {
            Ok(children) => chunk_children(config@, text@) == Some(children_view(children@)),
            Err(offset) => chunk_children(config@, text@) is None && offset == chunk_prefix(
                config@,
                text@,
            ).1 && offset < text@.len(),
        },
{
    let start = skip_imports(text, 0);
    let (children, q) = namespace_children(config, text, start);
    let end = skip_trivia(text, q);
    if end == text.len() {
        Ok(children)
    } else {
        Err(end)
    }
}

/// Finds the innermost token at which reading stops, from the token at
/// `pos` on, and whether it stands within a namespace.
pub fn find_stop(config: &Config, text: &[char], pos: usize) -> (r: (usize, bool))
    requires
        pos < text@.len(),
    ensures
        (r.0 as int, r.1) == stop_from(config@, text@, pos as int, false),
        pos <= r.0 < text@.len(),
{
    let mut t: usize = pos;
    let mut inside = false;
    loop
        invariant
            pos <= t < text@.len(),
            stop_from(config@, text@, pos as int, false) == stop_from(
                config@,
                text@,
                t as int,
                inside,
            ),
        decreases text@.len() - t,
    {
        let ne = match named(text, t, "mod") {
            Some((_, ne)) => ne,
            None => {
                return (t, inside);
            },
        };
        let c = skip_trivia(text, ne);
        if !has_char(text, c, '{') {
            return (t, inside);
        }
        let (_, q) = namespace_children(config, text, c + 1);
        let d = skip_trivia(text, q);
        if d < text.len() && text[d] != '}' {
            t = d;
            inside = true;
        } else {
            return (t, inside);
        }
    }
}

/// Finds the line and the column of the position `offset`, both counted
/// from 1.
pub fn locate(text: &[char], offset: usize) -> (r: (usize, usize))
    requires
        offset < text@.len(),
    ensures
        r.0 == newlines_before(text@, offset as int) + 1,
        r.1 == offset - line_start(text@, offset as int) + 1,
{
    let mut line: usize = 1;
    let mut start: usize = 0;
    let mut i: usize = 0;
    while i < offset
        invariant
            i <= offset < text@.len(),
            start <= i,
            line == newlines_before(text@, i as int) + 1,
            line <= i + 1,
            start == line_start(text@, i as int),
        decreases offset - i,
    {
        if text[i] == '\n' {
            line += 1;
            start = i + 1;
        }
        i += 1;
    }
    let _ = text.len();
    (line, offset - start + 1)
}

/// The namespace that a chunk's declarations go to, below the stack: the
/// one that its path stands for, or the stack's own where it has no path.
pub open spec fn chunk_target(stack: Seq<Seq<char>>, path: Option<Seq<char>>) -> Seq<Seq<char>> {
    match path {
        Some(p) => stack + namespace_segments(p),
        None => stack,
    }
}

/// Index of the first chunk from the `k`-th on whose text does not parse.
pub open spec fn first_failure(types: Seq<UserTypeView>, chunks: Seq<ChunkTextView>, k: int)
    -> Option<int>
    decreases chunks.len() - k,
{
    if k < 0 || k >= chunks.len() {
        None
    } else if chunk_children(types, chunks[k].text) is None {
        Some(k)
    } else {
        first_failure(types, chunks, k + 1)
    }
}

/// The builder after the chunks from the `k`-th on were merged into it, one
/// after the other in the order given: each chunk's declarations go below
/// the stack and the chunk's path, and the stack is empty afterwards.
pub open spec fn merged_from(
    types: Seq<UserTypeView>,
    b: BuilderView,
    chunks: Seq<ChunkTextView>,
    k: int,
) -> BuilderView
    decreases chunks.len() - k,
{
    if k < 0 || k >= chunks.len() {
        b
    } else {
        match chunk_children(types, chunks[k].text) {
            Some(children) => merged_from(
                types,
                BuilderView {
                    api: b.api.merged(chunk_target(b.stack, chunks[k].path), children),
                    stack: Seq::empty(),
                },
                chunks,
                k + 1,
            ),
            None => b,
        }
    }
}

/// The text of an optional string.
pub open spec fn text_option(s: Option<String>) -> Option<Seq<char>> {
    match s {
        Some(s) => Some(s@),
        None => None,
    }
}

/// What parsing `chunks` into a builder comes to. Either every chunk
/// parses, and the builder holds them all, merged in order. Or the builder
/// is as it was, and the error names the first chunk that does not parse
/// and the place in it of the innermost token that starts no declaration.
pub open spec fn parse_outcome(
    types: Seq<UserTypeView>,
    chunks: Seq<ChunkTextView>,
    before: BuilderView,
    after: BuilderView,
    r: Result<(), ParseError>,
) -> bool {
    match r {
        Ok(_) => first_failure(types, chunks, 0) is None && after == merged_from(
            types,
            before,
            chunks,
            0,
        ),
        Err(e) => {
            &&& first_failure(types, chunks, 0) == Some(e.chunk as int)
            &&& after == before
            &&& e.chunk < chunks.len()
            &&& text_option(e.path) == chunks[e.chunk as int].path
            &&& (e.offset as int, e.expected) == failure(types, chunks[e.chunk as int].text)
            &&& e.line == newlines_before(chunks[e.chunk as int].text, e.offset as int) + 1
            &&& e.column == e.offset - line_start(chunks[e.chunk as int].text, e.offset as int) + 1
            &&& e.offset < chunks[e.chunk as int].text.len()
            &&& e.found == chunks[e.chunk as int].text[e.offset as int]
        },
    }
}

/// Reads every chunk of `input`. Gives their declarations, one namespace
/// for each chunk, where all of them parse, and else the error of the first
/// that does not.
pub fn parse_chunks(config: &Config, input: &ChunkBuffer) -> (r: Result<Vec<Namespace>, ParseError>)
    ensures
        match r {
            Ok(parsed) => {
                &&& first_failure(config@, input@, 0) is None
                &&& parsed@.len() == input@.len()
                &&& forall|j: int|
                    0 <= j < parsed@.len() ==> chunk_children(config@, input@[j].text) == Some(
                        (#[trigger] parsed@[j])@.children,
                    )
            },
            Err(e) => {
                &&& first_failure(config@, input@, 0) == Some(e.chunk as int)
                &&& e.chunk < input@.len()
                &&& text_option(e.path) == input@[e.chunk as int].path
                &&& (e.offset as int, e.expected) == failure(config@, input@[e.chunk as int].text)
                &&& e.line == newlines_before(input@[e.chunk as int].text, e.offset as int) + 1
                &&& e.column == e.offset - line_start(
                    input@[e.chunk as int].text,
                    e.offset as int,
                ) + 1
                &&& e.offset < input@[e.chunk as int].text.len()
                &&& e.found == input@[e.chunk as int].text[e.offset as int]
            },
        },
{
    let mut parsed: Vec<Namespace> = Vec::new();
    let mut k: usize = 0;
    while k < input.len()
        invariant
            k <= input@.len(),
            parsed@.len() == k,
            first_failure(config@, input@, 0) == first_failure(config@, input@, k as int),
            forall|j: int|
                0 <= j < k ==> chunk_children(config@, input@[j].text) == Some(
                    (#[trigger] parsed@[j])@.children,
                ),
        decreases input@.len() - k,
    {
        let item = input.get(k);
        let text = chars_of(item.text.as_str());
        match parse_chunk(config, text.as_slice()) {
            Ok(children) => {
                parsed.push(
                    Namespace {
                        name: UNDEFINED_NAMESPACE.to_owned(),
                        children,
                        attributes: Attributes::new(),
                    },
                );
            },
            Err(first) => {
                let (offset, inside) = find_stop(config, text.as_slice(), first);
                let expected = if inside {
                    Expected::DeclarationOrClose
                } else {
                    Expected::DeclarationOrEnd
                };
                let (line, column) = locate(text.as_slice(), offset);
                let path = match &item.chunk.relative_file_path {
                    Some(p) => Some(p.clone()),
                    None => None,
                };
                let found = text[offset];
                return Err(ParseError { chunk: k, path, offset, line, column, found, expected });
            },
        }
        k += 1;
    }
    Ok(parsed)
}

/// Merges the declarations of every chunk into the builder, in order:
/// `parsed` holds one namespace for each chunk of `input`.
pub fn merge_chunks(
    config: &Config,
    input: &ChunkBuffer,
    parsed: Vec<Namespace>,
    builder: &mut Builder,
)
    requires
        parsed@.len() == input@.len(),
        forall|j: int|
            0 <= j < parsed@.len() ==> chunk_children(config@, input@[j].text) == Some(
                (#[trigger] parsed@[j])@.children,
            ),
    ensures
        final(builder)@ == merged_from(config@, old(builder)@, input@, 0),
{
    let mut parsed = parsed;
    let mut k: usize = 0;
    let n = input.len();
    while k < n
        invariant
            k <= n == input@.len(),
            parsed@.len() == n - k,
            forall|i: int|
                0 <= i < parsed@.len() ==> chunk_children(config@, input@[k + i].text) == Some(
                    (#[trigger] parsed@[i])@.children,
                ),
            merged_from(config@, old(builder)@, input@, 0) == merged_from(
                config@,
                builder@,
                input@,
                k as int,
            ),
        decreases n - k,
    {
        let item = input.get(k);
        let ghost start = builder@;
        match &item.chunk.relative_file_path {
            Some(path) => {
                let segments = namespace_path(path.as_str());
                let mut i: usize = 0;
                while i < segments.len()
                    invariant
                        i <= segments@.len(),
                        builder@.api == start.api,
                        builder@.stack == start.stack + strings_view(segments@).take(i as int),
                    decreases segments@.len() - i,
                {
                    builder.enter_namespace(segments[i].as_str());
                    assert(strings_view(segments@).take(i + 1) =~= strings_view(segments@).take(
                        i as int,
                    ).push(segments@[i as int]@));
                    assert(builder@.stack =~= start.stack + strings_view(segments@).take(i + 1));
                    i += 1;
                }
                assert(strings_view(segments@).take(i as int) =~= strings_view(segments@));
            },
            None => {
                assert(start.stack + Seq::<Seq<char>>::empty() =~= start.stack);
            },
        }
        assert(builder@.stack == chunk_target(start.stack, input@[k as int].path));
        assert(chunk_children(config@, input@[k as int].text) == Some(parsed@[0]@.children));
        let ghost rest = parsed@;
        let ns = parsed.remove(0);
        assert forall|i: int| 0 <= i < parsed@.len() implies chunk_children(
            config@,
            input@[k + 1 + i].text,
        ) == Some((#[trigger] parsed@[i])@.children) by {
            assert(parsed@[i] == rest[i + 1]);
        }
        builder.merge(ns);
        builder.clear_namespace();
        assert(builder@.stack =~= Seq::empty());
        k += 1;
    }
}

/// The parser for declarations in Rust's syntax.
#[derive(Debug, Clone, Copy)]
pub struct Rust {}

impl Default for Rust {
    fn default() -> (r: Rust) {
        Rust {  }
    }
}

impl crate::parser::Parser for Rust {
    /// Parses every chunk and merges their declarations into the builder in
    /// the order of the chunks. All chunks are parsed before any is merged:
    /// where one fails, the builder is left as it was.
    fn parse(&self, config: &Config, input: &ChunkBuffer, builder: &mut Builder) -> (r: Result<
        (),
        ParseError,
    >)
        ensures
            parse_outcome(config@, input@, old(builder)@, final(builder)@, r),
    {
        match parse_chunks(config, input) {
            Ok(parsed) => {
                merge_chunks(config, input, parsed, builder);
                Ok(())
            },
            Err(e) => Err(e),
        }
    }
}

} // verus!
