use apyxl::generator::Dbg;
use apyxl::input::ChunkBuffer;
use apyxl::model::{Builder, Chunk, NamespaceChild, Type};
use apyxl::output::Buffer;
use apyxl::parser::block::{block_rest, expr_block, ExprBlock};
use apyxl::parser::chars::{class_has, is_whitespace, skip_run, CharClass};
use apyxl::parser::decl::{
    child, dto, en, en_value, en_values, field, field_list, fields, named, namespace,
    namespace_children, return_type, rpc, skip_pub,
};
use apyxl::parser::lexical::{
    attr, comment, comment_bounds, find_close, has_char, has_pair, ident, keyword, literal, number,
    skip_trivia, trimmed_text,
};
use apyxl::parser::path::{namespace_path, path_iter};
use apyxl::parser::rust::{
    find_stop, locate, parse_chunk, parse_chunks, skip_imports, use_decl, Expected,
};
use apyxl::parser::types::{entity_id, ty_name};
use apyxl::parser::{Config, Rust};
use apyxl::text::{chars_of, string_of};
use apyxl::{Generator, Output, Parser};

fn config() -> Config {
    Config::default()
}

fn chunk(text: &str) -> Result<Vec<NamespaceChild>, usize> {
    parse_chunk(&config(), &chars_of(text))
}

fn describe(children: &[NamespaceChild]) -> Vec<String> {
    children
        .iter()
        .map(|c| match c {
            NamespaceChild::Dto(d) => format!("dto {}", d.name),
            NamespaceChild::Rpc(r) => format!("rpc {}", r.name),
            NamespaceChild::Enum(e) => format!("enum {}", e.name),
            NamespaceChild::Namespace(n) => format!("mod {} {:?}", n.name, describe(&n.children)),
        })
        .collect()
}

#[test]
fn dto_with_two_fields() {
    let text = chars_of("struct S { a: i32, b: f32 }");
    let (found, end) = dto(&config(), &text, 0).unwrap();
    assert_eq!(end, text.len());
    assert_eq!(found.name, "S");
    assert_eq!(found.fields.len(), 2);
    assert_eq!(found.fields[0].name, "a");
    assert_eq!(found.fields[0].ty, Type::I32);
    assert_eq!(found.fields[1].name, "b");
    assert_eq!(found.fields[1].ty, Type::F32);
}

#[test]
fn text_helpers() {
    let text = chars_of("héllo wörld");
    assert_eq!(text.len(), 11);
    assert_eq!(string_of(&text, 6, 11), "wörld");
    assert_eq!(string_of(&text, 3, 3), "");
    assert_eq!(trimmed_text(&chars_of("  a b \n"), 0, 7), "a b");
    assert_eq!(trimmed_text(&chars_of("  a b \n"), 1, 3), "a");
    assert_eq!(trimmed_text(&chars_of(" \t\n"), 0, 3), "");
    assert_eq!(trimmed_text(&chars_of("ab"), 0, 2), "ab");
}

#[test]
fn white_space_is_what_unicode_says() {
    for c in [' ', '\t', '\n', '\r', '\u{b}', '\u{c}', '\u{85}', '\u{a0}', '\u{1680}', '\u{2000}',
        '\u{2005}', '\u{200a}', '\u{2028}', '\u{2029}', '\u{202f}', '\u{205f}', '\u{3000}']
    {
        assert!(is_whitespace(c), "{:?}", c);
        assert!(c.is_whitespace());
    }
    for c in ['a', '_', '/', '\u{8}', '\u{e}', '\u{200b}', '\u{2060}', '\u{feff}', '\u{180e}'] {
        assert!(!is_whitespace(c), "{:?}", c);
        assert!(!c.is_whitespace());
    }
    let mut all_agree = true;
    for code in 0..0x11000u32 {
        if let Some(c) = char::from_u32(code) {
            all_agree &= is_whitespace(c) == c.is_whitespace();
        }
    }
    assert!(all_agree);
}

#[test]
fn character_classes() {
    assert!(class_has(CharClass::Word, 'a'));
    assert!(class_has(CharClass::Word, 'Z'));
    assert!(class_has(CharClass::Word, '0'));
    assert!(class_has(CharClass::Word, '_'));
    assert!(!class_has(CharClass::Word, '-'));
    assert!(!class_has(CharClass::Word, 'é'));
    assert!(class_has(CharClass::Digit, '9'));
    assert!(!class_has(CharClass::Digit, 'a'));
    assert!(class_has(CharClass::NotNewline, '\r'));
    assert!(!class_has(CharClass::NotNewline, '\n'));
    assert!(class_has(CharClass::NotBracket, '['));
    assert!(!class_has(CharClass::NotBracket, ']'));
    assert!(class_has(CharClass::Space, ' '));
    let text = chars_of("ab1_ c");
    assert_eq!(skip_run(&text, 0, CharClass::Word), 4);
    assert_eq!(skip_run(&text, 4, CharClass::Word), 4);
    assert_eq!(skip_run(&text, 4, CharClass::Space), 5);
    assert_eq!(skip_run(&text, 5, CharClass::Word), 6);
    assert_eq!(skip_run(&text, 6, CharClass::Word), 6);
}

#[test]
fn literals_identifiers_keywords() {
    let text = chars_of("pub fn f");
    assert_eq!(literal(&text, 0, "pub"), Some(3));
    assert_eq!(literal(&text, 0, "pu"), Some(2));
    assert_eq!(literal(&text, 0, ""), Some(0));
    assert_eq!(literal(&text, 1, "pub"), None);
    assert_eq!(literal(&text, 7, "f"), Some(8));
    assert_eq!(literal(&text, 7, "fn"), None);
    assert_eq!(literal(&text, 8, "f"), None);
    assert_eq!(ident(&text, 0), Some(3));
    assert_eq!(ident(&text, 3), None);
    assert_eq!(ident(&text, 8), None);
    assert_eq!(ident(&chars_of("_a9-"), 0), Some(3));
    assert_eq!(ident(&chars_of("9a"), 0), None);
    assert_eq!(keyword(&text, 0, "pub"), Some(3));
    assert_eq!(keyword(&text, 0, "pu"), None);
    assert_eq!(keyword(&text, 4, "fn"), Some(6));
    assert_eq!(keyword(&chars_of("pubfn"), 0, "pub"), None);
    assert_eq!(keyword(&chars_of("public"), 0, "pub"), None);
    assert!(has_char(&text, 3, ' '));
    assert!(!has_char(&text, 8, ' '));
    assert!(has_pair(&text, 4, 'f', 'n'));
    assert!(!has_pair(&text, 7, 'f', 'n'));
}

#[test]
fn comments() {
    let text = chars_of("// a b \nx");
    assert_eq!(comment(&text, 0), Some(("a b".to_string(), 7)));
    assert_eq!(comment_bounds(&text, 0), Some((7, 7)));
    assert_eq!(comment(&chars_of("//"), 0), Some(("".to_string(), 2)));
    assert_eq!(comment(&chars_of("/"), 0), None);
    let text = chars_of("/* a */b");
    assert_eq!(comment(&text, 0), Some(("a".to_string(), 7)));
    assert_eq!(comment_bounds(&text, 0), Some((5, 7)));
    assert_eq!(comment(&chars_of("/**/"), 0), Some(("".to_string(), 4)));
    assert_eq!(comment(&chars_of("/*/"), 0), None);
    assert_eq!(comment(&chars_of("/* a"), 0), None);
    assert_eq!(comment(&chars_of("/* a */ */"), 0), Some(("a".to_string(), 7)));
    assert_eq!(comment(&chars_of("/* /* a */ */"), 0), Some(("/* a".to_string(), 10)));
    assert_eq!(comment(&chars_of("x // a"), 0), None);
    assert_eq!(find_close(&chars_of("a*/b*/"), 0), Some(1));
    assert_eq!(find_close(&chars_of("a*/b*/"), 2), Some(4));
    assert_eq!(find_close(&chars_of("a*"), 0), None);
}

#[test]
fn trivia() {
    let text = chars_of("  // a\n /* b */\t/* c */ x // d");
    assert_eq!(skip_trivia(&text, 0), 24);
    assert_eq!(skip_trivia(&text, 24), 24);
    assert_eq!(skip_trivia(&text, 25), 30);
    assert_eq!(skip_trivia(&text, 30), 30);
    assert_eq!(skip_trivia(&chars_of("  /* open"), 0), 2);
    assert_eq!(skip_trivia(&chars_of(""), 0), 0);
}

#[test]
fn annotations() {
    assert_eq!(attr(&chars_of("#[derive(A)] x"), 0), Some(12));
    assert_eq!(attr(&chars_of("#[]"), 0), Some(3));
    assert_eq!(attr(&chars_of("#[a"), 0), None);
    assert_eq!(attr(&chars_of("# [a]"), 0), None);
    assert_eq!(attr(&chars_of("#[a[b]]"), 0), Some(6));
    let text = chars_of("#[a] /* c */ pub struct S {}");
    assert_eq!(dto(&config(), &text, 0).unwrap().1, text.len());
    assert!(dto(&config(), &chars_of("#[a] #[b] struct S {}"), 0).is_none());
    assert!(dto(&config(), &chars_of("#[a struct S {}"), 0).is_none());
    assert!(rpc(&config(), &chars_of("#[a] fn f() {}"), 0).is_none());
}

#[test]
fn numbers() {
    assert_eq!(number(&chars_of("0"), 0), Some((0, 1)));
    assert_eq!(number(&chars_of("007,"), 0), Some((7, 3)));
    assert_eq!(number(&chars_of("x12"), 1), Some((12, 3)));
    assert_eq!(number(&chars_of("x"), 0), None);
    assert_eq!(number(&chars_of(""), 0), None);
    assert_eq!(number(&chars_of("-1"), 0), None);
    assert_eq!(number(&chars_of("18446744073709551615"), 0), Some((u64::MAX, 20)));
    assert_eq!(number(&chars_of("18446744073709551616"), 0), None);
    assert_eq!(number(&chars_of("99999999999999999999999"), 0), None);
}

#[test]
fn fields_and_lists() {
    let text = chars_of("a /* c */ : /* d */ u8 , b:&str,");
    assert_eq!(field(&config(), &text, 0).unwrap().1, 22);
    let (found, end) = fields(&config(), &text, 0);
    assert_eq!(end, text.len());
    assert_eq!(found.len(), 2);
    assert_eq!(found[1].name, "b");
    assert_eq!(found[1].ty, Type::String);
    let (found, end) = fields(&config(), &chars_of("  )"), 0);
    assert_eq!((found.len(), end), (0, 0));
    let (found, end) = fields(&config(), &chars_of("a: u8 b: u8"), 0);
    assert_eq!((found.len(), end), (1, 5));
    let (found, end) = fields(&config(), &chars_of("a: u8,, b: u8"), 0);
    assert_eq!((found.len(), end), (1, 6));
    assert!(field(&config(), &chars_of("a u8"), 0).is_none());
    assert!(field(&config(), &chars_of("a:"), 0).is_none());
    assert!(field(&config(), &chars_of(": u8"), 0).is_none());
    let text = chars_of("( a: u8 )");
    assert_eq!(field_list(&config(), &text, 0, '(', ')').unwrap().1, 9);
    assert!(field_list(&config(), &text, 0, '{', '}').is_none());
    assert!(field_list(&config(), &chars_of("(a: u8"), 0, '(', ')').is_none());
    assert!(field_list(&config(), &chars_of("(, )"), 0, '(', ')').is_none());
    assert_eq!(field_list(&config(), &chars_of("(/* c */)"), 0, '(', ')').unwrap().1, 9);
}

#[test]
fn declaration_heads() {
    let text = chars_of("pub /* c */ struct // d\n Name {");
    assert_eq!(skip_pub(&text, 0), 12);
    assert_eq!(skip_pub(&text, 12), 12);
    assert_eq!(named(&text, 0, "struct"), Some(("Name".to_string(), 29)));
    assert_eq!(named(&text, 12, "struct"), Some(("Name".to_string(), 29)));
    assert_eq!(named(&text, 0, "fn"), None);
    assert_eq!(named(&chars_of("struct {"), 0, "struct"), None);
    assert_eq!(named(&chars_of("pub pub struct S"), 0, "struct"), None);
    assert_eq!(named(&chars_of("struct pub"), 0, "struct"), Some(("pub".to_string(), 10)));
}

#[test]
fn procedures() {
    let text = chars_of("fn f(a: u8) -> bool { a > 0 }");
    let (found, end) = rpc(&config(), &text, 0).unwrap();
    assert_eq!(end, text.len());
    assert_eq!(found.name, "f");
    assert_eq!(found.params.len(), 1);
    assert_eq!(found.return_type, Some(Type::Bool));
    assert_eq!(return_type(&config(), &chars_of(") -> u8 {"), 1), (Some(Type::U8), 7));
    assert_eq!(return_type(&config(), &chars_of(") {"), 1), (None, 1));
    assert_eq!(return_type(&config(), &chars_of(") -> {"), 1), (None, 1));
    assert_eq!(return_type(&config(), &chars_of(") - > u8"), 1), (None, 1));
    assert!(rpc(&config(), &chars_of("fn f() -> {}"), 0).is_none());
    assert!(rpc(&config(), &chars_of("fn f()"), 0).is_none());
    assert!(rpc(&config(), &chars_of("fn f() {"), 0).is_none());
    assert!(rpc(&config(), &chars_of("fn f {}"), 0).is_none());
    assert!(rpc(&config(), &chars_of("fn () {}"), 0).is_none());
    let text = chars_of("fn f ( ) /* c */ -> /* d */ u8 /* e */ { } tail");
    assert_eq!(rpc(&config(), &text, 0).unwrap().1, 42);
}

#[test]
fn body_does_not_reach_the_signature() {
    let bodies = [
        "{}",
        "{ return 1; }",
        "{ if a { b } else { c } }",
        "{ // }\n }",
        "{ /* } */ }",
        "{ x /* { */ y // {{\n z }",
        "{ let s = a / b; { /* }} */ } }",
        "{{{{}}}}",
    ];
    let expected = rpc(&config(), &chars_of("fn f(a: u8, b: x::Y) -> &str {}"), 0).unwrap().0;
    for body in bodies {
        let text = chars_of(&format!("fn f(a: u8, b: x::Y) -> &str {} struct After {{}}", body));
        let (found, end) = rpc(&config(), &text, 0).unwrap();
        assert_eq!(found, expected, "{}", body);
        let rest = skip_trivia(&text, end);
        assert_eq!(dto(&config(), &text, rest).unwrap().0.name, "After", "{}", body);
    }
}

#[test]
fn unbalanced_bodies_fail() {
    for body in ["{", "{ { }", "{ /* }", "{ // }", "{ x /* y }", "}", ""] {
        let text = chars_of(&format!("fn f() {}", body));
        assert!(rpc(&config(), &text, 0).is_none(), "{}", body);
    }
}

#[test]
fn blocks() {
    assert_eq!(expr_block(&chars_of("{ a }x"), 0).unwrap().1, 5);
    assert!(expr_block(&chars_of(" {}"), 0).is_none());
    assert!(expr_block(&chars_of("x"), 0).is_none());
    assert_eq!(block_rest(&chars_of(" a }"), 0).unwrap().1, 4);
    let (items, end) = expr_block(&chars_of("{ a // b }\n c /* d */ { } e }"), 0).unwrap();
    assert_eq!(end, 29);
    assert_eq!(
        items,
        vec![
            ExprBlock::Body("a".to_string()),
            ExprBlock::Comment("b }".to_string()),
            ExprBlock::Body("c".to_string()),
            ExprBlock::Comment("d".to_string()),
            ExprBlock::Nested(vec![]),
            ExprBlock::Body("e".to_string()),
        ]
    );
    let (items, _) = expr_block(&chars_of("{ a / b }"), 0).unwrap();
    assert_eq!(items, vec![ExprBlock::Body("a / b".to_string())]);
}

#[test]
fn enumerations() {
    let text = chars_of("pub enum E { A, B = 7, C = 0 , }");
    let (found, end) = en(&text, 0).unwrap();
    assert_eq!(end, text.len());
    assert_eq!(found.name, "E");
    let values: Vec<(&str, Option<u64>)> =
        found.values.iter().map(|v| (v.name.as_str(), v.number)).collect();
    assert_eq!(values, vec![("A", None), ("B", Some(7)), ("C", Some(0))]);
    assert_eq!(en(&chars_of("enum E {}"), 0).unwrap().0.values.len(), 0);
    assert!(en(&chars_of("enum E { A = }"), 0).is_none());
    assert!(en(&chars_of("enum E { A = -1 }"), 0).is_none());
    assert!(en(&chars_of("enum E { A B }"), 0).is_none());
    assert!(en(&chars_of("enum { A }"), 0).is_none());
    assert!(en(&chars_of("enum E"), 0).is_none());
    assert!(en(&chars_of("enum E { A = 99999999999999999999 }"), 0).is_none());
    let (value, end) = en_value(&chars_of("A /* c */ = /* d */ 12,"), 0).unwrap();
    assert_eq!((value.name.as_str(), value.number, end), ("A", Some(12), 22));
    let (value, end) = en_value(&chars_of("A = x"), 0).unwrap();
    assert_eq!((value.name.as_str(), value.number, end), ("A", None, 1));
    assert!(en_value(&chars_of("= 1"), 0).is_none());
    let (values, end) = en_values(&chars_of(" A, B }"), 0);
    assert_eq!((values.len(), end), (2, 5));
    let (values, end) = en_values(&chars_of(" }"), 0);
    assert_eq!((values.len(), end), (0, 0));
}

#[test]
fn namespaces_and_children() {
    let text = chars_of("mod a { struct S {} mod b; fn f() {} enum E {} mod c { } }");
    let (found, end) = namespace(&config(), &text, 0).unwrap();
    assert_eq!(end, text.len());
    assert_eq!(
        describe(&found.children),
        vec!["dto S", "mod b []", "rpc f", "enum E", "mod c []"]
    );
    assert!(namespace(&config(), &chars_of("mod a"), 0).is_none());
    assert!(namespace(&config(), &chars_of("mod a {"), 0).is_none());
    assert!(namespace(&config(), &chars_of("mod a { x }"), 0).is_none());
    assert!(namespace(&config(), &chars_of("mod a { use b; }"), 0).is_none());
    assert!(namespace(&config(), &chars_of("mod ;"), 0).is_none());
    assert_eq!(namespace(&config(), &chars_of("mod a { /* only a comment */ }"), 0).unwrap().1, 30);
    assert_eq!(namespace(&config(), &chars_of("pub mod a ;"), 0).unwrap().1, 11);
    let (found, end) = child(&config(), &chars_of("mod a;"), 0).unwrap();
    assert!(matches!(found, NamespaceChild::Namespace(_)));
    assert_eq!(end, 6);
    assert!(matches!(child(&config(), &chars_of("struct a {}"), 0), Some((NamespaceChild::Dto(_), 11))));
    assert!(matches!(child(&config(), &chars_of("fn a() {}"), 0), Some((NamespaceChild::Rpc(_), 9))));
    assert!(matches!(child(&config(), &chars_of("enum a {}"), 0), Some((NamespaceChild::Enum(_), 9))));
    assert!(child(&config(), &chars_of("use a;"), 0).is_none());
    let (found, end) = namespace_children(&config(), &chars_of(" struct a {} x"), 0);
    assert_eq!((found.len(), end), (1, 12));
    let (found, end) = namespace_children(&config(), &chars_of(" x"), 0);
    assert_eq!((found.len(), end), (0, 0));
}

#[test]
fn imports() {
    assert_eq!(use_decl(&chars_of("use a;"), 0), Some(6));
    assert_eq!(use_decl(&chars_of("pub use a::b::c;x"), 0), Some(16));
    assert_eq!(use_decl(&chars_of("use a :: b ;"), 0), Some(12));
    assert_eq!(use_decl(&chars_of("use a::;"), 0), None);
    assert_eq!(use_decl(&chars_of("use ;"), 0), None);
    assert_eq!(use_decl(&chars_of("use a"), 0), None);
    assert_eq!(use_decl(&chars_of("usea;"), 0), None);
    assert_eq!(use_decl(&chars_of("use a::*;"), 0), None);
    assert_eq!(skip_imports(&chars_of(" use a; // c\n use b; struct"), 0), 20);
    assert_eq!(skip_imports(&chars_of(" struct"), 0), 0);
}

#[test]
fn chunks() {
    assert_eq!(describe(&chunk("").unwrap()), Vec::<String>::new());
    assert_eq!(describe(&chunk("  // only a comment").unwrap()), Vec::<String>::new());
    assert_eq!(describe(&chunk("use a; use b::c;").unwrap()), Vec::<String>::new());
    assert_eq!(
        describe(&chunk("use a;\nstruct S {}\nfn f() {}\n// end").unwrap()),
        vec!["dto S", "rpc f"]
    );
    assert_eq!(chunk("struct S {} use a;"), Err(12));
    assert_eq!(chunk("x"), Err(0));
    assert_eq!(chunk("  /* c */ x"), Err(10));
    assert_eq!(chunk("struct S {} }"), Err(12));
    assert_eq!(chunk("struct S { a: u8 b }"), Err(0));
    assert_eq!(describe(&chunk("struct S { a: boolean }").unwrap()), vec!["dto S"]);
    assert_eq!(chunk("fn f() { /* never closed"), Err(0));
    assert_eq!(chunk("struct S {} /* never closed"), Err(12));
}

#[test]
fn comments_between_tokens_change_nothing() {
    let plain = "pub use a::b; #[x] pub struct S { a: u8, b: m::T, } pub fn f(a: u8,) -> u8 { } \
                 pub enum E { A = 1, B } pub mod m { struct T { } mod n; }";
    let expected = chunk(plain).unwrap();
    assert_eq!(expected.len(), 4);
    for filler in ["/* c */", "// c\n", " /* { */ ", "\n// }\n/* ) */", "/**///\n"] {
        let mut commented = String::new();
        for token in plain.split(' ') {
            commented.push_str(filler);
            commented.push_str(token);
            commented.push(' ');
        }
        commented.push_str(filler);
        assert_eq!(chunk(&commented).unwrap(), expected, "{:?}", filler);
    }
}

#[test]
fn error_places() {
    let text = chars_of("a\nbc\n\nd");
    assert_eq!(locate(&text, 0), (1, 1));
    assert_eq!(locate(&text, 1), (1, 2));
    assert_eq!(locate(&text, 2), (2, 1));
    assert_eq!(locate(&text, 3), (2, 2));
    assert_eq!(locate(&text, 4), (2, 3));
    assert_eq!(locate(&text, 5), (3, 1));
    assert_eq!(locate(&text, 6), (4, 1));
    let mut input = ChunkBuffer::new();
    input.add_chunk(Chunk::new(), "struct a {}\n\n  oops");
    let error = parse_chunks(&config(), &input).unwrap_err();
    assert_eq!((error.chunk, error.offset, error.line, error.column), (0, 15, 3, 3));
    assert_eq!(error.path, None);
    assert_eq!(error.found, 'o');
    assert_eq!(error.expected, Expected::DeclarationOrEnd);
    let error = Rust::default().parse(&config(), &input, &mut Builder::default()).unwrap_err();
    assert_eq!((error.chunk, error.offset, error.line, error.column), (0, 15, 3, 3));
}

#[test]
fn paths() {
    assert_eq!(path_iter("a/b/c.rs"), vec!["a", "b", "c.rs"]);
    assert_eq!(path_iter("/a//b/"), vec!["a", "b"]);
    assert_eq!(path_iter(""), Vec::<String>::new());
    assert_eq!(path_iter("///"), Vec::<String>::new());
    assert_eq!(namespace_path("a/b/c.rs"), vec!["a", "b", "c"]);
    assert_eq!(namespace_path("a/b/mod.rs"), vec!["a", "b"]);
    assert_eq!(namespace_path("a/b/lib.rs"), vec!["a", "b"]);
    assert_eq!(namespace_path("mod.rs"), Vec::<String>::new());
    assert_eq!(namespace_path(""), Vec::<String>::new());
    assert_eq!(namespace_path("c"), vec!["c"]);
    assert_eq!(namespace_path("a/c.d.rs"), vec!["a", "c.d"]);
    assert_eq!(namespace_path("a/.hidden"), vec!["a", ".hidden"]);
    assert_eq!(namespace_path("a.x/c"), vec!["a.x", "c"]);
    assert_eq!(namespace_path("a/mod"), vec!["a"]);
    assert_eq!(namespace_path("a/lib.txt"), vec!["a"]);
    assert_eq!(namespace_path("a/mods.rs"), vec!["a", "mods"]);
    assert_eq!(namespace_path("a/mod/b.rs"), vec!["a", "mod", "b"]);
    assert_eq!(namespace_path("a/b.rs/"), vec!["a", "b"]);
}

#[test]
fn type_names_and_qualified_names() {
    assert_eq!(ty_name(&chars_of("&a_1-"), 0), Some(4));
    assert_eq!(ty_name(&chars_of("_"), 0), Some(1));
    assert_eq!(ty_name(&chars_of("1a"), 0), None);
    assert_eq!(ty_name(&chars_of(""), 0), None);
    let (id, end) = entity_id(&chars_of("a::&b::_c d"), 0).unwrap();
    assert_eq!(id.path, vec!["a", "&b", "_c"]);
    assert_eq!(end, 9);
    let (id, end) = entity_id(&chars_of("a:b"), 0).unwrap();
    assert_eq!((id.path, end), (vec!["a".to_string()], 1));
    assert!(entity_id(&chars_of("::a"), 0).is_none());
}

#[test]
fn debug_generator_writes_the_pretty_form() {
    let mut builder = Builder::default();
    Rust::default()
        .parse(&config(), &ChunkBuffer::single("struct S { a: u8 }"), &mut builder)
        .unwrap();
    let model = builder.build();
    let mut output = Buffer::default();
    output.write_str("> ").unwrap();
    Dbg::default().generate(model.api(), &mut output).unwrap();
    let text = output.to_string();
    assert_eq!(text, format!("> {:#?}\n", model.api()));
    assert!(text.starts_with("> Namespace {\n"));
    assert!(text.contains("name: \"S\""));
    assert!(text.contains("ty: U8"));
    assert!(text.ends_with("}\n"));
}

const TOKENS: [&str; 62] = [
    "pub", "use", "a", "::", "b", ";", "#[x]", "pub", "struct", "S", "{", "a", ":", "u8", ",", "b",
    ":", "m::T", ",", "}", "pub", "fn", "f", "(", "a", ":", "&str", ",", ")", "->", "u8", "{",
    "}", "pub", "enum", "E", "{", "A", "=", "1", ",", "B", "}", "pub", "mod", "m", "{", "struct",
    "T", "{", "}", "mod", "n", ";", "fn", "g", "(", ")", "{", "}", "}", "",
];

fn is_wordy(token: &str) -> bool {
    token.chars().all(|c| c.is_ascii_alphanumeric() || c == '_' || c == ':' || c == '&')
        && !token.is_empty()
}

/// The tokens in one text: `filler` stands before the token at `at`, one
/// space between two tokens that would else read as one, nothing between
/// the others.
fn text_with(filler: &str, at: usize) -> String {
    let mut text = String::new();
    for (i, token) in TOKENS.iter().enumerate() {
        if i == at {
            text.push_str(filler);
        } else if i > 0 && is_wordy(TOKENS[i - 1]) && is_wordy(token) {
            text.push(' ');
        }
        text.push_str(token);
    }
    text
}

#[test]
fn comment_in_any_one_gap_changes_nothing() {
    let expected = chunk(&TOKENS.join(" ")).unwrap();
    assert_eq!(
        describe(&expected),
        vec!["dto S", "rpc f", "enum E", "mod m [\"dto T\", \"mod n []\", \"rpc g\"]"]
    );
    for filler in [" ", "\n", "/*c*/", "//c\n", "/* { ( */", "// } )\n", " /**/ //\n\t"] {
        for at in 0..TOKENS.len() {
            let text = text_with(filler, at);
            assert_eq!(chunk(&text).as_ref(), Ok(&expected), "{:?}", text);
        }
    }
}

#[test]
fn comment_inside_a_token_is_no_comment_between_tokens() {
    assert!(chunk("struct S { a: u/*c*/8 }").is_err());
    assert!(chunk("str/*c*/uct S {}").is_err());
    assert!(chunk("struct S { a: m:/*c*/:T }").is_err());
    assert!(chunk("fn f() -/*c*/> u8 {}").is_err());
    assert!(chunk("enum E { A = 1/*c*/2 }").is_err());
    assert!(chunk("#[a /*]*/ ] struct S {}").is_err());
    let with = chunk("struct S { a: m /*c*/ ::T }");
    assert!(with.is_err());
}

#[test]
fn error_points_into_the_namespace_that_fails() {
    let text = "struct A {}\nmod a {\n  struct S {}\n  mod b { fn f() {} oops }\n}\nstruct B {}";
    let mut input = ChunkBuffer::new();
    input.add_chunk(Chunk::with_relative_file_path("a.rs"), text);
    let error = parse_chunks(&config(), &input).unwrap_err();
    assert_eq!(error.offset, text.find("oops").unwrap());
    assert_eq!((error.line, error.column), (4, 21));
    assert_eq!(error.found, 'o');
    assert_eq!(error.expected, Expected::DeclarationOrClose);
    let chars = chars_of(text);
    assert_eq!(parse_chunk(&config(), &chars), Err(12));
    assert_eq!(find_stop(&config(), &chars, 12), (text.find("oops").unwrap(), true));
    assert_eq!(find_stop(&config(), &chars, 0), (0, false));
}

#[test]
fn error_stays_at_a_namespace_that_is_not_closed() {
    let text = "mod a { struct S {}";
    let mut input = ChunkBuffer::new();
    input.add_chunk(Chunk::new(), text);
    let error = parse_chunks(&config(), &input).unwrap_err();
    assert_eq!(error.offset, 0);
    assert_eq!(error.expected, Expected::DeclarationOrEnd);
    let text = "mod a { struct S { a: u8 b } }";
    let mut input = ChunkBuffer::new();
    input.add_chunk(Chunk::new(), text);
    let error = parse_chunks(&config(), &input).unwrap_err();
    assert_eq!(error.offset, 8);
    assert_eq!(error.found, 's');
    assert_eq!(error.expected, Expected::DeclarationOrClose);
}

#[test]
fn name_that_begins_like_a_keyword_is_a_name() {
    let text = chars_of("struct S { a: Stringy, b: boolean, c: u8x, d: &i32_t, e: String }");
    let (found, end) = dto(&config(), &text, 0).unwrap();
    assert_eq!(end, text.len());
    let types: Vec<Type> = found.fields.iter().map(|f| f.ty.clone()).collect();
    assert_eq!(
        types,
        vec![
            Type::Api(apyxl::model::EntityId::from("Stringy")),
            Type::Api(apyxl::model::EntityId::from("boolean")),
            Type::Api(apyxl::model::EntityId::from("u8x")),
            Type::Api(apyxl::model::EntityId::from("&i32_t")),
            Type::String,
        ]
    );
    let text = chars_of("fn f(a: booly) -> u16s {}");
    let (found, _) = rpc(&config(), &text, 0).unwrap();
    assert_eq!(found.params[0].ty, Type::Api(apyxl::model::EntityId::from("booly")));
    assert_eq!(found.return_type, Some(Type::Api(apyxl::model::EntityId::from("u16s"))));
}

/// The tokens in one text, with the comment of `fillers` before each token
/// that `fillers` names.
fn text_with_all(fillers: &[(usize, &str)]) -> String {
    let mut text = String::new();
    for (i, token) in TOKENS.iter().enumerate() {
        let here: Vec<&str> = fillers.iter().filter(|(at, _)| *at == i).map(|(_, f)| *f).collect();
        if !here.is_empty() {
            for filler in here {
                text.push_str(filler);
            }
        } else if i > 0 && is_wordy(TOKENS[i - 1]) && is_wordy(token) {
            text.push(' ');
        }
        text.push_str(token);
    }
    text
}

#[test]
fn comments_in_any_number_of_gaps_change_nothing() {
    let expected = chunk(&TOKENS.join(" ")).unwrap();
    for first in 0..TOKENS.len() {
        for second in (first..TOKENS.len()).step_by(7) {
            let text = text_with_all(&[(first, "/*a*/"), (second, "//b\n"), (first, " /* c */")]);
            assert_eq!(chunk(&text).as_ref(), Ok(&expected), "{:?}", text);
        }
    }
    let everywhere: Vec<(usize, &str)> =
        (0..TOKENS.len()).map(|i| (i, if i % 2 == 0 { "/* , { */" } else { "// } (\n" })).collect();
    assert_eq!(chunk(&text_with_all(&everywhere)).as_ref(), Ok(&expected));
}

#[test]
fn comments_in_a_record_change_nothing() {
    let plain = chars_of("struct S{a:u8,b:m::T,c:Stringy}");
    let expected = dto(&config(), &plain, 0).unwrap().0;
    let commented = chars_of(
        "struct/*1*/S//2\n{/*3*/a/*4*/:/*5*/u8/*6*/,//7\n/*8*/b:m::T/*9*/,c/**/:/**/Stringy/**/,/**/}",
    );
    let (found, end) = dto(&config(), &commented, 0).unwrap();
    assert_eq!(found, expected);
    assert_eq!(end, commented.len());
}
