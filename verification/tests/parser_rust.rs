use apyxl::input::ChunkBuffer;
use apyxl::model::{Builder, Chunk, EntityId, NamespaceChild, UNDEFINED_NAMESPACE};
use apyxl::parser::block::{expr_block, ExprBlock};
use apyxl::parser::chars::{skip_run, CharClass};
use apyxl::parser::decl::{dto, field, namespace, rpc};
use apyxl::parser::lexical::{comment, ident, skip_trivia};
use apyxl::parser::types::{entity_id, user_ty};
use apyxl::parser::{Config, Rust, UserType};
use apyxl::text::chars_of;
use apyxl::Parser;

fn config() -> Config {
    Config {
        user_types: vec![UserType { parse: "user_type".to_string(), name: "user".to_string() }],
    }
}

/// Applies a rule to the whole of `text`: white space may stand before and
/// behind what the rule reads, and nothing else.
fn whole<T>(text: &str, rule: impl Fn(&[char], usize) -> Option<(T, usize)>) -> Option<T> {
    let chars = chars_of(text);
    let start = skip_run(&chars, 0, CharClass::Space);
    let (value, end) = rule(&chars, start)?;
    if skip_run(&chars, end, CharClass::Space) == chars.len() {
        Some(value)
    } else {
        None
    }
}

#[test]
fn test_field() {
    let config = config();
    let output = whole("name: Type", |t, p| field(&config, t, p)).unwrap();
    assert_eq!(output.name, "name");
    assert_eq!(output.ty.api().unwrap().name().unwrap(), "Type");
}

#[test]
fn root_namespace() {
    let input = ChunkBuffer::single(
        r#"
        // comment
        use asdf;
        // comment
        // comment
        pub use asdf;
        fn rpc() {}
        struct dto {}
        mod namespace {}
        "#,
    );
    let mut builder = Builder::default();
    Rust::default().parse(&config(), &input, &mut builder).unwrap();
    let model = builder.build();
    assert_eq!(model.api().name, UNDEFINED_NAMESPACE);
    assert!(model.api().dto("dto").is_some());
    assert!(model.api().rpc("rpc").is_some());
    assert!(model.api().namespace("namespace").is_some());
}

#[test]
fn file_path_including_name_without_ext() {
    let mut input = ChunkBuffer::new();
    input.add_chunk(Chunk::with_relative_file_path("a/b/c.rs"), "struct dto {}");
    let mut builder = Builder::default();
    Rust::default().parse(&config(), &input, &mut builder).unwrap();
    let model = builder.build();

    let namespace = model.api().find_namespace(&EntityId::from("a.b.c"));
    assert!(namespace.is_some());
    assert!(namespace.unwrap().dto("dto").is_some());
}

#[test]
fn ignore_mod_rs() {
    let mut input = ChunkBuffer::new();
    input.add_chunk(Chunk::with_relative_file_path("a/b/mod.rs"), "struct dto {}");
    let mut builder = Builder::default();
    Rust::default().parse(&config(), &input, &mut builder).unwrap();
    let model = builder.build();

    let namespace = model.api().find_namespace(&EntityId::from("a.b"));
    assert!(namespace.is_some());
    assert!(namespace.unwrap().dto("dto").is_some());
}

#[test]
fn ignore_lib_rs() {
    let mut input = ChunkBuffer::new();
    input.add_chunk(Chunk::with_relative_file_path("a/b/lib.rs"), "struct dto {}");
    let mut builder = Builder::default();
    Rust::default().parse(&config(), &input, &mut builder).unwrap();
    let model = builder.build();

    let namespace = model.api().find_namespace(&EntityId::from("a.b"));
    assert!(namespace.is_some());
    assert!(namespace.unwrap().dto("dto").is_some());
}

#[test]
fn test() {
    let config = Config {
        user_types: vec![
            UserType { parse: "i32".to_string(), name: "int".to_string() },
            UserType { parse: "f32".to_string(), name: "float".to_string() },
        ],
    };
    let ty = whole("i32", |t, p| user_ty(&config, t, p)).unwrap();
    assert_eq!(ty, "int");
    let ty = whole("f32", |t, p| user_ty(&config, t, p)).unwrap();
    assert_eq!(ty, "float");
}

#[test]
fn starts_with_underscore() {
    let id = whole("_type", entity_id).unwrap();
    assert_eq!(id.path, vec!["_type"]);
}

#[test]
fn with_path() {
    let id = whole("a::b::c", entity_id).unwrap();
    assert_eq!(id.path, vec!["a", "b", "c"]);
}

#[test]
fn reference() {
    let id = whole("&Type", entity_id).unwrap();
    assert_eq!(id.path, vec!["&Type"]);
}

#[test]
fn declaration() {
    let config = config();
    let namespace = whole(
        r#"
            mod empty;
            "#,
        |t, p| namespace(&config, t, p),
    )
    .unwrap();
    assert_eq!(namespace.name, "empty");
    assert!(namespace.children.is_empty());
}

#[test]
fn empty() {
    let config = config();
    let namespace = whole(
        r#"
            mod empty {}
            "#,
        |t, p| namespace(&config, t, p),
    )
    .unwrap();
    assert_eq!(namespace.name, "empty");
    assert!(namespace.children.is_empty());
}

#[test]
fn with_dto() {
    let config = config();
    let namespace = whole(
        r#"
            mod ns {
                struct DtoName {}
            }
            "#,
        |t, p| namespace(&config, t, p),
    )
    .unwrap();
    assert_eq!(namespace.name, "ns");
    assert_eq!(namespace.children.len(), 1);
    match &namespace.children[0] {
        NamespaceChild::Dto(dto) => assert_eq!(dto.name, "DtoName"),
        _ => panic!("wrong child type"),
    }
}

#[test]
fn nested() {
    let config = config();
    let namespace = whole(
        r#"
            mod ns0 {
                mod ns1 {}
            }
            "#,
        |t, p| namespace(&config, t, p),
    )
    .unwrap();
    assert_eq!(namespace.name, "ns0");
    assert_eq!(namespace.children.len(), 1);
    match &namespace.children[0] {
        NamespaceChild::Namespace(ns) => assert_eq!(ns.name, "ns1"),
        _ => panic!("wrong child type"),
    }
}

#[test]
fn nested_dto() {
    let config = config();
    let namespace = whole(
        r#"
            mod ns0 {
                mod ns1 {
                    struct DtoName {}
                }
            }
            "#,
        |t, p| namespace(&config, t, p),
    )
    .unwrap();
    assert_eq!(namespace.name, "ns0");
    assert_eq!(namespace.children.len(), 1);
    match &namespace.children[0] {
        NamespaceChild::Namespace(ns) => {
            assert_eq!(ns.name, "ns1");
            assert_eq!(ns.children.len(), 1);
            match &ns.children[0] {
                NamespaceChild::Dto(dto) => assert_eq!(dto.name, "DtoName"),
                _ => panic!("ns1: wrong child type"),
            }
        }
        _ => panic!("ns0: wrong child type"),
    }
}

#[test]
fn rust_empty() {
    let config = config();
    let dto = whole(
        r#"
            struct StructName {}
            "#,
        |t, p| dto(&config, t, p),
    )
    .unwrap();
    assert_eq!(dto.name, "StructName");
    assert_eq!(dto.fields.len(), 0);
}

#[test]
fn pub_struct() {
    let config = config();
    let dto = whole(
        r#"
            pub struct StructName {}
            "#,
        |t, p| dto(&config, t, p),
    )
    .unwrap();
    assert_eq!(dto.name, "StructName");
    assert_eq!(dto.fields.len(), 0);
}

#[test]
fn ignore_derive() {
    let config = config();
    let dto = whole(
        r#"
            #[derive(Whatever)]
            struct StructName {}
            "#,
        |t, p| dto(&config, t, p),
    )
    .unwrap();
    assert_eq!(dto.name, "StructName");
    assert_eq!(dto.fields.len(), 0);
}

#[test]
fn multiple_fields() {
    let config = config();
    let dto = whole(
        r#"
            struct StructName {
                field0: i32,
                field1: f32,
            }
            "#,
        |t, p| dto(&config, t, p),
    )
    .unwrap();
    assert_eq!(dto.name, "StructName");
    assert_eq!(dto.fields.len(), 2);
    assert_eq!(dto.fields[0].name, "field0");
    assert_eq!(dto.fields[1].name, "field1");
}

#[test]
fn fields_with_comments() {
    let config = config();
    let dto = whole(
        r#"
            struct StructName {
                // asdf
                // asdf
                field0: i32, /* asdf */ field1: f32,
                // asdf
            }
            "#,
        |t, p| dto(&config, t, p),
    )
    .unwrap();
    assert_eq!(dto.name, "StructName");
    assert_eq!(dto.fields.len(), 2);
    assert_eq!(dto.fields[0].name, "field0");
    assert_eq!(dto.fields[1].name, "field1");
}

#[test]
fn empty_fn() {
    let config = config();
    let rpc = whole(
        r#"
            fn rpc_name() {}
            "#,
        |t, p| rpc(&config, t, p),
    )
    .unwrap();
    assert_eq!(rpc.name, "rpc_name");
    assert!(rpc.params.is_empty());
    assert!(rpc.return_type.is_none());
}

#[test]
fn pub_fn() {
    let config = config();
    let rpc = whole(
        r#"
            pub fn rpc_name() {}
            "#,
        |t, p| rpc(&config, t, p),
    )
    .unwrap();
    assert_eq!(rpc.name, "rpc_name");
    assert!(rpc.params.is_empty());
    assert!(rpc.return_type.is_none());
}

#[test]
fn fn_keyword_smushed() {
    let config = config();
    let rpc = whole(
        r#"
            pubfn rpc_name() {}
            "#,
        |t, p| rpc(&config, t, p),
    );
    assert!(rpc.is_none());
}

#[test]
fn single_param() {
    let config = config();
    let rpc = whole(
        r#"
            fn rpc_name(param0: ParamType0) {}
            "#,
        |t, p| rpc(&config, t, p),
    )
    .unwrap();
    assert_eq!(rpc.params.len(), 1);
    assert_eq!(rpc.params[0].name, "param0");
    assert_eq!(rpc.params[0].ty.api().unwrap().name(), Some("ParamType0"));
}

#[test]
fn multiple_params() {
    let config = config();
    let rpc = whole(
        r#"
            fn rpc_name(param0: ParamType0, param1: ParamType1, param2: ParamType2) {}
            "#,
        |t, p| rpc(&config, t, p),
    )
    .unwrap();
    assert_eq!(rpc.params.len(), 3);
    assert_eq!(rpc.params[0].name, "param0");
    assert_eq!(rpc.params[0].ty.api().unwrap().name(), Some("ParamType0"));
    assert_eq!(rpc.params[1].name, "param1");
    assert_eq!(rpc.params[1].ty.api().unwrap().name(), Some("ParamType1"));
    assert_eq!(rpc.params[2].name, "param2");
    assert_eq!(rpc.params[2].ty.api().unwrap().name(), Some("ParamType2"));
}

#[test]
fn multiple_params_with_comments() {
    let config = config();
    let rpc = whole(
        r#"
            fn rpc_name(
                // asdf
                // asdf
                param0: ParamType0, /* asdf */ param1: ParamType1,
                // asdf
                param2: ParamType2 /* asdf */
                // asdf
            ) {}
            "#,
        |t, p| rpc(&config, t, p),
    )
    .unwrap();
    assert_eq!(rpc.params.len(), 3);
    assert_eq!(rpc.params[0].name, "param0");
    assert_eq!(rpc.params[0].ty.api().unwrap().name(), Some("ParamType0"));
    assert_eq!(rpc.params[1].name, "param1");
    assert_eq!(rpc.params[1].ty.api().unwrap().name(), Some("ParamType1"));
    assert_eq!(rpc.params[2].name, "param2");
    assert_eq!(rpc.params[2].ty.api().unwrap().name(), Some("ParamType2"));
}

#[test]
fn multiple_params_weird_spacing_trailing_comma() {
    let config = config();
    let rpc = whole(
        r#"
            fn rpc_name(param0: ParamType0      , param1
            :    ParamType1     , param2 :ParamType2
                ,
                ) {}
            "#,
        |t, p| rpc(&config, t, p),
    )
    .unwrap();
    assert_eq!(rpc.params.len(), 3);
    assert_eq!(rpc.params[0].name, "param0");
    assert_eq!(rpc.params[0].ty.api().unwrap().name(), Some("ParamType0"));
    assert_eq!(rpc.params[1].name, "param1");
    assert_eq!(rpc.params[1].ty.api().unwrap().name(), Some("ParamType1"));
    assert_eq!(rpc.params[2].name, "param2");
    assert_eq!(rpc.params[2].ty.api().unwrap().name(), Some("ParamType2"));
}

#[test]
fn return_type() {
    let config = config();
    let rpc = whole(
        r#"
            fn rpc_name() -> Asdfg {}
            "#,
        |t, p| rpc(&config, t, p),
    )
    .unwrap();
    assert_eq!(rpc.return_type.as_ref().map(|x| x.api().unwrap().name()), Some(Some("Asdfg")));
}

#[test]
fn return_type_weird_spacing() {
    let config = config();
    let rpc = whole(
        r#"
            fn rpc_name()           ->Asdfg{}
            "#,
        |t, p| rpc(&config, t, p),
    )
    .unwrap();
    assert_eq!(rpc.return_type.as_ref().map(|x| x.api().unwrap().name()), Some(Some("Asdfg")));
}

#[test]
fn line_comment() {
    let value = whole("// line comment", comment).unwrap();
    assert_eq!(value, "line comment");
}

#[test]
fn block_comment() {
    let value = whole("/* block comment */", comment).unwrap();
    assert_eq!(value, "block comment");
}

#[test]
fn line_comment_inside_namespace() {
    let config = config();
    whole(
        r#"
                    mod ns { // comment
                        // comment
                        // comment
                        struct dto {} // comment
                        // comment
                    }
                    "#,
        |t, p| namespace(&config, t, p),
    )
    .unwrap();
}

#[test]
fn block_comment_inside_namespace() {
    let config = config();
    whole(
        r#"
                    mod ns { /* comment */
                        /* comment */
                        /* comment */
                        struct dto {} /* comment */
                        /* comment */
                    }
                    "#,
        |t, p| namespace(&config, t, p),
    )
    .unwrap();
}

fn body(text: &str) -> ExprBlock {
    ExprBlock::Body(text.to_string())
}

fn remark(text: &str) -> ExprBlock {
    ExprBlock::Comment(text.to_string())
}

#[test]
fn complex() {
    let result =
        whole("{left{inner1_left{inner1}inner1_right}middle{inner2}{inner3}right}", expr_block);
    assert_eq!(
        result.unwrap(),
        vec![
            body("left"),
            ExprBlock::Nested(vec![
                body("inner1_left"),
                ExprBlock::Nested(vec![body("inner1"),]),
                body("inner1_right"),
            ]),
            body("middle"),
            ExprBlock::Nested(vec![body("inner2"),]),
            ExprBlock::Nested(vec![body("inner3"),]),
            body("right"),
        ]
    );
}

#[test]
fn expr_block_empty() {
    let result = whole("{}", expr_block);
    assert_eq!(result.unwrap(), vec![]);
}

#[test]
fn arbitrary_content() {
    let result = whole(
        r#"{
                1234 !@#$%^&*()_+-= asdf
            }"#,
        expr_block,
    );
    assert_eq!(result.unwrap(), vec![body("1234 !@#$%^&*()_+-= asdf")]);
}

#[test]
fn rust_line_comment() {
    let result = whole(
        r#"
                    { // don't break! }
                    }"#,
        expr_block,
    );
    assert_eq!(result.unwrap(), vec![remark("don't break! }")]);
}

#[test]
fn rust_block_comment() {
    let result = whole(
        r#"{
                    { /* don't break! {{{ */ }
                    }"#,
        expr_block,
    );
    assert_eq!(result.unwrap(), vec![ExprBlock::Nested(vec![remark("don't break! {{{")]),]);
}

#[test]
fn continues_parsing_after() {
    let text = chars_of(
        r#"
                {
                  ignored stuff
                }
                not_ignored
                "#,
    );
    let start = skip_trivia(&text, 0);
    let result = expr_block(&text, start);
    assert!(result.is_some(), "parse should not fail");
    let (_, end) = result.unwrap();
    let name_start = skip_trivia(&text, end);
    let name_end = ident(&text, name_start).unwrap();
    let name: String = text[name_start..name_end].iter().collect();
    assert_eq!(name, "not_ignored");
    assert_eq!(skip_trivia(&text, name_end), text.len());
}
