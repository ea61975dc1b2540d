use apyxl::input::ChunkBuffer;
use apyxl::model::{
    Attributes, Builder, ChildKind, Chunk, Dto, EntityId, Enum, Namespace, NamespaceChild, Rpc,
    Type, UNDEFINED_NAMESPACE,
};
use apyxl::parser::{Config, Rust};
use apyxl::Parser;

fn dto(name: &str) -> NamespaceChild {
    NamespaceChild::Dto(Dto { name: name.to_string(), fields: vec![], attributes: Attributes::new() })
}

fn rpc(name: &str) -> NamespaceChild {
    NamespaceChild::Rpc(Rpc {
        name: name.to_string(),
        params: vec![],
        return_type: None,
        attributes: Attributes::new(),
    })
}

fn en(name: &str) -> NamespaceChild {
    NamespaceChild::Enum(Enum { name: name.to_string(), values: vec![], attributes: Attributes::new() })
}

fn ns(name: &str, children: Vec<NamespaceChild>) -> Namespace {
    Namespace { name: name.to_string(), children, attributes: Attributes::new() }
}

fn names(namespace: &Namespace) -> Vec<String> {
    namespace.children.iter().map(|c| c.name().clone()).collect()
}

#[test]
fn entity_id_from_dotted_name() {
    assert_eq!(EntityId::from("a.b.c").path, vec!["a", "b", "c"]);
    assert_eq!(EntityId::from("abc").path, vec!["abc"]);
    assert!(EntityId::from("").path.is_empty());
    assert_eq!(EntityId::from("a..b").path, vec!["a", "", "b"]);
    assert_eq!(EntityId::from("a.").path, vec!["a", ""]);
}

#[test]
fn entity_id_parts() {
    let id = EntityId::from("a.b.c");
    assert_eq!(id.len(), 3);
    assert!(!id.is_empty());
    assert_eq!(id.name(), Some("c"));
    assert_eq!(id.parent(), Some(EntityId::from("a.b")));
    assert_eq!(id.child("d"), EntityId::from("a.b.c.d"));
    let empty = EntityId::new(vec![]);
    assert!(empty.is_empty());
    assert_eq!(empty.name(), None);
    assert_eq!(empty.parent(), None);
    assert_eq!(EntityId::from("a").parent(), Some(empty));
}

#[test]
fn lookup_by_name_takes_the_first_of_the_kind() {
    let root = ns(
        "_",
        vec![rpc("x"), dto("x"), NamespaceChild::Namespace(ns("x", vec![dto("inner")])), en("x")],
    );
    assert!(matches!(root.child("x"), Some(NamespaceChild::Rpc(_))));
    assert_eq!(root.dto("x").unwrap().name, "x");
    assert_eq!(root.rpc("x").unwrap().name, "x");
    assert_eq!(root.en("x").unwrap().name, "x");
    assert_eq!(root.namespace("x").unwrap().children.len(), 1);
    assert!(root.child("y").is_none());
    assert!(root.dto("inner").is_none());
    assert_eq!(root.position(ChildKind::Dto, &"x".to_string()), Some(1));
    assert_eq!(root.position(ChildKind::Namespace, &"x".to_string()), Some(2));
    assert_eq!(root.position(ChildKind::Any, &"x".to_string()), Some(0));
    assert_eq!(root.position(ChildKind::Enum, &"y".to_string()), None);
}

#[test]
fn find_walks_namespaces_only() {
    let root = ns(
        "_",
        vec![
            dto("a"),
            NamespaceChild::Namespace(ns(
                "a",
                vec![NamespaceChild::Namespace(ns("b", vec![dto("d"), rpc("r"), en("e")]))],
            )),
        ],
    );
    assert_eq!(root.find_namespace(&EntityId::from("a.b")).unwrap().name, "b");
    assert_eq!(root.find_namespace(&EntityId::from("a")).unwrap().name, "a");
    assert_eq!(root.find_namespace(&EntityId::from("")).unwrap().name, "_");
    assert!(root.find_namespace(&EntityId::from("a.x")).is_none());
    assert!(root.find_namespace(&EntityId::from("x.b")).is_none());
    assert!(root.find_namespace(&EntityId::from("a.b.d")).is_none());
    assert_eq!(root.find_dto(&EntityId::from("a.b.d")).unwrap().name, "d");
    assert_eq!(root.find_rpc(&EntityId::from("a.b.r")).unwrap().name, "r");
    assert_eq!(root.find_enum(&EntityId::from("a.b.e")).unwrap().name, "e");
    assert_eq!(root.find_dto(&EntityId::from("a")).unwrap().name, "a");
    assert!(root.find_dto(&EntityId::from("a.b.r")).is_none());
    assert!(root.find_dto(&EntityId::from("a.b")).is_none());
    assert!(root.find_dto(&EntityId::from("")).is_none());
    assert!(root.find_child(&EntityId::from("")).is_none());
    assert!(matches!(root.find_child(&EntityId::from("a")), Some(NamespaceChild::Dto(_))));
    assert!(matches!(root.find_child(&EntityId::from("a.b")), Some(NamespaceChild::Namespace(_))));
    assert!(matches!(root.find_child(&EntityId::from("a.b.r")), Some(NamespaceChild::Rpc(_))));
    assert!(root.find_child(&EntityId::from("a.b.d.x")).is_none());
}

#[test]
fn found_namespace_spells_the_path() {
    let root = ns(
        "_",
        vec![NamespaceChild::Namespace(ns(
            "a",
            vec![NamespaceChild::Namespace(ns("b", vec![NamespaceChild::Namespace(ns("c", vec![]))]))],
        ))],
    );
    let id = EntityId::from("a.b.c");
    assert!(root.find_namespace(&id).is_some());
    let mut spelled = vec![];
    for n in 1..=id.len() {
        spelled.push(root.find_namespace_prefix(&id, n).unwrap().name.clone());
    }
    assert_eq!(spelled, id.path);
    let broken = EntityId::from("a.x.c");
    assert!(root.find_namespace_prefix(&broken, 1).is_some());
    assert!(root.find_namespace_prefix(&broken, 2).is_none());
    assert!(root.find_namespace(&broken).is_none());
}

#[test]
fn kinds_are_listed_in_declaration_order() {
    let root = ns(
        "_",
        vec![
            dto("d0"),
            rpc("r0"),
            NamespaceChild::Namespace(ns("n0", vec![])),
            en("e0"),
            dto("d1"),
            NamespaceChild::Namespace(ns("n1", vec![])),
            rpc("r1"),
            en("e1"),
        ],
    );
    let dtos: Vec<&str> = root.dtos().iter().map(|d| d.name.as_str()).collect();
    assert_eq!(dtos, vec!["d0", "d1"]);
    let rpcs: Vec<&str> = root.rpcs().iter().map(|d| d.name.as_str()).collect();
    assert_eq!(rpcs, vec!["r0", "r1"]);
    let enums: Vec<&str> = root.enums().iter().map(|d| d.name.as_str()).collect();
    assert_eq!(enums, vec!["e0", "e1"]);
    let namespaces: Vec<&str> = root.namespaces().iter().map(|d| d.name.as_str()).collect();
    assert_eq!(namespaces, vec!["n0", "n1"]);
    assert_eq!(root.children_of(ChildKind::Any).len(), 8);
    assert!(!root.is_empty());
    assert!(Namespace::new("x").is_empty());
    assert_eq!(Namespace::new("x").name, "x");
}

#[test]
fn child_accessors() {
    let child = NamespaceChild::Namespace(ns("n", vec![]));
    assert_eq!(child.name(), "n");
    assert_eq!(child.attributes(), &Attributes::new());
    assert!(child.is_kind(ChildKind::Namespace));
    assert!(child.is_kind(ChildKind::Any));
    assert!(!child.is_kind(ChildKind::Dto));
    assert!(dto("d").is_kind(ChildKind::Dto));
    assert!(rpc("r").is_kind(ChildKind::Rpc));
    assert!(en("e").is_kind(ChildKind::Enum));
    assert!(!en("e").is_kind(ChildKind::Rpc));
}

#[test]
fn builder_starts_with_the_undefined_root() {
    let model = Builder::default().build();
    assert_eq!(model.api().name, UNDEFINED_NAMESPACE);
    assert_eq!(model.api().name, "_");
    assert!(model.api().children.is_empty());
}

#[test]
fn merge_appends_at_the_root_in_order() {
    let mut builder = Builder::default();
    builder.merge(ns("ignored", vec![dto("a"), rpc("b")]));
    builder.merge(ns("ignored", vec![dto("c")]));
    let model = builder.build();
    assert_eq!(names(model.api()), vec!["a", "b", "c"]);
    assert_eq!(model.api().name, "_");
}

#[test]
fn merge_makes_the_namespaces_of_the_stack() {
    let mut builder = Builder::default();
    builder.enter_namespace("a");
    builder.enter_namespace("b");
    builder.merge(ns("_", vec![dto("d")]));
    let model = builder.build();
    assert_eq!(names(model.api()), vec!["a"]);
    let b = model.api().find_namespace(&EntityId::from("a.b")).unwrap();
    assert_eq!(names(b), vec!["d"]);
}

#[test]
fn merge_descends_into_the_first_namespace_of_the_name() {
    let mut builder = Builder::default();
    builder.merge(ns(
        "_",
        vec![
            dto("a"),
            NamespaceChild::Namespace(ns("a", vec![dto("x")])),
            NamespaceChild::Namespace(ns("a", vec![dto("y")])),
        ],
    ));
    builder.enter_namespace("a");
    builder.merge(ns("_", vec![dto("z")]));
    let model = builder.build();
    assert_eq!(names(model.api()), vec!["a", "a", "a"]);
    match &model.api().children[1] {
        NamespaceChild::Namespace(first) => assert_eq!(names(first), vec!["x", "z"]),
        _ => panic!("wrong child type"),
    }
    match &model.api().children[2] {
        NamespaceChild::Namespace(second) => assert_eq!(names(second), vec!["y"]),
        _ => panic!("wrong child type"),
    }
}

#[test]
fn stack_operations() {
    let mut builder = Builder::default();
    builder.enter_namespace("a");
    builder.enter_namespace("b");
    builder.exit_namespace();
    builder.merge(ns("_", vec![dto("in_a")]));
    builder.clear_namespace();
    builder.exit_namespace();
    builder.merge(ns("_", vec![dto("at_root")]));
    let model = builder.build();
    assert_eq!(names(model.api()), vec!["a", "at_root"]);
    assert_eq!(names(model.api().namespace("a").unwrap()), vec!["in_a"]);
}

fn parse_chunks(chunks: &[(Option<&str>, &str)]) -> apyxl::model::Model {
    let mut input = ChunkBuffer::new();
    for (path, text) in chunks {
        let chunk = match path {
            Some(path) => Chunk::with_relative_file_path(path),
            None => Chunk::new(),
        };
        input.add_chunk(chunk, text);
    }
    let mut builder = Builder::default();
    Rust::default().parse(&Config::default(), &input, &mut builder).unwrap();
    builder.build()
}

#[test]
fn forward_declaration_then_body() {
    let model = parse_chunks(&[(None, "mod x;"), (Some("x.rs"), "struct dto {}")]);
    assert!(model.api().find_dto(&EntityId::from("x.dto")).is_some());
    assert_eq!(names(model.api()), vec!["x"]);
    assert_eq!(names(model.api().namespace("x").unwrap()), vec!["dto"]);
}

#[test]
fn body_then_forward_declaration() {
    let model = parse_chunks(&[(Some("x.rs"), "struct dto {}"), (None, "mod x;")]);
    assert!(model.api().find_dto(&EntityId::from("x.dto")).is_some());
    assert_eq!(names(model.api().namespace("x").unwrap()), vec!["dto"]);
}

#[test]
fn forward_declaration_without_body_stays_empty() {
    let model = parse_chunks(&[(None, "mod x; struct s {}")]);
    assert!(model.api().namespace("x").unwrap().children.is_empty());
    assert!(model.api().dto("s").is_some());
}

#[test]
fn one_namespace_from_several_files() {
    let model = parse_chunks(&[
        (Some("a/b.rs"), "struct first {}"),
        (Some("a/c.rs"), "struct other {}"),
        (Some("a/b.rs"), "fn second() {}"),
        (Some("a/mod.rs"), "struct in_a {}"),
    ]);
    assert_eq!(names(model.api()), vec!["a"]);
    let a = model.api().namespace("a").unwrap();
    assert_eq!(names(a), vec!["b", "c", "in_a"]);
    assert_eq!(names(a.namespace("b").unwrap()), vec!["first", "second"]);
    assert_eq!(names(a.namespace("c").unwrap()), vec!["other"]);
}

#[test]
fn index_file_fills_its_directory() {
    for index in ["a/b/mod.rs", "a/b/lib.rs"] {
        let model = parse_chunks(&[(Some(index), "struct dto {}")]);
        assert!(model.api().find_dto(&EntityId::from("a.b.dto")).is_some());
        assert!(model.api().find_dto(&EntityId::from("a.b.mod.dto")).is_none());
        assert!(model.api().find_dto(&EntityId::from("a.b.lib.dto")).is_none());
        assert!(model.api().find_namespace(&EntityId::from("a.b.mod")).is_none());
        assert!(model.api().find_namespace(&EntityId::from("a.b.lib")).is_none());
    }
}

#[test]
fn chunk_without_path_goes_to_the_root() {
    let model = parse_chunks(&[(None, "struct a {}"), (Some("n.rs"), "struct b {}"), (None, "fn c() {}")]);
    assert_eq!(names(model.api()), vec!["a", "n", "c"]);
}

#[test]
fn first_chunk_goes_below_the_stack_and_the_stack_is_cleared() {
    let mut input = ChunkBuffer::new();
    input.add_chunk(Chunk::with_relative_file_path("f.rs"), "struct a {}");
    input.add_chunk(Chunk::with_relative_file_path("g.rs"), "struct b {}");
    let mut builder = Builder::default();
    builder.enter_namespace("outer");
    Rust::default().parse(&Config::default(), &input, &mut builder).unwrap();
    builder.merge(ns("_", vec![dto("last")]));
    let model = builder.build();
    assert_eq!(names(model.api()), vec!["outer", "g", "last"]);
    assert!(model.api().find_dto(&EntityId::from("outer.f.a")).is_some());
    assert!(model.api().find_dto(&EntityId::from("g.b")).is_some());
}

#[test]
fn no_chunks_change_nothing() {
    let input = ChunkBuffer::new();
    let mut builder = Builder::default();
    builder.enter_namespace("kept");
    Rust::default().parse(&Config::default(), &input, &mut builder).unwrap();
    builder.merge(ns("_", vec![dto("d")]));
    let model = builder.build();
    assert!(model.api().find_dto(&EntityId::from("kept.d")).is_some());
}

#[test]
fn failing_chunk_leaves_the_builder_as_it_was() {
    let mut input = ChunkBuffer::new();
    input.add_chunk(Chunk::with_relative_file_path("good.rs"), "struct a {}");
    input.add_chunk(Chunk::with_relative_file_path("dir/bad.rs"), "struct b {}\n  struct {}");
    input.add_chunk(Chunk::new(), "also bad");
    let mut builder = Builder::default();
    builder.merge(ns("_", vec![dto("before")]));
    builder.enter_namespace("n");
    let error = Rust::default().parse(&Config::default(), &input, &mut builder).unwrap_err();
    assert_eq!(error.chunk, 1);
    assert_eq!(error.path, Some("dir/bad.rs".to_string()));
    assert_eq!(error.offset, 14);
    assert_eq!(error.line, 2);
    assert_eq!(error.column, 3);
    assert_eq!(error.found, 's');
    assert_eq!(error.expected, apyxl::parser::Expected::DeclarationOrEnd);
    builder.merge(ns("_", vec![dto("after")]));
    let model = builder.build();
    assert_eq!(names(model.api()), vec!["before", "n"]);
    assert_eq!(names(model.api().namespace("n").unwrap()), vec!["after"]);
}

#[test]
fn field_types_survive_the_merge() {
    let model = parse_chunks(&[(Some("m.rs"), "struct S { a: i32, b: f32 }")]);
    let s = model.api().find_dto(&EntityId::from("m.S")).unwrap();
    assert_eq!(s.fields.len(), 2);
    assert_eq!(s.fields[0].ty, Type::I32);
    assert_eq!(s.fields[1].ty, Type::F32);
}
