use apyxl::input::ChunkBuffer;
use apyxl::model::{Builder, Dto, EntityId, Enum, Model, Namespace, Rpc};
use apyxl::parser::{Config, Rust, UserType};
use apyxl::view::{ModelView, NamespaceChild, NamespaceTransform, Transforms};
use apyxl::Parser;

fn config() -> Config {
    Config {
        user_types: vec![UserType { parse: "user_type".to_string(), name: "user".to_string() }],
    }
}

fn model_of(text: &str) -> Model {
    let input = ChunkBuffer::single(text);
    let mut builder = Builder::default();
    Rust::default()
        .parse(&config(), &input, &mut builder)
        .expect("test data should be parseable");
    builder.build()
}

struct TestRenamer {}

impl TestRenamer {
    const SUFFIX: &'static str = "renamed";

    fn renamed(name: &str) -> String {
        format!("{}_{}", name, TestRenamer::SUFFIX)
    }
}

impl NamespaceTransform for TestRenamer {
    fn name(&self, value: &mut String) {
        value.push('_');
        value.push_str(TestRenamer::SUFFIX);
    }
}

struct TestFilter {}

impl NamespaceTransform for TestFilter {
    fn filter_namespace(&self, namespace: &Namespace) -> bool {
        !namespace.name.contains("hidden")
    }

    fn filter_dto(&self, dto: &Dto) -> bool {
        !dto.name.contains("hidden")
    }

    fn filter_rpc(&self, rpc: &Rpc) -> bool {
        !rpc.name.contains("hidden")
    }

    fn filter_enum(&self, en: &Enum) -> bool {
        !en.name.contains("hidden")
    }
}

fn renaming() -> Transforms {
    Transforms { namespace: vec![Box::new(TestRenamer {})], attr: vec![] }
}

fn filtering() -> Transforms {
    Transforms { namespace: vec![Box::new(TestFilter {})], attr: vec![] }
}

#[test]
fn name() {
    let model = model_of(
        r#"
                    mod ns0 {
                        mod ns1 {}
                    }
                "#,
    );
    let view = ModelView::new(&model, renaming());
    let root = view.api();

    assert_eq!(root.name(), TestRenamer::renamed("_"));
    assert_eq!(
        root.find_namespace(&EntityId::from("ns0")).unwrap().name(),
        TestRenamer::renamed("ns0")
    );
    assert_eq!(
        root.find_namespace(&EntityId::from("ns0.ns1")).unwrap().name(),
        TestRenamer::renamed("ns1")
    );
}

#[test]
fn find_child() {
    let model = model_of(
        r#"
                    mod ns0 {
                        struct visible {}
                        struct hidden {}
                    }
                "#,
    );
    let view = ModelView::new(&model, filtering());
    let root = view.api();

    let visible_id = EntityId::from("ns0.visible");
    let expected = model.api().find_child(&visible_id).unwrap();
    let found = root.find_child(&visible_id).unwrap();
    assert_eq!(&found.name(), expected.name());

    let hidden_id = EntityId::from("ns0.hidden");
    let found = root.find_child(&hidden_id);
    assert!(found.is_none());
}

#[test]
fn find_namespace() {
    let model = model_of(
        r#"
                    mod ns0 {
                        mod visible {}
                        mod hidden {}
                    }
                "#,
    );
    let view = ModelView::new(&model, filtering());
    let root = view.api();

    let visible_id = EntityId::from("ns0.visible");
    let expected = model.api().find_namespace(&visible_id);
    let found = root.find_namespace(&visible_id);
    assert_eq!(found.map(|v| v.model()), expected);

    let hidden_id = EntityId::from("ns0.hidden");
    let found = root.find_namespace(&hidden_id);
    assert!(found.is_none());
}

#[test]
fn find_dto() {
    let model = model_of(
        r#"
                    mod ns0 {
                        struct visible {}
                        struct hidden {}
                    }
                "#,
    );
    let view = ModelView::new(&model, filtering());
    let root = view.api();

    let visible_id = EntityId::from("ns0.visible");
    let expected = model.api().find_dto(&visible_id).unwrap();
    let found = root.find_dto(&visible_id).unwrap();
    assert_eq!(found.name(), expected.name);

    let hidden_id = EntityId::from("ns0.hidden");
    let found = root.find_dto(&hidden_id);
    assert!(found.is_none());
}

#[test]
fn find_rpc() {
    let model = model_of(
        r#"
                    mod ns0 {
                        fn visible() {}
                        fn hidden() {}
                    }
                "#,
    );
    let view = ModelView::new(&model, filtering());
    let root = view.api();

    let visible_id = EntityId::from("ns0.visible");
    let expected = model.api().find_rpc(&visible_id).unwrap();
    let found = root.find_rpc(&visible_id).unwrap();
    assert_eq!(found.name(), expected.name);

    let hidden_id = EntityId::from("ns0.hidden");
    let found = root.find_rpc(&hidden_id);
    assert!(found.is_none());
}

#[test]
fn find_enum() {
    let model = model_of(
        r#"
                    mod ns0 {
                        enum visible {}
                        enum hidden {}
                    }
                "#,
    );
    let view = ModelView::new(&model, filtering());
    let root = view.api();

    let visible_id = EntityId::from("ns0.visible");
    let expected = model.api().find_enum(&visible_id).unwrap();
    let found = root.find_enum(&visible_id).unwrap();
    assert_eq!(found.name(), expected.name);

    let hidden_id = EntityId::from("ns0.hidden");
    let found = root.find_enum(&hidden_id);
    assert!(found.is_none());
}

#[test]
fn children() {
    let model = model_of(
        r#"
                    mod visible {}
                    mod hidden {}
                    struct visible {}
                    struct hidden {}
                    fn visible() {}
                    fn hidden() {}
                    enum visible {}
                    enum hidden {}
                "#,
    );
    let view = ModelView::new(&model, filtering());
    let root = view.api();

    let children: Vec<String> = root
        .children()
        .iter()
        .map(|v| match v {
            NamespaceChild::Dto(value) => value.name().to_string(),
            NamespaceChild::Rpc(value) => value.name().to_string(),
            NamespaceChild::Enum(value) => value.name().to_string(),
            NamespaceChild::Namespace(value) => value.name().to_string(),
        })
        .collect();
    assert_eq!(children, vec!["visible", "visible", "visible", "visible"]);
}

#[test]
fn namespaces() {
    let model = model_of(
        r#"
                    mod visible0 {}
                    mod hidden {}
                    mod visible1 {}
                "#,
    );
    let view = ModelView::new(&model, filtering());
    let root = view.api();

    let namespaces: Vec<String> = root.namespaces().iter().map(|v| v.name().to_string()).collect();
    assert_eq!(namespaces, vec!["visible0", "visible1"],);
}

#[test]
fn dtos() {
    let model = model_of(
        r#"
                    struct visible0 {}
                    struct hidden {}
                    struct visible1 {}
                "#,
    );
    let view = ModelView::new(&model, filtering());
    let root = view.api();

    let dtos: Vec<String> = root.dtos().iter().map(|v| v.name().to_string()).collect();
    assert_eq!(dtos, vec!["visible0", "visible1",]);
}

#[test]
fn rpcs() {
    let model = model_of(
        r#"
                    fn visible0() {}
                    fn hidden() {}
                    fn visible1() {}
                "#,
    );
    let view = ModelView::new(&model, filtering());
    let root = view.api();

    let rpcs: Vec<String> = root.rpcs().iter().map(|v| v.name().to_string()).collect();
    assert_eq!(rpcs, vec!["visible0", "visible1"]);
}

#[test]
fn enums() {
    let model = model_of(
        r#"
                    enum visible0 {}
                    enum hidden {}
                    enum visible1 {}
                "#,
    );
    let view = ModelView::new(&model, filtering());
    let root = view.api();

    let enums: Vec<String> = root.enums().iter().map(|v| v.name().to_string()).collect();
    assert_eq!(enums, vec!["visible0", "visible1"]);
}

#[test]
fn is_empty_counts_what_the_view_shows() {
    let model = model_of("mod hidden {} struct hidden {}");
    let plain = ModelView::new(&model, Transforms::default());
    assert!(!plain.api().is_empty());
    let filtered = ModelView::new(&model, filtering());
    assert!(filtered.api().is_empty());
}

#[test]
fn transforms_rename_in_their_order() {
    let model = model_of("mod ns {}");
    let twice = Transforms {
        namespace: vec![Box::new(TestRenamer {}), Box::new(TestRenamer {})],
        attr: vec![],
    };
    let view = ModelView::new(&model, twice);
    let ns = view.api().find_namespace(&EntityId::from("ns")).unwrap();
    assert_eq!(ns.name(), "ns_renamed_renamed");
}

#[test]
fn clone_with_new_transforms_keeps_the_namespace() {
    let model = model_of("mod hidden {}");
    let filtered = ModelView::new(&model, filtering());
    let plain = Transforms::default();
    let root = filtered.api();
    assert_eq!(root.namespaces().len(), 0);
    let other = root.clone_with_new_transforms(&plain);
    assert_eq!(other.namespaces().len(), 1);
    assert_eq!(other.model(), root.model());
}
