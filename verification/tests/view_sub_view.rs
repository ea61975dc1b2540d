use apyxl::input::ChunkBuffer;
use apyxl::model::{Builder, Dto, Enum, Model, Namespace, Rpc};
use apyxl::parser::{Config, Rust};
use apyxl::view::{NamespaceTransform, SubView, Transforms};
use apyxl::Parser;

fn model_of(text: &str) -> Model {
    let input = ChunkBuffer::single(text);
    let mut builder = Builder::default();
    Rust::default()
        .parse(&Config::default(), &input, &mut builder)
        .expect("test data should be parseable");
    builder.build()
}

struct TestFilter {}

impl NamespaceTransform for TestFilter {
    fn filter_namespace(&self, namespace: &Namespace) -> bool {
        !namespace.name.contains("hidden")
    }

    fn filter_dto(&self, dto: &Dto) -> bool {
        !dto.name.contains("hidden")
    }

    fn filter_rpc(&self, rpc: &Rpc) -> bool {
        !rpc.name.contains("hidden")
    }

    fn filter_enum(&self, en: &Enum) -> bool {
        !en.name.contains("hidden")
    }
}

#[test]
fn filters() {
    let model = model_of(
        r#"
                    mod visible {}
                    mod hidden {}
                    struct visible {}
                    struct hidden {}
                    fn visible() {}
                    fn hidden() {}
                "#,
    );
    let mut sub_view = SubView::new(model.api(), Transforms::default());
    sub_view.xforms().namespace.push(Box::new(TestFilter {}));
    let namespace = sub_view.namespace();

    assert_eq!(namespace.namespaces().len(), 1);
    assert_eq!(namespace.dtos().len(), 1);
    assert_eq!(namespace.rpcs().len(), 1);

    assert_eq!(namespace.namespaces().get(0).unwrap().name(), "visible");
    assert_eq!(namespace.dtos().get(0).unwrap().name(), "visible");
    assert_eq!(namespace.rpcs().get(0).unwrap().name(), "visible");
}
