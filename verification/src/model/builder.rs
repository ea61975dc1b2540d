//! The builder that merges the declarations of chunks into one tree, and the model
//! that it ends in.
use crate::model::namespace::{
    children_view, first_child_from, lemma_first_child_from, Api, ChildKind, Namespace,
    NamespaceChild, NamespaceChildView, NamespaceView, UNDEFINED_NAMESPACE,
};
use crate::text::strings_view;
use vstd::prelude::*;

verus! {

impl NamespaceView {
    /// This tree after `children` were merged in below `path`: the path is
    /// walked from here, a segment enters the first child namespace of that
    /// name, or a new empty one at the end of the children where there is
    /// none, and `children` are appended to the namespace that the path ends
    /// in.
    pub open spec fn merged(
        self,
        path: Seq<Seq<char>>,
        children: Seq<NamespaceChildView>,
    ) -> NamespaceView
        decreases path.len(),
    {
        if path.len() == 0 {
            NamespaceView { name: self.name, children: self.children + children }
        } else {
            match self.child_index(ChildKind::Namespace, path[0]) {
                Some(i) => match self.children[i] {
                    NamespaceChildView::Namespace(inner) => NamespaceView {
                        name: self.name,
                        children: self.children.update(
                            i,
                            NamespaceChildView::Namespace(inner.merged(path.skip(1), children)),
                        ),
                    },
                    _ => self,
                },
                None => NamespaceView {
                    name: self.name,
                    children: self.children.push(
                        NamespaceChildView::Namespace(
                            NamespaceView::empty(path[0]).merged(path.skip(1), children),
                        ),
                    ),
                },
            }
        }
    }
}

/// Merges `children` into `ns` below the segments of `path` from `depth` on.
pub fn merge_at(
    ns: &mut Namespace,
    path: &Vec<String>,
    depth: usize,
    children: Vec<NamespaceChild>,
)
    requires
        depth <= path@.len(),
    ensures
        final(ns)@ == old(ns)@.merged(
            strings_view(path@).skip(depth as int),
            children_view(children@),
        ),
    decreases path@.len() - depth,
{
    let ghost rest = strings_view(path@).skip(depth as int);
    let ghost before = ns@;
    if depth >= path.len() {
        let mut children = children;
        let ghost added = children_view(children@);
        ns.children.append(&mut children);
        assert(ns@.children =~= before.children + added);
    } else {
        assert(rest[0] == path@[depth as int]@);
        assert(rest.skip(1) =~= strings_view(path@).skip(depth + 1));
        match ns.position(ChildKind::Namespace, &path[depth]) {
            Some(i) => {
                match &mut ns.children[i] {
                    NamespaceChild::Namespace(inner) => {
                        merge_at(inner, path, depth + 1, children);
                    },
                    _ => {
                        assert(false);
                    },
                }
                assert(ns@.children =~= before.children.update(i as int, ns@.children[i as int]));
            },
            None => {
                let mut fresh = Namespace::new(path[depth].as_str());
                merge_at(&mut fresh, path, depth + 1, children);
                ns.children.push(NamespaceChild::Namespace(fresh));
                assert(ns@.children =~= before.children.push(
                    NamespaceChildView::Namespace(fresh@),
                ));
            },
        }
    }
}

/// One unit of input: where it came from, if known. The path is relative and
/// its segments are separated by `'/'`.
#[derive(Debug, Clone, PartialEq, Eq)]
pub struct Chunk {
    pub relative_file_path: Option<String>,
}

impl Chunk {
    /// A chunk of unknown origin.
    pub fn new() -> (r: Chunk)
        ensures
            r.relative_file_path is None,
    {
        Chunk { relative_file_path: None }
    }

    /// A chunk that was read from `path`.
    pub fn with_relative_file_path(path: &str) -> (r: Chunk)
        ensures
            r.relative_file_path matches Some(p) && p@ == path@,
    {
        Chunk { relative_file_path: Some(path.to_owned()) }
    }
}

/// The finished, read-only model.
#[derive(Debug, PartialEq, Eq)]
pub struct Model {
    api: Api,
}

impl View for Model {
    type V = NamespaceView;

    closed spec fn view(&self) -> NamespaceView {
        self.api@
    }
}

impl Model {
    /// The root namespace.
    pub fn api(&self) -> (r: &Api)
        ensures
            r@ == self@,
    {
        &self.api
    }
}

/// Assembles the declarations of many chunks into one tree. The stack names
/// the namespace that the next merge goes to, from the root down.
#[derive(Debug)]
pub struct Builder {
    api: Api,
    namespace_stack: Vec<String>,
}

/// Mathematical value of a [`Builder`].
pub struct BuilderView {
    pub api: NamespaceView,
    pub stack: Seq<Seq<char>>,
}

impl View for Builder {
    type V = BuilderView;

    closed spec fn view(&self) -> BuilderView {
        BuilderView { api: self.api@, stack: strings_view(self.namespace_stack@) }
    }
}

impl Default for Builder {
    /// A builder with an empty root and an empty stack.
    fn default() -> (r: Builder)
        ensures
            r@.api == NamespaceView::empty(UNDEFINED_NAMESPACE@),
            r@.stack.len() == 0,
    {
        let r = Builder { api: Namespace::new(UNDEFINED_NAMESPACE), namespace_stack: Vec::new() };
        assert(r@.stack =~= Seq::empty());
        r
    }
}

impl Builder {
    /// Pushes `name` onto the stack: merges go one level deeper.
    pub fn enter_namespace(&mut self, name: &str)
        ensures
            final(self)@.api == old(self)@.api,
            final(self)@.stack == old(self)@.stack.push(name@),
    {
        self.namespace_stack.push(name.to_owned());
        assert(self@.stack =~= old(self)@.stack.push(name@));
    }

    /// Pops the innermost name off the stack; nothing changes where the
    /// stack is empty.
    pub fn exit_namespace(&mut self)
        ensures
            final(self)@.api == old(self)@.api,
            final(self)@.stack == if old(self)@.stack.len() == 0 {
                old(self)@.stack
            } else {
                old(self)@.stack.drop_last()
            },
    {
        let _ = self.namespace_stack.pop();
        assert(self@.stack =~= if old(self)@.stack.len() == 0 {
            old(self)@.stack
        } else {
            old(self)@.stack.drop_last()
        });
    }

    /// Empties the stack: the next merge goes to the root.
    pub fn clear_namespace(&mut self)
        ensures
            final(self)@.api == old(self)@.api,
            final(self)@.stack.len() == 0,
    {
        self.namespace_stack.clear();
    }

    /// Merges the children of `namespace` into the tree, below the stack.
    /// Namespaces that the stack names and the tree lacks are made on the
    /// way. The name of `namespace` itself is dropped.
    pub fn merge(&mut self, namespace: Namespace)
        ensures
            final(self)@.stack == old(self)@.stack,
            final(self)@.api == old(self)@.api.merged(old(self)@.stack, namespace@.children),
    {
        assert(strings_view(self.namespace_stack@).skip(0) =~= self@.stack);
        merge_at(&mut self.api, &self.namespace_stack, 0, namespace.children);
    }

    /// Finishes the model. References between entities are not resolved
    /// here: a lookup that fails says so when it is made.
    pub fn build(self) -> (r: Model)
        ensures
            r@ == self@.api,
    {
        Model { api: self.api }
    }
}

/// The children that a tree holds at `path` before a merge: those of the
/// namespace there, none where the path does not resolve.
pub open spec fn children_at(ns: NamespaceView, path: Seq<Seq<char>>) -> Seq<NamespaceChildView> {
    match ns.find_namespace(path) {
        Some(inner) => inner.children,
        None => Seq::empty(),
    }
}

/// The first answering child is at `i` where the child there answers and
/// none from `from` up to it does.
pub proof fn lemma_first_child_is(
    children: Seq<NamespaceChildView>,
    kind: ChildKind,
    name: Seq<char>,
    from: int,
    i: int,
)
    requires
        0 <= from <= i < children.len(),
        children[i].answers(kind, name),
        forall|j: int| from <= j < i ==> !(#[trigger] children[j]).answers(kind, name),
    ensures
        first_child_from(children, kind, name, from) == Some(i),
    decreases i - from,
{
    if from < i {
        lemma_first_child_is(children, kind, name, from + 1, i);
    }
}

/// A merge keeps the name of the namespace that it is made on.
pub proof fn lemma_merged_name(
    ns: NamespaceView,
    path: Seq<Seq<char>>,
    children: Seq<NamespaceChildView>,
)
    ensures
        ns.merged(path, children).name == ns.name,
{
}

/// After a merge below `path`, the lookup of `path` finds a namespace, and
/// its children are those that were there before, in their order, followed
/// by the merged ones, in theirs.
pub proof fn law_merge_appends_at_path(
    ns: NamespaceView,
    path: Seq<Seq<char>>,
    children: Seq<NamespaceChildView>,
)
    ensures
        ns.merged(path, children).find_namespace(path) matches Some(found)
            && found.children == children_at(ns, path) + children,
    decreases path.len(),
{
    let after = ns.merged(path, children);
    if path.len() > 0 {
        let rest = path.skip(1);
        lemma_first_child_from(ns.children, ChildKind::Namespace, path[0], 0);
        match ns.child_index(ChildKind::Namespace, path[0]) {
            Some(i) => {
                let inner = ns.children[i]->Namespace_0;
                let grown = inner.merged(rest, children);
                lemma_merged_name(inner, rest, children);
                law_merge_appends_at_path(inner, rest, children);
                assert forall|j: int| 0 <= j < i implies !(#[trigger] after.children[j]).answers(
                    ChildKind::Namespace,
                    path[0],
                ) by {
                    assert(after.children[j] == ns.children[j]);
                }
                lemma_first_child_is(after.children, ChildKind::Namespace, path[0], 0, i);
                assert(after.namespace(path[0]) == Some(grown));
                assert(ns.namespace(path[0]) == Some(inner));
            },
            None => {
                let fresh = NamespaceView::empty(path[0]);
                let grown = fresh.merged(rest, children);
                lemma_merged_name(fresh, rest, children);
                law_merge_appends_at_path(fresh, rest, children);
                let i = ns.children.len() as int;
                assert forall|j: int| 0 <= j < i implies !(#[trigger] after.children[j]).answers(
                    ChildKind::Namespace,
                    path[0],
                ) by {
                    assert(after.children[j] == ns.children[j]);
                }
                lemma_first_child_is(after.children, ChildKind::Namespace, path[0], 0, i);
                assert(after.namespace(path[0]) == Some(grown));
                assert(ns.namespace(path[0]) is None);
                assert(children_at(fresh, rest) =~= Seq::empty());
            },
        }
    }
}

/// Every child that is merged in below `path` can be looked up afterwards
/// under `path` followed by its name, by its own kind or by any: the lookup
/// finds a child of that kind and name.
pub proof fn law_merged_child_is_found(
    ns: NamespaceView,
    path: Seq<Seq<char>>,
    children: Seq<NamespaceChildView>,
    j: int,
    kind: ChildKind,
)
    requires
        0 <= j < children.len(),
        children[j].is_kind(kind),
    ensures
        ns.merged(path, children).find(kind, path.push(children[j].name())) matches Some(c)
            && c.answers(kind, children[j].name()),
{
    let name = children[j].name();
    let after = ns.merged(path, children);
    law_merge_appends_at_path(ns, path, children);
    let found = after.find_namespace(path)->0;
    assert(path.push(name).drop_last() =~= path);
    let k = children_at(ns, path).len() + j;
    assert(found.children[k] == children[j]);
    lemma_first_child_from(found.children, kind, name, 0);
}

} // verus!
