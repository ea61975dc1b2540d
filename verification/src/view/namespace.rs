//! Namespaces and their children, seen through a view.
use crate::model::entity_id::EntityId;
use crate::model::namespace;
use crate::model::namespace::{ChildKind, NamespaceChildView};
use crate::view::attributes::Attributes;
use crate::view::entity::{Dto, Enum, Rpc};
use crate::view::transform::Transforms;
use vstd::prelude::*;

verus! {

/// A named, nestable group of API entities, seen through a view.
#[derive(Clone, Copy)]
pub struct Namespace<'v> {
    target: &'v namespace::Namespace,
    xforms: &'v Transforms,
}

/// A child of a namespace, seen through a view.
#[derive(Clone, Copy)]
pub enum NamespaceChild<'v> {
    Dto(Dto<'v>),
    Rpc(Rpc<'v>),
    Enum(Enum<'v>),
    Namespace(Namespace<'v>),
}

/// Those of the first `n` children that `mask` marks, in their order.
pub open spec fn masked(children: Seq<NamespaceChildView>, mask: Seq<bool>, n: int) -> Seq<
    NamespaceChildView,
>
    decreases n,
{
    if n <= 0 || n > children.len() || n > mask.len() {
        Seq::empty()
    } else if mask[n - 1] {
        masked(children, mask, n - 1).push(children[n - 1])
    } else {
        masked(children, mask, n - 1)
    }
}

/// Whether `shown` is a choice among the children of `kind`: those that
/// `mask` marks, in their order, where `mask` marks only children of that
/// kind.
pub open spec fn chosen_by(
    children: Seq<NamespaceChildView>,
    kind: ChildKind,
    mask: Seq<bool>,
    shown: Seq<NamespaceChildView>,
) -> bool {
    &&& mask.len() == children.len()
    &&& forall|i: int| 0 <= i < mask.len() && mask[i] ==> (#[trigger] children[i]).is_kind(kind)
    &&& shown == masked(children, mask, children.len() as int)
}

/// What a view shows of the children of `kind`: some of them, in their
/// order, and all of them where no transform is there to hide any.
pub open spec fn shows(
    xforms: &Transforms,
    children: Seq<NamespaceChildView>,
    kind: ChildKind,
    shown: Seq<NamespaceChildView>,
) -> bool {
    &&& exists|mask: Seq<bool>| chosen_by(children, kind, mask, shown)
    &&& xforms.is_plain() ==> shown == children.filter(|c: NamespaceChildView| c.is_kind(kind))
}

/// The values of the model's entities behind a sequence of view children.
pub open spec fn sources(v: Seq<NamespaceChild>) -> Seq<NamespaceChildView> {
    Seq::new(v.len(), |i: int| v[i].source())
}

/// Marking exactly the children of `kind` chooses what `filter` keeps.
pub proof fn lemma_masked_kind(
    children: Seq<NamespaceChildView>,
    kind: ChildKind,
    mask: Seq<bool>,
    n: int,
)
    requires
        0 <= n <= children.len(),
        mask.len() == children.len(),
        forall|i: int| 0 <= i < n ==> mask[i] == (#[trigger] children[i]).is_kind(kind),
    ensures
        masked(children, mask, n) == children.take(n).filter(
            |c: NamespaceChildView| c.is_kind(kind),
        ),
    decreases n,
{
    reveal(Seq::filter);
    if n > 0 {
        lemma_masked_kind(children, kind, mask, n - 1);
        assert(children.take(n).drop_last() =~= children.take(n - 1));
        assert(children.take(n).last() == children[n - 1]);
    } else {
        assert(children.take(0) =~= Seq::empty());
    }
}

/// Gives `value` where it is kept, and nothing where it is not.
pub fn keep_if<T>(kept: bool, value: T) -> (r: Option<T>)
    ensures
        r == if kept {
            Some(value)
        } else {
            None::<T>
        },
{
    if kept {
        Some(value)
    } else {
        None
    }
}

/// The views of those children that `mask` marks, in their order.
pub fn select<'v>(
    children: &'v Vec<namespace::NamespaceChild>,
    mask: &Vec<bool>,
    xforms: &'v Transforms,
) -> (r: Vec<NamespaceChild<'v>>)
    requires
        mask@.len() == children@.len(),
    ensures
        sources(r@) == masked(
            namespace::children_view(children@),
            mask@,
            children@.len() as int,
        ),
        forall|i: int| 0 <= i < r@.len() ==> (#[trigger] r@[i]).xforms() == xforms,
{
    let mut out: Vec<NamespaceChild<'v>> = Vec::new();
    let ghost all = namespace::children_view(children@);
    let mut i: usize = 0;
    assert(sources(out@) =~= Seq::empty());
    while i < children.len()
        invariant
            i <= children@.len(),
            mask@.len() == children@.len(),
            all == namespace::children_view(children@),
            sources(out@) == masked(all, mask@, i as int),
            forall|j: int| 0 <= j < out@.len() ==> (#[trigger] out@[j]).xforms() == xforms,
        decreases children@.len() - i,
    {
        let ghost before = sources(out@);
        if mask[i] {
            let shown = NamespaceChild::new(&children[i], xforms);
            out.push(shown);
            assert(sources(out@) =~= before.push(all[i as int]));
        }
        i += 1;
    }
    out
}

impl<'v> NamespaceChild<'v> {
    /// The value of the model's entity that this child shows.
    pub open spec fn source(&self) -> NamespaceChildView {
        match *self {
            NamespaceChild::Dto(dto) => NamespaceChildView::Dto(dto.target()@),
            NamespaceChild::Rpc(rpc) => NamespaceChildView::Rpc(rpc.target()@),
            NamespaceChild::Enum(en) => NamespaceChildView::Enum(en.target()@),
            NamespaceChild::Namespace(ns) => NamespaceChildView::Namespace(ns.target()@),
        }
    }

    /// The transforms that the view applies.
    pub open spec fn xforms(&self) -> &'v Transforms {
        match *self {
            NamespaceChild::Dto(dto) => dto.xforms(),
            NamespaceChild::Rpc(rpc) => rpc.xforms(),
            NamespaceChild::Enum(en) => en.xforms(),
            NamespaceChild::Namespace(ns) => ns.xforms(),
        }
    }

    /// The view of `target` through `xforms`.
    pub fn new(target: &'v namespace::NamespaceChild, xforms: &'v Transforms) -> (r: Self)
        ensures
            r.source() == target@,
            r.xforms() == xforms,
    {
        match target {
            namespace::NamespaceChild::Dto(target) => NamespaceChild::Dto(Dto::new(target, xforms)),
            namespace::NamespaceChild::Namespace(target) => NamespaceChild::Namespace(
                Namespace::new(target, xforms),
            ),
            namespace::NamespaceChild::Enum(target) => NamespaceChild::Enum(
                Enum::new(target, xforms),
            ),
            namespace::NamespaceChild::Rpc(target) => NamespaceChild::Rpc(Rpc::new(target, xforms)),
        }
    }

    /// The name that the view shows the child under: a namespace's name as
    /// the transforms rename it, any other child's name as it is.
    pub fn name(&self) -> (r: String)
        ensures
            !(self is Namespace) || self.xforms().is_plain() ==> r@ == self.source().name(),
    {
        match self {
            NamespaceChild::Dto(dto) => dto.name(),
            NamespaceChild::Rpc(rpc) => rpc.name(),
            NamespaceChild::Enum(en) => en.name(),
            NamespaceChild::Namespace(namespace) => namespace.name(),
        }
    }

    /// The child's attributes, seen through the view.
    pub fn attributes(&self) -> (r: Attributes<'v>)
        ensures
            *r.xforms() == self.xforms().attr,
            *r.target() == match *self {
                NamespaceChild::Dto(dto) => dto.target().attributes,
                NamespaceChild::Rpc(rpc) => rpc.target().attributes,
                NamespaceChild::Enum(en) => en.target().attributes,
                NamespaceChild::Namespace(ns) => ns.target().attributes,
            },
    {
        match self {
            NamespaceChild::Dto(dto) => dto.attributes(),
            NamespaceChild::Rpc(rpc) => rpc.attributes(),
            NamespaceChild::Enum(en) => en.attributes(),
            NamespaceChild::Namespace(namespace) => namespace.attributes(),
        }
    }
}

impl<'v> Namespace<'v> {
    /// The namespace that the view shows.
    pub closed spec fn target(&self) -> &'v namespace::Namespace {
        self.target
    }

    /// The transforms that the view applies.
    pub closed spec fn xforms(&self) -> &'v Transforms {
        self.xforms
    }

    /// The view of `target` through `xforms`.
    pub fn new(target: &'v namespace::Namespace, xforms: &'v Transforms) -> (r: Self)
        ensures
            r.target() == target,
            r.xforms() == xforms,
    {
        Self { target, xforms }
    }

    /// The view of the same namespace through other transforms.
    pub fn clone_with_new_transforms(&self, xforms: &'v Transforms) -> (r: Self)
        ensures
            r.target() == self.target(),
            r.xforms() == xforms,
    {
        Self { target: self.target, xforms }
    }

    /// The namespace itself.
    pub fn model(&self) -> (r: &'v namespace::Namespace)
        ensures
            r == self.target(),
    {
        self.target
    }

    /// The namespace's name after every transform has had it, in their
    /// order. Without transforms it is the namespace's own name.
    pub fn name(&self) -> (r: String)
        ensures
            self.xforms().is_plain() ==> r@ == self.target()@.name,
    {
        self.xforms.rename(&self.target.name)
    }

    /// Whether the view shows no child of the namespace.
    pub fn is_empty(&self) -> (r: bool)
        ensures
            self.target()@.children.len() == 0 ==> r,
            self.xforms().is_plain() ==> r == (self.target()@.children.len() == 0),
    {
        let shown = self.kept(ChildKind::Any);
        proof {
            let all = self.target()@.children;
            let mask = choose|mask: Seq<bool>|
                chosen_by(all, ChildKind::Any, mask, sources(shown@));
            lemma_masked_len(all, mask, all.len() as int);
            if self.xforms().is_plain() {
                lemma_filter_any(all);
            }
        }
        shown.len() == 0
    }

    /// The children that the view shows: some of the namespace's children,
    /// in declaration order, and all of them where no transform is there.
    pub fn children(&self) -> (r: Vec<NamespaceChild<'v>>)
        ensures
            shows(self.xforms(), self.target()@.children, ChildKind::Any, sources(r@)),
            forall|i: int| 0 <= i < r@.len() ==> (#[trigger] r@[i]).xforms() == self.xforms(),
    {
        self.kept(ChildKind::Any)
    }

    /// The namespace's attributes, seen through the view.
    pub fn attributes(&self) -> (r: Attributes<'v>)
        ensures
            *r.target() == self.target().attributes,
            *r.xforms() == self.xforms().attr,
    {
        Attributes::new(&self.target.attributes, &self.xforms.attr)
    }

    /// The child that `id` leads to, if the view shows it. Only the child
    /// itself is asked of the transforms, not the namespaces on the way.
    pub fn find_child(&self, id: &EntityId) -> (r: Option<NamespaceChild<'v>>)
        ensures
            r matches Some(c) ==> self.target()@.find(ChildKind::Any, id@) == Some(c.source())
                && c.xforms() == self.xforms(),
            self.xforms().is_plain() ==> (r is Some <==> self.target()@.find(ChildKind::Any, id@)
                is Some),
    {
        match self.target.find_child(id) {
            Some(child) => keep_if(
                self.filter_child(child),
                NamespaceChild::new(child, self.xforms),
            ),
            None => None,
        }
    }

    /// The namespace that `id` leads to, if the view shows it.
    pub fn find_namespace(&self, id: &EntityId) -> (r: Option<Namespace<'v>>)
        ensures
            r matches Some(ns) ==> self.target()@.find_namespace(id@) == Some(ns.target()@)
                && ns.xforms() == self.xforms(),
            self.xforms().is_plain() ==> (r is Some <==> self.target()@.find_namespace(id@)
                is Some),
    {
        match self.target.find_namespace(id) {
            Some(ns) => keep_if(self.filter_namespace(ns), Namespace::new(ns, self.xforms)),
            None => None,
        }
    }

    /// The record that `id` leads to, if the view shows it.
    pub fn find_dto(&self, id: &EntityId) -> (r: Option<Dto<'v>>)
        ensures
            r matches Some(dto) ==> self.target()@.find(ChildKind::Dto, id@) == Some(
                NamespaceChildView::Dto(dto.target()@),
            ) && dto.xforms() == self.xforms(),
            self.xforms().is_plain() ==> (r is Some <==> self.target()@.find(ChildKind::Dto, id@)
                is Some),
    {
        match self.target.find_dto(id) {
            Some(dto) => keep_if(self.filter_dto(dto), Dto::new(dto, self.xforms)),
            None => None,
        }
    }

    /// The procedure that `id` leads to, if the view shows it.
    pub fn find_rpc(&self, id: &EntityId) -> (r: Option<Rpc<'v>>)
        ensures
            r matches Some(rpc) ==> self.target()@.find(ChildKind::Rpc, id@) == Some(
                NamespaceChildView::Rpc(rpc.target()@),
            ) && rpc.xforms() == self.xforms(),
            self.xforms().is_plain() ==> (r is Some <==> self.target()@.find(ChildKind::Rpc, id@)
                is Some),
    {
        match self.target.find_rpc(id) {
            Some(rpc) => keep_if(self.filter_rpc(rpc), Rpc::new(rpc, self.xforms)),
            None => None,
        }
    }

    /// The enumeration that `id` leads to, if the view shows it.
    pub fn find_enum(&self, id: &EntityId) -> (r: Option<Enum<'v>>)
        ensures
            r matches Some(en) ==> self.target()@.find(ChildKind::Enum, id@) == Some(
                NamespaceChildView::Enum(en.target()@),
            ) && en.xforms() == self.xforms(),
            self.xforms().is_plain() ==> (r is Some <==> self.target()@.find(ChildKind::Enum, id@)
                is Some),
    {
        match self.target.find_enum(id) {
            Some(en) => keep_if(self.filter_enum(en), Enum::new(en, self.xforms)),
            None => None,
        }
    }

    /// The child namespaces that the view shows, in declaration order.
    pub fn namespaces(&self) -> (r: Vec<Namespace<'v>>)
        ensures
            shows(
                self.xforms(),
                self.target()@.children,
                ChildKind::Namespace,
                Seq::new(r@.len(), |i: int| NamespaceChildView::Namespace(r@[i].target()@)),
            ),
            forall|i: int| 0 <= i < r@.len() ==> (#[trigger] r@[i]).xforms() == self.xforms(),
    {
        let all = self.kept(ChildKind::Namespace);
        let ghost want = sources(all@);
        let mut out: Vec<Namespace<'v>> = Vec::new();
        let mut i: usize = 0;
        proof {
            lemma_shown_kind(self.xforms(), self.target()@.children, ChildKind::Namespace, want);
        }
        while i < all.len()
            invariant
                i <= all@.len(),
                out@.len() == i,
                sources(all@) == want,
                forall|j: int| 0 <= j < want.len() ==> (#[trigger] want[j]) is Namespace,
                forall|j: int|
                    0 <= j < all@.len() ==> (#[trigger] all@[j]).xforms() == self.xforms(),
                forall|j: int|
                    0 <= j < i ==> NamespaceChildView::Namespace((#[trigger] out@[j]).target()@)
                        == want[j] && out@[j].xforms() == self.xforms(),
            decreases all@.len() - i,
        {
            assert(want[i as int] == all@[i as int].source());
            match all[i] {
                NamespaceChild::Namespace(ns) => {
                    out.push(ns);
                },
                _ => {
                    assert(false);
                },
            }
            i += 1;
        }
        assert(Seq::new(out@.len(), |i: int| NamespaceChildView::Namespace(out@[i].target()@))
            =~= want);
        out
    }

    /// The records that the view shows, in declaration order.
    pub fn dtos(&self) -> (r: Vec<Dto<'v>>)
        ensures
            shows(
                self.xforms(),
                self.target()@.children,
                ChildKind::Dto,
                Seq::new(r@.len(), |i: int| NamespaceChildView::Dto(r@[i].target()@)),
            ),
            forall|i: int| 0 <= i < r@.len() ==> (#[trigger] r@[i]).xforms() == self.xforms(),
    {
        let all = self.kept(ChildKind::Dto);
        let ghost want = sources(all@);
        let mut out: Vec<Dto<'v>> = Vec::new();
        let mut i: usize = 0;
        proof {
            lemma_shown_kind(self.xforms(), self.target()@.children, ChildKind::Dto, want);
        }
        while i < all.len()
            invariant
                i <= all@.len(),
                out@.len() == i,
                sources(all@) == want,
                forall|j: int| 0 <= j < want.len() ==> (#[trigger] want[j]) is Dto,
                forall|j: int|
                    0 <= j < all@.len() ==> (#[trigger] all@[j]).xforms() == self.xforms(),
                forall|j: int|
                    0 <= j < i ==>
                        NamespaceChildView::Dto((#[trigger] out@[j]).target()@) == want[j]
                        && out@[j].xforms() == self.xforms(),
            decreases all@.len() - i,
        {
            assert(want[i as int] == all@[i as int].source());
            match all[i] {
                NamespaceChild::Dto(dto) => {
                    out.push(dto);
                },
                _ => {
                    assert(false);
                },
            }
            i += 1;
        }
        assert(Seq::new(out@.len(), |i: int| NamespaceChildView::Dto(out@[i].target()@)) =~= want);
        out
    }

    /// The procedures that the view shows, in declaration order.
    pub fn rpcs(&self) -> (r: Vec<Rpc<'v>>)
        ensures
            shows(
                self.xforms(),
                self.target()@.children,
                ChildKind::Rpc,
                Seq::new(r@.len(), |i: int| NamespaceChildView::Rpc(r@[i].target()@)),
            ),
            forall|i: int| 0 <= i < r@.len() ==> (#[trigger] r@[i]).xforms() == self.xforms(),
    {
        let all = self.kept(ChildKind::Rpc);
        let ghost want = sources(all@);
        let mut out: Vec<Rpc<'v>> = Vec::new();
        let mut i: usize = 0;
        proof {
            lemma_shown_kind(self.xforms(), self.target()@.children, ChildKind::Rpc, want);
        }
        while i < all.len()
            invariant
                i <= all@.len(),
                out@.len() == i,
                sources(all@) == want,
                forall|j: int| 0 <= j < want.len() ==> (#[trigger] want[j]) is Rpc,
                forall|j: int|
                    0 <= j < all@.len() ==> (#[trigger] all@[j]).xforms() == self.xforms(),
                forall|j: int|
                    0 <= j < i ==>
                        NamespaceChildView::Rpc((#[trigger] out@[j]).target()@) == want[j]
                        && out@[j].xforms() == self.xforms(),
            decreases all@.len() - i,
        {
            assert(want[i as int] == all@[i as int].source());
            match all[i] {
                NamespaceChild::Rpc(rpc) => {
                    out.push(rpc);
                },
                _ => {
                    assert(false);
                },
            }
            i += 1;
        }
        assert(Seq::new(out@.len(), |i: int| NamespaceChildView::Rpc(out@[i].target()@)) =~= want);
        out
    }

    /// The enumerations that the view shows, in declaration order.
    pub fn enums(&self) -> (r: Vec<Enum<'v>>)
        ensures
            shows(
                self.xforms(),
                self.target()@.children,
                ChildKind::Enum,
                Seq::new(r@.len(), |i: int| NamespaceChildView::Enum(r@[i].target()@)),
            ),
            forall|i: int| 0 <= i < r@.len() ==> (#[trigger] r@[i]).xforms() == self.xforms(),
    {
        let all = self.kept(ChildKind::Enum);
        let ghost want = sources(all@);
        let mut out: Vec<Enum<'v>> = Vec::new();
        let mut i: usize = 0;
        proof {
            lemma_shown_kind(self.xforms(), self.target()@.children, ChildKind::Enum, want);
        }
        while i < all.len()
            invariant
                i <= all@.len(),
                out@.len() == i,
                sources(all@) == want,
                forall|j: int| 0 <= j < want.len() ==> (#[trigger] want[j]) is Enum,
                forall|j: int|
                    0 <= j < all@.len() ==> (#[trigger] all@[j]).xforms() == self.xforms(),
                forall|j: int|
                    0 <= j < i ==> NamespaceChildView::Enum((#[trigger] out@[j]).target()@)
                        == want[j] && out@[j].xforms() == self.xforms(),
            decreases all@.len() - i,
        {
            assert(want[i as int] == all@[i as int].source());
            match all[i] {
                NamespaceChild::Enum(en) => {
                    out.push(en);
                },
                _ => {
                    assert(false);
                },
            }
            i += 1;
        }
        assert(Seq::new(out@.len(), |i: int| NamespaceChildView::Enum(out@[i].target()@)) =~= want);
        out
    }

    /// The children of `kind` that the view shows, in declaration order:
    /// each child of that kind is asked of the transforms.
    fn kept(&self, kind: ChildKind) -> (r: Vec<NamespaceChild<'v>>)
        ensures
            shows(self.xforms(), self.target()@.children, kind, sources(r@)),
            forall|i: int| 0 <= i < r@.len() ==> (#[trigger] r@[i]).xforms() == self.xforms(),
    {
        let mut mask: Vec<bool> = Vec::new();
        let ghost all = self.target()@.children;
        let mut i: usize = 0;
        while i < self.target.children.len()
            invariant
                i <= self.target.children@.len(),
                all == self.target()@.children,
                self.target == self.target(),
                self.xforms == self.xforms(),
                mask@.len() == i,
                forall|j: int| 0 <= j < i && mask@[j] ==> (#[trigger] all[j]).is_kind(kind),
                self.xforms().is_plain() ==> forall|j: int|
                    0 <= j < i ==> mask@[j] == (#[trigger] all[j]).is_kind(kind),
            decreases self.target.children@.len() - i,
        {
            let child = &self.target.children[i];
            let keep = child.is_kind(kind) && self.filter_child(child);
            mask.push(keep);
            i += 1;
        }
        let out = select(&self.target.children, &mask, self.xforms);
        proof {
            assert(chosen_by(all, kind, mask@, sources(out@)));
            if self.xforms().is_plain() {
                lemma_masked_kind(all, kind, mask@, all.len() as int);
                assert(all.take(all.len() as int) =~= all);
            }
        }
        out
    }

    /// Whether every transform keeps this child, by its kind.
    fn filter_child(&self, child: &namespace::NamespaceChild) -> (r: bool)
        ensures
            self.xforms().is_plain() ==> r,
    {
        match child {
            namespace::NamespaceChild::Dto(value) => self.filter_dto(value),
            namespace::NamespaceChild::Rpc(value) => self.filter_rpc(value),
            namespace::NamespaceChild::Enum(value) => self.filter_enum(value),
            namespace::NamespaceChild::Namespace(value) => self.filter_namespace(value),
        }
    }

    /// Whether every transform keeps this namespace.
    fn filter_namespace(&self, namespace: &namespace::Namespace) -> (r: bool)
        ensures
            self.xforms().is_plain() ==> r,
    {
        self.xforms.filter_namespace(namespace)
    }

    /// Whether every transform keeps this record.
    fn filter_dto(&self, dto: &crate::model::entity::Dto) -> (r: bool)
        ensures
            self.xforms().is_plain() ==> r,
    {
        self.xforms.filter_dto(dto)
    }

    /// Whether every transform keeps this procedure.
    fn filter_rpc(&self, rpc: &crate::model::entity::Rpc) -> (r: bool)
        ensures
            self.xforms().is_plain() ==> r,
    {
        self.xforms.filter_rpc(rpc)
    }

    /// Whether every transform keeps this enumeration.
    fn filter_enum(&self, en: &crate::model::entity::Enum) -> (r: bool)
        ensures
            self.xforms().is_plain() ==> r,
    {
        self.xforms.filter_enum(en)
    }
}

/// A choice among children is no longer than the children.
pub proof fn lemma_masked_len(children: Seq<NamespaceChildView>, mask: Seq<bool>, n: int)
    requires
        0 <= n <= children.len(),
        mask.len() == children.len(),
    ensures
        masked(children, mask, n).len() <= n,
        n > 0 && (forall|i: int| 0 <= i < n ==> #[trigger] mask[i]) ==> masked(
            children,
            mask,
            n,
        ).len() == n,
    decreases n,
{
    if n > 0 {
        lemma_masked_len(children, mask, n - 1);
    }
}

/// Asking for any kind filters nothing out.
pub proof fn lemma_filter_any(children: Seq<NamespaceChildView>)
    ensures
        children.filter(|c: NamespaceChildView| c.is_kind(ChildKind::Any)) == children,
    decreases children.len(),
{
    reveal(Seq::filter);
    let pred = |c: NamespaceChildView| c.is_kind(ChildKind::Any);
    if children.len() > 0 {
        lemma_filter_any(children.drop_last());
        assert(children.drop_last().push(children.last()) =~= children);
    }
}

/// Every child that a view shows when asked for `kind` is of that kind.
pub proof fn lemma_shown_kind(
    xforms: &Transforms,
    children: Seq<NamespaceChildView>,
    kind: ChildKind,
    shown: Seq<NamespaceChildView>,
)
    requires
        shows(xforms, children, kind, shown),
    ensures
        forall|j: int| 0 <= j < shown.len() ==> (#[trigger] shown[j]).is_kind(kind),
{
    let mask = choose|mask: Seq<bool>| chosen_by(children, kind, mask, shown);
    lemma_masked_of_kind(children, kind, mask, children.len() as int);
}

/// Every child that a mask chooses is of `kind` where the mask marks only
/// children of that kind.
pub proof fn lemma_masked_of_kind(
    children: Seq<NamespaceChildView>,
    kind: ChildKind,
    mask: Seq<bool>,
    n: int,
)
    requires
        0 <= n <= children.len(),
        mask.len() == children.len(),
        forall|i: int| 0 <= i < mask.len() && mask[i] ==> (#[trigger] children[i]).is_kind(kind),
    ensures
        forall|j: int|
            0 <= j < masked(children, mask, n).len() ==> (#[trigger] masked(
                children,
                mask,
                n,
            )[j]).is_kind(kind),
    decreases n,
{
    if n > 0 {
        lemma_masked_of_kind(children, kind, mask, n - 1);
        let shorter = masked(children, mask, n - 1);
        assert forall|j: int| 0 <= j < masked(children, mask, n).len() implies (#[trigger] masked(
            children,
            mask,
            n,
        )[j]).is_kind(kind) by {
            if mask[n - 1] {
                assert(children[n - 1].is_kind(kind));
                if j < shorter.len() {
                    assert(masked(children, mask, n)[j] == shorter[j]);
                } else {
                    assert(masked(children, mask, n)[j] == children[n - 1]);
                }
            }
        }
    }
}

} // verus!
