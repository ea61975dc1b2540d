//! The namespace tree and the lookups in it.
use crate::model::entity::{Attributes, Dto, DtoView, Enum, EnumView, Rpc, RpcView};
use crate::model::entity_id::EntityId;
use vstd::prelude::*;

verus! {

/// Name of the root namespace, which no declaration introduces.
pub const UNDEFINED_NAMESPACE: &'static str = "_";

/// A named, nestable group of declarations. The children keep the order in
/// which they were declared.
#[derive(Debug, PartialEq, Eq)]
pub struct Namespace {
    pub name: String,
    pub children: Vec<NamespaceChild>,
    pub attributes: Attributes,
}

/// What a namespace can hold.
#[derive(Debug, PartialEq, Eq)]
pub enum NamespaceChild {
    Dto(Dto),
    Rpc(Rpc),
    Enum(Enum),
    Namespace(Namespace),
}

/// The root namespace of a model.
pub type Api = Namespace;

/// Mathematical value of a [`Namespace`]: its name and its children's values.
pub struct NamespaceView {
    pub name: Seq<char>,
    pub children: Seq<NamespaceChildView>,
}

/// Mathematical value of a [`NamespaceChild`].
pub enum NamespaceChildView {
    Dto(DtoView),
    Rpc(RpcView),
    Enum(EnumView),
    Namespace(NamespaceView),
}

/// The kinds of child that a lookup can ask for.
#[derive(Debug, Clone, Copy, PartialEq, Eq, Structural)]
pub enum ChildKind {
    Any,
    Dto,
    Rpc,
    Enum,
    Namespace,
}

impl View for Namespace {
    type V = NamespaceView;

    open spec fn view(&self) -> NamespaceView
        decreases self,
    {
        NamespaceView { name: self.name@, children: children_view(self.children@) }
    }
}

impl View for NamespaceChild {
    type V = NamespaceChildView;

    open spec fn view(&self) -> NamespaceChildView
        decreases self,
    {
        match self {
            NamespaceChild::Dto(dto) => NamespaceChildView::Dto(dto@),
            NamespaceChild::Rpc(rpc) => NamespaceChildView::Rpc(rpc@),
            NamespaceChild::Enum(en) => NamespaceChildView::Enum(en@),
            NamespaceChild::Namespace(ns) => NamespaceChildView::Namespace(ns@),
        }
    }
}

/// The values of a sequence of children, in order.
pub open spec fn children_view(v: Seq<NamespaceChild>) -> Seq<NamespaceChildView>
    decreases v,
{
    Seq::new(
        v.len(),
        |i: int|
            if 0 <= i < v.len() {
                v[i]@
            } else {
                arbitrary()
            },
    )
}

impl NamespaceChildView {
    /// The child's name, whatever its kind.
    pub open spec fn name(self) -> Seq<char> {
        match self {
            NamespaceChildView::Dto(dto) => dto.name,
            NamespaceChildView::Rpc(rpc) => rpc.name,
            NamespaceChildView::Enum(en) => en.name,
            NamespaceChildView::Namespace(ns) => ns.name,
        }
    }

    /// Whether the child is of the kind asked for.
    pub open spec fn is_kind(self, kind: ChildKind) -> bool {
        match kind {
            ChildKind::Any => true,
            ChildKind::Dto => self is Dto,
            ChildKind::Rpc => self is Rpc,
            ChildKind::Enum => self is Enum,
            ChildKind::Namespace => self is Namespace,
        }
    }

    /// Whether a lookup for `name` among children of `kind` stops here.
    pub open spec fn answers(self, kind: ChildKind, name: Seq<char>) -> bool {
        self.is_kind(kind) && self.name() == name
    }
}

/// Index of the first child at or after `from` that is of `kind` and named
/// `name`.
pub open spec fn first_child_from(
    children: Seq<NamespaceChildView>,
    kind: ChildKind,
    name: Seq<char>,
    from: int,
) -> Option<int>
    decreases children.len() - from,
{
    if from < 0 || from >= children.len() {
        None
    } else if children[from].answers(kind, name) {
        Some(from)
    } else {
        first_child_from(children, kind, name, from + 1)
    }
}

/// What `first_child_from` finds: an answering child with none before it
/// from `from` on, or nothing where no child answers.
pub proof fn lemma_first_child_from(
    children: Seq<NamespaceChildView>,
    kind: ChildKind,
    name: Seq<char>,
    from: int,
)
    requires
        0 <= from,
    ensures
        match first_child_from(children, kind, name, from) {
            Some(i) => {
                &&& from <= i < children.len()
                &&& children[i].answers(kind, name)
                &&& forall|j: int| from <= j < i ==> !(#[trigger] children[j]).answers(kind, name)
            },
            None => forall|j: int|
                from <= j < children.len() ==> !(#[trigger] children[j]).answers(kind, name),
        },
    decreases children.len() - from,
{
    if from < children.len() && !children[from].answers(kind, name) {
        lemma_first_child_from(children, kind, name, from + 1);
    }
}

impl NamespaceView {
    /// The namespace with this name and no children.
    pub open spec fn empty(name: Seq<char>) -> NamespaceView {
        NamespaceView { name, children: Seq::empty() }
    }

    /// Index of the first child of `kind` named `name`.
    pub open spec fn child_index(self, kind: ChildKind, name: Seq<char>) -> Option<int> {
        first_child_from(self.children, kind, name, 0)
    }

    /// The first child of `kind` named `name`.
    pub open spec fn child(self, kind: ChildKind, name: Seq<char>) -> Option<NamespaceChildView> {
        match self.child_index(kind, name) {
            Some(i) => Some(self.children[i]),
            None => None,
        }
    }

    /// The first child namespace named `name`.
    pub open spec fn namespace(self, name: Seq<char>) -> Option<NamespaceView> {
        match self.child(ChildKind::Namespace, name) {
            Some(NamespaceChildView::Namespace(ns)) => Some(ns),
            _ => None,
        }
    }

    /// The namespace that `path` leads to from here: each segment names a
    /// child namespace of the one before. The empty path leads to `self`.
    pub open spec fn find_namespace(self, path: Seq<Seq<char>>) -> Option<NamespaceView>
        decreases path.len(),
    {
        if path.len() == 0 {
            Some(self)
        } else {
            match self.namespace(path[0]) {
                Some(ns) => ns.find_namespace(path.skip(1)),
                None => None,
            }
        }
    }

    /// The child of `kind` that `path` leads to: all segments but the last
    /// name namespaces, the last names the child. The empty path names none.
    pub open spec fn find(self, kind: ChildKind, path: Seq<Seq<char>>) -> Option<
        NamespaceChildView,
    > {
        if path.len() == 0 {
            None
        } else {
            match self.find_namespace(path.drop_last()) {
                Some(ns) => ns.child(kind, path.last()),
                None => None,
            }
        }
    }

    /// The children of `kind`, in order.
    pub open spec fn children_of(self, kind: ChildKind) -> Seq<NamespaceChildView> {
        self.children.filter(|c: NamespaceChildView| c.is_kind(kind))
    }
}

impl NamespaceChild {
    /// The child's name, whatever its kind.
    pub fn name(&self) -> (r: &String)
        ensures
            r@ == self@.name(),
    {
        match self {
            NamespaceChild::Dto(dto) => &dto.name,
            NamespaceChild::Rpc(rpc) => &rpc.name,
            NamespaceChild::Enum(en) => &en.name,
            NamespaceChild::Namespace(ns) => &ns.name,
        }
    }

    /// The child's attributes, whatever its kind.
    pub fn attributes(&self) -> (r: &Attributes)
        ensures
            *r == match *self {
                NamespaceChild::Dto(dto) => dto.attributes,
                NamespaceChild::Rpc(rpc) => rpc.attributes,
                NamespaceChild::Enum(en) => en.attributes,
                NamespaceChild::Namespace(ns) => ns.attributes,
            },
    {
        match self {
            NamespaceChild::Dto(dto) => &dto.attributes,
            NamespaceChild::Rpc(rpc) => &rpc.attributes,
            NamespaceChild::Enum(en) => &en.attributes,
            NamespaceChild::Namespace(ns) => &ns.attributes,
        }
    }

    /// Whether the child is of the kind asked for.
    pub fn is_kind(&self, kind: ChildKind) -> (r: bool)
        ensures
            r == self@.is_kind(kind),
    {
        match kind {
            ChildKind::Any => true,
            ChildKind::Dto => matches!(self, NamespaceChild::Dto(_)),
            ChildKind::Rpc => matches!(self, NamespaceChild::Rpc(_)),
            ChildKind::Enum => matches!(self, NamespaceChild::Enum(_)),
            ChildKind::Namespace => matches!(self, NamespaceChild::Namespace(_)),
        }
    }
}

impl Namespace {
    /// The namespace with this name and no children.
    pub fn new(name: &str) -> (r: Namespace)
        ensures
            r@ == NamespaceView::empty(name@),
    {
        let r = Namespace {
            name: name.to_owned(),
            children: Vec::new(),
            attributes: Attributes::new(),
        };
        assert(r@.children =~= Seq::empty());
        r
    }

    /// Whether the namespace has no children.
    pub fn is_empty(&self) -> (r: bool)
        ensures
            r == (self@.children.len() == 0),
    {
        self.children.len() == 0
    }

    /// Position of the first child of `kind` named `name`.
    pub fn position(&self, kind: ChildKind, name: &String) -> (r: Option<usize>)
        ensures
            match r {
                Some(i) => {
                    &&& i < self.children@.len()
                    &&& self@.child_index(kind, name@) == Some(i as int)
                    &&& self.children@[i as int]@.answers(kind, name@)
                },
                None => self@.child_index(kind, name@) is None,
            },
    {
        let mut i: usize = 0;
        while i < self.children.len()
            invariant
                i <= self.children@.len(),
                self@.child_index(kind, name@) == first_child_from(
                    self@.children,
                    kind,
                    name@,
                    i as int,
                ),
            decreases self.children@.len() - i,
        {
            let child = &self.children[i];
            if child.is_kind(kind) && *child.name() == *name {
                return Some(i);
            }
            i += 1;
        }
        None
    }

    /// The first child named `name`, of any kind.
    pub fn child(&self, name: &str) -> (r: Option<&NamespaceChild>)
        ensures
            match r {
                Some(c) => self@.child(ChildKind::Any, name@) == Some(c@),
                None => self@.child(ChildKind::Any, name@) is None,
            },
    {
        let name = name.to_owned();
        match self.position(ChildKind::Any, &name) {
            Some(i) => Some(&self.children[i]),
            None => None,
        }
    }

    /// The first record named `name`.
    pub fn dto(&self, name: &str) -> (r: Option<&Dto>)
        ensures
            match r {
                Some(d) => self@.child(ChildKind::Dto, name@) == Some(NamespaceChildView::Dto(d@)),
                None => self@.child(ChildKind::Dto, name@) is None,
            },
    {
        let name = name.to_owned();
        match self.position(ChildKind::Dto, &name) {
            Some(i) => match &self.children[i] {
                NamespaceChild::Dto(dto) => Some(dto),
                _ => None,
            },
            None => None,
        }
    }

    /// The first procedure named `name`.
    pub fn rpc(&self, name: &str) -> (r: Option<&Rpc>)
        ensures
            match r {
                Some(p) => self@.child(ChildKind::Rpc, name@) == Some(NamespaceChildView::Rpc(p@)),
                None => self@.child(ChildKind::Rpc, name@) is None,
            },
    {
        let name = name.to_owned();
        match self.position(ChildKind::Rpc, &name) {
            Some(i) => match &self.children[i] {
                NamespaceChild::Rpc(rpc) => Some(rpc),
                _ => None,
            },
            None => None,
        }
    }

    /// The first enumeration named `name`.
    pub fn en(&self, name: &str) -> (r: Option<&Enum>)
        ensures
            match r {
                Some(e) => self@.child(ChildKind::Enum, name@) == Some(
                    NamespaceChildView::Enum(e@),
                ),
                None => self@.child(ChildKind::Enum, name@) is None,
            },
    {
        let name = name.to_owned();
        match self.position(ChildKind::Enum, &name) {
            Some(i) => match &self.children[i] {
                NamespaceChild::Enum(en) => Some(en),
                _ => None,
            },
            None => None,
        }
    }

    /// The first child namespace named `name`.
    pub fn namespace(&self, name: &str) -> (r: Option<&Namespace>)
        ensures
            match r {
                Some(ns) => self@.namespace(name@) == Some(ns@),
                None => self@.namespace(name@) is None,
            },
    {
        let name = name.to_owned();
        self.namespace_named(&name)
    }

    /// The first child namespace named `name`.
    pub fn namespace_named(&self, name: &String) -> (r: Option<&Namespace>)
        ensures
            match r {
                Some(ns) => self@.namespace(name@) == Some(ns@),
                None => self@.namespace(name@) is None,
            },
    {
        match self.position(ChildKind::Namespace, name) {
            Some(i) => match &self.children[i] {
                NamespaceChild::Namespace(ns) => Some(ns),
                _ => None,
            },
            None => None,
        }
    }
}

/// The values of borrowed children, in order.
pub open spec fn child_refs_view(v: Seq<&NamespaceChild>) -> Seq<NamespaceChildView> {
    Seq::new(v.len(), |i: int| (*v[i])@)
}

impl Namespace {
    /// The first child of `kind` named `name`.
    pub fn child_of_kind(&self, kind: ChildKind, name: &String) -> (r: Option<&NamespaceChild>)
        ensures
            match r {
                Some(c) => self@.child(kind, name@) == Some(c@),
                None => self@.child(kind, name@) is None,
            },
    {
        match self.position(kind, name) {
            Some(i) => Some(&self.children[i]),
            None => None,
        }
    }

    /// The namespace that the first `n` segments of `id` lead to.
    pub fn find_namespace_prefix(&self, id: &EntityId, n: usize) -> (r: Option<&Namespace>)
        requires
            n <= id@.len(),
        ensures
            match r {
                Some(ns) => self@.find_namespace(id@.take(n as int)) == Some(ns@),
                None => self@.find_namespace(id@.take(n as int)) is None,
            },
    {
        let ghost path = id@.take(n as int);
        let mut cur: &Namespace = self;
        let mut i: usize = 0;
        assert(path.skip(0) =~= path);
        while i < n
            invariant
                i <= n <= id@.len(),
                n <= id.path@.len(),
                path == id@.take(n as int),
                self@.find_namespace(path) == cur@.find_namespace(path.skip(i as int)),
            decreases n - i,
        {
            assert(path.skip(i as int)[0] == id.path@[i as int]@);
            assert(path.skip(i as int).skip(1) =~= path.skip(i + 1));
            match cur.namespace_named(&id.path[i]) {
                Some(ns) => {
                    cur = ns;
                },
                None => {
                    return None;
                },
            }
            i += 1;
        }
        Some(cur)
    }

    /// The namespace that `id` leads to from here. Every segment must name a
    /// child namespace of the one before; the empty path leads to `self`.
    pub fn find_namespace(&self, id: &EntityId) -> (r: Option<&Namespace>)
        ensures
            match r {
                Some(ns) => self@.find_namespace(id@) == Some(ns@),
                None => self@.find_namespace(id@) is None,
            },
    {
        assert(id@.take(id@.len() as int) =~= id@);
        self.find_namespace_prefix(id, id.path.len())
    }

    /// The child of `kind` that `id` leads to from here.
    pub fn find_of_kind(&self, kind: ChildKind, id: &EntityId) -> (r: Option<&NamespaceChild>)
        ensures
            match r {
                Some(c) => self@.find(kind, id@) == Some(c@),
                None => self@.find(kind, id@) is None,
            },
    {
        let n = id.path.len();
        if n == 0 {
            return None;
        }
        assert(id@.take(n - 1) =~= id@.drop_last());
        match self.find_namespace_prefix(id, n - 1) {
            Some(ns) => ns.child_of_kind(kind, &id.path[n - 1]),
            None => None,
        }
    }

    /// The child that `id` leads to from here, of any kind. All segments but
    /// the last must name namespaces.
    pub fn find_child(&self, id: &EntityId) -> (r: Option<&NamespaceChild>)
        ensures
            match r {
                Some(c) => self@.find(ChildKind::Any, id@) == Some(c@),
                None => self@.find(ChildKind::Any, id@) is None,
            },
    {
        self.find_of_kind(ChildKind::Any, id)
    }

    /// The record that `id` leads to from here.
    pub fn find_dto(&self, id: &EntityId) -> (r: Option<&Dto>)
        ensures
            match r {
                Some(d) => self@.find(ChildKind::Dto, id@) == Some(NamespaceChildView::Dto(d@)),
                None => self@.find(ChildKind::Dto, id@) is None,
            },
    {
        proof {
            lemma_find_is_kind(self@, ChildKind::Dto, id@);
        }
        match self.find_of_kind(ChildKind::Dto, id) {
            Some(NamespaceChild::Dto(dto)) => Some(dto),
            _ => None,
        }
    }

    /// The procedure that `id` leads to from here.
    pub fn find_rpc(&self, id: &EntityId) -> (r: Option<&Rpc>)
        ensures
            match r {
                Some(p) => self@.find(ChildKind::Rpc, id@) == Some(NamespaceChildView::Rpc(p@)),
                None => self@.find(ChildKind::Rpc, id@) is None,
            },
    {
        proof {
            lemma_find_is_kind(self@, ChildKind::Rpc, id@);
        }
        match self.find_of_kind(ChildKind::Rpc, id) {
            Some(NamespaceChild::Rpc(rpc)) => Some(rpc),
            _ => None,
        }
    }

    /// The enumeration that `id` leads to from here.
    pub fn find_enum(&self, id: &EntityId) -> (r: Option<&Enum>)
        ensures
            match r {
                Some(e) => self@.find(ChildKind::Enum, id@) == Some(NamespaceChildView::Enum(e@)),
                None => self@.find(ChildKind::Enum, id@) is None,
            },
    {
        proof {
            lemma_find_is_kind(self@, ChildKind::Enum, id@);
        }
        match self.find_of_kind(ChildKind::Enum, id) {
            Some(NamespaceChild::Enum(en)) => Some(en),
            _ => None,
        }
    }

    /// The children of `kind`, in declaration order.
    pub fn children_of(&self, kind: ChildKind) -> (r: Vec<&NamespaceChild>)
        ensures
            child_refs_view(r@) == self@.children_of(kind),
    {
        let mut out: Vec<&NamespaceChild> = Vec::new();
        let ghost pred = |c: NamespaceChildView| c.is_kind(kind);
        let mut i: usize = 0;
        proof {
            reveal(Seq::filter);
            assert(self@.children.take(0) =~= Seq::empty());
            assert(child_refs_view(out@) =~= Seq::empty());
        }
        while i < self.children.len()
            invariant
                i <= self.children@.len(),
                pred == (|c: NamespaceChildView| c.is_kind(kind)),
                child_refs_view(out@) == self@.children.take(i as int).filter(pred),
            decreases self.children@.len() - i,
        {
            let child = &self.children[i];
            let ghost before = child_refs_view(out@);
            proof {
                reveal(Seq::filter);
                assert(self@.children.take(i + 1).drop_last() =~= self@.children.take(i as int));
                assert(self@.children.take(i + 1).last() == child@);
            }
            if child.is_kind(kind) {
                out.push(child);
                assert(child_refs_view(out@) =~= before.push(child@));
            }
            i += 1;
        }
        assert(self@.children.take(i as int) =~= self@.children);
        out
    }

    /// The child namespaces, in declaration order.
    pub fn namespaces(&self) -> (r: Vec<&Namespace>)
        ensures
            Seq::new(r@.len(), |i: int| NamespaceChildView::Namespace((*r@[i])@))
                == self@.children_of(ChildKind::Namespace),
    {
        let all = self.children_of(ChildKind::Namespace);
        let ghost want = self@.children_of(ChildKind::Namespace);
        let mut out: Vec<&Namespace> = Vec::new();
        let mut i: usize = 0;
        proof {
            lemma_children_of_kind(self@, ChildKind::Namespace);
        }
        while i < all.len()
            invariant
                i <= all@.len(),
                out@.len() == i,
                child_refs_view(all@) == want,
                forall|j: int|
                    0 <= j < want.len() ==> (#[trigger] want[j]).is_kind(ChildKind::Namespace),
                forall|j: int|
                    0 <= j < i ==> NamespaceChildView::Namespace((*#[trigger] out@[j])@) == want[j],
            decreases all@.len() - i,
        {
            assert(want[i as int] == (*all@[i as int])@);
            match all[i] {
                NamespaceChild::Namespace(ns) => {
                    out.push(ns);
                },
                _ => {
                    assert(false);
                },
            }
            i += 1;
        }
        assert(Seq::new(out@.len(), |i: int| NamespaceChildView::Namespace((*out@[i])@)) =~= want);
        out
    }

    /// The records, in declaration order.
    pub fn dtos(&self) -> (r: Vec<&Dto>)
        ensures
            Seq::new(r@.len(), |i: int| NamespaceChildView::Dto((*r@[i])@)) == self@.children_of(
                ChildKind::Dto,
            ),
    {
        let all = self.children_of(ChildKind::Dto);
        let ghost want = self@.children_of(ChildKind::Dto);
        let mut out: Vec<&Dto> = Vec::new();
        let mut i: usize = 0;
        proof {
            lemma_children_of_kind(self@, ChildKind::Dto);
        }
        while i < all.len()
            invariant
                i <= all@.len(),
                out@.len() == i,
                child_refs_view(all@) == want,
                forall|j: int| 0 <= j < want.len() ==> (#[trigger] want[j]).is_kind(ChildKind::Dto),
                forall|j: int|
                    0 <= j < i ==> NamespaceChildView::Dto((*#[trigger] out@[j])@) == want[j],
            decreases all@.len() - i,
        {
            assert(want[i as int] == (*all@[i as int])@);
            match all[i] {
                NamespaceChild::Dto(dto) => {
                    out.push(dto);
                },
                _ => {
                    assert(false);
                },
            }
            i += 1;
        }
        assert(Seq::new(out@.len(), |i: int| NamespaceChildView::Dto((*out@[i])@)) =~= want);
        out
    }

    /// The procedures, in declaration order.
    pub fn rpcs(&self) -> (r: Vec<&Rpc>)
        ensures
            Seq::new(r@.len(), |i: int| NamespaceChildView::Rpc((*r@[i])@)) == self@.children_of(
                ChildKind::Rpc,
            ),
    {
        let all = self.children_of(ChildKind::Rpc);
        let ghost want = self@.children_of(ChildKind::Rpc);
        let mut out: Vec<&Rpc> = Vec::new();
        let mut i: usize = 0;
        proof {
            lemma_children_of_kind(self@, ChildKind::Rpc);
        }
        while i < all.len()
            invariant
                i <= all@.len(),
                out@.len() == i,
                child_refs_view(all@) == want,
                forall|j: int| 0 <= j < want.len() ==> (#[trigger] want[j]).is_kind(ChildKind::Rpc),
                forall|j: int|
                    0 <= j < i ==> NamespaceChildView::Rpc((*#[trigger] out@[j])@) == want[j],
            decreases all@.len() - i,
        {
            assert(want[i as int] == (*all@[i as int])@);
            match all[i] {
                NamespaceChild::Rpc(rpc) => {
                    out.push(rpc);
                },
                _ => {
                    assert(false);
                },
            }
            i += 1;
        }
        assert(Seq::new(out@.len(), |i: int| NamespaceChildView::Rpc((*out@[i])@)) =~= want);
        out
    }

    /// The enumerations, in declaration order.
    pub fn enums(&self) -> (r: Vec<&Enum>)
        ensures
            Seq::new(r@.len(), |i: int| NamespaceChildView::Enum((*r@[i])@)) == self@.children_of(
                ChildKind::Enum,
            ),
    {
        let all = self.children_of(ChildKind::Enum);
        let ghost want = self@.children_of(ChildKind::Enum);
        let mut out: Vec<&Enum> = Vec::new();
        let mut i: usize = 0;
        proof {
            lemma_children_of_kind(self@, ChildKind::Enum);
        }
        while i < all.len()
            invariant
                i <= all@.len(),
                out@.len() == i,
                child_refs_view(all@) == want,
                forall|j: int|
                    0 <= j < want.len() ==> (#[trigger] want[j]).is_kind(ChildKind::Enum),
                forall|j: int|
                    0 <= j < i ==> NamespaceChildView::Enum((*#[trigger] out@[j])@) == want[j],
            decreases all@.len() - i,
        {
            assert(want[i as int] == (*all@[i as int])@);
            match all[i] {
                NamespaceChild::Enum(en) => {
                    out.push(en);
                },
                _ => {
                    assert(false);
                },
            }
            i += 1;
        }
        assert(Seq::new(out@.len(), |i: int| NamespaceChildView::Enum((*out@[i])@)) =~= want);
        out
    }
}

/// A child found by kind is of that kind and bears the last segment as its
/// name.
pub proof fn lemma_find_is_kind(ns: NamespaceView, kind: ChildKind, path: Seq<Seq<char>>)
    ensures
        ns.find(kind, path) matches Some(c) ==> c.answers(kind, path.last()),
{
    if path.len() > 0 {
        match ns.find_namespace(path.drop_last()) {
            Some(inner) => {
                lemma_first_child_from(inner.children, kind, path.last(), 0);
            },
            None => {},
        }
    }
}

/// Every child that `children_of` yields is of the kind asked for.
pub proof fn lemma_children_of_kind(ns: NamespaceView, kind: ChildKind)
    ensures
        forall|j: int|
            0 <= j < ns.children_of(kind).len() ==> (#[trigger] ns.children_of(kind)[j]).is_kind(
                kind,
            ),
{
    let pred = |c: NamespaceChildView| c.is_kind(kind);
    ns.children.filter_lemma(pred);
}

/// A child namespace found by name bears that name.
pub proof fn lemma_namespace_named(ns: NamespaceView, name: Seq<char>)
    ensures
        ns.namespace(name) matches Some(inner) ==> inner.name == name,
{
    lemma_first_child_from(ns.children, ChildKind::Namespace, name, 0);
}

/// Looking up a path with one more segment is looking up the path and then
/// the segment among the children of what was found.
pub proof fn lemma_find_namespace_push(ns: NamespaceView, path: Seq<Seq<char>>, name: Seq<char>)
    ensures
        ns.find_namespace(path.push(name)) == match ns.find_namespace(path) {
            Some(inner) => inner.namespace(name),
            None => None,
        },
    decreases path.len(),
{
    let longer = path.push(name);
    if path.len() == 0 {
        assert(longer.skip(1) =~= Seq::<Seq<char>>::empty());
        match ns.namespace(name) {
            Some(inner) => {
                assert(inner.find_namespace(longer.skip(1)) == Some(inner));
            },
            None => {},
        }
    } else {
        assert(longer[0] == path[0]);
        assert(longer.skip(1) =~= path.skip(1).push(name));
        match ns.namespace(path[0]) {
            Some(inner) => {
                lemma_find_namespace_push(inner, path.skip(1), name);
            },
            None => {},
        }
    }
}

/// Where a lookup succeeds, the lookup of each prefix of the path succeeds.
pub proof fn lemma_find_namespace_prefix(ns: NamespaceView, path: Seq<Seq<char>>, k: int)
    requires
        0 <= k <= path.len(),
        ns.find_namespace(path) is Some,
    ensures
        ns.find_namespace(path.take(k)) is Some,
    decreases path.len() - k,
{
    if k == path.len() {
        assert(path.take(k) =~= path);
    } else {
        lemma_find_namespace_prefix(ns, path, k + 1);
        assert(path.take(k + 1) =~= path.take(k).push(path[k]));
        lemma_find_namespace_push(ns, path.take(k), path[k]);
    }
}

/// The names of the namespaces that the lookup of `path` passes through,
/// from the first child down to the namespace found.
pub open spec fn names_along(ns: NamespaceView, path: Seq<Seq<char>>) -> Seq<Seq<char>> {
    Seq::new(
        path.len(),
        |k: int|
            match ns.find_namespace(path.take(k + 1)) {
                Some(inner) => inner.name,
                None => Seq::empty(),
            },
    )
}

/// A namespace lookup that succeeds passes through namespaces whose names,
/// read from the start down to the namespace found, are the path itself.
pub proof fn law_found_namespace_spells_path(ns: NamespaceView, path: Seq<Seq<char>>)
    requires
        ns.find_namespace(path) is Some,
    ensures
        names_along(ns, path) == path,
        forall|k: int|
            0 <= k <= path.len() ==> (#[trigger] ns.find_namespace(path.take(k))) is Some,
{
    assert forall|k: int| 0 <= k <= path.len() implies (#[trigger] ns.find_namespace(
        path.take(k),
    )) is Some by {
        lemma_find_namespace_prefix(ns, path, k);
    }
    assert forall|k: int| 0 <= k < path.len() implies names_along(ns, path)[k] == path[k] by {
        lemma_find_namespace_prefix(ns, path, k);
        lemma_find_namespace_prefix(ns, path, k + 1);
        assert(path.take(k + 1) =~= path.take(k).push(path[k]));
        lemma_find_namespace_push(ns, path.take(k), path[k]);
        lemma_namespace_named(ns.find_namespace(path.take(k))->0, path[k]);
    }
    assert(names_along(ns, path) =~= path);
}

/// Whether the lookup of `path` breaks at segment `k`: the segments before
/// it lead to a namespace that has no child namespace named `path[k]`.
pub open spec fn breaks_at(ns: NamespaceView, path: Seq<Seq<char>>, k: int) -> bool {
    &&& 0 <= k < path.len()
    &&& ns.find_namespace(path.take(k)) matches Some(inner)
    &&& inner.namespace(path[k]) is None
}

/// A namespace lookup finds nothing exactly when some segment fails to name
/// a child namespace of what the segments before it lead to.
pub proof fn law_find_namespace_none(ns: NamespaceView, path: Seq<Seq<char>>)
    ensures
        ns.find_namespace(path) is None <==> exists|k: int| breaks_at(ns, path, k),
    decreases path.len(),
{
    if ns.find_namespace(path) is None {
        let shorter = path.drop_last();
        assert(path =~= shorter.push(path.last()));
        lemma_find_namespace_push(ns, shorter, path.last());
        if ns.find_namespace(shorter) is None {
            law_find_namespace_none(ns, shorter);
            let k = choose|k: int| breaks_at(ns, shorter, k);
            assert(shorter.take(k) =~= path.take(k));
            assert(breaks_at(ns, path, k));
        } else {
            assert(path.take(path.len() - 1) =~= shorter);
            assert(breaks_at(ns, path, path.len() - 1));
        }
    }
    if exists|k: int| breaks_at(ns, path, k) {
        let k = choose|k: int| breaks_at(ns, path, k);
        if ns.find_namespace(path) is Some {
            lemma_find_namespace_prefix(ns, path, k + 1);
            assert(path.take(k + 1) =~= path.take(k).push(path[k]));
            lemma_find_namespace_push(ns, path.take(k), path[k]);
        }
    }
}

} // verus!
