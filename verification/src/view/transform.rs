//! The transforms that a view applies.
use crate::model::entity::{Dto, Enum, Rpc};
use crate::model::namespace::Namespace;
use crate::view::attributes::AttributeTransform;
use vstd::prelude::*;

verus! {

/// A change that a view makes to what it shows of namespaces and their
/// children: another name for a namespace, or entities left out. Nothing
/// is asked of an implementation: what the view then shows is stated for
/// every answer that it may give.
pub trait NamespaceTransform {
    /// Changes `name` to the name to show.
    fn name(&self, name: &mut String) {
    }

    /// `true`: included. `false`: excluded. A transform that does not
    /// say otherwise includes everything.
    fn filter_namespace(&self, ns: &Namespace) -> (r: bool)
        default_ensures
            r,
    {
        true
    }

    /// `true`: included. `false`: excluded. A transform that does not
    /// say otherwise includes everything.
    fn filter_dto(&self, dto: &Dto) -> (r: bool)
        default_ensures
            r,
    {
        true
    }

    /// `true`: included. `false`: excluded. A transform that does not
    /// say otherwise includes everything.
    fn filter_rpc(&self, rpc: &Rpc) -> (r: bool)
        default_ensures
            r,
    {
        true
    }

    /// `true`: included. `false`: excluded. A transform that does not
    /// say otherwise includes everything.
    fn filter_enum(&self, en: &Enum) -> (r: bool)
        default_ensures
            r,
    {
        true
    }
}

/// Whether an entity is still kept after one more transform has
/// answered: it is kept as long as every transform asked has said yes.
pub fn still_kept(kept: bool, answer: bool) -> (r: bool)
    ensures
        r == (kept && answer),
{
    kept && answer
}

/// The transforms of a view, each kind in the order in which they apply.
pub struct Transforms {
    pub namespace: Vec<Box<dyn NamespaceTransform>>,
    pub attr: Vec<Box<dyn AttributeTransform>>,
}

impl Default for Transforms {
    /// No transforms: the view shows the model as it is.
    fn default() -> (r: Transforms)
        ensures
            r.is_plain(),
            r.attr@.len() == 0,
    {
        Transforms { namespace: Vec::new(), attr: Vec::new() }
    }
}

impl Transforms {
    /// Whether no transform renames or hides anything of namespaces and
    /// their children.
    pub open spec fn is_plain(&self) -> bool {
        self.namespace@.len() == 0
    }

    /// Hands `name` to every transform, in their order, and gives what
    /// they made of it. Without transforms the name stays as it is.
    pub fn rename(&self, name: &String) -> (r: String)
        ensures
            self.is_plain() ==> r@ == name@,
    {
        let mut out = name.clone();
        let mut i: usize = 0;
        while i < self.namespace.len()
            invariant
                i <= self.namespace@.len(),
                self.is_plain() ==> out@ == name@,
            decreases self.namespace@.len() - i,
        {
            self.namespace[i].name(&mut out);
            i += 1;
        }
        out
    }

    /// Asks the transforms, in their order, whether they keep this
    /// namespace, up to the first that does not, and hands each answer to
    /// `still_kept`. Without transforms the namespace is kept.
    pub fn filter_namespace(&self, ns: &Namespace) -> (r: bool)
        ensures
            self.is_plain() ==> r,
    {
        let mut kept = true;
        let mut i: usize = 0;
        while kept && i < self.namespace.len()
            invariant
                i <= self.namespace@.len(),
                self.is_plain() ==> kept,
            decreases self.namespace@.len() - i,
        {
            kept = still_kept(kept, self.namespace[i].filter_namespace(ns));
            i += 1;
        }
        kept
    }

    /// Asks the transforms, in their order, whether they keep this record,
    /// up to the first that does not, and hands each answer to
    /// `still_kept`. Without transforms the record is kept.
    pub fn filter_dto(&self, dto: &Dto) -> (r: bool)
        ensures
            self.is_plain() ==> r,
    {
        let mut kept = true;
        let mut i: usize = 0;
        while kept && i < self.namespace.len()
            invariant
                i <= self.namespace@.len(),
                self.is_plain() ==> kept,
            decreases self.namespace@.len() - i,
        {
            kept = still_kept(kept, self.namespace[i].filter_dto(dto));
            i += 1;
        }
        kept
    }

    /// Asks the transforms, in their order, whether they keep this
    /// procedure, up to the first that does not, and hands each answer to
    /// `still_kept`. Without transforms the procedure is kept.
    pub fn filter_rpc(&self, rpc: &Rpc) -> (r: bool)
        ensures
            self.is_plain() ==> r,
    {
        let mut kept = true;
        let mut i: usize = 0;
        while kept && i < self.namespace.len()
            invariant
                i <= self.namespace@.len(),
                self.is_plain() ==> kept,
            decreases self.namespace@.len() - i,
        {
            kept = still_kept(kept, self.namespace[i].filter_rpc(rpc));
            i += 1;
        }
        kept
    }

    /// Asks the transforms, in their order, whether they keep this
    /// enumeration, up to the first that does not, and hands each answer to
    /// `still_kept`. Without transforms the enumeration is kept.
    pub fn filter_enum(&self, en: &Enum) -> (r: bool)
        ensures
            self.is_plain() ==> r,
    {
        let mut kept = true;
        let mut i: usize = 0;
        while kept && i < self.namespace.len()
            invariant
                i <= self.namespace@.len(),
                self.is_plain() ==> kept,
            decreases self.namespace@.len() - i,
        {
            kept = still_kept(kept, self.namespace[i].filter_enum(en));
            i += 1;
        }
        kept
    }
}

} // verus!
