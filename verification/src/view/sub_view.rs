//! Views of a whole model and of a part of it.
use crate::model::builder::Model;
use crate::model::namespace;
use crate::view::namespace::Namespace;
use crate::view::transform::Transforms;
use vstd::prelude::*;

verus! {

/// A view into the model that starts at one namespace and has transforms
/// of its own.
pub struct SubView<'a> {
    namespace: &'a namespace::Namespace,
    xforms: Transforms,
}

impl<'a> SubView<'a> {
    /// The namespace that the view starts at.
    pub closed spec fn target(&self) -> &'a namespace::Namespace {
        self.namespace
    }

    /// The transforms that the view applies.
    pub closed spec fn transforms(&self) -> Transforms {
        self.xforms
    }

    /// The view that starts at `namespace` and applies `xforms`.
    pub fn new(namespace: &'a namespace::Namespace, xforms: Transforms) -> (r: Self)
        ensures
            r.target() == namespace,
            r.transforms() == xforms,
    {
        Self { namespace, xforms }
    }

    /// The namespace that the view starts at, seen through the view.
    pub fn namespace<'v>(&'v self) -> (r: Namespace<'v>)
        ensures
            r.target() == self.target(),
            *r.xforms() == self.transforms(),
    {
        Namespace::new(self.namespace, &self.xforms)
    }

    /// The transforms, to add to.
    pub fn xforms(&mut self) -> (r: &mut Transforms)
        ensures
            *r == old(self).transforms(),
            final(self).transforms() == *final(r),
            final(self).target() == old(self).target(),
    {
        &mut self.xforms
    }
}

/// A view of a whole model.
pub struct ModelView<'a> {
    model: &'a Model,
    xforms: Transforms,
}

impl<'a> ModelView<'a> {
    /// The model that the view shows.
    pub closed spec fn target(&self) -> &'a Model {
        self.model
    }

    /// The transforms that the view applies.
    pub closed spec fn transforms(&self) -> Transforms {
        self.xforms
    }

    /// The view that shows `model` through `xforms`.
    pub fn new(model: &'a Model, xforms: Transforms) -> (r: Self)
        ensures
            r.target() == model,
            r.transforms() == xforms,
    {
        Self { model, xforms }
    }

    /// The transforms, to add to.
    pub fn xforms(&mut self) -> (r: &mut Transforms)
        ensures
            *r == old(self).transforms(),
            final(self).transforms() == *final(r),
            final(self).target() == old(self).target(),
    {
        &mut self.xforms
    }

    /// The root namespace, seen through the view.
    pub fn api<'v>(&'v self) -> (r: Namespace<'v>)
        ensures
            r.target()@ == self.target()@,
            *r.xforms() == self.transforms(),
    {
        Namespace::new(self.model.api(), &self.xforms)
    }
}

} // verus!
