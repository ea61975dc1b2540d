//! Attributes, seen through a view.
use crate::model::entity;
use vstd::prelude::*;

verus! {

/// A change that a view makes to what it shows of attributes.
pub trait AttributeTransform {

}

/// The attributes of an entity, seen through a view.
#[derive(Clone, Copy)]
pub struct Attributes<'v> {
    target: &'v entity::Attributes,
    xforms: &'v Vec<Box<dyn AttributeTransform>>,
}

impl<'v> Attributes<'v> {
    /// The view of `target` through `xforms`.
    pub fn new(target: &'v entity::Attributes, xforms: &'v Vec<Box<dyn AttributeTransform>>) -> (r:
        Self)
        ensures
            r.target() == target,
            r.xforms() == xforms,
    {
        Self { target, xforms }
    }

    /// The attributes that the view shows.
    pub closed spec fn target(&self) -> &'v entity::Attributes {
        self.target
    }

    /// The transforms that the view applies.
    pub closed spec fn xforms(&self) -> &'v Vec<Box<dyn AttributeTransform>> {
        self.xforms
    }
}

} // verus!
