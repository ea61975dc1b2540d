//! Records, procedures and enumerations, seen through a view.
use crate::model::entity;
use crate::view::attributes::Attributes;
use crate::view::transform::Transforms;
use vstd::prelude::*;

verus! {

/// A record, seen through a view.
#[derive(Clone, Copy)]
pub struct Dto<'v> {
    target: &'v entity::Dto,
    xforms: &'v Transforms,
}

impl<'v> Dto<'v> {
    /// The record that the view shows.
    pub closed spec fn target(&self) -> &'v entity::Dto {
        self.target
    }

    /// The transforms that the view applies.
    pub closed spec fn xforms(&self) -> &'v Transforms {
        self.xforms
    }

    /// The view of `target` through `xforms`.
    pub fn new(target: &'v entity::Dto, xforms: &'v Transforms) -> (r: Self)
        ensures
            r.target() == target,
            r.xforms() == xforms,
    {
        Self { target, xforms }
    }

    /// The record itself.
    pub fn model(&self) -> (r: &'v entity::Dto)
        ensures
            r == self.target(),
    {
        self.target
    }

    /// The record's name.
    pub fn name(&self) -> (r: String)
        ensures
            r@ == self.target()@.name,
    {
        self.target.name.clone()
    }

    /// The record's attributes, seen through the view.
    pub fn attributes(&self) -> (r: Attributes<'v>)
        ensures
            *r.target() == self.target().attributes,
            *r.xforms() == self.xforms().attr,
    {
        Attributes::new(&self.target.attributes, &self.xforms.attr)
    }
}

/// A procedure, seen through a view.
#[derive(Clone, Copy)]
pub struct Rpc<'v> {
    target: &'v entity::Rpc,
    xforms: &'v Transforms,
}

impl<'v> Rpc<'v> {
    /// The procedure that the view shows.
    pub closed spec fn target(&self) -> &'v entity::Rpc {
        self.target
    }

    /// The transforms that the view applies.
    pub closed spec fn xforms(&self) -> &'v Transforms {
        self.xforms
    }

    /// The view of `target` through `xforms`.
    pub fn new(target: &'v entity::Rpc, xforms: &'v Transforms) -> (r: Self)
        ensures
            r.target() == target,
            r.xforms() == xforms,
    {
        Self { target, xforms }
    }

    /// The procedure itself.
    pub fn model(&self) -> (r: &'v entity::Rpc)
        ensures
            r == self.target(),
    {
        self.target
    }

    /// The procedure's name.
    pub fn name(&self) -> (r: String)
        ensures
            r@ == self.target()@.name,
    {
        self.target.name.clone()
    }

    /// The procedure's attributes, seen through the view.
    pub fn attributes(&self) -> (r: Attributes<'v>)
        ensures
            *r.target() == self.target().attributes,
            *r.xforms() == self.xforms().attr,
    {
        Attributes::new(&self.target.attributes, &self.xforms.attr)
    }
}

/// An enumeration, seen through a view.
#[derive(Clone, Copy)]
pub struct Enum<'v> {
    target: &'v entity::Enum,
    xforms: &'v Transforms,
}

impl<'v> Enum<'v> {
    /// The enumeration that the view shows.
    pub closed spec fn target(&self) -> &'v entity::Enum {
        self.target
    }

    /// The transforms that the view applies.
    pub closed spec fn xforms(&self) -> &'v Transforms {
        self.xforms
    }

    /// The view of `target` through `xforms`.
    pub fn new(target: &'v entity::Enum, xforms: &'v Transforms) -> (r: Self)
        ensures
            r.target() == target,
            r.xforms() == xforms,
    {
        Self { target, xforms }
    }

    /// The enumeration itself.
    pub fn model(&self) -> (r: &'v entity::Enum)
        ensures
            r == self.target(),
    {
        self.target
    }

    /// The enumeration's name.
    pub fn name(&self) -> (r: String)
        ensures
            r@ == self.target()@.name,
    {
        self.target.name.clone()
    }

    /// The enumeration's attributes, seen through the view.
    pub fn attributes(&self) -> (r: Attributes<'v>)
        ensures
            *r.target() == self.target().attributes,
            *r.xforms() == self.xforms().attr,
    {
        Attributes::new(&self.target.attributes, &self.xforms.attr)
    }
}

} // verus!
