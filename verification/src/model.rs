//! The API model: entities, the namespace tree and the builder that grows it.
pub mod builder;
pub mod entity;
pub mod entity_id;
pub mod namespace;

pub use crate::model::builder::{Builder, Chunk, Model};
pub use crate::model::entity::{Attributes, Dto, Enum, EnumValue, Field, Rpc, Type};
pub use crate::model::entity_id::EntityId;
pub use crate::model::namespace::{
    Api, ChildKind, Namespace, NamespaceChild, UNDEFINED_NAMESPACE,
};
