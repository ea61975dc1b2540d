//! Views of a model: the model as it is, shown through transforms that
//! rename entities or leave some out. A view changes nothing in the model.
pub mod attributes;
pub mod entity;
pub mod namespace;
pub mod sub_view;
pub mod transform;

pub use crate::view::attributes::{AttributeTransform, Attributes};
pub use crate::view::entity::{Dto, Enum, Rpc};
pub use crate::view::namespace::{Namespace, NamespaceChild};
pub use crate::view::sub_view::{ModelView, SubView};
pub use crate::view::transform::{NamespaceTransform, Transforms};
