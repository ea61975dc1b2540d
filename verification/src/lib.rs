//! Front end of an interface-definition toolchain: a grammar for API
//! declarations and a builder that folds the declarations of many chunks into
//! one namespace tree.
pub mod generator;
pub mod input;
pub mod model;
pub mod output;
pub mod parser;
pub mod text;
pub mod view;

pub use crate::generator::Generator;
pub use crate::output::Output;
pub use crate::parser::Parser;
