//! Writers of a model in some form.
use crate::model::namespace::{Api, Namespace, NamespaceView};
use crate::output::{Output, OutputError};
use vstd::prelude::*;

verus! {

/// Something that writes an API to an output in a form of its own.
pub trait Generator {
    fn generate(&mut self, api: &Api, output: &mut dyn Output) -> (r: Result<(), OutputError>);
}

/// What the pretty `Debug` form of a namespace reads, with a line feed
/// after it.
pub uninterp spec fn debug_text(api: NamespaceView) -> Seq<char>;

/// Formats `api` with `format!` and the pretty `Debug` form, `{:#?}`, and
/// a line feed. The text is a function of the namespace's value; nothing
/// more is claimed of it.
#[verifier::external_body]
fn debug_string(api: &Namespace) -> (r: String)
    ensures
        r@ == debug_text(api@),
{
    format!("{:#?}\n", api)
}

/// A generator that writes the model out in a readable form, for people
/// who look for a fault.
#[derive(Debug, Clone, Copy)]
pub struct Dbg {}

impl Default for Dbg {
    fn default() -> (r: Dbg) {
        Dbg {  }
    }
}

impl Generator for Dbg {
    /// Hands the pretty `Debug` form of `api` to the output, and nothing
    /// else, and says what the output answered: the text is written where
    /// the output took it.
    fn generate(&mut self, api: &Api, output: &mut dyn Output) -> (r: Result<(), OutputError>)
        ensures
            old(output).answers(debug_text(api@), r is Ok),
            r is Ok ==> final(output).written() == old(output).written() + debug_text(api@),
    {
        let text = debug_string(api);
        output.write_str(text.as_str())
    }
}

} // verus!
