//! What the caller configures of the grammar.
use vstd::prelude::*;

verus! {

/// A type that the caller adds to the grammar: where the text `parse`
/// stands for a type, the type is the user-defined one called `name`.
#[derive(Debug, Clone, PartialEq, Eq)]
pub struct UserType {
    pub parse: String,
    pub name: String,
}

/// Mathematical value of a [`UserType`].
pub struct UserTypeView {
    pub parse: Seq<char>,
    pub name: Seq<char>,
}

impl View for UserType {
    type V = UserTypeView;

    open spec fn view(&self) -> UserTypeView {
        UserTypeView { parse: self.parse@, name: self.name@ }
    }
}

/// What the caller configures of the grammar. The user types are tried in
/// the order given, and the first that matches wins.
#[derive(Debug, Clone, PartialEq, Eq)]
pub struct Config {
    pub user_types: Vec<UserType>,
}

impl View for Config {
    type V = Seq<UserTypeView>;

    open spec fn view(&self) -> Seq<UserTypeView> {
        Seq::new(self.user_types@.len(), |i: int| self.user_types@[i]@)
    }
}

impl Default for Config {
    /// The configuration without user types.
    fn default() -> (r: Config)
        ensures
            r@.len() == 0,
    {
        Config { user_types: Vec::new() }
    }
}

} // verus!
