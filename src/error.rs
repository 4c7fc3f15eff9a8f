use vstd::prelude::*;

verus! {

/// A place in the source text: a 1-based line and a column.
#[derive(Clone, Copy, Debug, PartialEq, Eq)]
pub struct Position {
    pub line: i32,
    pub column: i32,
}

/// A diagnostic: where it was found and what kind it is.
#[derive(Clone, Copy, Debug, PartialEq, Eq)]
pub struct Error<T> {
    pub position: Position,
    pub kind: T,
}

/// Text that describes a diagnostic to a person.
pub trait Info {
    /// What went wrong.
    fn get_message(&self) -> &'static str;

    /// What to do about it.
    fn get_suggestion(&self) -> &'static str;
}

} // verus!
