//! Column type aliases of the entity layer.
//!
//! Entities declare their fields with these aliases; the schema deriver
//! maps each to an SQL column type. Booleans are stored as integers — `1`
//! for true, `0` for false — matching what the value codec emits, and
//! dates travel as text.

use vstd::prelude::*;

verus! {

/// An integer column.
pub type Integer = i32;

/// A text column.
pub type Text = String;

/// A date column, carried as text.
pub type Date = String;

/// A date-time column, carried as text.
pub type DateTime = String;

/// A boolean column, stored as the integer `1` or `0`.
pub type Boolean = i32;

/// The canonical stored form of true.
pub trait True {
    /// The integer a true boolean is stored as.
    fn true_value() -> (r: i32)
        ensures
            r == 1,
    ;
}

/// The canonical stored form of false.
pub trait False {
    /// The integer a false boolean is stored as.
    fn false_value() -> (r: i32)
        ensures
            r == 0,
    ;
}

/// Reading a stored boolean back.
pub trait IsTrue {
    /// Whether the stored integer stands for true.
    fn is_true(&self) -> bool;
}

impl True for Boolean {
    fn true_value() -> (r: i32) {
        1
    }
}

impl False for Boolean {
    fn false_value() -> (r: i32) {
        0
    }
}

impl IsTrue for Boolean {
    fn is_true(&self) -> (r: bool)
        ensures
            r == (*self == 1),
    {
        *self == 1
    }
}

} // verus!
