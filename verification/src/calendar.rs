//! The days of the week.

use vstd::prelude::*;

verus! {

/// A day of the week.
#[derive(Clone, Copy, Debug, PartialEq, Eq, Structural)]
pub enum Day {
    Monday,
    Tuesday,
    Wednesday,
    Thursday,
    Friday,
    Saturday,
    Sunday,
}

impl Day {
    /// Whether the day is a Saturday or a Sunday.
    pub fn is_weekend(&self) -> (weekend: bool)
        ensures
            weekend == (*self == Day::Saturday || *self == Day::Sunday),
    {
        match self {
            Day::Saturday | Day::Sunday => true,
            _ => false,
        }
    }
}

} // verus!
