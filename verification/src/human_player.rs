//! The human side of a match: a named participant holding the claim symbol
//! assigned at setup. The blocking input loop that turns typed coordinates
//! into moves lives with the front end; it re-validates its move against
//! the rules engine before applying it.

use vstd::prelude::*;

use crate::board::Field;

verus! {

/// A human participant: display name and assigned claim symbol.
pub struct HumanPlayer {
    pub name: String,
    pub symbol: Field,
}

impl HumanPlayer {
    pub fn new(name: String) -> (r: Self)
        ensures
            r.name == name,
            r.symbol == Field::Empty,
    {
        HumanPlayer { name, symbol: Field::Empty }
    }
}

} // verus!
