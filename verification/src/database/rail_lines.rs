//! Rail lines of the network.

use vstd::prelude::*;

verus! {

/// A rail line: its name and the color it is drawn in.
#[derive(Clone, Debug, PartialEq, Eq)]
pub struct Model {
    /// What the line is called.
    pub name: String,
    /// The red part of its color.
    pub red: i16,
    /// The green part of its color.
    pub green: i16,
    /// The blue part of its color.
    pub blue: i16,
}

} // verus!
