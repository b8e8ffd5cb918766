//! Links between users and the stations they are subscribed to.

use vstd::prelude::*;

verus! {

/// A link: a user is subscribed to a station. A link is its own key.
#[derive(Clone, Copy, Debug, PartialEq, Eq, Structural)]
pub struct Model {
    /// The key of the user.
    pub user_id: i32,
    /// The key of the station.
    pub station_id: i32,
}

} // verus!
