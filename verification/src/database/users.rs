//! Users of the service.

use vstd::prelude::*;

verus! {

/// A user: their key and their email address.
#[derive(Clone, Debug, PartialEq, Eq)]
pub struct Model {
    /// The key of the user.
    pub id: i32,
    /// Where the user is written to.
    pub email: String,
}

/// What a user's row says.
pub struct Row {
    /// The key of the user.
    pub id: i32,
    /// Where the user is written to.
    pub email: Seq<char>,
}

impl View for Model {
    type V = Row;

    open spec fn view(&self) -> Row {
        Row { id: self.id, email: self.email@ }
    }
}

/// A row has the key and the email address of the user and nothing else.
pub proof fn law_row_has_key_and_email(user: Model)
    ensures
        user@.id == user.id,
        user@.email == user.email@,
{
}

} // verus!
