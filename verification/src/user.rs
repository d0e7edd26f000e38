//! The participant identity the game plays under.

use vstd::prelude::*;

verus! {

#[derive(Clone, Debug, PartialEq)]
pub struct User {
    pub name: String,
    pub school: String,
    pub school_id: u128,
}

/// Relies on uuid's `Uuid::new_v4` and `Uuid::as_u128`: a freshly drawn
/// random 128-bit identifier. Nothing is assumed of its value.
#[verifier::external_body]
fn fresh_school_id() -> (r: u128)
{
    uuid::Uuid::new_v4().as_u128()
}

impl User {
    /// A throwaway identity for development play.
    pub fn new_dummy() -> (u: User)
        ensures
            u.name@ == "Dummy"@,
            u.school@ == "Donald Duck University"@,
    {
        User {
            name: String::from_str("Dummy"),
            school: String::from_str("Donald Duck University"),
            school_id: fresh_school_id(),
        }
    }
}

} // verus!
