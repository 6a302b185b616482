//! The identity of one client connection.

use vstd::prelude::*;
use vstd::std_specs::cmp::PartialEqSpecImpl;

verus! {

/// A client, known by the name of its connection.
///
/// The broker uses a user only as a key: two users are the same client exactly
/// when their names are equal.
#[derive(Debug)]
pub struct User {
    pub name: String,
}

impl View for User {
    type V = Seq<char>;

    open spec fn view(&self) -> Seq<char> {
        self.name@
    }
}

impl User {
    /// The user whose connection goes by `name`.
    pub fn new(name: &str) -> (user: User)
        ensures
            user@ == name@,
    {
        User { name: name.to_owned() }
    }

    /// The name this user was made with.
    pub fn name(&self) -> (name: &str)
        ensures
            name@ == self@,
    {
        self.name.as_str()
    }
}

impl Clone for User {
    fn clone(&self) -> (copy: User)
        ensures
            copy@ == self@,
    {
        User { name: self.name.clone() }
    }
}

impl PartialEq for User {
    fn eq(&self, other: &User) -> (same: bool) {
        self.name == other.name
    }
}

impl Eq for User {
}

impl PartialEqSpecImpl for User {
    open spec fn obeys_eq_spec() -> bool {
        true
    }

    open spec fn eq_spec(&self, other: &User) -> bool {
        self.name@ == other.name@
    }
}

} // verus!
