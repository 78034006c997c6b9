//! The contact service offered to remote clients.

use vstd::prelude::*;

verus! {

/// A contact of a user.
pub struct Contact {
    name: String,
}

impl Contact {
    /// A contact named `name`.
    pub fn new(name: String) -> (res: Self)
        ensures
            res.name_spec() == name@,
    {
        Contact { name }
    }

    /// The contact's name.
    pub closed spec fn name_spec(&self) -> Seq<char> {
        self.name@
    }

    /// The contact's name.
    pub fn name(&self) -> (res: &String)
        ensures
            res@ == self.name_spec(),
    {
        &self.name
    }
}

/// The calls that the contact service answers.
pub trait Contacts {
    /// A test call: a number in, a number or an error message out.
    fn test(&self, i: u32) -> Result<u32, String>;
}

} // verus!
