use vstd::prelude::*;

verus! {

/// The display name a client registers under. Two identities are the same
/// exactly when their names are the same string.
#[derive(Debug, Eq, PartialOrd, Ord)]
pub struct User {
    pub name: String,
}

impl User {
    pub fn new(name: &str) -> (u: User)
        ensures
            u.name@ == name@,
    {
        User { name: name.to_owned() }
    }

    /// The identity as it is shown to people: the bare name.
    pub fn display(&self) -> (s: String)
        ensures
            s@ == self.name@,
    {
        self.name.clone()
    }
}

impl Clone for User {
    fn clone(&self) -> (u: User)
        ensures
            u.name@ == self.name@,
    {
        User { name: self.name.clone() }
    }
}

impl PartialEq for User {
    fn eq(&self, other: &User) -> (r: bool)
        ensures
            r == (self.name@ == other.name@),
    {
        self.name == other.name
    }
}

impl vstd::std_specs::cmp::PartialEqSpecImpl for User {
    open spec fn obeys_eq_spec() -> bool {
        true
    }

    open spec fn eq_spec(&self, other: &User) -> bool {
        self.name@ == other.name@
    }
}

} // verus!
